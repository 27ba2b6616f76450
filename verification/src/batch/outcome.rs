use crate::batch::model::{BatchView, TargetPhase};
use crate::error::Error;
use crate::exec_error::ExecError;
use crate::query_error::QueryError;
use crate::query_result::QueryResult;
use crate::query_target::QueryTarget;
use vstd::prelude::*;

verus! {

/// The outputs of the query targets that succeeded, each with the number of
/// its query target, in the order of the query targets.
pub open spec fn outputs_of<O, E>(targets: Seq<TargetPhase<O, E>>) -> Seq<(usize, O)>
    decreases targets.len(),
{
    if targets.len() == 0 {
        seq![]
    } else {
        let before = outputs_of(targets.drop_last());
        match targets.last() {
            TargetPhase::Succeeded(output) => before.push(((targets.len() - 1) as usize, output)),
            _ => before,
        }
    }
}

/// The errors of the query targets that failed, each with the number of its
/// query target, in the order of the query targets.
pub open spec fn errors_of<O, E>(targets: Seq<TargetPhase<O, E>>) -> Seq<(usize, ExecError<E>)>
    decreases targets.len(),
{
    if targets.len() == 0 {
        seq![]
    } else {
        let before = errors_of(targets.drop_last());
        match targets.last() {
            TargetPhase::Failed(error) => before.push(((targets.len() - 1) as usize, error)),
            _ => before,
        }
    }
}

/// Among the errors, those of disconnecting a pool after the operation had
/// failed, each with the number of its query target, in the same order.
pub open spec fn disconnect_errors_in<E>(failures: Seq<(usize, ExecError<E>)>) -> Seq<
    (usize, Error),
>
    decreases failures.len(),
{
    if failures.len() == 0 {
        seq![]
    } else {
        let before = disconnect_errors_in(failures.drop_last());
        match failures.last().1.disconnect_failure() {
            Some(disconnect) => before.push((failures.last().0, disconnect)),
            None => before,
        }
    }
}

/// Whether `target` stands in `entries`, and where.
pub open spec fn stands_at<X>(entries: Seq<(usize, X)>, target: int, at: int) -> bool {
    0 <= at < entries.len() && entries[at].0 == target
}

/// Whether `target` stands in `entries`.
pub open spec fn stands_in<X>(entries: Seq<(usize, X)>, target: int) -> bool {
    exists|at: int| stands_at(entries, target, at)
}

/// Each output belongs to a query target that succeeded with it, the outputs
/// come in the order of the query targets, and every query target that
/// succeeded has its output among them.
pub proof fn lemma_outputs_of<O, E>(targets: Seq<TargetPhase<O, E>>)
    requires
        targets.len() <= usize::MAX,
    ensures
        outputs_of(targets).len() <= targets.len(),
        forall|p: int|
            0 <= p < outputs_of(targets).len() ==> (#[trigger] outputs_of(targets)[p]).0
                < targets.len() && targets[outputs_of(targets)[p].0 as int]
                == TargetPhase::<O, E>::Succeeded(outputs_of(targets)[p].1),
        forall|p: int, q: int|
            0 <= p < q < outputs_of(targets).len() ==> (#[trigger] outputs_of(targets)[p]).0 < (
            #[trigger] outputs_of(targets)[q]).0,
        forall|t: int|
            0 <= t < targets.len() && (#[trigger] targets[t]) is Succeeded ==> exists|p: int|
                stands_at(outputs_of(targets), t, p),
    decreases targets.len(),
{
    if targets.len() > 0 {
        let before = targets.drop_last();
        lemma_outputs_of(before);
        let outputs = outputs_of(targets);
        assert forall|t: int|
            0 <= t < targets.len() && (#[trigger] targets[t]) is Succeeded implies exists|p: int|
            stands_at(outputs, t, p) by {
            if t < targets.len() - 1 {
                assert(before[t] is Succeeded);
                let p = choose|p: int| stands_at(outputs_of(before), t, p);
                assert(stands_at(outputs, t, p));
            } else {
                assert(stands_at(outputs, t, outputs.len() - 1));
            }
        }
    }
}

/// Each error belongs to a query target that failed with it, the errors come
/// in the order of the query targets, and every query target that failed has
/// its error among them.
pub proof fn lemma_errors_of<O, E>(targets: Seq<TargetPhase<O, E>>)
    requires
        targets.len() <= usize::MAX,
    ensures
        errors_of(targets).len() <= targets.len(),
        forall|p: int|
            0 <= p < errors_of(targets).len() ==> (#[trigger] errors_of(targets)[p]).0
                < targets.len() && targets[errors_of(targets)[p].0 as int]
                == TargetPhase::<O, E>::Failed(errors_of(targets)[p].1),
        forall|p: int, q: int|
            0 <= p < q < errors_of(targets).len() ==> (#[trigger] errors_of(targets)[p]).0 < (
            #[trigger] errors_of(targets)[q]).0,
        forall|t: int|
            0 <= t < targets.len() && (#[trigger] targets[t]) is Failed ==> exists|p: int|
                stands_at(errors_of(targets), t, p),
    decreases targets.len(),
{
    if targets.len() > 0 {
        let before = targets.drop_last();
        lemma_errors_of(before);
        let errors = errors_of(targets);
        assert forall|t: int|
            0 <= t < targets.len() && (#[trigger] targets[t]) is Failed implies exists|p: int|
            stands_at(errors, t, p) by {
            if t < targets.len() - 1 {
                assert(before[t] is Failed);
                let p = choose|p: int| stands_at(errors_of(before), t, p);
                assert(stands_at(errors, t, p));
            } else {
                assert(stands_at(errors, t, errors.len() - 1));
            }
        }
    }
}

/// Where every query target is done, each one has either an output or an
/// error.
pub proof fn lemma_outcome_count<O, E>(targets: Seq<TargetPhase<O, E>>)
    requires
        forall|t: int| 0 <= t < targets.len() ==> (#[trigger] targets[t]).is_done(),
    ensures
        outputs_of(targets).len() + errors_of(targets).len() == targets.len(),
    decreases targets.len(),
{
    if targets.len() > 0 {
        let before = targets.drop_last();
        assert forall|t: int| 0 <= t < before.len() implies (#[trigger] before[t]).is_done() by {
            assert(targets[t].is_done());
        }
        lemma_outcome_count(before);
    }
}

/// Where the query targets from `start` up to `end` had not failed and now
/// all have, and the others are as they were, there are as many errors more
/// as there are query targets from `start` up to `end`.
pub proof fn lemma_errors_added<O, E>(
    before: Seq<TargetPhase<O, E>>,
    after: Seq<TargetPhase<O, E>>,
    start: int,
    end: int,
)
    requires
        before.len() == after.len(),
        0 <= start <= end <= before.len(),
        forall|t: int|
            0 <= t < before.len() ==> if start <= t < end {
                !((#[trigger] before[t]) is Failed) && after[t] is Failed
            } else {
                after[t] == before[t]
            },
    ensures
        errors_of(after).len() == errors_of(before).len() + (end - start),
    decreases before.len(),
{
    if before.len() > 0 {
        let last = before.len() - 1;
        let new_end = if end <= last {
            end
        } else {
            last
        };
        let new_start = if start <= last {
            start
        } else {
            last
        };
        assert forall|t: int| 0 <= t < before.drop_last().len() implies if new_start <= t < new_end {
            !((#[trigger] before.drop_last()[t]) is Failed) && after.drop_last()[t] is Failed
        } else {
            after.drop_last()[t] == before.drop_last()[t]
        } by {
            assert(before.drop_last()[t] == before[t]);
            assert(after.drop_last()[t] == after[t]);
        }
        lemma_errors_added(before.drop_last(), after.drop_last(), new_start, new_end);
    }
}

/// Whether `results` are the outputs of the batch, each under the name of its
/// query target.
pub open spec fn tagged_results<'a, S, T>(
    batch: BatchView<'a, S, QueryResult<T>, Error>,
    results: Seq<QueryResult<T>>,
) -> bool {
    let outputs = outputs_of(batch.targets);
    &&& results.len() == outputs.len()
    &&& forall|p: int|
        0 <= p < results.len() ==> (#[trigger] results[p]).name@
            == batch.query_targets[outputs[p].0 as int].name@ && results[p].result_sets
            == outputs[p].1.result_sets
}

/// Whether `errors` are the errors of the batch, each under the name of its
/// query target.
pub open spec fn tagged_errors<'a, S, T>(
    batch: BatchView<'a, S, QueryResult<T>, Error>,
    errors: Seq<QueryError>,
) -> bool {
    let failures = errors_of(batch.targets);
    &&& errors.len() == failures.len()
    &&& forall|p: int|
        0 <= p < errors.len() ==> (#[trigger] errors[p]).name@
            == batch.query_targets[failures[p].0 as int].name@ && errors[p].error
            == failures[p].1.flat()
}

/// Whether `disconnect_errors` are the errors of disconnecting a pool after
/// the statement had failed, each under the name of its query target.
pub open spec fn tagged_disconnect_errors<'a, S, T>(
    batch: BatchView<'a, S, QueryResult<T>, Error>,
    disconnect_errors: Seq<QueryError>,
) -> bool {
    let leaks = disconnect_errors_in(errors_of(batch.targets));
    &&& disconnect_errors.len() == leaks.len()
    &&& forall|p: int|
        0 <= p < disconnect_errors.len() ==> (#[trigger] disconnect_errors[p]).name@
            == batch.query_targets[leaks[p].0 as int].name@ && disconnect_errors[p].error
            == leaks[p].1
}

/// The names of the query targets.
pub open spec fn target_names<'a>(query_targets: Seq<QueryTarget<'a>>) -> Set<Seq<char>> {
    Set::new(
        |name: Seq<char>|
            exists|t: int| 0 <= t < query_targets.len() && (#[trigger] query_targets[t]).name@ == name,
    )
}

/// The names that the results stand under.
pub open spec fn result_names<T>(results: Seq<QueryResult<T>>) -> Set<Seq<char>> {
    Set::new(
        |name: Seq<char>|
            exists|p: int| 0 <= p < results.len() && (#[trigger] results[p]).name@ == name,
    )
}

/// The names that the errors stand under.
pub open spec fn error_names(errors: Seq<QueryError>) -> Set<Seq<char>> {
    Set::new(
        |name: Seq<char>|
            exists|p: int| 0 <= p < errors.len() && (#[trigger] errors[p]).name@ == name,
    )
}

/// Whether no two query targets have the same name.
pub open spec fn names_differ<'a>(query_targets: Seq<QueryTarget<'a>>) -> bool {
    forall|s: int, t: int|
        0 <= s < t < query_targets.len() ==> (#[trigger] query_targets[s]).name@ != (
        #[trigger] query_targets[t]).name@
}

} // verus!
