use crate::batch::laws::lemma_complete_all_done;
use crate::batch::model::{BatchAction, BatchEvent, BatchView, TargetPhase};
use crate::batch::plan::lemma_chunk_within;
use crate::batch::outcome::{
    errors_of, lemma_errors_of, lemma_outcome_count, lemma_outputs_of, outputs_of, stands_at,
    stands_in, tagged_errors, tagged_results,
};
use crate::error::Error;
use crate::exec_error::ExecError;
use crate::query_error::QueryError;
use crate::query_result::QueryResult;
use vstd::prelude::*;

verus! {

/// Whether the event leads from the state before it to the state after it.
pub open spec fn step_at<'a, S, O, E>(
    states: Seq<BatchView<'a, S, O, E>>,
    events: Seq<BatchEvent<S, O, E>>,
    actions: Seq<Seq<BatchAction<S>>>,
    at: int,
) -> bool {
    states[at].steps(events[at], states[at + 1], actions[at])
}

/// Whether the states are those of a batch from its start on, each event
/// leading from one to the next.
pub open spec fn is_run<'a, S, O, E>(
    states: Seq<BatchView<'a, S, O, E>>,
    events: Seq<BatchEvent<S, O, E>>,
    actions: Seq<Seq<BatchAction<S>>>,
) -> bool {
    &&& states.len() == events.len() + 1
    &&& actions.len() == events.len()
    &&& states[0].wf()
    &&& states[0].is_initial()
    &&& forall|i: int| 0 <= i < events.len() ==> #[trigger] step_at(states, events, actions, i)
}

/// Whether each query target has come no further than it may: it runs, has
/// an output or has an error only where it may.
pub open spec fn confined<'a, S, O, E>(
    batch: BatchView<'a, S, O, E>,
    may_run: spec_fn(int) -> bool,
    may_succeed: spec_fn(int, O) -> bool,
    may_fail: spec_fn(int, ExecError<E>) -> bool,
) -> bool {
    forall|t: int|
        0 <= t < batch.targets.len() ==> match #[trigger] batch.targets[t] {
            TargetPhase::Waiting => true,
            TargetPhase::Running => may_run(t),
            TargetPhase::Succeeded(output) => may_succeed(t, output),
            TargetPhase::Failed(failure) => may_fail(t, failure),
        }
}

/// Whether an event that the batch waits for brings query targets no further
/// than they may come: a session that fails may fail its query targets, a
/// session that opens has a tunnel for each of its query targets and each
/// may run, and what an operation returned may be returned.
pub open spec fn event_confined<'a, S, O, E>(
    batch: BatchView<'a, S, O, E>,
    event: BatchEvent<S, O, E>,
    may_run: spec_fn(int) -> bool,
    may_succeed: spec_fn(int, O) -> bool,
    may_fail: spec_fn(int, ExecError<E>) -> bool,
) -> bool {
    batch.expects(event) ==> match event {
        BatchEvent::TunnelsReady { chunk, tunnels: Err(error) } => forall|t: int|
            batch.in_chunk(chunk as int, t) ==> may_fail(
                t,
                (#[trigger] batch.all_failed(chunk as int, error).targets[t])->Failed_0,
            ),
        BatchEvent::TunnelsReady { chunk, tunnels: Ok(tunnel_map) } => forall|t: int|
            batch.in_chunk(chunk as int, t) ==> #[trigger] batch.has_tunnel(tunnel_map, t)
                && may_run(t),
        BatchEvent::TargetFinished { target, outcome: Ok(output) } => may_succeed(
            target as int,
            output,
        ),
        BatchEvent::TargetFinished { target, outcome: Err(failure) } => may_fail(
            target as int,
            failure,
        ),
    }
}

/// An event leads from a batch that is as it should be to one that is.
pub proof fn lemma_step_keeps_wf<'a, S, O, E>(
    before: BatchView<'a, S, O, E>,
    event: BatchEvent<S, O, E>,
    after: BatchView<'a, S, O, E>,
    actions: Seq<BatchAction<S>>,
)
    requires
        before.wf(),
        before.steps(event, after, actions),
    ensures
        after.wf(),
{
    if before.expects(event) {
        match event {
            BatchEvent::TunnelsReady { chunk, tunnels: Err(error) } => {
                before.lemma_failed_to_open(chunk as int, error);
            },
            BatchEvent::TunnelsReady { chunk, tunnels: Ok(tunnel_map) } => {
                let dispatched = BatchView { targets: after.targets, ..before };
                before.lemma_dispatched(chunk as int, tunnel_map, dispatched);
            },
            BatchEvent::TargetFinished { target, outcome } => {
                let chunk = before.chunk_of(target as int);
                before.lemma_finished(
                    chunk,
                    target as int,
                    outcome,
                    before.chunks[chunk]->tunnel_map,
                );
            },
        }
    }
}

/// An event that brings query targets no further than they may come leads
/// from a batch whose query targets have come no further to one of which
/// the same holds.
pub proof fn lemma_step_confined<'a, S, O, E>(
    before: BatchView<'a, S, O, E>,
    event: BatchEvent<S, O, E>,
    after: BatchView<'a, S, O, E>,
    actions: Seq<BatchAction<S>>,
    may_run: spec_fn(int) -> bool,
    may_succeed: spec_fn(int, O) -> bool,
    may_fail: spec_fn(int, ExecError<E>) -> bool,
)
    requires
        before.wf(),
        before.steps(event, after, actions),
        confined(before, may_run, may_succeed, may_fail),
        event_confined(before, event, may_run, may_succeed, may_fail),
    ensures
        after.wf(),
        confined(after, may_run, may_succeed, may_fail),
{
    lemma_step_keeps_wf(before, event, after, actions);
    if before.expects(event) {
        match event {
            BatchEvent::TunnelsReady { chunk, tunnels: Err(error) } => {
                let marked = before.all_failed(chunk as int, error);
                assert(after.targets == marked.targets);
                assert forall|t: int| 0 <= t < after.targets.len() implies match #[trigger] after.targets[t] {
                    TargetPhase::Waiting => true,
                    TargetPhase::Running => may_run(t),
                    TargetPhase::Succeeded(output) => may_succeed(t, output),
                    TargetPhase::Failed(failure) => may_fail(t, failure),
                } by {
                    if before.in_chunk(chunk as int, t) {
                        assert(may_fail(t, marked.targets[t]->Failed_0));
                    } else {
                        assert(after.targets[t] == before.targets[t]);
                    }
                }
            },
            BatchEvent::TunnelsReady { chunk, tunnels: Ok(tunnel_map) } => {
                assert forall|t: int| 0 <= t < after.targets.len() implies match #[trigger] after.targets[t] {
                    TargetPhase::Waiting => true,
                    TargetPhase::Running => may_run(t),
                    TargetPhase::Succeeded(output) => may_succeed(t, output),
                    TargetPhase::Failed(failure) => may_fail(t, failure),
                } by {
                    if before.in_chunk(chunk as int, t) {
                        assert(before.has_tunnel(tunnel_map, t) && may_run(t));
                    } else {
                        assert(after.targets[t] == before.targets[t]);
                    }
                }
            },
            BatchEvent::TargetFinished { target, outcome } => {
                assert forall|t: int| 0 <= t < after.targets.len() implies match #[trigger] after.targets[t] {
                    TargetPhase::Waiting => true,
                    TargetPhase::Running => may_run(t),
                    TargetPhase::Succeeded(output) => may_succeed(t, output),
                    TargetPhase::Failed(failure) => may_fail(t, failure),
                } by {
                    if t != target {
                        assert(after.targets[t] == before.targets[t]);
                    }
                }
            },
        }
    }
}

/// Whether the events of a run, each after a state whose query targets have
/// come no further than they may, bring them no further.
pub open spec fn run_confined<'a, S, O, E>(
    states: Seq<BatchView<'a, S, O, E>>,
    events: Seq<BatchEvent<S, O, E>>,
    may_run: spec_fn(int) -> bool,
    may_succeed: spec_fn(int, O) -> bool,
    may_fail: spec_fn(int, ExecError<E>) -> bool,
    at: int,
) -> bool {
    states[at].wf() && confined(states[at], may_run, may_succeed, may_fail) ==> event_confined(
        states[at],
        events[at],
        may_run,
        may_succeed,
        may_fail,
    )
}

/// Whole runs: where every event of a run brings query targets no further
/// than they may come, every state of the run is as it should be, and in it
/// a query target runs, has an output or has an error only where it may.
pub proof fn law_run_confined<'a, S, O, E>(
    states: Seq<BatchView<'a, S, O, E>>,
    events: Seq<BatchEvent<S, O, E>>,
    actions: Seq<Seq<BatchAction<S>>>,
    may_run: spec_fn(int) -> bool,
    may_succeed: spec_fn(int, O) -> bool,
    may_fail: spec_fn(int, ExecError<E>) -> bool,
    upto: int,
)
    requires
        is_run(states, events, actions),
        0 <= upto <= events.len(),
        forall|i: int|
            0 <= i < events.len() ==> #[trigger] run_confined(
                states,
                events,
                may_run,
                may_succeed,
                may_fail,
                i,
            ),
    ensures
        states[upto].wf(),
        confined(states[upto], may_run, may_succeed, may_fail),
    decreases upto,
{
    if upto > 0 {
        law_run_confined(states, events, actions, may_run, may_succeed, may_fail, upto - 1);
        assert(step_at(states, events, actions, upto - 1));
        assert(run_confined(states, events, may_run, may_succeed, may_fail, upto - 1));
        lemma_step_confined(
            states[upto - 1],
            events[upto - 1],
            states[upto],
            actions[upto - 1],
            may_run,
            may_succeed,
            may_fail,
        );
    }
}

/// Whether the event is no session that opened.
pub open spec fn no_session_opens<S, O, E>(event: BatchEvent<S, O, E>) -> bool {
    event matches BatchEvent::TunnelsReady { tunnels, .. } ==> tunnels is Err
}

/// Whether the event is no session that failed, and no session without a
/// tunnel for one of its query targets.
pub open spec fn every_tunnel_opens<'a, S, O, E>(
    batch: BatchView<'a, S, O, E>,
    event: BatchEvent<S, O, E>,
) -> bool {
    event matches BatchEvent::TunnelsReady { chunk, tunnels } ==> (tunnels matches Ok(tunnel_map)
        && forall|t: int|
        batch.in_chunk(chunk as int, t) ==> #[trigger] batch.has_tunnel(tunnel_map, t))
}

/// Whether the event is no operation that failed.
pub open spec fn no_operation_fails<S, O, E>(event: BatchEvent<S, O, E>) -> bool {
    event matches BatchEvent::TargetFinished { outcome, .. } ==> outcome is Ok
}

/// Whether the event is no operation that failed but on the query target
/// `failing`, where it is none that returned anything but `failure`.
pub open spec fn only_one_fails<S, O, E>(
    event: BatchEvent<S, O, E>,
    failing: int,
    failure: ExecError<E>,
) -> bool {
    event matches BatchEvent::TargetFinished { target, outcome } ==> if target == failing {
        outcome == Err::<O, ExecError<E>>(failure)
    } else {
        outcome is Ok
    }
}

/// Unreachable jump host: where no session of a run opens, no operation is
/// asked for and none runs, and once the batch is complete it has no output
/// and one error for each query target, each of them the error of its
/// session.
pub proof fn law_no_session_no_output<'a, S, O, E>(
    states: Seq<BatchView<'a, S, O, E>>,
    events: Seq<BatchEvent<S, O, E>>,
    actions: Seq<Seq<BatchAction<S>>>,
)
    requires
        is_run(states, events, actions),
        forall|i: int| 0 <= i < events.len() ==> no_session_opens(#[trigger] events[i]),
        states.last().is_complete(),
    ensures
        forall|i: int, t: int|
            0 <= i < states.len() && 0 <= t < states[i].targets.len() ==> !((
            #[trigger] states[i].targets[t]) is Running),
        forall|i: int, a: int|
            0 <= i < actions.len() && 0 <= a < actions[i].len() ==> !((
            #[trigger] actions[i][a]) is RunTarget),
        outputs_of(states.last().targets).len() == 0,
        errors_of(states.last().targets).len() == states.last().query_targets.len(),
        forall|p: int|
            0 <= p < errors_of(states.last().targets).len() ==> (#[trigger] errors_of(
                states.last().targets,
            )[p]).1 is Support,
{
    let may_run = |t: int| false;
    let may_succeed = |t: int, output: O| false;
    let may_fail = |t: int, failure: ExecError<E>| failure is Support;
    assert forall|i: int| 0 <= i < events.len() implies #[trigger] run_confined(
        states,
        events,
        may_run,
        may_succeed,
        may_fail,
        i,
    ) by {
        let batch = states[i];
        if batch.wf() && confined(batch, may_run, may_succeed, may_fail) && batch.expects(
            events[i],
        ) {
            assert(no_session_opens(events[i]));
            match events[i] {
                BatchEvent::TunnelsReady { chunk, tunnels: Err(error) } => {
                    lemma_chunk_within(
                        batch.ranges,
                        batch.targets.len(),
                        batch.tunnels_per_ssh_connection as nat,
                        chunk as int,
                    );
                },
                BatchEvent::TunnelsReady { chunk, tunnels: Ok(tunnel_map) } => {},
                BatchEvent::TargetFinished { target, outcome } => {
                    assert(batch.targets[target as int] is Running);
                },
            }
        }
    }
    assert forall|i: int, t: int|
        0 <= i < states.len() && 0 <= t < states[i].targets.len() implies !((
    #[trigger] states[i].targets[t]) is Running) by {
        law_run_confined(states, events, actions, may_run, may_succeed, may_fail, i);
    }
    assert forall|i: int, a: int|
        0 <= i < actions.len() && 0 <= a < actions[i].len() implies !((
    #[trigger] actions[i][a]) is RunTarget) by {
        law_run_confined(states, events, actions, may_run, may_succeed, may_fail, i);
        assert(step_at(states, events, actions, i));
        assert(no_session_opens(events[i]));
        if states[i].expects(events[i]) {
            assert(!(events[i] is TargetFinished)) by {
                if events[i] is TargetFinished {
                    assert(states[i].targets[events[i]->target as int] is Running);
                }
            }
        }
    }
    let end = states.last();
    law_run_confined(
        states,
        events,
        actions,
        may_run,
        may_succeed,
        may_fail,
        events.len() as int,
    );
    lemma_complete_all_done(end);
    lemma_outcome_count(end.targets);
    lemma_outputs_of(end.targets);
    lemma_errors_of(end.targets);
    if outputs_of(end.targets).len() > 0 {
        assert(end.targets[outputs_of(end.targets)[0].0 as int] is Succeeded);
    }
    assert forall|p: int| 0 <= p < errors_of(end.targets).len() implies (#[trigger] errors_of(
        end.targets,
    )[p]).1 is Support by {
        assert(end.targets[errors_of(end.targets)[p].0 as int] is Failed);
    }
}

/// All succeed: where every session of a run opens with a tunnel for each of
/// its query targets and no operation fails, the batch has, once it is
/// complete, no error and one output for each query target.
pub proof fn law_all_succeed<'a, S, O, E>(
    states: Seq<BatchView<'a, S, O, E>>,
    events: Seq<BatchEvent<S, O, E>>,
    actions: Seq<Seq<BatchAction<S>>>,
)
    requires
        is_run(states, events, actions),
        forall|i: int|
            0 <= i < events.len() ==> every_tunnel_opens(states[i], #[trigger] events[i])
                && no_operation_fails(events[i]),
        states.last().is_complete(),
    ensures
        errors_of(states.last().targets).len() == 0,
        outputs_of(states.last().targets).len() == states.last().query_targets.len(),
        forall|t: int|
            0 <= t < states.last().query_targets.len() ==> #[trigger] stands_in(
                outputs_of(states.last().targets),
                t,
            ),
{
    let may_run = |t: int| true;
    let may_succeed = |t: int, output: O| true;
    let may_fail = |t: int, failure: ExecError<E>| false;
    assert forall|i: int| 0 <= i < events.len() implies #[trigger] run_confined(
        states,
        events,
        may_run,
        may_succeed,
        may_fail,
        i,
    ) by {
        assert(every_tunnel_opens(states[i], events[i]) && no_operation_fails(events[i]));
    }
    let end = states.last();
    law_run_confined(
        states,
        events,
        actions,
        may_run,
        may_succeed,
        may_fail,
        events.len() as int,
    );
    lemma_complete_all_done(end);
    lemma_outcome_count(end.targets);
    lemma_outputs_of(end.targets);
    lemma_errors_of(end.targets);
    if errors_of(end.targets).len() > 0 {
        assert(end.targets[errors_of(end.targets)[0].0 as int] is Failed);
    }
    assert forall|t: int| 0 <= t < end.query_targets.len() implies #[trigger] stands_in(
        outputs_of(end.targets),
        t,
    ) by {
        assert(end.targets[t].is_done());
        assert(end.targets[t] is Succeeded);
    }
}

/// One fails alone: where every session of a run opens with a tunnel for
/// each of its query targets, and the operation fails on one query target
/// and on no other, the batch has, once it is complete, that one error,
/// under the number of that query target and as it was reported, and one
/// output for each other query target.
pub proof fn law_one_fails_alone<'a, S, O, E>(
    states: Seq<BatchView<'a, S, O, E>>,
    events: Seq<BatchEvent<S, O, E>>,
    actions: Seq<Seq<BatchAction<S>>>,
    failing: int,
    failure: ExecError<E>,
)
    requires
        is_run(states, events, actions),
        0 <= failing < states.last().query_targets.len(),
        forall|i: int|
            0 <= i < events.len() ==> every_tunnel_opens(states[i], #[trigger] events[i])
                && only_one_fails(events[i], failing, failure),
        states.last().is_complete(),
    ensures
        states.last().wf(),
        errors_of(states.last().targets) == seq![(failing as usize, failure)],
        outputs_of(states.last().targets).len() + 1 == states.last().query_targets.len(),
        forall|t: int|
            0 <= t < states.last().query_targets.len() && t != failing ==> #[trigger] stands_in(
                outputs_of(states.last().targets),
                t,
            ),
{
    let may_run = |t: int| true;
    let may_succeed = |t: int, output: O| t != failing;
    let may_fail = |t: int, other: ExecError<E>| t == failing && other == failure;
    assert forall|i: int| 0 <= i < events.len() implies #[trigger] run_confined(
        states,
        events,
        may_run,
        may_succeed,
        may_fail,
        i,
    ) by {
        assert(every_tunnel_opens(states[i], events[i]) && only_one_fails(
            events[i],
            failing,
            failure,
        ));
    }
    let end = states.last();
    law_run_confined(
        states,
        events,
        actions,
        may_run,
        may_succeed,
        may_fail,
        events.len() as int,
    );
    lemma_complete_all_done(end);
    lemma_outcome_count(end.targets);
    lemma_outputs_of(end.targets);
    lemma_errors_of(end.targets);
    let errors = errors_of(end.targets);
    assert(end.targets[failing].is_done());
    assert(end.targets[failing] is Failed);
    let at = choose|p: int| stands_at(errors, failing, p);
    assert(stands_at(errors, failing, at));
    assert forall|p: int| 0 <= p < errors.len() implies (#[trigger] errors[p]).0 == failing
        && errors[p].1 == failure by {
        assert(end.targets[errors[p].0 as int] == TargetPhase::<O, E>::Failed(errors[p].1));
    }
    if errors.len() >= 2 {
        assert(errors[0].0 < errors[1].0);
    }
    assert(errors =~= seq![(failing as usize, failure)]);
    assert forall|t: int|
        0 <= t < end.query_targets.len() && t != failing implies #[trigger] stands_in(
        outputs_of(end.targets),
        t,
    ) by {
        assert(end.targets[t].is_done());
        assert(end.targets[t] is Succeeded);
    }
}

/// One fails alone, by name: in such a run of one statement on many query
/// targets, the errors that are handed out in the end are that one error,
/// under the name of its query target and as it was reported, and there is
/// one result for each other query target.
pub proof fn law_one_query_fails_alone<'a, S, T>(
    states: Seq<BatchView<'a, S, QueryResult<T>, Error>>,
    events: Seq<BatchEvent<S, QueryResult<T>, Error>>,
    actions: Seq<Seq<BatchAction<S>>>,
    failing: int,
    failure: ExecError<Error>,
    results: Seq<QueryResult<T>>,
    errors: Seq<QueryError>,
)
    requires
        is_run(states, events, actions),
        0 <= failing < states.last().query_targets.len(),
        forall|i: int|
            0 <= i < events.len() ==> every_tunnel_opens(states[i], #[trigger] events[i])
                && only_one_fails(events[i], failing, failure),
        states.last().is_complete(),
        tagged_results(states.last(), results),
        tagged_errors(states.last(), errors),
    ensures
        errors.len() == 1,
        errors[0].name@ == states.last().query_targets[failing].name@,
        errors[0].error == failure.flat(),
        results.len() + 1 == states.last().query_targets.len(),
{
    law_one_fails_alone(states, events, actions, failing, failure);
    let failures = errors_of(states.last().targets);
    assert(failures[0] == (failing as usize, failure));
    assert(errors[0].name@ == states.last().query_targets[failures[0].0 as int].name@);
}

} // verus!
