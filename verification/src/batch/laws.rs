use crate::batch::model::{BatchAction, BatchEvent, BatchView, TargetPhase};
use crate::batch::outcome::{
    error_names, errors_of, lemma_errors_added, lemma_errors_of, lemma_outcome_count,
    lemma_outputs_of, names_differ, outputs_of, result_names, stands_at, stands_in,
    tagged_errors, tagged_results, target_names,
};
use crate::batch::plan::lemma_chunk_within;
use crate::batch::soundness::{lemma_running_between_bound, lemma_sessions_held_bounds};
use crate::error::Error;
use crate::exec_error::ExecError;
use crate::query_error::QueryError;
use crate::query_result::QueryResult;
use crate::socket_address::SocketAddress;
use crate::ssh_tunnel_manager::{law_every_target_has_its_tunnel, tunnels_of};
use crate::ssh_tunnel_map::SshTunnelMap;
use vstd::prelude::*;

verus! {

/// Once a batch is complete, every query target has its output or its
/// error.
pub proof fn lemma_complete_all_done<'a, S, O, E>(batch: BatchView<'a, S, O, E>)
    requires
        batch.wf(),
        batch.is_complete(),
    ensures
        forall|t: int| 0 <= t < batch.targets.len() ==> (#[trigger] batch.targets[t]).is_done(),
{
    assert forall|t: int| 0 <= t < batch.targets.len() implies (#[trigger] batch.targets[t]).is_done() by {
        batch.lemma_chunk_of(t);
        let chunk = batch.chunk_of(t);
        assert(batch.chunk_sound(chunk));
        assert(batch.fits(chunk, t));
    }
}

/// Partition completeness: once a batch is complete, every query target
/// stands either among the outputs or among the errors, never in both, and
/// with these the two hold as many entries as there are query targets.
pub proof fn law_partition_complete<'a, S, O, E>(batch: BatchView<'a, S, O, E>)
    requires
        batch.wf(),
        batch.is_complete(),
    ensures
        outputs_of(batch.targets).len() + errors_of(batch.targets).len()
            == batch.query_targets.len(),
        forall|t: int|
            0 <= t < batch.query_targets.len() ==> #[trigger] stands_in(
                outputs_of(batch.targets),
                t,
            ) != stands_in(errors_of(batch.targets), t),
        forall|p: int, q: int|
            0 <= p < q < outputs_of(batch.targets).len() ==> (#[trigger] outputs_of(
                batch.targets,
            )[p]).0 != (#[trigger] outputs_of(batch.targets)[q]).0,
        forall|p: int, q: int|
            0 <= p < q < errors_of(batch.targets).len() ==> (#[trigger] errors_of(
                batch.targets,
            )[p]).0 != (#[trigger] errors_of(batch.targets)[q]).0,
{
    let outputs = outputs_of(batch.targets);
    let errors = errors_of(batch.targets);
    lemma_outputs_of(batch.targets);
    lemma_errors_of(batch.targets);
    lemma_complete_all_done(batch);
    lemma_outcome_count(batch.targets);
    assert forall|t: int| 0 <= t < batch.query_targets.len() implies #[trigger] stands_in(
        outputs,
        t,
    ) != stands_in(errors, t) by {
        if batch.targets[t] is Succeeded {
            if stands_in(errors, t) {
                let p = choose|p: int| stands_at(errors, t, p);
                assert(batch.targets[errors[p].0 as int] is Failed);
            }
        } else {
            if stands_in(outputs, t) {
                let p = choose|p: int| stands_at(outputs, t, p);
                assert(batch.targets[outputs[p].0 as int] is Succeeded);
            }
        }
    }
}

/// Chunk atomicity: when the session of a chunk cannot be opened, every
/// query target of the chunk fails with the error of the session, no other
/// query target changes, and there are as many errors more as the chunk has
/// query targets. An error of `ssh_jumper` is handed to each of them as it
/// is.
pub proof fn law_chunk_atomicity<'a, S, O, E>(
    batch: BatchView<'a, S, O, E>,
    chunk: usize,
    error: Error,
    after: BatchView<'a, S, O, E>,
    actions: Seq<BatchAction<S>>,
)
    requires
        batch.wf(),
        batch.expects(BatchEvent::TunnelsReady { chunk, tunnels: Err(error) }),
        batch.steps(BatchEvent::TunnelsReady { chunk, tunnels: Err(error) }, after, actions),
    ensures
        after.wf(),
        after.chunks[chunk as int] is Closed,
        forall|t: int|
            batch.in_chunk(chunk as int, t) ==> (#[trigger] after.targets[t])
                == TargetPhase::<O, E>::Failed(ExecError::Support(error.shared())),
        forall|t: int|
            0 <= t < batch.targets.len() && !batch.in_chunk(chunk as int, t) ==> (
            #[trigger] after.targets[t]) == batch.targets[t],
        errors_of(after.targets).len() == errors_of(batch.targets).len() + (
        batch.ranges[chunk as int].end - batch.ranges[chunk as int].start),
        error is SshJumper || error is SshConnInit ==> error.shared() == error,
        forall|a: int|
            0 <= a < actions.len() ==> !((#[trigger] actions[a]) is RunTarget),
{
    batch.lemma_failed_to_open(chunk as int, error);
    lemma_chunk_within(
        batch.ranges,
        batch.targets.len(),
        batch.tunnels_per_ssh_connection as nat,
        chunk as int,
    );
    assert forall|t: int| 0 <= t < batch.targets.len() implies if batch.ranges[chunk as int].start
        <= t < batch.ranges[chunk as int].end {
        !((#[trigger] batch.targets[t]) is Failed) && after.targets[t] is Failed
    } else {
        after.targets[t] == batch.targets[t]
    } by {
        if batch.in_chunk(chunk as int, t) {
            assert(batch.chunk_sound(chunk as int));
            assert(batch.fits(chunk as int, t));
        }
    }
    lemma_errors_added(
        batch.targets,
        after.targets,
        batch.ranges[chunk as int].start as int,
        batch.ranges[chunk as int].end as int,
    );
    let marked = batch.all_failed(chunk as int, error);
    assert(marked.closed(chunk as int).refilled().chunks[chunk as int] is Closed);
}

/// Concurrency bounds: at every moment no more SSH sessions are being opened
/// or are open than `ssh_concurrent_limit`, no more operations run through
/// the tunnels of one session than `tunnels_per_ssh_connection`, and an
/// operation only runs while the session of its chunk is open.
pub proof fn law_concurrency_bounds<'a, S, O, E>(batch: BatchView<'a, S, O, E>, chunk: int)
    requires
        batch.wf(),
        0 <= chunk < batch.chunks.len(),
    ensures
        batch.open_sessions() <= batch.ssh_concurrent_limit,
        batch.active_endpoints(chunk) <= batch.tunnels_per_ssh_connection,
        forall|t: int|
            batch.in_chunk(chunk, t) && (#[trigger] batch.targets[t]) is Running
                ==> batch.chunks[chunk] is Open,
        batch.chunks[chunk] is Closed ==> forall|t: int|
            batch.in_chunk(chunk, t) ==> (#[trigger] batch.targets[t]).is_done(),
{
    lemma_running_between_bound(
        batch.targets,
        batch.ranges[chunk].start as int,
        batch.ranges[chunk].end as int,
    );
    assert(batch.chunk_sound(chunk));
    assert forall|t: int|
        batch.in_chunk(chunk, t) && (#[trigger] batch.targets[t]) is Running implies batch.chunks[chunk] is Open by {
        assert(batch.fits(chunk, t));
    }
    if batch.chunks[chunk] is Closed {
        assert forall|t: int| batch.in_chunk(chunk, t) implies (#[trigger] batch.targets[t]).is_done() by {
            assert(batch.fits(chunk, t));
        }
    }
}

/// A batch that is not complete waits for the caller: a session is being
/// opened, or an operation is running. So a caller that answers every
/// request brings every batch to its end.
pub proof fn law_never_stuck<'a, S, O, E>(batch: BatchView<'a, S, O, E>)
    requires
        batch.wf(),
        !batch.is_complete(),
    ensures
        batch.open_sessions() > 0,
        exists|j: int|
            0 <= j < batch.chunks.len() && ((#[trigger] batch.chunks[j]) is Opening
                || batch.some_running(j)),
{
    lemma_sessions_held_bounds(batch.chunks);
    let j = choose|j: int| 0 <= j < batch.chunks.len() && !((#[trigger] batch.chunks[j]) is Closed);
    if batch.next_chunk < batch.chunks.len() {
        let h = choose|h: int| 0 <= h < batch.chunks.len() && (#[trigger] batch.chunks[h]).holds_session();
        assert(batch.chunk_sound(h));
    } else {
        assert(batch.chunk_sound(j));
    }
}

/// Partition completeness, by name: once a batch is complete, the names
/// under which its results and its errors stand are together the names of
/// its query targets; and where no two query targets have the same name,
/// no name stands under both.
pub proof fn law_names_partition<'a, S, T>(
    batch: BatchView<'a, S, QueryResult<T>, Error>,
    results: Seq<QueryResult<T>>,
    errors: Seq<QueryError>,
)
    requires
        batch.wf(),
        batch.is_complete(),
        tagged_results(batch, results),
        tagged_errors(batch, errors),
    ensures
        results.len() + errors.len() == batch.query_targets.len(),
        result_names(results).union(error_names(errors)) == target_names(batch.query_targets),
        names_differ(batch.query_targets) ==> result_names(results).disjoint(error_names(errors)),
{
    let outputs = outputs_of(batch.targets);
    let failures = errors_of(batch.targets);
    let targets = batch.query_targets;
    law_partition_complete(batch);
    lemma_outputs_of(batch.targets);
    lemma_errors_of(batch.targets);
    assert forall|name: Seq<char>|
        result_names(results).union(error_names(errors)).contains(name) implies target_names(
        targets,
    ).contains(name) by {
        if result_names(results).contains(name) {
            let p = choose|p: int| 0 <= p < results.len() && (#[trigger] results[p]).name@ == name;
            assert(targets[outputs[p].0 as int].name@ == name);
        } else {
            let p = choose|p: int| 0 <= p < errors.len() && (#[trigger] errors[p]).name@ == name;
            assert(targets[failures[p].0 as int].name@ == name);
        }
    }
    assert forall|name: Seq<char>| target_names(targets).contains(name) implies result_names(
        results,
    ).union(error_names(errors)).contains(name) by {
        let t = choose|t: int| 0 <= t < targets.len() && (#[trigger] targets[t]).name@ == name;
        if stands_in(outputs, t) {
            let p = choose|p: int| stands_at(outputs, t, p);
            assert(results[p].name@ == name);
        } else {
            let p = choose|p: int| stands_at(failures, t, p);
            assert(errors[p].name@ == name);
        }
    }
    if names_differ(targets) {
        assert forall|name: Seq<char>|
            !(result_names(results).contains(name) && error_names(errors).contains(name)) by {
            if result_names(results).contains(name) && error_names(errors).contains(name) {
                let p = choose|p: int|
                    0 <= p < results.len() && (#[trigger] results[p]).name@ == name;
                let q = choose|q: int| 0 <= q < errors.len() && (#[trigger] errors[q]).name@ == name;
                let s = outputs[p].0 as int;
                let t = failures[q].0 as int;
                assert(targets[s].name@ == targets[t].name@);
                assert(batch.targets[s] is Succeeded && batch.targets[t] is Failed);
            }
        }
    }
}

/// The names of the query targets of a chunk, in their order.
pub open spec fn chunk_names<'a, S, O, E>(batch: BatchView<'a, S, O, E>, chunk: int) -> Seq<
    Seq<char>,
> {
    Seq::new(
        (batch.ranges[chunk].end - batch.ranges[chunk].start) as nat,
        |i: int| batch.query_targets[batch.ranges[chunk].start + i].name@,
    )
}

/// Where a session holds the tunnels that were opened for the query targets
/// of its chunk, one for each, and no two of these query targets have the
/// same name, the session has for every query target of the chunk the tunnel
/// that was opened for it: none fails for want of a tunnel.
pub proof fn law_prepared_chunk_has_every_tunnel<'a, S, O, E>(
    batch: BatchView<'a, S, O, E>,
    chunk: int,
    tunnel_map: SshTunnelMap<S>,
    tunnels: Seq<SocketAddress>,
)
    requires
        batch.shaped(),
        0 <= chunk < batch.ranges.len(),
        tunnels.len() == chunk_names(batch, chunk).len(),
        tunnel_map.tunnels() == tunnels_of(chunk_names(batch, chunk), tunnels),
        forall|i: int, j: int|
            0 <= i < j < tunnels.len() ==> chunk_names(batch, chunk)[i] != chunk_names(
                batch,
                chunk,
            )[j],
    ensures
        forall|t: int|
            batch.in_chunk(chunk, t) ==> #[trigger] batch.has_tunnel(tunnel_map, t)
                && tunnel_map.tunnels()[batch.query_targets[t].name@] == tunnels[t
                - batch.ranges[chunk].start],
{
    let names = chunk_names(batch, chunk);
    let start = batch.ranges[chunk].start as int;
    law_every_target_has_its_tunnel(names, tunnels);
    assert forall|t: int| batch.in_chunk(chunk, t) implies #[trigger] batch.has_tunnel(
        tunnel_map,
        t,
    ) && tunnel_map.tunnels()[batch.query_targets[t].name@] == tunnels[t - start] by {
        assert(names[t - start] == batch.query_targets[t].name@);
    }
}

} // verus!
