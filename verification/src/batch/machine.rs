use crate::batch::model::{
    sessions_held, BatchAction, BatchEvent, BatchView, ChunkPhase, TargetPhase,
};
use crate::batch::outcome::{
    disconnect_errors_in, errors_of, lemma_errors_of, lemma_outputs_of, outputs_of,
    tagged_disconnect_errors, tagged_errors, tagged_results,
};
use crate::batch::plan::{lemma_chunk_within, plan_chunks, ChunkRange};
use crate::batch::soundness::{lemma_sessions_held_bounds, lemma_sessions_held_update};
use crate::db_schema_cred::owned_text;
use crate::error::Error;
use crate::exec_error::ExecError;
use crate::jump_host::static_host_address;
use crate::query_error::QueryError;
use crate::query_result::QueryResult;
use crate::query_target::QueryTarget;
use crate::ssh_tunnel_map::SshTunnelMap;
use ssh_jumper::model::HostAddress;
use vstd::prelude::*;

verus! {

/// One statement or operation under way on many query targets: which SSH
/// sessions to open, which query targets to run, and what became of each.
///
/// The batch decides; the caller does what it is asked to and reports back.
///
/// # Type Parameters
///
/// * `S`: Handle of the SSH session.
/// * `O`: Output of the operation on a query target.
/// * `E`: Error of the operation on a query target.
pub struct Batch<'a, S, O, E> {
    ssh_concurrent_limit: usize,
    tunnels_per_ssh_connection: usize,
    jump_host_address: HostAddress<'static>,
    query_targets: &'a [QueryTarget<'a>],
    ranges: Vec<ChunkRange>,
    chunk_of: Vec<usize>,
    chunks: Vec<ChunkPhase<S>>,
    targets: Vec<TargetPhase<O, E>>,
    next_chunk: usize,
    open_sessions: usize,
}

impl<'a, S, O, E> View for Batch<'a, S, O, E> {
    type V = BatchView<'a, S, O, E>;

    closed spec fn view(&self) -> BatchView<'a, S, O, E> {
        BatchView {
            ssh_concurrent_limit: self.ssh_concurrent_limit,
            tunnels_per_ssh_connection: self.tunnels_per_ssh_connection,
            jump_host_address: self.jump_host_address,
            query_targets: self.query_targets@,
            ranges: self.ranges@,
            chunks: self.chunks@,
            targets: self.targets@,
            next_chunk: self.next_chunk as nat,
        }
    }
}

impl<'a, S, O, E> Batch<'a, S, O, E> {
    /// Whether the batch's own count of sessions and its table of chunks by
    /// query target are right.
    pub closed spec fn counted(&self) -> bool {
        &&& self.open_sessions == sessions_held(self.chunks@)
        &&& self.chunk_of@.len() == self.targets@.len()
        &&& forall|t: int|
            0 <= t < self.chunk_of@.len() ==> self@.in_chunk((#[trigger] self.chunk_of@[t]) as int, t)
    }

    /// What holds of a batch at every moment.
    pub open spec fn wf(&self) -> bool {
        self@.wf() && self.counted()
    }

    /// Asks for a session for the next pending chunk, if one may be asked
    /// for.
    fn refill(&mut self, actions: &mut Vec<BatchAction<S>>)
        requires
            old(self).counted(),
            old(self)@.shaped(),
        ensures
            final(self).counted(),
            final(self)@ == old(self)@.refilled(),
            final(actions)@ == old(actions)@ + old(self)@.refill_actions(),
    {
        if self.next_chunk < self.chunks.len() && self.open_sessions < self.ssh_concurrent_limit {
            proof {
                lemma_sessions_held_update(
                    self.chunks@,
                    self.next_chunk as int,
                    ChunkPhase::Opening,
                );
            }
            self.chunks.set(self.next_chunk, ChunkPhase::Opening);
            actions.push(BatchAction::PrepareTunnels { chunk: self.next_chunk });
            self.next_chunk += 1;
            self.open_sessions += 1;
        }
    }

    /// Closes the chunk and returns what it was before.
    fn close(&mut self, chunk: usize) -> (phase: ChunkPhase<S>)
        requires
            old(self).counted(),
            chunk < old(self)@.chunks.len(),
            old(self)@.chunks[chunk as int].holds_session(),
        ensures
            final(self).counted(),
            final(self)@ == old(self)@.closed(chunk as int),
            phase == old(self)@.chunks[chunk as int],
    {
        proof {
            lemma_sessions_held_update(self.chunks@, chunk as int, ChunkPhase::Closed);
        }
        let mut phase = ChunkPhase::Closed;
        self.chunks.set_and_swap(chunk, &mut phase);
        self.open_sessions -= 1;
        phase
    }

    /// Records how far the query target has come.
    fn set_target(&mut self, target: usize, phase: TargetPhase<O, E>)
        requires
            old(self).counted(),
            target < old(self)@.targets.len(),
        ensures
            final(self).counted(),
            final(self)@ == (BatchView {
                targets: old(self)@.targets.update(target as int, phase),
                ..old(self)@
            }),
    {
        self.targets.set(target, phase);
    }

    /// Returns whether an operation is running on some query target of the
    /// chunk.
    fn any_running(&self, chunk: usize) -> (found: bool)
        requires
            self@.shaped(),
            chunk < self@.chunks.len(),
        ensures
            found == self@.some_running(chunk as int),
    {
        proof {
            lemma_chunk_within(
                self.ranges@,
                self.targets@.len(),
                self.tunnels_per_ssh_connection as nat,
                chunk as int,
            );
        }
        let range = self.ranges[chunk];
        let mut t: usize = range.start;
        while t < range.end
            invariant
                range == self.ranges@[chunk as int],
                chunk < self.ranges@.len(),
                range.start <= t <= range.end <= self.targets@.len(),
                forall|u: int| range.start <= u < t ==> !((#[trigger] self.targets@[u]) is Running),
            decreases range.end - t,
        {
            match &self.targets[t] {
                TargetPhase::Running => {
                    return true;
                },
                _ => {},
            }
            t += 1;
        }
        false
    }
}

impl<'a, S, O, E> Batch<'a, S, O, E> {
    /// Starts a batch: cuts the query targets into chunks of
    /// `tunnels_per_ssh_connection`, and asks for the sessions of the first
    /// chunks, as many as `ssh_concurrent_limit` allows.
    pub fn start(
        ssh_concurrent_limit: usize,
        tunnels_per_ssh_connection: usize,
        jump_host_address: &HostAddress<'_>,
        query_targets: &'a [QueryTarget<'a>],
    ) -> (started: (Self, Vec<BatchAction<S>>))
        requires
            ssh_concurrent_limit > 0,
            tunnels_per_ssh_connection > 0,
        ensures
            started.0.wf(),
            started.0@.ssh_concurrent_limit == ssh_concurrent_limit,
            started.0@.tunnels_per_ssh_connection == tunnels_per_ssh_connection,
            started.0@.jump_host_address == *jump_host_address,
            started.0@.query_targets == query_targets@,
            started.0@.is_initial(),
            started.1@ == Seq::new(
                started.0@.next_chunk,
                |j: int| BatchAction::<S>::PrepareTunnels { chunk: j as usize },
            ),
    {
        let (ranges, chunk_of) = plan_chunks(query_targets.len(), tunnels_per_ssh_connection);
        let mut chunks: Vec<ChunkPhase<S>> = Vec::new();
        let mut j: usize = 0;
        while j < ranges.len()
            invariant
                j <= ranges@.len(),
                chunks@.len() == j,
                forall|i: int| 0 <= i < j ==> (#[trigger] chunks@[i]) is Pending,
            decreases ranges@.len() - j,
        {
            chunks.push(ChunkPhase::Pending);
            j += 1;
        }
        let mut targets: Vec<TargetPhase<O, E>> = Vec::new();
        let mut t: usize = 0;
        while t < query_targets.len()
            invariant
                t <= query_targets@.len(),
                targets@.len() == t,
                forall|i: int| 0 <= i < t ==> (#[trigger] targets@[i]) is Waiting,
            decreases query_targets@.len() - t,
        {
            targets.push(TargetPhase::Waiting);
            t += 1;
        }
        proof {
            lemma_sessions_held_bounds(chunks@);
        }
        let mut batch = Batch {
            ssh_concurrent_limit,
            tunnels_per_ssh_connection,
            jump_host_address: static_host_address(jump_host_address),
            query_targets,
            ranges,
            chunk_of,
            chunks,
            targets,
            next_chunk: 0,
            open_sessions: 0,
        };
        let mut actions: Vec<BatchAction<S>> = Vec::new();
        let ghost planned = batch@;
        assert forall|j: int| 0 <= j < batch@.chunks.len() implies #[trigger] batch@.chunk_sound(
            j,
        ) by {
            assert forall|t: int| batch@.in_chunk(j, t) implies #[trigger] batch@.fits(j, t) by {
                lemma_chunk_within(
                    batch@.ranges,
                    batch@.targets.len(),
                    tunnels_per_ssh_connection as nat,
                    j,
                );
            }
        }
        while batch.next_chunk < batch.chunks.len() && batch.open_sessions
            < batch.ssh_concurrent_limit
            invariant
                batch.counted(),
                batch@.sound(),
                batch@ == (BatchView {
                    chunks: batch@.chunks,
                    next_chunk: batch@.next_chunk,
                    ..planned
                }),
                batch@.open_sessions() == batch@.next_chunk <= batch@.ssh_concurrent_limit,
                forall|j: int| 0 <= j < batch@.next_chunk ==> (#[trigger] batch@.chunks[j]) is Opening,
                actions@ == Seq::new(
                    batch@.next_chunk,
                    |j: int| BatchAction::<S>::PrepareTunnels { chunk: j as usize },
                ),
            decreases batch@.chunks.len() - batch@.next_chunk,
        {
            proof {
                batch@.lemma_refilled_sound();
            }
            batch.refill(&mut actions);
        }
        (batch, actions)
    }

    /// Returns the query targets that the chunk holds, or `None` where there
    /// is no such chunk.
    pub fn chunk_range(&self, chunk: usize) -> (range: Option<ChunkRange>)
        requires
            self.wf(),
        ensures
            range == if chunk < self@.ranges.len() {
                Some(self@.ranges[chunk as int])
            } else {
                None
            },
            range matches Some(range) ==> range.start < range.end <= self@.query_targets.len(),
    {
        if chunk < self.ranges.len() {
            proof {
                lemma_chunk_within(
                    self.ranges@,
                    self.targets@.len(),
                    self.tunnels_per_ssh_connection as nat,
                    chunk as int,
                );
            }
            Some(self.ranges[chunk])
        } else {
            None
        }
    }

    /// Returns whether every chunk has been dealt with: every query target
    /// has its output or its error, and every session was given back.
    pub fn is_complete(&self) -> (complete: bool)
        requires
            self.wf(),
        ensures
            complete == self@.is_complete(),
    {
        proof {
            lemma_sessions_held_bounds(self.chunks@);
        }
        self.next_chunk == self.chunks.len() && self.open_sessions == 0
    }

    /// Takes in what the caller reports, and returns what the caller is
    /// asked to do next.
    pub fn step(&mut self, event: BatchEvent<S, O, E>) -> (actions: Vec<BatchAction<S>>)
        requires
            old(self).wf(),
            event matches BatchEvent::TunnelsReady { tunnels: Ok(tunnel_map), .. }
                ==> tunnel_map.wf(),
        ensures
            final(self).wf(),
            old(self)@.steps(event, final(self)@, actions@),
    {
        match event {
            BatchEvent::TunnelsReady { chunk, tunnels } => {
                if chunk < self.chunks.len() && self.is_opening(chunk) {
                    match tunnels {
                        Ok(tunnel_map) => self.exec_over_tunnels(chunk, tunnel_map),
                        Err(error) => self.fail_chunk(chunk, error),
                    }
                } else {
                    Vec::new()
                }
            },
            BatchEvent::TargetFinished { target, outcome } => {
                if target < self.targets.len() && self.is_running(target) {
                    self.finish_target(target, outcome)
                } else {
                    Vec::new()
                }
            },
        }
    }

    /// Returns whether the session of the chunk is being opened.
    fn is_opening(&self, chunk: usize) -> (opening: bool)
        requires
            chunk < self@.chunks.len(),
        ensures
            opening == self@.chunks[chunk as int] is Opening,
    {
        match &self.chunks[chunk] {
            ChunkPhase::Opening => true,
            _ => false,
        }
    }

    /// Returns whether the operation is running on the query target.
    fn is_running(&self, target: usize) -> (running: bool)
        requires
            target < self@.targets.len(),
        ensures
            running == self@.targets[target as int] is Running,
    {
        match &self.targets[target] {
            TargetPhase::Running => true,
            _ => false,
        }
    }

    /// The session of the chunk could not be opened: every query target of
    /// the chunk fails with a copy of the error.
    fn fail_chunk(&mut self, chunk: usize, error: Error) -> (actions: Vec<BatchAction<S>>)
        requires
            old(self).wf(),
            chunk < old(self)@.chunks.len(),
            old(self)@.chunks[chunk as int] is Opening,
        ensures
            final(self).wf(),
            final(self)@ == old(self)@.failed_to_open(chunk as int, error),
            actions@ == old(self)@.all_failed(chunk as int, error).closed(
                chunk as int,
            ).refill_actions(),
    {
        proof {
            lemma_chunk_within(
                self.ranges@,
                self.targets@.len(),
                self.tunnels_per_ssh_connection as nat,
                chunk as int,
            );
            self@.lemma_failed_to_open(chunk as int, error);
        }
        let range = self.ranges[chunk];
        let mut t: usize = range.start;
        while t < range.end
            invariant
                self.counted(),
                range == old(self)@.ranges[chunk as int],
                chunk < old(self)@.chunks.len(),
                range.start <= t <= range.end <= old(self)@.targets.len(),
                self@ == (BatchView { targets: self@.targets, ..old(self)@ }),
                self@.targets.len() == old(self)@.targets.len(),
                forall|u: int|
                    0 <= u < self@.targets.len() ==> (#[trigger] self@.targets[u]) == if range.start
                        <= u < t {
                        TargetPhase::Failed(ExecError::Support(error.shared()))
                    } else {
                        old(self)@.targets[u]
                    },
            decreases range.end - t,
        {
            self.set_target(t, TargetPhase::Failed(ExecError::Support(error.share())));
            t += 1;
        }
        assert(self@.targets =~= old(self)@.all_failed(chunk as int, error).targets);
        let mut actions: Vec<BatchAction<S>> = Vec::new();
        self.close(chunk);
        self.refill(&mut actions);
        actions
    }

    /// The session of the chunk is open: runs every query target of the
    /// chunk that the session has a tunnel for, and fails each one that it
    /// has none for. Where none runs, the session is given back at once.
    pub fn exec_over_tunnels(&mut self, chunk: usize, tunnel_map: SshTunnelMap<S>) -> (actions: Vec<
        BatchAction<S>,
    >)
        requires
            old(self).wf(),
            tunnel_map.wf(),
            chunk < old(self)@.chunks.len(),
            old(self)@.chunks[chunk as int] is Opening,
        ensures
            final(self).wf(),
            old(self)@.steps(
                BatchEvent::TunnelsReady { chunk, tunnels: Ok(tunnel_map) },
                final(self)@,
                actions@,
            ),
    {
        proof {
            lemma_chunk_within(
                self.ranges@,
                self.targets@.len(),
                self.tunnels_per_ssh_connection as nat,
                chunk as int,
            );
        }
        let range = self.ranges[chunk];
        let mut actions: Vec<BatchAction<S>> = Vec::new();
        let mut any_running = false;
        let mut t: usize = range.start;
        while t < range.end
            invariant
                self.counted(),
                tunnel_map.wf(),
                range == old(self)@.ranges[chunk as int],
                chunk < old(self)@.chunks.len(),
                range.start <= t <= range.end <= old(self)@.targets.len(),
                old(self)@.query_targets.len() == old(self)@.targets.len(),
                self@ == (BatchView { targets: self@.targets, ..old(self)@ }),
                self@.targets.len() == old(self)@.targets.len(),
                forall|u: int|
                    0 <= u < self@.targets.len() ==> if range.start <= u < t {
                        if old(self)@.has_tunnel(tunnel_map, u) {
                            (#[trigger] self@.targets[u]) is Running
                        } else {
                            old(self)@.lacks_tunnel(u, self@.targets[u])
                        }
                    } else {
                        self@.targets[u] == old(self)@.targets[u]
                    },
                actions@ == old(self)@.run_actions(tunnel_map, range.start as int, t as int),
                any_running <==> exists|u: int|
                    range.start <= u < t && (#[trigger] self@.targets[u]) is Running,
            decreases range.end - t,
        {
            let name = owned_text(&self.query_targets[t].name);
            let ghost before = self@.targets;
            match tunnel_map.get(name.as_str()) {
                Some(db_tunnel) => {
                    actions.push(BatchAction::RunTarget { target: t, db_tunnel: db_tunnel.clone() });
                    self.set_target(t, TargetPhase::Running);
                    any_running = true;
                },
                None => {
                    let error = Error::SshTunnelNotFound {
                        jump_host_address: static_host_address(&self.jump_host_address),
                        query_target: self.query_targets[t].to_static(),
                    };
                    self.set_target(t, TargetPhase::Failed(ExecError::Support(error)));
                    assert(!(self@.targets[t as int] is Running));
                    assert forall|u: int|
                        range.start <= u < t + 1 && (#[trigger] self@.targets[u]) is Running implies u
                        < t by {}
                    assert(any_running <==> exists|u: int|
                        range.start <= u < t + 1 && (#[trigger] self@.targets[u]) is Running) by {
                        if any_running {
                            let u = choose|u: int|
                                range.start <= u < t && (#[trigger] before[u]) is Running;
                            assert(self@.targets[u] is Running);
                        }
                    }
                },
            }
            t += 1;
        }
        let ghost dispatched = self@;
        proof {
            old(self)@.lemma_dispatched(chunk as int, tunnel_map, dispatched);
            assert(any_running == dispatched.some_running(chunk as int)) by {
                if dispatched.some_running(chunk as int) {
                    let u = choose|u: int|
                        dispatched.in_chunk(chunk as int, u) && (
                        #[trigger] dispatched.targets[u]) is Running;
                    assert(range.start <= u < t && self@.targets[u] is Running);
                }
            }
        }
        if any_running {
            proof {
                lemma_sessions_held_update(
                    self.chunks@,
                    chunk as int,
                    ChunkPhase::Open { tunnel_map },
                );
            }
            self.chunks.set(chunk, ChunkPhase::Open { tunnel_map });
        } else {
            self.close(chunk);
            actions.push(BatchAction::CloseSession { chunk, tunnel_map });
            self.refill(&mut actions);
            assert(actions@ == old(self)@.run_actions(
                tunnel_map,
                range.start as int,
                range.end as int,
            ) + dispatched.settle_actions(chunk as int, tunnel_map));
        }
        actions
    }

    /// The operation on the query target returned: records what it returned,
    /// and gives the session back when it was the last one running in its
    /// chunk.
    fn finish_target(&mut self, target: usize, outcome: Result<O, ExecError<E>>) -> (actions: Vec<
        BatchAction<S>,
    >)
        requires
            old(self).wf(),
            target < old(self)@.targets.len(),
            old(self)@.targets[target as int] is Running,
        ensures
            final(self).wf(),
            old(self)@.steps(
                BatchEvent::TargetFinished { target, outcome },
                final(self)@,
                actions@,
            ),
    {
        let chunk = self.chunk_of[target];
        let ghost open = self@.chunks[chunk as int];
        proof {
            let chosen = self@.chunk_of(target as int);
            self@.lemma_one_chunk(chunk as int, chosen, target as int);
            assert(self@.chunk_sound(chunk as int));
            self@.lemma_finished(chunk as int, target as int, outcome, open->tunnel_map);
        }
        let phase = match outcome {
            Ok(output) => TargetPhase::Succeeded(output),
            Err(error) => TargetPhase::Failed(error),
        };
        self.set_target(target, phase);
        let mut actions: Vec<BatchAction<S>> = Vec::new();
        if self.any_running(chunk) {
            assert(self@.chunks =~= self@.chunks.update(chunk as int, open));
        } else {
            let was = self.close(chunk);
            match was {
                ChunkPhase::Open { tunnel_map } => {
                    actions.push(BatchAction::CloseSession { chunk, tunnel_map });
                },
                _ => {},
            }
            self.refill(&mut actions);
        }
        actions
    }
}

/// Returns the items in the opposite order.
pub(crate) fn turned<T>(items: Vec<T>) -> (turned: Vec<T>)
    ensures
        turned@.len() == items@.len(),
        forall|i: int| 0 <= i < items@.len() ==> #[trigger] turned@[i] == items@[items@.len() - 1 - i],
{
    let mut items = items;
    let ghost all = items@;
    let mut turned: Vec<T> = Vec::new();
    while items.len() > 0
        invariant
            items@.len() + turned@.len() == all.len(),
            forall|i: int| 0 <= i < items@.len() ==> #[trigger] items@[i] == all[i],
            forall|i: int| 0 <= i < turned@.len() ==> #[trigger] turned@[i] == all[all.len() - 1 - i],
        decreases items@.len(),
    {
        match items.pop() {
            Some(item) => turned.push(item),
            None => {},
        }
    }
    turned
}

impl<'a, S, O, E> Batch<'a, S, O, E> {
    /// Ends the batch and returns the outputs and the errors of the query
    /// targets that are done, each with the number of its query target.
    ///
    /// Once the batch is complete, every query target stands in one of the
    /// two.
    pub fn into_outcome(self) -> (outcome: (Vec<(usize, O)>, Vec<(usize, ExecError<E>)>))
        ensures
            outcome.0@ == outputs_of(self@.targets),
            outcome.1@ == errors_of(self@.targets),
    {
        let ghost all = self@.targets;
        let Batch { targets, .. } = self;
        let mut left = turned(targets);
        let total = left.len();
        let mut outputs: Vec<(usize, O)> = Vec::new();
        let mut errors: Vec<(usize, ExecError<E>)> = Vec::new();
        let mut t: usize = 0;
        while left.len() > 0
            invariant
                t + left@.len() == all.len() == total,
                forall|i: int| 0 <= i < left@.len() ==> #[trigger] left@[i] == all[all.len() - 1 - i],
                outputs@ == outputs_of(all.take(t as int)),
                errors@ == errors_of(all.take(t as int)),
            decreases left@.len(),
        {
            assert(all.take(t + 1).drop_last() =~= all.take(t as int));
            match left.pop() {
                Some(TargetPhase::Succeeded(output)) => outputs.push((t, output)),
                Some(TargetPhase::Failed(error)) => errors.push((t, error)),
                _ => {},
            }
            t += 1;
        }
        assert(all.take(t as int) =~= all);
        (outputs, errors)
    }
}

impl<'a, S, T> Batch<'a, S, QueryResult<T>, Error> {
    /// Ends the batch and returns the results and the errors of the query
    /// targets that are done, each under the name of its query target, in
    /// the order of the query targets.
    ///
    /// Once the batch is complete, every query target stands in one of the
    /// two. Beside them stand, under the same names, the errors of
    /// disconnecting a pool after the statement had failed: they tell that a
    /// pool may not have been given back, and take no query target's place.
    pub fn into_query_outcome(self) -> (outcome: (
        Vec<QueryResult<T>>,
        Vec<QueryError>,
        Vec<QueryError>,
    ))
        requires
            self.wf(),
        ensures
            tagged_results(self@, outcome.0@),
            tagged_errors(self@, outcome.1@),
            tagged_disconnect_errors(self@, outcome.2@),
    {
        let query_targets = self.query_targets;
        let ghost batch = self@;
        let (outputs, failures) = self.into_outcome();
        proof {
            lemma_outputs_of(batch.targets);
            lemma_errors_of(batch.targets);
        }
        let ghost all_outputs = outputs@;
        let ghost all_failures = failures@;
        let mut results: Vec<QueryResult<T>> = Vec::new();
        let mut left = turned(outputs);
        while left.len() > 0
            invariant
                results@.len() + left@.len() == all_outputs.len(),
                forall|i: int|
                    0 <= i < left@.len() ==> #[trigger] left@[i] == all_outputs[all_outputs.len()
                        - 1 - i],
                forall|p: int|
                    0 <= p < all_outputs.len() ==> (#[trigger] all_outputs[p]).0
                        < query_targets@.len(),
                forall|p: int|
                    0 <= p < results@.len() ==> (#[trigger] results@[p]).name@
                        == query_targets@[all_outputs[p].0 as int].name@ && results@[p].result_sets
                        == all_outputs[p].1.result_sets,
            decreases left@.len(),
        {
            match left.pop() {
                Some((target, query_result)) => {
                    let QueryResult { result_sets, .. } = query_result;
                    results.push(
                        QueryResult { name: owned_text(&query_targets[target].name), result_sets },
                    );
                },
                None => {},
            }
        }
        let mut errors: Vec<QueryError> = Vec::new();
        let mut disconnect_errors: Vec<QueryError> = Vec::new();
        let mut left = turned(failures);
        while left.len() > 0
            invariant
                errors@.len() + left@.len() == all_failures.len(),
                disconnect_errors@.len() == disconnect_errors_in(
                    all_failures.take(errors@.len() as int),
                ).len(),
                forall|q: int|
                    0 <= q < disconnect_errors@.len() ==> (#[trigger] disconnect_errors@[q]).name@
                        == query_targets@[disconnect_errors_in(
                        all_failures.take(errors@.len() as int),
                    )[q].0 as int].name@ && disconnect_errors@[q].error == disconnect_errors_in(
                        all_failures.take(errors@.len() as int),
                    )[q].1,
                forall|i: int|
                    0 <= i < left@.len() ==> #[trigger] left@[i] == all_failures[all_failures.len()
                        - 1 - i],
                forall|p: int|
                    0 <= p < all_failures.len() ==> (#[trigger] all_failures[p]).0
                        < query_targets@.len(),
                forall|p: int|
                    0 <= p < errors@.len() ==> (#[trigger] errors@[p]).name@
                        == query_targets@[all_failures[p].0 as int].name@ && errors@[p].error
                        == all_failures[p].1.flat(),
            decreases left@.len(),
        {
            proof {
                let done = errors@.len() as int;
                assert(all_failures.take(done + 1).drop_last() =~= all_failures.take(done));
            }
            match left.pop() {
                Some((target, failure)) => {
                    let (primary, disconnect) = failure.split();
                    errors.push(
                        QueryError {
                            name: owned_text(&query_targets[target].name),
                            error: primary.flatten(),
                        },
                    );
                    match disconnect {
                        Some(error) => disconnect_errors.push(
                            QueryError { name: owned_text(&query_targets[target].name), error },
                        ),
                        None => {},
                    }
                },
                None => {},
            }
        }
        assert(all_failures.take(errors@.len() as int) =~= all_failures);
        (results, errors, disconnect_errors)
    }
}

} // verus!
