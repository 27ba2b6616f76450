use crate::batch::plan::{partitions, ChunkRange};
use crate::error::Error;
use crate::exec_error::ExecError;
use crate::query_target::QueryTarget;
use crate::socket_address::SocketAddress;
use crate::ssh_tunnel_map::SshTunnelMap;
use ssh_jumper::model::HostAddress;
use vstd::prelude::*;

verus! {

/// How far a chunk of query targets has come.
///
/// # Type Parameters
///
/// * `S`: Handle of the SSH session.
pub enum ChunkPhase<S> {
    /// No SSH session has been asked for yet.
    Pending,
    /// The SSH session and its tunnels are being opened.
    Opening,
    /// The SSH session is open and some of the chunk's query targets are
    /// still running.
    Open {
        /// The session, and the tunnels that its query targets run through.
        tunnel_map: SshTunnelMap<S>,
    },
    /// The SSH session could not be opened, or it has been given back to be
    /// closed.
    Closed,
}

impl<S> ChunkPhase<S> {
    /// Whether the chunk counts as an SSH session: one is being opened or is
    /// open for it.
    pub open spec fn holds_session(self) -> bool {
        self is Opening || self is Open
    }
}

/// How far one query target has come.
///
/// # Type Parameters
///
/// * `O`: Output of the operation on a query target.
/// * `E`: Error of the operation on a query target.
pub enum TargetPhase<O, E> {
    /// The SSH session of its chunk is not open yet.
    Waiting,
    /// The operation is running through the target's tunnel.
    Running,
    /// The operation returned this output.
    Succeeded(O),
    /// There was no tunnel, or the operation failed.
    Failed(ExecError<E>),
}

impl<O, E> TargetPhase<O, E> {
    /// Whether the target has its output or its error.
    pub open spec fn is_done(self) -> bool {
        self is Succeeded || self is Failed
    }
}

/// What the caller is asked to do next.
pub enum BatchAction<S> {
    /// Open an SSH session to the jump host, and through it one tunnel for
    /// each query target of the chunk.
    PrepareTunnels { chunk: usize },
    /// Run the operation on the query target, through the tunnel that ends at
    /// `db_tunnel`.
    RunTarget { target: usize, db_tunnel: SocketAddress },
    /// Close the SSH session of the chunk: all its query targets are done.
    CloseSession { chunk: usize, tunnel_map: SshTunnelMap<S> },
}

/// What the caller reports back.
pub enum BatchEvent<S, O, E> {
    /// The SSH session and the tunnels of a chunk were opened, or could not
    /// be.
    TunnelsReady { chunk: usize, tunnels: Result<SshTunnelMap<S>, Error> },
    /// The operation on a query target returned.
    TargetFinished { target: usize, outcome: Result<O, ExecError<E>> },
}

/// Number of chunks for which an SSH session is being opened or is open.
pub open spec fn sessions_held<S>(chunks: Seq<ChunkPhase<S>>) -> nat
    decreases chunks.len(),
{
    if chunks.len() == 0 {
        0
    } else {
        sessions_held(chunks.drop_last()) + if chunks.last().holds_session() {
            1nat
        } else {
            0nat
        }
    }
}

/// Number of query targets from `start` up to `end` whose operation is
/// running.
pub open spec fn running_between<O, E>(targets: Seq<TargetPhase<O, E>>, start: int, end: int) -> nat
    decreases end - start,
{
    if end <= start {
        0
    } else {
        running_between(targets, start, end - 1) + if targets[end - 1] is Running {
            1nat
        } else {
            0nat
        }
    }
}

/// What a [`Batch`] stands for: its limits, its query targets in chunks, and
/// how far each chunk and each query target has come.
pub struct BatchView<'a, S, O, E> {
    /// Maximum number of SSH sessions at the same time.
    pub ssh_concurrent_limit: usize,
    /// Maximum number of tunnels per SSH session.
    pub tunnels_per_ssh_connection: usize,
    /// Address of the jump host.
    pub jump_host_address: HostAddress<'static>,
    /// The query targets of the batch.
    pub query_targets: Seq<QueryTarget<'a>>,
    /// The query targets that each chunk holds.
    pub ranges: Seq<ChunkRange>,
    /// How far each chunk has come.
    pub chunks: Seq<ChunkPhase<S>>,
    /// How far each query target has come.
    pub targets: Seq<TargetPhase<O, E>>,
    /// The first chunk that no SSH session has been asked for.
    pub next_chunk: nat,
}

impl<'a, S, O, E> BatchView<'a, S, O, E> {
    /// Number of SSH sessions that are being opened or are open.
    pub open spec fn open_sessions(self) -> nat {
        sessions_held(self.chunks)
    }

    /// Number of tunnels of a chunk that an operation is running through.
    pub open spec fn active_endpoints(self, chunk: int) -> nat {
        running_between(self.targets, self.ranges[chunk].start as int, self.ranges[chunk].end as int)
    }

    /// Whether the query target belongs to the chunk.
    pub open spec fn in_chunk(self, chunk: int, target: int) -> bool {
        0 <= chunk < self.ranges.len() && self.ranges[chunk].start <= target
            < self.ranges[chunk].end
    }

    /// Whether the query target has come as far as its chunk allows: it waits
    /// until the session is open, and it is done before the session is given
    /// back.
    pub open spec fn fits(self, chunk: int, target: int) -> bool {
        match self.chunks[chunk] {
            ChunkPhase::Pending | ChunkPhase::Opening => self.targets[target] is Waiting,
            ChunkPhase::Open { .. } => !(self.targets[target] is Waiting),
            ChunkPhase::Closed => self.targets[target].is_done(),
        }
    }

    /// Whether an operation is running on some query target of the chunk.
    pub open spec fn some_running(self, chunk: int) -> bool {
        exists|t: int| self.in_chunk(chunk, t) && (#[trigger] self.targets[t]) is Running
    }

    /// Whether the limits, the chunks and the order in which sessions are
    /// asked for are as they should be.
    pub open spec fn shaped(self) -> bool {
        &&& self.ssh_concurrent_limit > 0
        &&& self.targets.len() <= usize::MAX
        &&& self.query_targets.len() == self.targets.len()
        &&& self.ranges.len() == self.chunks.len()
        &&& partitions(
            self.ranges,
            self.targets.len(),
            self.tunnels_per_ssh_connection as nat,
        )
        &&& self.next_chunk <= self.chunks.len()
        &&& forall|j: int|
            0 <= j < self.chunks.len() ==> ((#[trigger] self.chunks[j]) is Pending <==> j
                >= self.next_chunk)
    }

    /// Whether the query targets of the chunk have come as far as the chunk
    /// allows, and the session is only held open for an operation that is
    /// running.
    pub open spec fn chunk_sound(self, chunk: int) -> bool {
        &&& forall|t: int| self.in_chunk(chunk, t) ==> #[trigger] self.fits(chunk, t)
        &&& self.chunks[chunk] is Open ==> self.some_running(chunk)
    }

    /// What holds of a batch at every moment, but for how many sessions are
    /// held.
    pub open spec fn sound(self) -> bool {
        &&& self.shaped()
        &&& forall|j: int| 0 <= j < self.chunks.len() ==> #[trigger] self.chunk_sound(j)
    }

    /// What holds of a batch while the query targets of one chunk are being
    /// dealt with.
    pub open spec fn sound_but(self, chunk: int) -> bool {
        &&& self.shaped()
        &&& forall|j: int|
            0 <= j < self.chunks.len() && j != chunk ==> #[trigger] self.chunk_sound(j)
    }

    /// What holds of a batch at every moment: it is sound, it holds no more
    /// sessions than the limit, and as many as the limit while a chunk is
    /// still pending.
    pub open spec fn wf(self) -> bool {
        &&& self.sound()
        &&& self.open_sessions() <= self.ssh_concurrent_limit
        &&& self.next_chunk < self.chunks.len() ==> self.open_sessions()
            == self.ssh_concurrent_limit
    }

    /// Whether every chunk has been dealt with.
    pub open spec fn is_complete(self) -> bool {
        forall|j: int| 0 <= j < self.chunks.len() ==> (#[trigger] self.chunks[j]) is Closed
    }

    /// Whether a session may be asked for: a chunk is pending and the limit
    /// is not reached.
    pub open spec fn can_start(self) -> bool {
        self.next_chunk < self.chunks.len() && self.open_sessions() < self.ssh_concurrent_limit
    }

    /// The batch after a session was asked for the next pending chunk, if one
    /// may be.
    pub open spec fn refilled(self) -> Self {
        if self.can_start() {
            BatchView {
                chunks: self.chunks.update(self.next_chunk as int, ChunkPhase::Opening),
                next_chunk: self.next_chunk + 1,
                ..self
            }
        } else {
            self
        }
    }

    /// What the caller is asked to do when a session may be asked for.
    pub open spec fn refill_actions(self) -> Seq<BatchAction<S>> {
        if self.can_start() {
            seq![BatchAction::PrepareTunnels { chunk: self.next_chunk as usize }]
        } else {
            seq![]
        }
    }

    /// The batch after the chunk was closed.
    pub open spec fn closed(self, chunk: int) -> Self {
        BatchView { chunks: self.chunks.update(chunk, ChunkPhase::Closed), ..self }
    }

    /// The batch after each query target of the chunk has failed with a copy
    /// of the error.
    pub open spec fn all_failed(self, chunk: int, error: Error) -> Self {
        BatchView {
            targets: Seq::new(
                self.targets.len(),
                |t: int|
                    if self.in_chunk(chunk, t) {
                        TargetPhase::Failed(ExecError::Support(error.shared()))
                    } else {
                        self.targets[t]
                    },
            ),
            ..self
        }
    }

    /// The batch after the session of a chunk could not be opened: each of
    /// its query targets has failed with that error, the chunk is closed,
    /// and the next pending chunk takes its place.
    pub open spec fn failed_to_open(self, chunk: int, error: Error) -> Self {
        self.all_failed(chunk, error).closed(chunk).refilled()
    }

    /// Whether the batch has just been started: every query target waits,
    /// and sessions have been asked for the first chunks, as many as the
    /// limit allows.
    pub open spec fn is_initial(self) -> bool {
        &&& forall|t: int| 0 <= t < self.targets.len() ==> (#[trigger] self.targets[t]) is Waiting
        &&& forall|j: int|
            0 <= j < self.next_chunk ==> (#[trigger] self.chunks[j]) is Opening
        &&& self.next_chunk == if self.chunks.len() <= self.ssh_concurrent_limit {
            self.chunks.len()
        } else {
            self.ssh_concurrent_limit as nat
        }
    }

    /// Whether the batch waits for this event.
    pub open spec fn expects(self, event: BatchEvent<S, O, E>) -> bool {
        match event {
            BatchEvent::TunnelsReady { chunk, .. } => chunk < self.chunks.len()
                && self.chunks[chunk as int] is Opening,
            BatchEvent::TargetFinished { target, .. } => target < self.targets.len()
                && self.targets[target as int] is Running,
        }
    }

    /// Whether `after` is the batch after the event, and `actions` what the
    /// caller is asked to do then. An event that the batch does not wait for
    /// changes nothing and asks for nothing.
    pub open spec fn steps(
        self,
        event: BatchEvent<S, O, E>,
        after: Self,
        actions: Seq<BatchAction<S>>,
    ) -> bool {
        if !self.expects(event) {
            after == self && actions == Seq::<BatchAction<S>>::empty()
        } else {
            match event {
                BatchEvent::TunnelsReady { chunk, tunnels: Err(error) } => {
                    &&& after == self.failed_to_open(chunk as int, error)
                    &&& actions == self.all_failed(chunk as int, error).closed(
                        chunk as int,
                    ).refill_actions()
                },
                BatchEvent::TunnelsReady { chunk, tunnels: Ok(tunnel_map) } => {
                    let dispatched = BatchView { targets: after.targets, ..self };
                    &&& self.dispatches(chunk as int, tunnel_map, dispatched)
                    &&& after == dispatched.settled(chunk as int, tunnel_map)
                    &&& actions == self.run_actions(
                        tunnel_map,
                        self.ranges[chunk as int].start as int,
                        self.ranges[chunk as int].end as int,
                    ) + dispatched.settle_actions(chunk as int, tunnel_map)
                },
                BatchEvent::TargetFinished { target, outcome } => {
                    let chunk = self.chunk_of(target as int);
                    &&& self.in_chunk(chunk, target as int)
                    &&& self.chunks[chunk] matches ChunkPhase::Open { tunnel_map }
                    &&& after == self.finished(target as int, outcome).settled(chunk, tunnel_map)
                    &&& actions == self.finished(target as int, outcome).settle_actions(
                        chunk,
                        tunnel_map,
                    )
                },
            }
        }
    }

    /// Whether the query target has failed for want of a tunnel, with an
    /// error that names the jump host and the query target.
    pub open spec fn lacks_tunnel(self, target: int, phase: TargetPhase<O, E>) -> bool {
        phase matches TargetPhase::Failed(
            ExecError::Support(Error::SshTunnelNotFound { jump_host_address, query_target }),
        ) && jump_host_address == self.jump_host_address && query_target@
            == self.query_targets[target]@
    }

    /// Whether the session has a tunnel for the query target.
    pub open spec fn has_tunnel(self, tunnel_map: SshTunnelMap<S>, target: int) -> bool {
        tunnel_map.tunnels().dom().contains(self.query_targets[target].name@)
    }

    /// What the caller is asked to do for the query targets from `start` up
    /// to `end` once their session is open: run each one that has a tunnel.
    pub open spec fn run_actions(
        self,
        tunnel_map: SshTunnelMap<S>,
        start: int,
        end: int,
    ) -> Seq<BatchAction<S>>
        decreases end - start,
    {
        if end <= start {
            seq![]
        } else {
            let before = self.run_actions(tunnel_map, start, end - 1);
            if self.has_tunnel(tunnel_map, end - 1) {
                before.push(
                    BatchAction::RunTarget {
                        target: (end - 1) as usize,
                        db_tunnel: tunnel_map.tunnels()[self.query_targets[end - 1].name@],
                    },
                )
            } else {
                before
            }
        }
    }

    /// Whether `dispatched` is the batch after the session of the chunk was
    /// opened, before the chunk is looked at again: each of its query
    /// targets runs if the session has a tunnel for it, and has failed if
    /// not.
    pub open spec fn dispatches(self, chunk: int, tunnel_map: SshTunnelMap<S>, dispatched: Self) -> bool {
        &&& dispatched == BatchView { targets: dispatched.targets, ..self }
        &&& dispatched.targets.len() == self.targets.len()
        &&& forall|t: int|
            0 <= t < self.targets.len() ==> if self.in_chunk(chunk, t) {
                if self.has_tunnel(tunnel_map, t) {
                    (#[trigger] dispatched.targets[t]) is Running
                } else {
                    self.lacks_tunnel(t, dispatched.targets[t])
                }
            } else {
                dispatched.targets[t] == self.targets[t]
            }
    }

    /// The batch after the chunk was looked at again, once one of its query
    /// targets changed: while an operation is running the session stays
    /// open; when none is, the chunk is closed and the next pending chunk
    /// takes its place.
    pub open spec fn settled(self, chunk: int, tunnel_map: SshTunnelMap<S>) -> Self {
        if self.some_running(chunk) {
            BatchView {
                chunks: self.chunks.update(chunk, ChunkPhase::Open { tunnel_map }),
                ..self
            }
        } else {
            self.closed(chunk).refilled()
        }
    }

    /// What the caller is asked to do when the chunk is looked at again: to
    /// close the session when no operation is running through it, and then
    /// to open the next one.
    pub open spec fn settle_actions(self, chunk: int, tunnel_map: SshTunnelMap<S>) -> Seq<
        BatchAction<S>,
    > {
        if self.some_running(chunk) {
            seq![]
        } else {
            seq![BatchAction::CloseSession { chunk: chunk as usize, tunnel_map }]
                + self.closed(chunk).refill_actions()
        }
    }

    /// The batch after the operation on a query target returned.
    pub open spec fn finished(self, target: int, outcome: Result<O, ExecError<E>>) -> Self {
        BatchView {
            targets: self.targets.update(
                target,
                match outcome {
                    Ok(output) => TargetPhase::Succeeded(output),
                    Err(error) => TargetPhase::Failed(error),
                },
            ),
            ..self
        }
    }

    /// The chunk that the query target belongs to.
    pub open spec fn chunk_of(self, target: int) -> int {
        choose|j: int| self.in_chunk(j, target)
    }
}

} // verus!
