use crate::batch::model::{
    running_between, sessions_held, BatchView, ChunkPhase, TargetPhase,
};
use crate::batch::plan::{lemma_chunk_within, lemma_chunks_in_order};
use crate::error::Error;
use crate::exec_error::ExecError;
use crate::ssh_tunnel_map::SshTunnelMap;
use vstd::prelude::*;

verus! {

/// Changing the phase of one chunk changes the number of sessions by what
/// that chunk counts for.
pub proof fn lemma_sessions_held_update<S>(chunks: Seq<ChunkPhase<S>>, at: int, phase: ChunkPhase<S>)
    requires
        0 <= at < chunks.len(),
    ensures
        sessions_held(chunks.update(at, phase)) + (if chunks[at].holds_session() {
            1nat
        } else {
            0nat
        }) == sessions_held(chunks) + (if phase.holds_session() {
            1nat
        } else {
            0nat
        }),
    decreases chunks.len(),
{
    let updated = chunks.update(at, phase);
    if at == chunks.len() - 1 {
        assert(updated.drop_last() =~= chunks.drop_last());
    } else {
        assert(updated.drop_last() =~= chunks.drop_last().update(at, phase));
        lemma_sessions_held_update(chunks.drop_last(), at, phase);
    }
}

/// There are no more sessions than chunks, and none where no chunk holds
/// one.
pub proof fn lemma_sessions_held_bounds<S>(chunks: Seq<ChunkPhase<S>>)
    ensures
        sessions_held(chunks) <= chunks.len(),
        sessions_held(chunks) == 0 <==> forall|j: int|
            0 <= j < chunks.len() ==> !(#[trigger] chunks[j]).holds_session(),
    decreases chunks.len(),
{
    if chunks.len() > 0 {
        lemma_sessions_held_bounds(chunks.drop_last());
        if sessions_held(chunks) == 0 {
            assert forall|j: int| 0 <= j < chunks.len() implies !(#[trigger] chunks[j]).holds_session() by {
                if j < chunks.len() - 1 {
                    assert(chunks.drop_last()[j] == chunks[j]);
                }
            }
        } else {
            if !chunks.last().holds_session() {
                let j = choose|j: int|
                    0 <= j < chunks.drop_last().len() && (#[trigger] chunks.drop_last()[j]).holds_session();
                assert(chunks[j].holds_session());
            }
        }
    }
}

/// No more query targets run in a range than the range holds.
pub proof fn lemma_running_between_bound<O, E>(targets: Seq<TargetPhase<O, E>>, start: int, end: int)
    requires
        start <= end,
    ensures
        running_between(targets, start, end) <= end - start,
    decreases end - start,
{
    if start < end {
        lemma_running_between_bound(targets, start, end - 1);
    }
}

impl<'a, S, O, E> BatchView<'a, S, O, E> {
    /// A query target belongs to one chunk only.
    pub proof fn lemma_one_chunk(self, first: int, second: int, target: int)
        requires
            self.shaped(),
            self.in_chunk(first, target),
            self.in_chunk(second, target),
        ensures
            first == second,
    {
        let targets = self.targets.len();
        let per_chunk = self.tunnels_per_ssh_connection as nat;
        if first < second {
            lemma_chunks_in_order(self.ranges, targets, per_chunk, first, second);
        } else if second < first {
            lemma_chunks_in_order(self.ranges, targets, per_chunk, second, first);
        }
    }

    /// Where only the query targets of one chunk have changed, the other
    /// chunks are as sound as before.
    pub proof fn lemma_frame(self, chunk: int, after: Self)
        requires
            self.sound_but(chunk),
            0 <= chunk < self.chunks.len(),
            after == (BatchView { targets: after.targets, ..self }),
            after.targets.len() == self.targets.len(),
            forall|t: int|
                0 <= t < self.targets.len() && !self.in_chunk(chunk, t) ==> (
                #[trigger] after.targets[t]) == self.targets[t],
        ensures
            after.sound_but(chunk),
    {
        let targets = self.targets.len();
        let per_chunk = self.tunnels_per_ssh_connection as nat;
        assert forall|j: int|
            0 <= j < after.chunks.len() && j != chunk implies #[trigger] after.chunk_sound(j) by {
            assert(self.chunk_sound(j));
            lemma_chunk_within(self.ranges, targets, per_chunk, j);
            assert forall|t: int| after.in_chunk(j, t) implies #[trigger] after.fits(j, t) by {
                assert(self.fits(j, t));
                if self.in_chunk(chunk, t) {
                    self.lemma_one_chunk(j, chunk, t);
                }
            }
            if after.chunks[j] is Open {
                let t = choose|t: int|
                    self.in_chunk(j, t) && (#[trigger] self.targets[t]) is Running;
                if self.in_chunk(chunk, t) {
                    self.lemma_one_chunk(j, chunk, t);
                }
                assert(after.in_chunk(j, t) && after.targets[t] is Running);
            }
        }
    }

    /// Where only the phase of one chunk has changed, the other chunks are
    /// as sound as before.
    pub proof fn lemma_rephased(self, chunk: int, phase: ChunkPhase<S>)
        requires
            self.sound_but(chunk),
            0 <= chunk < self.chunks.len(),
            !(phase is Pending),
            !(self.chunks[chunk] is Pending),
        ensures
            (BatchView { chunks: self.chunks.update(chunk, phase), ..self }).sound_but(chunk),
            sessions_held(self.chunks.update(chunk, phase)) + (if self.chunks[chunk].holds_session() {
                1nat
            } else {
                0nat
            }) == sessions_held(self.chunks) + (if phase.holds_session() {
                1nat
            } else {
                0nat
            }),
    {
        let after = BatchView { chunks: self.chunks.update(chunk, phase), ..self };
        lemma_sessions_held_update(self.chunks, chunk, phase);
        assert forall|j: int|
            0 <= j < after.chunks.len() && j != chunk implies #[trigger] after.chunk_sound(j) by {
            assert(self.chunk_sound(j));
            assert forall|t: int| after.in_chunk(j, t) implies #[trigger] after.fits(j, t) by {
                assert(self.fits(j, t));
            }
            if after.chunks[j] is Open {
                let t = choose|t: int|
                    self.in_chunk(j, t) && (#[trigger] self.targets[t]) is Running;
                assert(after.in_chunk(j, t) && after.targets[t] is Running);
            }
        }
    }

    /// Asking for the next session keeps the batch sound, and holds one
    /// session more where one was asked for.
    pub proof fn lemma_refilled_sound(self)
        requires
            self.sound(),
        ensures
            self.refilled().sound(),
            self.refilled().open_sessions() == self.open_sessions() + if self.can_start() {
                1nat
            } else {
                0nat
            },
    {
        if self.can_start() {
            let next = self.next_chunk as int;
            let after = self.refilled();
            lemma_sessions_held_update(self.chunks, next, ChunkPhase::Opening);
            assert forall|j: int| 0 <= j < after.chunks.len() implies #[trigger] after.chunk_sound(
                j,
            ) by {
                assert(self.chunk_sound(j));
                assert forall|t: int| after.in_chunk(j, t) implies #[trigger] after.fits(j, t) by {
                    assert(self.fits(j, t));
                }
                if after.chunks[j] is Open {
                    let t = choose|t: int|
                        self.in_chunk(j, t) && (#[trigger] self.targets[t]) is Running;
                    assert(after.in_chunk(j, t) && after.targets[t] is Running);
                }
            }
        }
    }

    /// Asking for the next session keeps the batch as it should be, where it
    /// was short of one session at most.
    pub proof fn lemma_refilled(self)
        requires
            self.sound(),
            self.open_sessions() <= self.ssh_concurrent_limit,
            self.next_chunk < self.chunks.len() ==> self.open_sessions() + 1
                >= self.ssh_concurrent_limit,
        ensures
            self.refilled().wf(),
    {
        self.lemma_refilled_sound();
    }

    /// Closing a chunk whose query targets are all done keeps the batch
    /// sound, and gives one session back.
    pub proof fn lemma_closed(self, chunk: int)
        requires
            self.sound_but(chunk),
            0 <= chunk < self.chunks.len(),
            self.chunks[chunk].holds_session(),
            forall|t: int| self.in_chunk(chunk, t) ==> (#[trigger] self.targets[t]).is_done(),
        ensures
            self.closed(chunk).sound(),
            self.closed(chunk).open_sessions() + 1 == self.open_sessions(),
    {
        let after = self.closed(chunk);
        self.lemma_rephased(chunk, ChunkPhase::Closed);
        assert forall|j: int| 0 <= j < after.chunks.len() implies #[trigger] after.chunk_sound(
            j,
        ) by {
            if j == chunk {
                assert forall|t: int| after.in_chunk(j, t) implies #[trigger] after.fits(j, t) by {
                    assert(self.in_chunk(j, t));
                }
            }
        }
    }

    /// Keeping the session of a chunk open, while an operation is running on
    /// one of its query targets and none is waiting, keeps the batch sound
    /// and holds as many sessions as before.
    pub proof fn lemma_opened(self, chunk: int, tunnel_map: SshTunnelMap<S>)
        requires
            self.sound_but(chunk),
            0 <= chunk < self.chunks.len(),
            self.chunks[chunk].holds_session(),
            forall|t: int| self.in_chunk(chunk, t) ==> !((#[trigger] self.targets[t]) is Waiting),
            self.some_running(chunk),
        ensures
            (BatchView {
                chunks: self.chunks.update(chunk, ChunkPhase::Open { tunnel_map }),
                ..self
            }).sound(),
            sessions_held(self.chunks.update(chunk, ChunkPhase::Open { tunnel_map }))
                == self.open_sessions(),
    {
        let phase = ChunkPhase::Open { tunnel_map };
        let after = BatchView { chunks: self.chunks.update(chunk, phase), ..self };
        self.lemma_rephased(chunk, phase);
        assert forall|j: int| 0 <= j < after.chunks.len() implies #[trigger] after.chunk_sound(
            j,
        ) by {
            if j == chunk {
                assert forall|t: int| after.in_chunk(j, t) implies #[trigger] after.fits(j, t) by {
                    assert(self.in_chunk(j, t));
                }
                let t = choose|t: int|
                    self.in_chunk(chunk, t) && (#[trigger] self.targets[t]) is Running;
                assert(after.in_chunk(j, t) && after.targets[t] is Running);
            }
        }
    }

    /// The batch is as it should be after the session of a chunk could not be
    /// opened.
    pub proof fn lemma_failed_to_open(self, chunk: int, error: Error)
        requires
            self.wf(),
            0 <= chunk < self.chunks.len(),
            self.chunks[chunk] is Opening,
        ensures
            self.failed_to_open(chunk, error).wf(),
    {
        let marked = self.all_failed(chunk, error);
        self.lemma_frame(chunk, marked);
        lemma_chunk_within(
            self.ranges,
            self.targets.len(),
            self.tunnels_per_ssh_connection as nat,
            chunk,
        );
        marked.lemma_closed(chunk);
        marked.closed(chunk).lemma_refilled();
    }

    /// The batch is as it should be after the session of a chunk was opened
    /// and the chunk was looked at again.
    pub proof fn lemma_dispatched(self, chunk: int, tunnel_map: SshTunnelMap<S>, dispatched: Self)
        requires
            self.wf(),
            0 <= chunk < self.chunks.len(),
            self.chunks[chunk] is Opening,
            self.dispatches(chunk, tunnel_map, dispatched),
        ensures
            dispatched.settled(chunk, tunnel_map).wf(),
    {
        self.lemma_frame(chunk, dispatched);
        lemma_chunk_within(
            self.ranges,
            self.targets.len(),
            self.tunnels_per_ssh_connection as nat,
            chunk,
        );
        if dispatched.some_running(chunk) {
            dispatched.lemma_opened(chunk, tunnel_map);
        } else {
            dispatched.lemma_closed(chunk);
            dispatched.closed(chunk).lemma_refilled();
        }
    }

    /// The batch is as it should be after the operation on a query target
    /// returned and its chunk was looked at again.
    pub proof fn lemma_finished(
        self,
        chunk: int,
        target: int,
        outcome: Result<O, ExecError<E>>,
        tunnel_map: SshTunnelMap<S>,
    )
        requires
            self.wf(),
            self.in_chunk(chunk, target),
            self.targets[target] is Running,
        ensures
            self.chunks[chunk] is Open,
            self.finished(target, outcome).settled(chunk, tunnel_map).wf(),
    {
        let after = self.finished(target, outcome);
        assert(self.chunk_sound(chunk));
        assert(self.fits(chunk, target));
        lemma_chunk_within(
            self.ranges,
            self.targets.len(),
            self.tunnels_per_ssh_connection as nat,
            chunk,
        );
        self.lemma_frame(chunk, after);
        assert forall|t: int| after.in_chunk(chunk, t) implies !((
        #[trigger] after.targets[t]) is Waiting) by {
            assert(self.fits(chunk, t));
        }
        if after.some_running(chunk) {
            after.lemma_opened(chunk, tunnel_map);
        } else {
            assert forall|t: int| after.in_chunk(chunk, t) implies (
            #[trigger] after.targets[t]).is_done() by {
                assert(!(after.targets[t] is Waiting));
            }
            after.lemma_closed(chunk);
            after.closed(chunk).lemma_refilled();
        }
    }
}

impl<'a, S, O, E> BatchView<'a, S, O, E> {
    /// Every query target belongs to a chunk.
    pub proof fn lemma_chunk_of(self, target: int)
        requires
            self.shaped(),
            0 <= target < self.targets.len(),
        ensures
            self.in_chunk(self.chunk_of(target), target),
    {
        self.lemma_covered(target, self.ranges.len() - 1);
    }

    /// Every query target before the end of a chunk belongs to that chunk or
    /// to one before it.
    pub proof fn lemma_covered(self, target: int, upto: int)
        requires
            self.shaped(),
            0 <= upto < self.ranges.len(),
            0 <= target < self.ranges[upto].end,
        ensures
            exists|j: int| self.in_chunk(j, target),
        decreases upto,
    {
        if self.ranges[upto].start <= target {
            assert(self.in_chunk(upto, target));
        } else {
            self.lemma_covered(target, upto - 1);
        }
    }
}

} // verus!
