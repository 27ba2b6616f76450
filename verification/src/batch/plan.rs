use vstd::prelude::*;

verus! {

/// The query targets of one chunk: those from `start` up to, not including,
/// `end`.
#[derive(Clone, Copy, Debug, PartialEq, Eq)]
pub struct ChunkRange {
    pub start: usize,
    pub end: usize,
}

/// Whether `ranges` cuts `targets` query targets into chunks of `per_chunk`
/// in their order, the last one holding what is left.
pub open spec fn partitions(ranges: Seq<ChunkRange>, targets: nat, per_chunk: nat) -> bool {
    &&& per_chunk > 0
    &&& (ranges.len() == 0 <==> targets == 0)
    &&& ranges.len() > 0 ==> ranges[0].start == 0 && ranges.last().end == targets
    &&& forall|j: int|
        0 <= j < ranges.len() ==> 0 < (#[trigger] ranges[j]).end - ranges[j].start <= per_chunk
    &&& forall|j: int|
        0 <= j < ranges.len() - 1 ==> (#[trigger] ranges[j]).end - ranges[j].start == per_chunk
    &&& forall|i: int, j: int|
        0 <= i && j == i + 1 && j < ranges.len() ==> (#[trigger] ranges[i]).end
            == (#[trigger] ranges[j]).start
}

/// A chunk that comes before another one ends where the other starts, or
/// earlier.
pub proof fn lemma_chunks_in_order(
    ranges: Seq<ChunkRange>,
    targets: nat,
    per_chunk: nat,
    before: int,
    after: int,
)
    requires
        partitions(ranges, targets, per_chunk),
        0 <= before < after < ranges.len(),
    ensures
        ranges[before].end <= ranges[after].start,
    decreases after - before,
{
    if before + 1 < after {
        lemma_chunks_in_order(ranges, targets, per_chunk, before, after - 1);
    }
}

/// No chunk reaches beyond the last query target.
pub proof fn lemma_chunk_within(ranges: Seq<ChunkRange>, targets: nat, per_chunk: nat, chunk: int)
    requires
        partitions(ranges, targets, per_chunk),
        0 <= chunk < ranges.len(),
    ensures
        ranges[chunk].start < ranges[chunk].end <= targets,
{
    if chunk < ranges.len() - 1 {
        lemma_chunks_in_order(ranges, targets, per_chunk, chunk, ranges.len() - 1);
    }
}

/// A chunk starts at its number times the chunk size.
pub proof fn lemma_chunk_start(ranges: Seq<ChunkRange>, targets: nat, per_chunk: nat, chunk: int)
    requires
        partitions(ranges, targets, per_chunk),
        0 <= chunk < ranges.len(),
    ensures
        ranges[chunk].start == chunk * per_chunk,
        ranges[chunk].end == if chunk * per_chunk + per_chunk <= targets {
            chunk * per_chunk + per_chunk
        } else {
            targets as int
        },
    decreases chunk,
{
    if chunk > 0 {
        lemma_chunk_start(ranges, targets, per_chunk, chunk - 1);
        assert((chunk - 1) * per_chunk + per_chunk == chunk * per_chunk) by (nonlinear_arith);
    }
    lemma_chunk_within(ranges, targets, per_chunk, chunk);
}

/// Cuts `targets` query targets into chunks of `per_chunk`, and says for each
/// query target which chunk it is in.
pub fn plan_chunks(targets: usize, per_chunk: usize) -> (plan: (Vec<ChunkRange>, Vec<usize>))
    requires
        per_chunk > 0,
    ensures
        partitions(plan.0@, targets as nat, per_chunk as nat),
        plan.1@.len() == targets,
        forall|t: int|
            0 <= t < targets ==> (#[trigger] plan.1@[t]) < plan.0@.len() && plan.0@[plan.1@[t] as int].start
                <= t < plan.0@[plan.1@[t] as int].end,
{
    let mut ranges: Vec<ChunkRange> = Vec::new();
    let mut chunk_of: Vec<usize> = Vec::new();
    let mut start: usize = 0;
    while start < targets
        invariant
            per_chunk > 0,
            start <= targets,
            ranges@.len() == 0 <==> start == 0,
            ranges@.len() > 0 ==> ranges@[0].start == 0 && ranges@.last().end == start,
            forall|j: int|
                0 <= j < ranges@.len() ==> 0 < (#[trigger] ranges@[j]).end - ranges@[j].start
                    <= per_chunk,
            forall|j: int|
                0 <= j < ranges@.len() - 1 ==> (#[trigger] ranges@[j]).end - ranges@[j].start
                    == per_chunk,
            forall|i: int, j: int|
                0 <= i && j == i + 1 && j < ranges@.len() ==> (#[trigger] ranges@[i]).end
                    == (#[trigger] ranges@[j]).start,
            start < targets ==> forall|j: int|
                0 <= j < ranges@.len() ==> (#[trigger] ranges@[j]).end - ranges@[j].start
                    == per_chunk,
            ranges@.len() <= start,
            chunk_of@.len() == start,
            forall|t: int|
                0 <= t < start ==> (#[trigger] chunk_of@[t]) < ranges@.len()
                    && ranges@[chunk_of@[t] as int].start <= t < ranges@[chunk_of@[t] as int].end,
        decreases targets - start,
    {
        let end: usize = if targets - start <= per_chunk {
            targets
        } else {
            start + per_chunk
        };
        let chunk: usize = ranges.len();
        ranges.push(ChunkRange { start, end });
        let mut t: usize = start;
        while t < end
            invariant
                start <= t <= end,
                chunk + 1 == ranges@.len(),
                ranges@[chunk as int] == (ChunkRange { start, end }),
                chunk_of@.len() == t,
                forall|u: int|
                    0 <= u < t ==> (#[trigger] chunk_of@[u]) < ranges@.len()
                        && ranges@[chunk_of@[u] as int].start <= u < ranges@[chunk_of@[u] as int].end,
            decreases end - t,
        {
            chunk_of.push(chunk);
            t += 1;
        }
        start = end;
    }
    (ranges, chunk_of)
}

} // verus!
