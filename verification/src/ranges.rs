use vstd::prelude::*;

verus! {

broadcast use vstd::array::group_array_axioms;

/// One end of an axis range: inclusive of a position, exclusive of it, or
/// unbounded.
#[derive(Clone, Copy, PartialEq, Eq, Hash, Debug)]
pub enum IdxBound {
    Included(usize),
    Excluded(usize),
    Unbounded,
}

/// A range over one axis, given as a bound at each end; `range2idxs_1d`
/// resolves it against the axis's extent.
#[derive(Clone, Copy, PartialEq, Eq, Hash, Debug)]
pub struct IdxRange {
    pub start: IdxBound,
    pub end: IdxBound,
}

/// Where a start bound resolves: an inclusive bound at its own position, an
/// exclusive one just above it, an unbounded one at 0.
pub open spec fn start_of_bound(b: IdxBound) -> int {
    match b {
        IdxBound::Included(x) => x as int,
        IdxBound::Excluded(x) => x as int + 1,
        IdxBound::Unbounded => 0,
    }
}

/// Where an end bound resolves: an inclusive bound just above its own
/// position, an exclusive one at it, an unbounded one at the axis extent.
pub open spec fn end_of_bound(b: IdxBound, size: usize) -> int {
    match b {
        IdxBound::Included(x) => x as int + 1,
        IdxBound::Excluded(x) => x as int,
        IdxBound::Unbounded => size as int,
    }
}

/// Normalizes `r` against an axis of extent `size` into the half-open pair
/// `[start, end)`. The resolved pair must satisfy `start <= end <= size`; a
/// range that violates that is a caller error and is ruled out ahead of the
/// call rather than allowed to produce a wrong pair.
pub fn range2idxs_1d(r: IdxRange, size: usize) -> (se: (usize, usize))
    requires
        start_of_bound(r.start) <= end_of_bound(r.end, size),
        end_of_bound(r.end, size) <= size,
    ensures
        se.0 == start_of_bound(r.start),
        se.1 == end_of_bound(r.end, size),
{
    let start_idx: usize = match r.start {
        IdxBound::Included(x) => x,
        IdxBound::Excluded(x) => x + 1,
        IdxBound::Unbounded => 0,
    };
    let end_idx: usize = match r.end {
        IdxBound::Included(x) => x + 1,
        IdxBound::Excluded(x) => x,
        IdxBound::Unbounded => size,
    };
    (start_idx, end_idx)
}

/// Normalizes one range per axis of a rank-2 shape, each axis independent
/// of the others, into per-axis starts and per-axis ends.
pub fn range2idxs_2d(r0: IdxRange, r1: IdxRange, size: [usize; 2]) -> (se: ([usize; 2], [usize; 2]))
    requires
        start_of_bound(r0.start) <= end_of_bound(r0.end, size@[0]) <= size@[0],
        start_of_bound(r1.start) <= end_of_bound(r1.end, size@[1]) <= size@[1],
    ensures
        se.0@[0] == start_of_bound(r0.start),
        se.0@[1] == start_of_bound(r1.start),
        se.1@[0] == end_of_bound(r0.end, size@[0]),
        se.1@[1] == end_of_bound(r1.end, size@[1]),
{
    let (s0, e0) = range2idxs_1d(r0, size[0]);
    let (s1, e1) = range2idxs_1d(r1, size[1]);
    let start_idx = [s0, s1];
    let end_idx = [e0, e1];
    (start_idx, end_idx)
}

/// Normalizes one range per axis of a rank-3 shape, each axis independent
/// of the others, into per-axis starts and per-axis ends.
pub fn range2idxs_3d(r0: IdxRange, r1: IdxRange, r2: IdxRange, size: [usize; 3]) -> (se: (
    [usize; 3],
    [usize; 3],
))
    requires
        start_of_bound(r0.start) <= end_of_bound(r0.end, size@[0]) <= size@[0],
        start_of_bound(r1.start) <= end_of_bound(r1.end, size@[1]) <= size@[1],
        start_of_bound(r2.start) <= end_of_bound(r2.end, size@[2]) <= size@[2],
    ensures
        se.0@[0] == start_of_bound(r0.start),
        se.0@[1] == start_of_bound(r1.start),
        se.0@[2] == start_of_bound(r2.start),
        se.1@[0] == end_of_bound(r0.end, size@[0]),
        se.1@[1] == end_of_bound(r1.end, size@[1]),
        se.1@[2] == end_of_bound(r2.end, size@[2]),
{
    let (s0, e0) = range2idxs_1d(r0, size[0]);
    let (s1, e1) = range2idxs_1d(r1, size[1]);
    let (s2, e2) = range2idxs_1d(r2, size[2]);
    let start_idx = [s0, s1, s2];
    let end_idx = [e0, e1, e2];
    (start_idx, end_idx)
}

/// Normalizes one range per axis of a rank-4 shape, each axis independent
/// of the others, into per-axis starts and per-axis ends.
pub fn range2idxs_4d(r0: IdxRange, r1: IdxRange, r2: IdxRange, r3: IdxRange, size: [usize; 4]) -> (se: (
    [usize; 4],
    [usize; 4],
))
    requires
        start_of_bound(r0.start) <= end_of_bound(r0.end, size@[0]) <= size@[0],
        start_of_bound(r1.start) <= end_of_bound(r1.end, size@[1]) <= size@[1],
        start_of_bound(r2.start) <= end_of_bound(r2.end, size@[2]) <= size@[2],
        start_of_bound(r3.start) <= end_of_bound(r3.end, size@[3]) <= size@[3],
    ensures
        se.0@[0] == start_of_bound(r0.start),
        se.0@[1] == start_of_bound(r1.start),
        se.0@[2] == start_of_bound(r2.start),
        se.0@[3] == start_of_bound(r3.start),
        se.1@[0] == end_of_bound(r0.end, size@[0]),
        se.1@[1] == end_of_bound(r1.end, size@[1]),
        se.1@[2] == end_of_bound(r2.end, size@[2]),
        se.1@[3] == end_of_bound(r3.end, size@[3]),
{
    let (s0, e0) = range2idxs_1d(r0, size[0]);
    let (s1, e1) = range2idxs_1d(r1, size[1]);
    let (s2, e2) = range2idxs_1d(r2, size[2]);
    let (s3, e3) = range2idxs_1d(r3, size[3]);
    let start_idx = [s0, s1, s2, s3];
    let end_idx = [e0, e1, e2, e3];
    (start_idx, end_idx)
}

} // verus!
