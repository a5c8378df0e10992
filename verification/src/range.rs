//! Range resolution: turning a symbolic byte range, whose start and end may
//! each be inclusive, exclusive or absent, into a concrete half-open window
//! clamped to a known file size. Degenerate or out-of-bounds ranges select
//! the empty window; resolution never fails.

use vstd::prelude::*;

verus! {

/// One edge of a byte range: an inclusive offset, an exclusive offset, or no
/// bound at all.
#[derive(Debug, Clone, Copy, PartialEq, Eq, Structural)]
pub enum ByteBound {
    Included(usize),
    Excluded(usize),
    Unbounded,
}

/// A symbolic byte range with independently optional start and end edges.
/// The four common syntactic forms are covered: closed (`a..=b`), half-open
/// (`a..b`), start-only (`a..`) and fully unbounded (`..`).
#[derive(Debug, Clone, Copy, PartialEq, Eq, Structural)]
pub struct ByteRange {
    pub start: ByteBound,
    pub end: ByteBound,
}

impl ByteRange {
    /// The fully unbounded range `..`.
    pub fn full() -> (r: ByteRange)
        ensures
            r == (ByteRange { start: ByteBound::Unbounded, end: ByteBound::Unbounded }),
    {
        ByteRange { start: ByteBound::Unbounded, end: ByteBound::Unbounded }
    }

    /// The start-only range `start..`.
    pub fn from_start(start: usize) -> (r: ByteRange)
        ensures
            r == (ByteRange { start: ByteBound::Included(start), end: ByteBound::Unbounded }),
    {
        ByteRange { start: ByteBound::Included(start), end: ByteBound::Unbounded }
    }

    /// The half-open range `start..end`.
    pub fn half_open(start: usize, end: usize) -> (r: ByteRange)
        ensures
            r == (ByteRange { start: ByteBound::Included(start), end: ByteBound::Excluded(end) }),
    {
        ByteRange { start: ByteBound::Included(start), end: ByteBound::Excluded(end) }
    }

    /// The closed range `start..=end`.
    pub fn closed(start: usize, end: usize) -> (r: ByteRange)
        ensures
            r == (ByteRange { start: ByteBound::Included(start), end: ByteBound::Included(end) }),
    {
        ByteRange { start: ByteBound::Included(start), end: ByteBound::Included(end) }
    }
}

/// The resolved start offset: the inclusive start, one past an exclusive
/// start, or zero when the start is unbounded.
pub open spec fn resolved_start(r: ByteRange) -> int {
    match r.start {
        ByteBound::Included(n) => n as int,
        ByteBound::Excluded(n) => n as int + 1,
        ByteBound::Unbounded => 0,
    }
}

/// The resolved end offset before clamping: one past an inclusive end, the
/// exclusive end itself, or the file size when the end is unbounded.
pub open spec fn requested_end(r: ByteRange, size: int) -> int {
    match r.end {
        ByteBound::Included(n) => n as int + 1,
        ByteBound::Excluded(n) => n as int,
        ByteBound::Unbounded => size,
    }
}

/// The resolved end offset, clamped to the file size.
pub open spec fn resolved_end(r: ByteRange, size: int) -> int {
    if requested_end(r, size) < size {
        requested_end(r, size)
    } else {
        size
    }
}

/// A range selects nothing when its start lies at or beyond the file size,
/// or at or beyond its own clamped end.
pub open spec fn selects_empty(r: ByteRange, size: int) -> bool {
    resolved_start(r) >= size || resolved_start(r) >= resolved_end(r, size)
}

/// The bytes of `content` selected by `r`: the window
/// `[resolved_start, resolved_end)`, or the empty sequence for a degenerate
/// or out-of-bounds range.
pub open spec fn selected_bytes(content: Seq<u8>, r: ByteRange) -> Seq<u8> {
    if selects_empty(r, content.len() as int) {
        Seq::<u8>::empty()
    } else {
        content.subrange(resolved_start(r), resolved_end(r, content.len() as int))
    }
}

/// Resolve a range against a file size to a concrete half-open window
/// `[w.0, w.1)`, already clamped: an empty selection comes back as a window
/// with `w.0 == w.1`, never as an error.
pub fn resolve_window(r: &ByteRange, size: usize) -> (w: (usize, usize))
    ensures
        w.0 <= w.1 <= size,
        selects_empty(*r, size as int) <==> w.0 == w.1,
        !selects_empty(*r, size as int) ==> w.0 == resolved_start(*r) && w.1 == resolved_end(
            *r,
            size as int,
        ),
{
    let start: usize = match r.start {
        ByteBound::Included(n) => n,
        ByteBound::Excluded(n) => {
            if n >= size {
                return (size, size);
            }
            n + 1
        },
        ByteBound::Unbounded => 0,
    };
    if start >= size {
        return (size, size);
    }
    let end: usize = match r.end {
        ByteBound::Included(n) => if n >= size {
            size
        } else {
            n + 1
        },
        ByteBound::Excluded(n) => if n >= size {
            size
        } else {
            n
        },
        ByteBound::Unbounded => size,
    };
    if start >= end {
        return (start, start);
    }
    (start, end)
}

/// Read the bytes of `content` selected by `r`, per the resolution policy:
/// exactly the clamped window, and the empty vector for a degenerate or
/// out-of-bounds range.
pub fn read_selected(content: &Vec<u8>, r: &ByteRange) -> (out: Vec<u8>)
    ensures
        out@ == selected_bytes(content@, *r),
{
    let (start, end) = resolve_window(r, content.len());
    let mut out: Vec<u8> = Vec::new();
    let mut i: usize = start;
    while i < end
        invariant
            start <= i <= end <= content@.len(),
            out@ == content@.subrange(start as int, i as int),
        decreases end - i,
    {
        out.push(content[i]);
        assert(out@ =~= content@.subrange(start as int, i as int + 1));
        i = i + 1;
    }
    if start == end {
        assert(out@ =~= Seq::<u8>::empty());
    }
    out
}

/// Range resolution law: for a file of size `S = content.len()`, the selected
/// bytes are exactly the mathematically defined `[start, actual_end)` slice,
/// and a start at or beyond `S`, or at or beyond the clamped end, selects the
/// empty sequence rather than failing.
pub proof fn lemma_range_resolution(content: Seq<u8>, r: ByteRange)
    ensures
        resolved_start(r) >= content.len() ==> selected_bytes(content, r) == Seq::<u8>::empty(),
        resolved_start(r) >= resolved_end(r, content.len() as int) ==> selected_bytes(content, r)
            == Seq::<u8>::empty(),
        !selects_empty(r, content.len() as int) ==> selected_bytes(content, r) == content.subrange(
            resolved_start(r),
            resolved_end(r, content.len() as int),
        ),
{
}

} // verus!
