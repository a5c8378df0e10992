//! The write-command protocol: the exact effect of the three commands
//! (write at an offset, seek, truncate) on a file's byte sequence. Writing
//! beyond the end zero-fills the gap first; truncation drops trailing bytes
//! when shrinking and zero-fills when growing. Every backend's writable
//! stream must produce these sequences at commit time.

use vstd::prelude::*;

verus! {

/// The length of a file of length `content_len` after writing `data_len`
/// bytes at offset `pos`: the file grows exactly as far as the write
/// reaches.
pub open spec fn written_len(content_len: nat, pos: nat, data_len: nat) -> nat {
    if pos + data_len > content_len {
        (pos + data_len) as nat
    } else {
        content_len
    }
}

/// The file content after writing `data` at offset `pos` into `content`:
/// bytes in `[pos, pos + data.len())` come from `data`, bytes before `pos`
/// keep their old value (or are zero where the old file ended before `pos`),
/// and bytes after the write keep their old value.
pub open spec fn write_result(content: Seq<u8>, pos: nat, data: Seq<u8>) -> Seq<u8> {
    Seq::new(
        written_len(content.len(), pos, data.len()),
        |i: int|
            if pos <= i < pos + data.len() {
                data[i - pos]
            } else if i < content.len() {
                content[i]
            } else {
                0u8
            },
    )
}

/// The file content after truncating `content` to exactly `size` bytes:
/// the old bytes up to `size`, zero-filled where the old file was shorter.
pub open spec fn truncate_result(content: Seq<u8>, size: nat) -> Seq<u8> {
    Seq::new(
        size,
        |i: int|
            if i < content.len() {
                content[i]
            } else {
                0u8
            },
    )
}

/// Apply a write command to a byte buffer: overwrite from `pos`, zero-fill
/// any gap between the old end and `pos`, and extend the buffer if the write
/// reaches past its end.
pub fn apply_write(content: &Vec<u8>, pos: usize, data: &Vec<u8>) -> (out: Vec<u8>)
    requires
        pos + data@.len() <= usize::MAX,
    ensures
        out@ == write_result(content@, pos as nat, data@),
{
    let mut out: Vec<u8> = Vec::new();
    let prefix: usize = if pos < content.len() {
        pos
    } else {
        content.len()
    };
    let mut i: usize = 0;
    while i < prefix
        invariant
            prefix <= content@.len(),
            i <= prefix,
            out@ == content@.subrange(0, i as int),
        decreases prefix - i,
    {
        out.push(content[i]);
        assert(out@ =~= content@.subrange(0, i as int + 1));
        i = i + 1;
    }
    while i < pos
        invariant
            prefix <= i <= pos,
            prefix == (if pos < content@.len() {
                pos as int
            } else {
                content@.len() as int
            }),
            out@.len() == i,
            forall|k: int| 0 <= k < prefix ==> out@[k] == content@[k],
            forall|k: int| prefix <= k < i ==> out@[k] == 0u8,
        decreases pos - i,
    {
        out.push(0u8);
        i = i + 1;
    }
    let mut j: usize = 0;
    while j < data.len()
        invariant
            j <= data@.len(),
            pos + data@.len() <= usize::MAX,
            prefix == (if pos < content@.len() {
                pos as int
            } else {
                content@.len() as int
            }),
            out@.len() == pos + j,
            forall|k: int| 0 <= k < prefix ==> out@[k] == content@[k],
            forall|k: int| prefix <= k < pos ==> out@[k] == 0u8,
            forall|k: int| pos <= k < pos + j ==> out@[k] == data@[k - pos],
        decreases data@.len() - j,
    {
        out.push(data[j]);
        j = j + 1;
    }
    let end_of_write: usize = pos + data.len();
    let mut k: usize = end_of_write;
    while k < content.len()
        invariant
            end_of_write == pos + data@.len(),
            end_of_write <= k,
            k <= content@.len() || k == end_of_write,
            prefix == (if pos < content@.len() {
                pos as int
            } else {
                content@.len() as int
            }),
            out@.len() == k,
            forall|m: int| 0 <= m < prefix ==> out@[m] == content@[m],
            forall|m: int| prefix <= m < pos ==> out@[m] == 0u8,
            forall|m: int| pos <= m < pos + data@.len() ==> out@[m] == data@[m - pos],
            forall|m: int| pos + data@.len() <= m < k ==> out@[m] == content@[m],
        decreases content@.len() - k,
    {
        out.push(content[k]);
        k = k + 1;
    }
    assert(out@ =~= write_result(content@, pos as nat, data@));
    out
}

/// Apply a truncate command to a byte buffer: keep the first `size` bytes,
/// zero-filling if the buffer was shorter than `size`.
pub fn apply_truncate(content: &Vec<u8>, size: usize) -> (out: Vec<u8>)
    ensures
        out@ == truncate_result(content@, size as nat),
{
    let mut out: Vec<u8> = Vec::new();
    let keep: usize = if size < content.len() {
        size
    } else {
        content.len()
    };
    let mut i: usize = 0;
    while i < keep
        invariant
            keep <= content@.len(),
            i <= keep,
            out@ == content@.subrange(0, i as int),
        decreases keep - i,
    {
        out.push(content[i]);
        assert(out@ =~= content@.subrange(0, i as int + 1));
        i = i + 1;
    }
    while i < size
        invariant
            keep <= i <= size,
            keep <= content@.len(),
            keep == (if size < content@.len() {
                size as int
            } else {
                content@.len() as int
            }),
            out@.len() == i,
            forall|k: int| 0 <= k < keep ==> out@[k] == content@[k],
            forall|k: int| keep <= k < i ==> out@[k] == 0u8,
        decreases size - i,
    {
        out.push(0u8);
        i = i + 1;
    }
    assert(out@ =~= truncate_result(content@, size as nat));
    out
}

/// Round-trip law: writing `data` at offset zero into an empty file — the
/// state of a stream opened without keeping existing data — produces exactly
/// `data`, so closing such a stream and reading the whole file yields the
/// bytes that were written.
pub proof fn lemma_round_trip(data: Seq<u8>)
    ensures
        write_result(Seq::<u8>::empty(), 0, data) == data,
{
    assert(write_result(Seq::<u8>::empty(), 0, data) =~= data);
}

/// Truncate-growth law: truncating a file of size `n = content.len()` to a
/// larger size keeps the first `n` bytes unchanged and makes every byte past
/// `n` zero.
pub proof fn lemma_truncate_growth(content: Seq<u8>, size: nat)
    requires
        size >= content.len(),
    ensures
        truncate_result(content, size).len() == size,
        truncate_result(content, size).subrange(0, content.len() as int) == content,
        forall|i: int|
            content.len() <= i < size ==> truncate_result(content, size)[i] == 0u8,
{
    assert(truncate_result(content, size).subrange(0, content.len() as int) =~= content);
}

/// Truncate-shrink law: truncating a file to a size no larger than its
/// length discards exactly the trailing bytes, keeping the prefix
/// `[0, size)` unchanged.
pub proof fn lemma_truncate_shrink(content: Seq<u8>, size: nat)
    requires
        size <= content.len(),
    ensures
        truncate_result(content, size) == content.subrange(0, size as int),
{
    assert(truncate_result(content, size) =~= content.subrange(0, size as int));
}

/// Seek-then-write law: writing `data` at offset `pos` — the state after a
/// seek to `pos` — places `data` exactly at `[pos, pos + data.len())`,
/// keeps every byte before `pos` that the file already had, zero-fills any
/// gap between the old end and `pos`, keeps every old byte after the write,
/// and extends the file exactly when the write reaches past its end.
pub proof fn lemma_seek_then_write(content: Seq<u8>, pos: nat, data: Seq<u8>)
    ensures
        write_result(content, pos, data).len() == written_len(content.len(), pos, data.len()),
        write_result(content, pos, data).subrange(
            pos as int,
            pos as int + data.len() as int,
        ) == data,
        forall|i: int|
            0 <= i < pos && i < content.len() ==> write_result(content, pos, data)[i]
                == content[i],
        forall|i: int|
            content.len() <= i < pos ==> write_result(content, pos, data)[i] == 0u8,
        forall|i: int|
            pos + data.len() <= i < content.len() ==> write_result(content, pos, data)[i]
                == content[i],
{
    assert(write_result(content, pos, data).subrange(pos as int, pos as int + data.len() as int)
        =~= data);
}

} // verus!
