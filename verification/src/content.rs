//! File contents as byte sequences: positional writes, resizing and reads.

use vstd::prelude::*;

verus! {

/// `buf` after writing `data` at `offset` (POSIX `pwrite`): the file grows to
/// cover the write, a gap is filled with zeros, other bytes stay.
pub open spec fn pwrite(buf: Seq<u8>, offset: nat, data: Seq<u8>) -> Seq<u8> {
    let end = offset + data.len();
    let len: nat = if end > buf.len() { end } else { buf.len() };
    Seq::new(
        len,
        |i: int|
            if offset <= i < end {
                data[i - offset]
            } else if i < buf.len() {
                buf[i]
            } else {
                0u8
            },
    )
}

/// `buf` truncated or zero-extended to `n` bytes.
pub open spec fn resized(buf: Seq<u8>, n: nat) -> Seq<u8> {
    Seq::new(n, |i: int| if i < buf.len() { buf[i] } else { 0u8 })
}

/// The bytes that a read of `size` bytes at `offset` returns: the part of that
/// range that lies inside `raw`.
pub open spec fn read_window(raw: Seq<u8>, offset: nat, size: nat) -> Seq<u8> {
    let start: nat = if offset < raw.len() { offset } else { raw.len() };
    let end: nat = if start + size < raw.len() { start + size } else { raw.len() };
    raw.subrange(start as int, end as int)
}

/// Write `data` into `buf` at `offset`, growing `buf` with zeros as needed.
pub fn pwrite_into(buf: &mut Vec<u8>, offset: u64, data: &[u8])
    requires
        offset as int + data@.len() <= usize::MAX,
    ensures
        final(buf)@ == pwrite(old(buf)@, offset as nat, data@),
{
    let off = offset as usize;
    let end = off + data.len();
    while buf.len() < end
        invariant
            end == off + data@.len(),
            old(buf)@.len() <= buf@.len(),
            buf@.len() <= if end > old(buf)@.len() { end as int } else { old(buf)@.len() as int },
            forall|i: int| 0 <= i < old(buf)@.len() ==> buf@[i] == old(buf)@[i],
            forall|i: int| old(buf)@.len() <= i < buf@.len() ==> buf@[i] == 0u8,
        decreases end - buf.len(),
    {
        buf.push(0u8);
    }
    let ghost grown = buf@;
    let mut i: usize = 0;
    while i < data.len()
        invariant
            end == off + data@.len(),
            i <= data@.len(),
            buf@.len() == grown.len(),
            grown.len() == (if end > old(buf)@.len() { end as int } else { old(buf)@.len() as int }),
            forall|j: int| 0 <= j < old(buf)@.len() ==> grown[j] == old(buf)@[j],
            forall|j: int| old(buf)@.len() <= j < grown.len() ==> grown[j] == 0u8,
            forall|j: int| 0 <= j < buf@.len() && !(off <= j < off + i) ==> buf@[j] == grown[j],
            forall|j: int| off <= j < off + i ==> buf@[j] == data@[j - off],
        decreases data.len() - i,
    {
        buf.set(off + i, data[i]);
        i += 1;
    }
    assert(off as int == offset as int);
    let ghost p = pwrite(old(buf)@, offset as nat, data@);
    assert(buf@.len() == p.len());
    assert forall|j: int| 0 <= j < buf@.len() implies buf@[j] == p[j] by {
        if off <= j < end {
            assert(buf@[j] == data@[j - off]);
            assert(p[j] == data@[j - offset]);
        } else if j < old(buf)@.len() {
            assert(buf@[j] == grown[j]);
            assert(p[j] == old(buf)@[j]);
        } else {
            assert(buf@[j] == grown[j]);
            assert(p[j] == 0u8);
        }
    }
    assert(buf@ =~= p);
}

/// Truncate or zero-extend `buf` to `n` bytes.
pub fn resize_content(buf: &mut Vec<u8>, n: usize)
    ensures
        final(buf)@ == resized(old(buf)@, n as nat),
{
    if buf.len() > n {
        buf.truncate(n);
    } else {
        while buf.len() < n
            invariant
                old(buf)@.len() <= buf@.len() <= n,
                forall|i: int| 0 <= i < old(buf)@.len() ==> buf@[i] == old(buf)@[i],
                forall|i: int| old(buf)@.len() <= i < buf@.len() ==> buf@[i] == 0u8,
            decreases n - buf.len(),
        {
            buf.push(0u8);
        }
    }
    assert(buf@ =~= resized(old(buf)@, n as nat));
}

/// The bytes returned by a read of `size` bytes at `offset` from `raw`.
pub fn read_slice(raw: &Vec<u8>, offset: u64, size: u32) -> (r: Vec<u8>)
    ensures
        r@ == read_window(raw@, offset as nat, size as nat),
{
    let len = raw.len();
    let start: usize = if (offset as u128) < (len as u128) { offset as usize } else { len };
    let end: usize = if (start as u128) + (size as u128) < (len as u128) {
        start + size as usize
    } else {
        len
    };
    let mut out: Vec<u8> = Vec::new();
    let mut i: usize = start;
    while i < end
        invariant
            start <= i <= end <= raw@.len(),
            out@ == raw@.subrange(start as int, i as int),
        decreases end - i,
    {
        out.push(raw[i]);
        assert(raw@.subrange(start as int, i + 1) =~= raw@.subrange(start as int, i as int).push(
            raw@[i as int],
        ));
        i += 1;
    }
    out
}

/// A read of the range just written returns the written bytes.
pub proof fn law_read_after_write(buf: Seq<u8>, offset: nat, data: Seq<u8>)
    ensures
        read_window(pwrite(buf, offset, data), offset, data.len()) == data,
{
    let w = pwrite(buf, offset, data);
    assert(read_window(w, offset, data.len()) =~= data);
}

/// A write changes no byte outside the range it covers.
pub proof fn law_write_preserves_other_bytes(buf: Seq<u8>, offset: nat, data: Seq<u8>, i: int)
    requires
        0 <= i < buf.len(),
        !(offset <= i < offset + data.len()),
    ensures
        pwrite(buf, offset, data)[i] == buf[i],
{
}

/// A write leaves the file at least as long as before and covering the written range.
pub proof fn law_write_length(buf: Seq<u8>, offset: nat, data: Seq<u8>)
    ensures
        pwrite(buf, offset, data).len() == if offset + data.len() > buf.len() {
            offset + data.len()
        } else {
            buf.len()
        },
{
}

/// After truncating to `n` and extending again to `m`, the bytes past `n` read as zeros.
pub proof fn law_truncate_then_extend_reads_zeros(buf: Seq<u8>, n: nat, m: nat, i: int)
    requires
        n <= i < m,
    ensures
        resized(resized(buf, n), m)[i] == 0u8,
{
}

/// Resizing keeps the bytes below the new size.
pub proof fn law_resize_keeps_prefix(buf: Seq<u8>, n: nat, i: int)
    requires
        0 <= i < n,
        i < buf.len(),
    ensures
        resized(buf, n)[i] == buf[i],
{
}

} // verus!
