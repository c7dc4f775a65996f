//! Byte-view decoding over an immutable byte buffer.
//!
//! Every read is independently addressed by an absolute offset; no cursor
//! state is kept between calls, which is what makes random row access O(1).

use vstd::prelude::*;
use vstd::slice::{slice_subrange, slice_to_vec};

use crate::error::Error;

verus! {

/// The little-endian value of the two bytes at `off`.
pub open spec fn le16(b: Seq<u8>, off: int) -> nat {
    b[off] as nat + 0x100 * (b[off + 1] as nat)
}

/// The little-endian value of the four bytes at `off`.
pub open spec fn le32(b: Seq<u8>, off: int) -> nat {
    le16(b, off) + 0x10000 * le16(b, off + 2)
}

/// The number of bytes of the C string that starts at `off` and is bounded
/// by `end`: the distance to the first zero byte, or to `end` if none occurs.
pub open spec fn c_str_len(b: Seq<u8>, off: int, end: int) -> int
    decreases end - off,
{
    if off < end && off < b.len() {
        if b[off] == 0 {
            0
        } else {
            1 + c_str_len(b, off + 1, end)
        }
    } else {
        0
    }
}

/// The C string that starts at `off`, bounded by `end`: the bytes before the
/// first zero byte, or up to `end` if no zero byte occurs.
pub open spec fn c_str_at(b: Seq<u8>, off: int, end: int) -> Seq<u8> {
    b.subrange(off, off + c_str_len(b, off, end))
}

/// If no byte of `[off, k)` is zero and `k` is `end` or a zero byte, then the
/// C string at `off` is exactly the bytes `[off, k)`.
proof fn lemma_c_str_len_from_scan(b: Seq<u8>, off: int, end: int, k: int)
    requires
        0 <= off <= k <= end <= b.len(),
        forall|j: int| off <= j < k ==> b[j] != 0,
        k == end || b[k] == 0,
    ensures
        c_str_len(b, off, end) == k - off,
    decreases k - off,
{
    if off < k {
        lemma_c_str_len_from_scan(b, off + 1, end, k);
    }
}

/// Reads the byte at `off`, or reports a decode error past the buffer.
pub fn read_u8(b: &[u8], off: usize) -> (r: Result<u8, Error>)
    ensures
        off < b@.len() ==> r == Ok::<u8, Error>(b@[off as int]),
        off >= b@.len() ==> r == Err::<u8, Error>(Error::Decode),
{
    if off < b.len() {
        Ok(b[off])
    } else {
        Err(Error::Decode)
    }
}

/// Overlays a little-endian 16-bit value onto the two bytes at `off`.
pub fn read_u16(b: &[u8], off: usize) -> (r: Result<u16, Error>)
    ensures
        off + 2 <= b@.len() ==> (r matches Ok(v) && v as nat == le16(b@, off as int)),
        off + 2 > b@.len() ==> r == Err::<u16, Error>(Error::Decode),
{
    if off < b.len() && b.len() - off >= 2 {
        let lo = b[off] as u16;
        let hi = b[off + 1] as u16;
        Ok(lo + 0x100 * hi)
    } else {
        Err(Error::Decode)
    }
}

/// Overlays a little-endian 32-bit value onto the four bytes at `off`.
pub fn read_u32(b: &[u8], off: usize) -> (r: Result<u32, Error>)
    ensures
        off + 4 <= b@.len() ==> (r matches Ok(v) && v as nat == le32(b@, off as int)),
        off + 4 > b@.len() ==> r == Err::<u32, Error>(Error::Decode),
{
    if off < b.len() && b.len() - off >= 4 {
        let b0 = b[off] as u32;
        let b1 = b[off + 1] as u32;
        let b2 = b[off + 2] as u32;
        let b3 = b[off + 3] as u32;
        Ok(b0 + 0x100 * b1 + 0x10000 * b2 + 0x1000000 * b3)
    } else {
        Err(Error::Decode)
    }
}

/// Overlays a run of `count` little-endian 16-bit values starting at `off`.
pub fn read_u16_slice(b: &[u8], off: usize, count: usize) -> (r: Result<Vec<u16>, Error>)
    ensures
        off + 2 * count <= b@.len() ==> (r matches Ok(v) && v@.len() == count && (forall|i: int|
            0 <= i < count ==> v@[i] as nat == le16(b@, off + 2 * i))),
        off + 2 * count > b@.len() ==> r == Err::<Vec<u16>, Error>(Error::Decode),
{
    if (off as u128) + 2 * (count as u128) <= (b.len() as u128) {
        let mut out: Vec<u16> = Vec::new();
        let mut i: usize = 0;
        while i < count
            invariant
                0 <= i <= count,
                off + 2 * count <= b@.len(),
                b@.len() <= usize::MAX,
                out@.len() == i,
                forall|j: int| 0 <= j < i ==> out@[j] as nat == le16(b@, off + 2 * j),
            decreases count - i,
        {
            proof {
                assert(2 * i + 2 <= 2 * count);
                assert(off + 2 * i + 2 <= b@.len());
            }
            let lo = b[off + 2 * i] as u16;
            let hi = b[off + 2 * i + 1] as u16;
            out.push(lo + 0x100 * hi);
            i = i + 1;
        }
        Ok(out)
    } else {
        Err(Error::Decode)
    }
}

/// A zero-copy view of the `len` bytes starting at `start`, with the same
/// provenance as the parent buffer.
pub fn sub<'a>(b: &'a [u8], start: usize, len: usize) -> (r: Result<&'a [u8], Error>)
    ensures
        start + len <= b@.len() ==> (r matches Ok(v) && v@ == b@.subrange(
            start as int,
            start + len,
        )),
        start + len > b@.len() ==> r == Err::<&'a [u8], Error>(Error::Decode),
{
    if start <= b.len() && len <= b.len() - start {
        Ok(slice_subrange(b, start, start + len))
    } else {
        Err(Error::Decode)
    }
}

/// Copies out the C string that starts at `off` and is bounded by `end`:
/// the bytes up to, excluding, the first zero byte, or up to `end` if no
/// zero byte occurs. An immediate terminator yields an empty result.
pub fn read_c_string_in(b: &[u8], off: usize, end: usize) -> (r: Vec<u8>)
    requires
        off <= end <= b@.len(),
    ensures
        r@ == c_str_at(b@, off as int, end as int),
{
    let mut i: usize = off;
    while i < end && b[i] != 0
        invariant
            off <= i <= end <= b@.len(),
            forall|j: int| off <= j < i ==> b@[j] != 0,
        decreases end - i,
    {
        i = i + 1;
    }
    proof {
        lemma_c_str_len_from_scan(b@, off as int, end as int, i as int);
    }
    slice_to_vec(slice_subrange(b, off, i))
}

/// Copies out the C string that starts at `off`, bounded by the end of the
/// buffer. An offset past the buffer is a decode error.
pub fn read_c_string(b: &[u8], off: usize) -> (r: Result<Vec<u8>, Error>)
    ensures
        off <= b@.len() ==> (r matches Ok(v) && v@ == c_str_at(b@, off as int, b@.len() as int)),
        off > b@.len() ==> r == Err::<Vec<u8>, Error>(Error::Decode),
{
    if off <= b.len() {
        Ok(read_c_string_in(b, off, b.len()))
    } else {
        Err(Error::Decode)
    }
}

/// Reads the length-prefixed string at `off`: one length byte `n`, then `n`
/// bytes. `n == 0` is an empty but present string; `n == 0xFF` marks an
/// absent string, distinguished from an empty one; a prefix that runs past
/// the buffer is a decode error.
pub fn read_length_prefixed_string(b: &[u8], off: usize) -> (r: Result<Option<Vec<u8>>, Error>)
    ensures
        off >= b@.len() ==> r == Err::<Option<Vec<u8>>, Error>(Error::Decode),
        off < b@.len() && b@[off as int] == 0xFF ==> r == Ok::<Option<Vec<u8>>, Error>(None),
        off < b@.len() && b@[off as int] != 0xFF && off + 1 + b@[off as int] <= b@.len() ==> (r
            matches Ok(s) && s matches Some(v) && v@ == b@.subrange(
            off + 1,
            off + 1 + b@[off as int],
        )),
        off < b@.len() && b@[off as int] != 0xFF && off + 1 + b@[off as int] > b@.len() ==> r
            == Err::<Option<Vec<u8>>, Error>(Error::Decode),
{
    if off < b.len() {
        let n = b[off] as usize;
        if n == 0xFF {
            Ok(None)
        } else if n < b.len() - off {
            Ok(Some(slice_to_vec(slice_subrange(b, off + 1, off + 1 + n))))
        } else {
            Err(Error::Decode)
        }
    } else {
        Err(Error::Decode)
    }
}

/// Decides whether two byte views hold the same bytes.
pub fn bytes_eq(a: &[u8], b: &[u8]) -> (r: bool)
    ensures
        r == (a@ == b@),
{
    if a.len() != b.len() {
        proof {
            assert(a@.len() != b@.len());
        }
        return false;
    }
    let mut i: usize = 0;
    while i < a.len()
        invariant
            0 <= i <= a@.len(),
            a@.len() == b@.len(),
            forall|j: int| 0 <= j < i ==> a@[j] == b@[j],
        decreases a@.len() - i,
    {
        if a[i] != b[i] {
            return false;
        }
        i = i + 1;
    }
    proof {
        assert(a@ =~= b@);
    }
    true
}

} // verus!
