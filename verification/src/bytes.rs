//! Byte strings: text literals, little-endian fields and in-place copies.

use vstd::prelude::*;

verus! {

/// The bytes of a text made of ASCII characters.
pub open spec fn ascii(s: Seq<char>) -> Seq<u8> {
    s.map_values(|c: char| c as u8)
}

/// The bytes of an ASCII literal.
pub fn lit(s: &'static str) -> (r: &'static [u8])
    requires
        vstd::string::is_ascii(s),
    ensures
        r@ == ascii(s@),
{
    proof {
        vstd::string::is_ascii_spec_bytes(s);
    }
    let r = s.as_bytes();
    assert(r@ =~= ascii(s@));
    r
}

/// An owned copy of a byte slice.
pub fn to_vec(bytes: &[u8]) -> (r: Vec<u8>)
    ensures
        r@ == bytes@,
{
    let mut r: Vec<u8> = Vec::new();
    r.extend_from_slice(bytes);
    assert(r@ =~= bytes@);
    r
}

/// Whether two byte strings are equal.
pub fn same_bytes(a: &[u8], b: &[u8]) -> (r: bool)
    ensures
        r == (a@ == b@),
{
    if a.len() != b.len() {
        return false;
    }
    let mut i: usize = 0;
    while i < a.len()
        invariant
            i <= a.len(),
            a.len() == b.len(),
            forall|k: int| 0 <= k < i ==> a@[k] == b@[k],
        decreases a.len() - i,
    {
        if a[i] != b[i] {
            return false;
        }
        i += 1;
    }
    assert(a@ =~= b@);
    true
}

/// `n` zero bytes.
pub open spec fn zeros(n: int) -> Seq<u8> {
    Seq::new(n as nat, |i: int| 0u8)
}

/// A zero-filled buffer.
pub fn zeroed(n: usize) -> (r: Vec<u8>)
    ensures
        r@ == zeros(n as int),
{
    let mut r: Vec<u8> = Vec::new();
    r.resize(n, 0);
    assert(r@ =~= zeros(n as int));
    r
}

/// `buf` with the bytes from `off` on replaced by `src`.
pub open spec fn spliced(buf: Seq<u8>, off: int, src: Seq<u8>) -> Seq<u8> {
    Seq::new(
        buf.len(),
        |i: int|
            if off <= i < off + src.len() {
                src[i - off]
            } else {
                buf[i]
            },
    )
}

/// Copies `src` into `buf` at `off`.
pub fn splice(buf: &mut Vec<u8>, off: usize, src: &[u8])
    requires
        off + src.len() <= old(buf).len(),
    ensures
        final(buf)@ == spliced(old(buf)@, off as int, src@),
{
    let ghost before = buf@;
    let mut i: usize = 0;
    while i < src.len()
        invariant
            i <= src.len(),
            off + src.len() <= before.len(),
            buf.len() == before.len(),
            buf@ == spliced(before, off as int, src@.take(i as int)),
        decreases src.len() - i,
    {
        buf[off + i] = src[i];
        i += 1;
        assert(buf@ =~= spliced(before, off as int, src@.take(i as int)));
    }
    assert(src@.take(i as int) =~= src@);
    assert(buf@ =~= spliced(before, off as int, src@));
}

/// The little-endian 16-bit field of `b` at `off`.
pub open spec fn le16(b: Seq<u8>, off: int) -> int {
    b[off] + 0x100 * b[off + 1]
}

/// The little-endian 32-bit field of `b` at `off`.
pub open spec fn le32(b: Seq<u8>, off: int) -> int {
    le16(b, off) + 0x1_0000 * le16(b, off + 2)
}

/// The little-endian 64-bit field of `b` at `off`.
pub open spec fn le64(b: Seq<u8>, off: int) -> int {
    le32(b, off) + 0x1_0000_0000 * le32(b, off + 4)
}

/// The two little-endian bytes of `v`.
pub open spec fn le16_bytes(v: int) -> Seq<u8> {
    seq![(v % 0x100) as u8, (v / 0x100 % 0x100) as u8]
}

/// The four little-endian bytes of `v`.
#[verifier::opaque]
pub open spec fn le32_bytes(v: int) -> Seq<u8> {
    le16_bytes(v % 0x1_0000) + le16_bytes(v / 0x1_0000)
}

/// The eight little-endian bytes of `v`.
#[verifier::opaque]
pub open spec fn le64_bytes(v: int) -> Seq<u8> {
    le32_bytes(v % 0x1_0000_0000) + le32_bytes(v / 0x1_0000_0000)
}

/// How many bytes the fields take up.
pub proof fn lemma_le_lengths()
    ensures
        forall|v: int| (#[trigger] le32_bytes(v)).len() == 4,
        forall|v: int| (#[trigger] le64_bytes(v)).len() == 8,
{
    reveal(le32_bytes);
    reveal(le64_bytes);
}

/// Appends a little-endian 32-bit field.
pub fn push_le_u32(out: &mut Vec<u8>, v: u32)
    ensures
        final(out)@ == old(out)@ + le32_bytes(v as int),
{
    let mut field = u32_le_bytes(v);
    out.append(&mut field);
}

/// Appends a little-endian 64-bit field.
pub fn push_le_u64(out: &mut Vec<u8>, v: u64)
    ensures
        final(out)@ == old(out)@ + le64_bytes(v as int),
{
    let mut field = u64_le_bytes(v);
    out.append(&mut field);
}

/// Reads a little-endian 16-bit field.
pub fn le_u16(buf: &[u8], off: usize) -> (r: u16)
    requires
        off + 2 <= buf.len(),
    ensures
        r == le16(buf@, off as int),
{
    buf[off] as u16 + 0x100 * buf[off + 1] as u16
}

/// Reads a little-endian 32-bit field.
pub fn le_u32(buf: &[u8], off: usize) -> (r: u32)
    requires
        off + 4 <= buf.len(),
    ensures
        r == le32(buf@, off as int),
{
    le_u16(buf, off) as u32 + 0x1_0000 * le_u16(buf, off + 2) as u32
}

/// Reads a little-endian 64-bit field.
pub fn le_u64(buf: &[u8], off: usize) -> (r: u64)
    requires
        off + 8 <= buf.len(),
    ensures
        r == le64(buf@, off as int),
{
    le_u32(buf, off) as u64 + 0x1_0000_0000 * le_u32(buf, off + 4) as u64
}

/// The two little-endian bytes of a 16-bit value.
pub fn u16_le_bytes(v: u16) -> (r: Vec<u8>)
    ensures
        r@ == le16_bytes(v as int),
{
    let r: Vec<u8> = vec![(v % 0x100) as u8, (v / 0x100) as u8];
    assert(r@ =~= le16_bytes(v as int));
    r
}

/// The four little-endian bytes of a 32-bit value.
pub fn u32_le_bytes(v: u32) -> (r: Vec<u8>)
    ensures
        r@ == le32_bytes(v as int),
{
    reveal(le32_bytes);
    let mut r = u16_le_bytes((v % 0x1_0000) as u16);
    let mut hi = u16_le_bytes((v / 0x1_0000) as u16);
    r.append(&mut hi);
    r
}

/// The eight little-endian bytes of a 64-bit value.
pub fn u64_le_bytes(v: u64) -> (r: Vec<u8>)
    ensures
        r@ == le64_bytes(v as int),
{
    reveal(le64_bytes);
    let mut r = u32_le_bytes((v % 0x1_0000_0000) as u32);
    let mut hi = u32_le_bytes((v / 0x1_0000_0000) as u32);
    r.append(&mut hi);
    r
}

/// Stores a little-endian 32-bit field.
pub fn write_le_u32(buf: &mut Vec<u8>, offset: usize, value: u32)
    requires
        offset + 4 <= old(buf).len(),
    ensures
        final(buf)@ == spliced(old(buf)@, offset as int, le32_bytes(value as int)),
{
    proof {
        lemma_le_lengths();
    }
    let src = u32_le_bytes(value);
    splice(buf, offset, src.as_slice());
}

/// Stores a little-endian 64-bit field.
pub fn write_le_u64(buf: &mut Vec<u8>, offset: usize, value: u64)
    requires
        offset + 8 <= old(buf).len(),
    ensures
        final(buf)@ == spliced(old(buf)@, offset as int, le64_bytes(value as int)),
{
    proof {
        lemma_le_lengths();
    }
    let src = u64_le_bytes(value);
    splice(buf, offset, src.as_slice());
}

/// A stored 16-bit value is read back.
pub proof fn law_le16_round_trip(b: Seq<u8>, off: int, v: u16)
    requires
        0 <= off,
        off + 2 <= b.len(),
    ensures
        le16(spliced(b, off, le16_bytes(v as int)), off) == v,
{
}

/// A stored 32-bit value is read back.
pub proof fn law_le32_round_trip(b: Seq<u8>, off: int, v: u32)
    requires
        0 <= off,
        off + 4 <= b.len(),
    ensures
        le32(spliced(b, off, le32_bytes(v as int)), off) == v,
{
    reveal(le32_bytes);
    let s = spliced(b, off, le32_bytes(v as int));
    assert(s[off] == (v % 0x1_0000 % 0x100) as u8);
    assert(s[off + 1] == (v % 0x1_0000 / 0x100 % 0x100) as u8);
    assert(s[off + 2] == (v / 0x1_0000 % 0x100) as u8);
    assert(s[off + 3] == (v / 0x1_0000 / 0x100 % 0x100) as u8);
}

/// A stored 64-bit value is read back.
pub proof fn law_le64_round_trip(b: Seq<u8>, off: int, v: u64)
    requires
        0 <= off,
        off + 8 <= b.len(),
    ensures
        le64(spliced(b, off, le64_bytes(v as int)), off) == v,
{
    reveal(le64_bytes);
    lemma_le_lengths();
    let s = spliced(b, off, le64_bytes(v as int));
    let lo = (v % 0x1_0000_0000) as u32;
    let hi = (v / 0x1_0000_0000) as u32;
    assert(le32(s, off) == lo) by {
        law_le32_round_trip(b, off, lo);
        let t = spliced(b, off, le32_bytes(lo as int));
        assert forall|k: int| off <= k < off + 4 implies s[k] == t[k] by {
            assert(le64_bytes(v as int)[k - off] == le32_bytes(lo as int)[k - off]);
        }
    }
    assert(le32(s, off + 4) == hi) by {
        law_le32_round_trip(b, off + 4, hi);
        let t = spliced(b, off + 4, le32_bytes(hi as int));
        assert forall|k: int| off + 4 <= k < off + 8 implies s[k] == t[k] by {
            assert(le64_bytes(v as int)[k - off] == le32_bytes(hi as int)[k - off - 4]);
        }
    }
}

/// A 32-bit field in the middle of a byte string.
pub proof fn lemma_le32_in(s: Seq<u8>, pre: Seq<u8>, v: u32, post: Seq<u8>)
    requires
        s =~= pre + le32_bytes(v as int) + post,
    ensures
        le32(s, pre.len() as int) == v,
{
    lemma_le_lengths();
    let off = pre.len() as int;
    let b = pre + zeros(4) + post;
    law_le32_round_trip(b, off, v);
    assert(s =~= spliced(b, off, le32_bytes(v as int)));
}

/// A 64-bit field in the middle of a byte string.
pub proof fn lemma_le64_in(s: Seq<u8>, pre: Seq<u8>, v: u64, post: Seq<u8>)
    requires
        s =~= pre + le64_bytes(v as int) + post,
    ensures
        le64(s, pre.len() as int) == v,
{
    lemma_le_lengths();
    let off = pre.len() as int;
    let b = pre + zeros(8) + post;
    law_le64_round_trip(b, off, v);
    assert(s =~= spliced(b, off, le64_bytes(v as int)));
}

/// Storing elsewhere leaves a field alone.
pub proof fn lemma_le_frame(b: Seq<u8>, off: int, src: Seq<u8>, at: int, width: int)
    requires
        0 <= at,
        at + width <= b.len(),
        0 < width,
        at + width <= off || off + src.len() <= at,
    ensures
        width >= 2 ==> le16(spliced(b, off, src), at) == le16(b, at),
        width >= 4 ==> le32(spliced(b, off, src), at) == le32(b, at),
        width >= 8 ==> le64(spliced(b, off, src), at) == le64(b, at),
        spliced(b, off, src).subrange(at, at + width) == b.subrange(at, at + width),
{
    assert(spliced(b, off, src).subrange(at, at + width) =~= b.subrange(at, at + width));
}

} // verus!
