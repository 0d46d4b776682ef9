//! Fixed-width integers as bytes, in big- and little-endian order.

use vstd::prelude::*;

verus! {

/// The value of two bytes read as a big-endian integer.
pub open spec fn be16(b0: u8, b1: u8) -> int {
    b0 * 256 + b1
}

/// The value of three bytes read as a big-endian integer.
pub open spec fn be24(b0: u8, b1: u8, b2: u8) -> int {
    b0 * 65536 + b1 * 256 + b2
}

/// The value of four bytes read as a big-endian integer.
pub open spec fn be32(b0: u8, b1: u8, b2: u8, b3: u8) -> int {
    b0 * 16777216 + b1 * 65536 + b2 * 256 + b3
}

/// The value of four bytes read as a little-endian integer.
pub open spec fn le32(b0: u8, b1: u8, b2: u8, b3: u8) -> int {
    b0 + b1 * 256 + b2 * 65536 + b3 * 16777216
}

/// The value of all the bytes of `s` read as a big-endian integer.
pub open spec fn be_value(s: Seq<u8>) -> int
    decreases s.len(),
{
    if s.len() == 0 {
        0
    } else {
        be_value(s.drop_last()) * 256 + s.last()
    }
}

/// The value of the bytes of `s` read as a little-endian integer.
pub open spec fn le_value(s: Seq<u8>) -> int
    decreases s.len(),
{
    if s.len() == 0 {
        0
    } else {
        s[0] + 256 * le_value(s.drop_first())
    }
}

/// The two big-endian bytes of a 16-bit integer.
pub open spec fn be16_bytes(x: u16) -> Seq<u8> {
    seq![(x / 256) as u8, (x % 256) as u8]
}

/// The low three bytes of a 32-bit integer, in big-endian order.
pub open spec fn be24_bytes(x: u32) -> Seq<u8> {
    seq![((x / 65536) % 256) as u8, ((x / 256) % 256) as u8, (x % 256) as u8]
}

/// The four big-endian bytes of a 32-bit integer.
pub open spec fn be32_bytes(x: u32) -> Seq<u8> {
    seq![(x / 16777216) as u8, ((x / 65536) % 256) as u8, ((x / 256) % 256) as u8, (x % 256) as u8]
}

/// The four little-endian bytes of a 32-bit integer.
pub open spec fn le32_bytes(x: u32) -> Seq<u8> {
    seq![(x % 256) as u8, ((x / 256) % 256) as u8, ((x / 65536) % 256) as u8, (x / 16777216) as u8]
}

/// The eight big-endian bytes of a 64-bit integer.
pub open spec fn be64_bytes(x: u64) -> Seq<u8> {
    seq![
        (x / 0x100_0000_0000_0000) as u8,
        ((x / 0x1_0000_0000_0000) % 256) as u8,
        ((x / 0x100_0000_0000) % 256) as u8,
        ((x / 0x1_0000_0000) % 256) as u8,
        ((x / 0x100_0000) % 256) as u8,
        ((x / 0x1_0000) % 256) as u8,
        ((x / 0x100) % 256) as u8,
        (x % 256) as u8,
    ]
}

/// The value of eight bytes read as a big-endian integer.
pub open spec fn be64(s: Seq<u8>) -> int {
    s[0] * 0x100_0000_0000_0000 + s[1] * 0x1_0000_0000_0000 + s[2] * 0x100_0000_0000 + s[3]
        * 0x1_0000_0000 + s[4] * 0x100_0000 + s[5] * 0x1_0000 + s[6] * 0x100 + s[7]
}

/// Reading back the big-endian bytes of a 16-bit integer gives the integer.
pub proof fn lemma_be16_roundtrip(x: u16)
    ensures
        be16(be16_bytes(x)[0], be16_bytes(x)[1]) == x,
{
}

/// Reading back the three big-endian bytes of a 24-bit integer gives the integer.
pub proof fn lemma_be24_roundtrip(x: u32)
    requires
        x <= 0xFF_FFFF,
    ensures
        be24(be24_bytes(x)[0], be24_bytes(x)[1], be24_bytes(x)[2]) == x,
{
}

/// Reading back the four big-endian bytes of a 32-bit integer gives the integer.
pub proof fn lemma_be32_roundtrip(x: u32)
    ensures
        be32(be32_bytes(x)[0], be32_bytes(x)[1], be32_bytes(x)[2], be32_bytes(x)[3]) == x,
{
}

/// Reading back the four little-endian bytes of a 32-bit integer gives the integer.
pub proof fn lemma_le32_roundtrip(x: u32)
    ensures
        le32(le32_bytes(x)[0], le32_bytes(x)[1], le32_bytes(x)[2], le32_bytes(x)[3]) == x,
{
}

/// Reading back the eight big-endian bytes of a 64-bit integer gives the integer.
pub proof fn lemma_be64_roundtrip(x: u64)
    ensures
        be64(be64_bytes(x)) == x,
{
    assert(x == (x / 0x100_0000_0000_0000) as u8 * 0x100_0000_0000_0000 + ((x / 0x1_0000_0000_0000)
        % 256) as u8 * 0x1_0000_0000_0000 + ((x / 0x100_0000_0000) % 256) as u8 * 0x100_0000_0000
        + ((x / 0x1_0000_0000) % 256) as u8 * 0x1_0000_0000 + ((x / 0x100_0000) % 256) as u8
        * 0x100_0000 + ((x / 0x1_0000) % 256) as u8 * 0x1_0000 + ((x / 0x100) % 256) as u8 * 0x100
        + (x % 256) as u8) by (bit_vector);
}

/// Three bytes that are the big-endian form of their own value.
pub proof fn lemma_be24_bytes_of_value(b0: u8, b1: u8, b2: u8)
    ensures
        be24_bytes(be24(b0, b1, b2) as u32) == seq![b0, b1, b2],
{
    let x = be24(b0, b1, b2) as u32;
    assert(be24_bytes(x) =~= seq![b0, b1, b2]);
}

/// Four bytes that are the big-endian form of their own value.
pub proof fn lemma_be32_bytes_of_value(b0: u8, b1: u8, b2: u8, b3: u8)
    ensures
        be32_bytes(be32(b0, b1, b2, b3) as u32) == seq![b0, b1, b2, b3],
{
    let x = be32(b0, b1, b2, b3) as u32;
    assert(x == b0 * 16777216 + b1 * 65536 + b2 * 256 + b3);
    assert({
        let y = (b0 as u32) * 16777216 + (b1 as u32) * 65536 + (b2 as u32) * 256 + (b3 as u32);
        &&& (y / 16777216) as u8 == b0
        &&& ((y / 65536) % 256) as u8 == b1
        &&& ((y / 256) % 256) as u8 == b2
        &&& (y % 256) as u8 == b3
    }) by (bit_vector);
    assert(be32_bytes(x) =~= seq![b0, b1, b2, b3]);
}

/// Four bytes that are the little-endian form of their own value.
pub proof fn lemma_le32_bytes_of_value(b0: u8, b1: u8, b2: u8, b3: u8)
    ensures
        le32_bytes(le32(b0, b1, b2, b3) as u32) == seq![b0, b1, b2, b3],
{
    let x = le32(b0, b1, b2, b3) as u32;
    assert(x == b0 + b1 * 256 + b2 * 65536 + b3 * 16777216);
    assert({
        let y = (b0 as u32) + (b1 as u32) * 256 + (b2 as u32) * 65536 + (b3 as u32) * 16777216;
        &&& (y % 256) as u8 == b0
        &&& ((y / 256) % 256) as u8 == b1
        &&& ((y / 65536) % 256) as u8 == b2
        &&& (y / 16777216) as u8 == b3
    }) by (bit_vector);
    assert(le32_bytes(x) =~= seq![b0, b1, b2, b3]);
}

/// Appends `bytes` to `buf`.
pub fn push_all(buf: &mut Vec<u8>, bytes: &[u8])
    ensures
        final(buf)@ == old(buf)@ + bytes@,
{
    let mut i: usize = 0;
    while i < bytes.len()
        invariant
            i <= bytes.len(),
            buf@ == old(buf)@ + bytes@.take(i as int),
        decreases bytes.len() - i,
    {
        buf.push(bytes[i]);
        i = i + 1;
        assert(bytes@.take(i as int) == bytes@.take(i - 1).push(bytes@[i - 1]));
    }
    assert(bytes@.take(bytes.len() as int) == bytes@);
}

/// Appends the two big-endian bytes of `x`.
pub fn push_be16(buf: &mut Vec<u8>, x: u16)
    ensures
        final(buf)@ == old(buf)@ + be16_bytes(x),
{
    buf.push((x / 256) as u8);
    buf.push((x % 256) as u8);
    assert(buf@ == old(buf)@ + be16_bytes(x));
}

/// Appends the low three bytes of `x`, big-endian.
pub fn push_be24(buf: &mut Vec<u8>, x: u32)
    ensures
        final(buf)@ == old(buf)@ + be24_bytes(x),
{
    buf.push(((x / 65536) % 256) as u8);
    buf.push(((x / 256) % 256) as u8);
    buf.push((x % 256) as u8);
    assert(buf@ == old(buf)@ + be24_bytes(x));
}

/// Appends the four big-endian bytes of `x`.
pub fn push_be32(buf: &mut Vec<u8>, x: u32)
    ensures
        final(buf)@ == old(buf)@ + be32_bytes(x),
{
    buf.push((x / 16777216) as u8);
    buf.push(((x / 65536) % 256) as u8);
    buf.push(((x / 256) % 256) as u8);
    buf.push((x % 256) as u8);
    assert(buf@ == old(buf)@ + be32_bytes(x));
}

/// Appends the four little-endian bytes of `x`.
pub fn push_le32(buf: &mut Vec<u8>, x: u32)
    ensures
        final(buf)@ == old(buf)@ + le32_bytes(x),
{
    buf.push((x % 256) as u8);
    buf.push(((x / 256) % 256) as u8);
    buf.push(((x / 65536) % 256) as u8);
    buf.push((x / 16777216) as u8);
    assert(buf@ == old(buf)@ + le32_bytes(x));
}

/// Appends the eight big-endian bytes of `x`.
pub fn push_be64(buf: &mut Vec<u8>, x: u64)
    ensures
        final(buf)@ == old(buf)@ + be64_bytes(x),
{
    buf.push((x / 0x100_0000_0000_0000) as u8);
    buf.push(((x / 0x1_0000_0000_0000) % 256) as u8);
    buf.push(((x / 0x100_0000_0000) % 256) as u8);
    buf.push(((x / 0x1_0000_0000) % 256) as u8);
    buf.push(((x / 0x100_0000) % 256) as u8);
    buf.push(((x / 0x1_0000) % 256) as u8);
    buf.push(((x / 0x100) % 256) as u8);
    buf.push((x % 256) as u8);
    assert(buf@ == old(buf)@ + be64_bytes(x));
}

/// The big-endian 16-bit integer at `data[at..at + 2]`.
pub fn read_be16(data: &[u8], at: usize) -> (r: u16)
    requires
        at + 2 <= data@.len(),
    ensures
        r == be16(data@[at as int], data@[at + 1]),
{
    (data[at] as u16) * 256 + (data[at + 1] as u16)
}

/// The big-endian 24-bit integer at `data[at..at + 3]`.
pub fn read_be24(data: &[u8], at: usize) -> (r: u32)
    requires
        at + 3 <= data@.len(),
    ensures
        r == be24(data@[at as int], data@[at + 1], data@[at + 2]),
{
    (data[at] as u32) * 65536 + (data[at + 1] as u32) * 256 + (data[at + 2] as u32)
}

/// The big-endian 32-bit integer at `data[at..at + 4]`.
pub fn read_be32(data: &[u8], at: usize) -> (r: u32)
    requires
        at + 4 <= data@.len(),
    ensures
        r == be32(data@[at as int], data@[at + 1], data@[at + 2], data@[at + 3]),
{
    (data[at] as u32) * 16777216 + (data[at + 1] as u32) * 65536 + (data[at + 2] as u32) * 256
        + (data[at + 3] as u32)
}

/// The little-endian 32-bit integer at `data[at..at + 4]`.
pub fn read_le32(data: &[u8], at: usize) -> (r: u32)
    requires
        at + 4 <= data@.len(),
    ensures
        r == le32(data@[at as int], data@[at + 1], data@[at + 2], data@[at + 3]),
{
    (data[at] as u32) + (data[at + 1] as u32) * 256 + (data[at + 2] as u32) * 65536
        + (data[at + 3] as u32) * 16777216
}

/// The big-endian 64-bit integer at `data[at..at + 8]`.
pub fn read_be64(data: &[u8], at: usize) -> (r: u64)
    requires
        at + 8 <= data@.len(),
    ensures
        r == be64(data@.subrange(at as int, at + 8)),
{
    let r = (data[at] as u64) * 0x100_0000_0000_0000 + (data[at + 1] as u64) * 0x1_0000_0000_0000
        + (data[at + 2] as u64) * 0x100_0000_0000 + (data[at + 3] as u64) * 0x1_0000_0000 + (data[at
        + 4] as u64) * 0x100_0000 + (data[at + 5] as u64) * 0x1_0000 + (data[at + 6] as u64)
        * 0x100 + (data[at + 7] as u64);
    assert(data@.subrange(at as int, at + 8)[0] == data@[at as int]);
    r
}

/// The bytes `data[from..to]`, copied.
pub fn copy_range(data: &[u8], from: usize, to: usize) -> (r: Vec<u8>)
    requires
        from <= to <= data@.len(),
    ensures
        r@ == data@.subrange(from as int, to as int),
{
    let mut r: Vec<u8> = Vec::new();
    let mut i: usize = from;
    while i < to
        invariant
            from <= i <= to <= data@.len(),
            r@ == data@.subrange(from as int, i as int),
        decreases to - i,
    {
        r.push(data[i]);
        i = i + 1;
        assert(data@.subrange(from as int, i as int) == data@.subrange(from as int, i - 1).push(
            data@[i - 1],
        ));
    }
    r
}

} // verus!
