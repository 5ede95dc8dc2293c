use vstd::prelude::*;

verus! {

/// The value of the two bytes at `i`, least significant first.
pub open spec fn le16(s: Seq<u8>, i: int) -> int {
    s[i] as int + 0x100 * (s[i + 1] as int)
}

/// The value of the three bytes at `i`, least significant first.
pub open spec fn le24(s: Seq<u8>, i: int) -> int {
    s[i] as int + 0x100 * (s[i + 1] as int) + 0x1_0000 * (s[i + 2] as int)
}

/// The value of the four bytes at `i`, least significant first.
pub open spec fn le32(s: Seq<u8>, i: int) -> int {
    s[i] as int + 0x100 * (s[i + 1] as int) + 0x1_0000 * (s[i + 2] as int) + 0x100_0000 * (s[i
        + 3] as int)
}

/// The two bytes that spell `v`, least significant first.
pub open spec fn le16_bytes(v: int) -> Seq<u8> {
    seq![(v % 0x100) as u8, (v / 0x100 % 0x100) as u8]
}

/// The three bytes that spell `v`, least significant first.
pub open spec fn le24_bytes(v: int) -> Seq<u8> {
    seq![(v % 0x100) as u8, (v / 0x100 % 0x100) as u8, (v / 0x1_0000 % 0x100) as u8]
}

/// The four bytes that spell `v`, least significant first.
pub open spec fn le32_bytes(v: int) -> Seq<u8> {
    seq![
        (v % 0x100) as u8,
        (v / 0x100 % 0x100) as u8,
        (v / 0x1_0000 % 0x100) as u8,
        (v / 0x100_0000 % 0x100) as u8,
    ]
}

/// Reading back the bytes of a 16-bit value gives the value.
pub proof fn lemma_le16_roundtrip(v: int)
    requires
        0 <= v < 0x1_0000,
    ensures
        le16_bytes(v).len() == 2,
        le16(le16_bytes(v), 0) == v,
{
}

/// Reading back the bytes of a 24-bit value gives the value.
pub proof fn lemma_le24_roundtrip(v: int)
    requires
        0 <= v < 0x100_0000,
    ensures
        le24_bytes(v).len() == 3,
        le24(le24_bytes(v), 0) == v,
{
}

/// Reading back the bytes of a 32-bit value gives the value.
pub proof fn lemma_le32_roundtrip(v: int)
    requires
        0 <= v < 0x1_0000_0000,
    ensures
        le32_bytes(v).len() == 4,
        le32(le32_bytes(v), 0) == v,
{
}

/// Reads two bytes at `pos`, least significant first.
pub fn read_le16(data: &[u8], pos: usize) -> (v: u32)
    requires
        pos + 2 <= data@.len(),
    ensures
        v as int == le16(data@, pos as int),
        v < 0x1_0000,
{
    (data[pos] as u32) + 0x100 * (data[pos + 1] as u32)
}

/// Reads three bytes at `pos`, least significant first.
pub fn read_le24(data: &[u8], pos: usize) -> (v: u32)
    requires
        pos + 3 <= data@.len(),
    ensures
        v as int == le24(data@, pos as int),
        v < 0x100_0000,
{
    (data[pos] as u32) + 0x100 * (data[pos + 1] as u32) + 0x1_0000 * (data[pos + 2] as u32)
}

/// Reads four bytes at `pos`, least significant first.
pub fn read_le32(data: &[u8], pos: usize) -> (v: u32)
    requires
        pos + 4 <= data@.len(),
    ensures
        v as int == le32(data@, pos as int),
{
    (data[pos] as u32) + 0x100 * (data[pos + 1] as u32) + 0x1_0000 * (data[pos + 2] as u32)
        + 0x100_0000 * (data[pos + 3] as u32)
}

/// Appends the two bytes of `v`, least significant first.
pub fn push_le16(out: &mut Vec<u8>, v: u32)
    requires
        v < 0x1_0000,
    ensures
        final(out)@ == old(out)@ + le16_bytes(v as int),
{
    out.push((v % 0x100) as u8);
    out.push((v / 0x100 % 0x100) as u8);
}

/// Appends the three low bytes of `v`, least significant first.
pub fn push_le24(out: &mut Vec<u8>, v: u32)
    requires
        v < 0x100_0000,
    ensures
        final(out)@ == old(out)@ + le24_bytes(v as int),
{
    out.push((v % 0x100) as u8);
    out.push((v / 0x100 % 0x100) as u8);
    out.push((v / 0x1_0000 % 0x100) as u8);
}

/// Appends the four bytes of `v`, least significant first.
pub fn push_le32(out: &mut Vec<u8>, v: u32)
    ensures
        final(out)@ == old(out)@ + le32_bytes(v as int),
{
    out.push((v % 0x100) as u8);
    out.push((v / 0x100 % 0x100) as u8);
    out.push((v / 0x1_0000 % 0x100) as u8);
    out.push((v / 0x100_0000 % 0x100) as u8);
}

/// Appends a copy of `src`.
pub fn push_bytes(out: &mut Vec<u8>, src: &[u8])
    ensures
        final(out)@ == old(out)@ + src@,
{
    let mut i: usize = 0;
    while i < src.len()
        invariant
            i <= src@.len(),
            out@ == old(out)@ + src@.subrange(0, i as int),
        decreases src@.len() - i,
    {
        out.push(src[i]);
        i = i + 1;
    }
}

/// A fresh copy of the bytes of `src` from `from` up to `to`.
pub fn copy_range(src: &[u8], from: usize, to: usize) -> (out: Vec<u8>)
    requires
        from <= to <= src@.len(),
    ensures
        out@ == src@.subrange(from as int, to as int),
{
    let mut out: Vec<u8> = Vec::new();
    let mut i: usize = from;
    while i < to
        invariant
            from <= i <= to <= src@.len(),
            out@ == src@.subrange(from as int, i as int),
        decreases to - i,
    {
        out.push(src[i]);
        i = i + 1;
    }
    out
}

} // verus!
