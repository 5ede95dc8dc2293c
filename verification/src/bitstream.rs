use vstd::prelude::*;
use crate::bytes::{le16, le24, le32, read_le16, read_le24, read_le32};

verus! {

/// Bytes of the header that opens a lossy payload.
pub const VP8_FRAME_HEADER_SIZE: usize = 10;

/// Bytes of the header that opens a lossless payload.
pub const VP8L_FRAME_HEADER_SIZE: usize = 5;

/// The first byte of every lossless payload.
pub const VP8L_MAGIC_BYTE: u8 = 0x2f;

/// What the header of an image payload says about the image.
#[derive(Debug, Clone, Copy, PartialEq, Eq, Structural)]
pub struct BitstreamInfo {
    pub width: u32,
    pub height: u32,
    pub has_alpha: bool,
    pub lossless: bool,
}

/// What the ten header bytes at `pos` say, read as the start of a lossy
/// payload of `size` bytes. The header must belong to a visible key frame of
/// a known profile, carry the start code, announce a first partition shorter
/// than the payload, and give a width and a height that are not zero.
pub open spec fn vp8_info(s: Seq<u8>, pos: int, size: int) -> Option<BitstreamInfo> {
    let bits = le24(s, pos);
    let w = le16(s, pos + 6) % 0x4000;
    let h = le16(s, pos + 8) % 0x4000;
    if s[pos + 3] == 0x9d && s[pos + 4] == 0x01 && s[pos + 5] == 0x2a && bits % 2 == 0 && bits / 2
        % 8 <= 3 && bits / 16 % 2 == 1 && bits / 32 < size && w != 0 && h != 0 {
        Some(BitstreamInfo { width: w as u32, height: h as u32, has_alpha: false, lossless: false })
    } else {
        None
    }
}

/// What the five header bytes at `pos` say, read as the start of a lossless
/// payload: the magic byte, then 14 bits of width less one, 14 bits of height
/// less one, the alpha bit and three version bits that must be zero.
#[verifier::opaque]
pub open spec fn vp8l_info(s: Seq<u8>, pos: int) -> Option<BitstreamInfo> {
    let bits = le32(s, pos + 1);
    if s[pos] == VP8L_MAGIC_BYTE && bits / 0x2000_0000 == 0 {
        Some(
            BitstreamInfo {
                width: (bits % 0x4000 + 1) as u32,
                height: (bits / 0x4000 % 0x4000 + 1) as u32,
                has_alpha: bits / 0x1000_0000 % 2 == 1,
                lossless: true,
            },
        )
    } else {
        None
    }
}

/// Whether a payload opens like a lossless one.
pub open spec fn looks_lossless(p: Seq<u8>) -> bool {
    p.len() >= VP8L_FRAME_HEADER_SIZE && p[0] == VP8L_MAGIC_BYTE
}

/// What a complete image payload says about its image, if its header is
/// sound. A payload that opens with the lossless magic byte is read as
/// lossless, any other as lossy.
pub open spec fn bitstream_info(p: Seq<u8>) -> Option<BitstreamInfo> {
    if looks_lossless(p) {
        vp8l_info(p, 0)
    } else if p.len() >= VP8_FRAME_HEADER_SIZE {
        vp8_info(p, 0, p.len() as int)
    } else {
        None
    }
}

/// A sound header gives a width and a height between one and 16384.
pub proof fn lemma_info_bounds(p: Seq<u8>)
    requires
        bitstream_info(p) is Some,
    ensures
        1 <= bitstream_info(p)->0.width <= 0x4000,
        1 <= bitstream_info(p)->0.height <= 0x4000,
{
    reveal(vp8_info);
    reveal(vp8l_info);
}

/// What a header says depends on its bytes alone, not on where they stand.
pub proof fn lemma_info_moves(s: Seq<u8>, pos: int, p: Seq<u8>, size: int)
    requires
        0 <= pos,
        pos + p.len() <= s.len(),
        forall|i: int| 0 <= i < p.len() ==> #[trigger] s[pos + i] == p[i],
    ensures
        p.len() >= VP8_FRAME_HEADER_SIZE ==> vp8_info(s, pos, size) == vp8_info(p, 0, size),
        p.len() >= VP8L_FRAME_HEADER_SIZE ==> vp8l_info(s, pos) == vp8l_info(p, 0),
{
    reveal(vp8_info);
    reveal(vp8l_info);
    if p.len() >= VP8L_FRAME_HEADER_SIZE {
        assert(s[pos + 0] == p[0] && s[pos + 1] == p[1] && s[pos + 2] == p[2] && s[pos + 3] == p[3]
            && s[pos + 4] == p[4]);
    }
    if p.len() >= VP8_FRAME_HEADER_SIZE {
        assert(s[pos + 5] == p[5] && s[pos + 6] == p[6] && s[pos + 7] == p[7] && s[pos + 8] == p[8]
            && s[pos + 9] == p[9]);
    }
}

/// A lossy header never says that the image has transparency, and every
/// header says truly whether it is lossless.
pub proof fn lemma_info_kinds(p: Seq<u8>)
    requires
        bitstream_info(p) is Some,
    ensures
        bitstream_info(p)->0.lossless == looks_lossless(p),
        !bitstream_info(p)->0.lossless ==> !bitstream_info(p)->0.has_alpha,
        if looks_lossless(p) {
            p.len() >= VP8L_FRAME_HEADER_SIZE && bitstream_info(p) == vp8l_info(p, 0)
        } else {
            p.len() >= VP8_FRAME_HEADER_SIZE && bitstream_info(p) == vp8_info(p, 0, p.len() as int)
        },
{
    reveal(vp8_info);
    reveal(vp8l_info);
}

/// Reads a lossy header at `pos`.
pub fn vp8_get_info(data: &[u8], pos: usize, size: u32) -> (r: Option<BitstreamInfo>)
    requires
        pos + VP8_FRAME_HEADER_SIZE <= data.len(),
    ensures
        r == vp8_info(data@, pos as int, size as int),
        r matches Some(i) ==> 1 <= i.width < 0x4000 && 1 <= i.height < 0x4000,
{
    reveal(vp8_info);
    let bits = read_le24(data, pos);
    let w = read_le16(data, pos + 6) % 0x4000;
    let h = read_le16(data, pos + 8) % 0x4000;
    if data[pos + 3] == 0x9d && data[pos + 4] == 0x01 && data[pos + 5] == 0x2a && bits % 2 == 0
        && bits / 2 % 8 <= 3 && bits / 16 % 2 == 1 && bits / 32 < size && w != 0 && h != 0 {
        Some(BitstreamInfo { width: w, height: h, has_alpha: false, lossless: false })
    } else {
        None
    }
}

/// Reads a lossless header at `pos`.
pub fn vp8l_get_info(data: &[u8], pos: usize) -> (r: Option<BitstreamInfo>)
    requires
        pos + VP8L_FRAME_HEADER_SIZE <= data.len(),
    ensures
        r == vp8l_info(data@, pos as int),
        r matches Some(i) ==> 1 <= i.width <= 0x4000 && 1 <= i.height <= 0x4000,
{
    reveal(vp8l_info);
    let bits = read_le32(data, pos + 1);
    if data[pos] == VP8L_MAGIC_BYTE && bits / 0x2000_0000 == 0 {
        Some(
            BitstreamInfo {
                width: bits % 0x4000 + 1,
                height: bits / 0x4000 % 0x4000 + 1,
                has_alpha: bits / 0x1000_0000 % 2 == 1,
                lossless: true,
            },
        )
    } else {
        None
    }
}

/// Reads the header of a complete image payload.
pub fn get_bitstream_info(payload: &[u8]) -> (r: Option<BitstreamInfo>)
    ensures
        r == bitstream_info(payload@),
        r matches Some(i) ==> 1 <= i.width <= 0x4000 && 1 <= i.height <= 0x4000,
{
    if payload.len() >= VP8L_FRAME_HEADER_SIZE && payload[0] == VP8L_MAGIC_BYTE {
        vp8l_get_info(payload, 0)
    } else if payload.len() >= VP8_FRAME_HEADER_SIZE {
        if payload.len() > 0xffff_ffff {
            // No partition length reaches 2^19, so any longer payload bounds it alike.
            vp8_get_info_long(payload)
        } else {
            vp8_get_info(payload, 0, payload.len() as u32)
        }
    } else {
        None
    }
}

/// Reads the lossy header of a payload too long for a 32-bit length.
fn vp8_get_info_long(payload: &[u8]) -> (r: Option<BitstreamInfo>)
    requires
        payload@.len() > 0xffff_ffff,
    ensures
        r == vp8_info(payload@, 0, payload@.len() as int),
        r matches Some(i) ==> 1 <= i.width < 0x4000 && 1 <= i.height < 0x4000,
{
    let r = vp8_get_info(payload, 0, 0xffff_ffff);
    proof {
        reveal(vp8_info);
        let bits = le24(payload@, 0);
        assert(bits / 32 < 0xffff_ffff);
    }
    r
}

} // verus!
