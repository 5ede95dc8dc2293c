use vstd::prelude::*;
use crate::bytes::{copy_range, le32, le32_bytes, push_bytes, push_le32, read_le32};
use crate::error::WebpError;

verus! {

/// Bytes of a chunk header: the tag and the payload length.
pub const CHUNK_HEADER_SIZE: usize = 8;

/// Bytes of the file header: `RIFF`, the size field and `WEBP`.
pub const RIFF_HEADER_SIZE: usize = 12;

/// The longest payload a chunk may declare. With its header and padding byte
/// such a chunk still ends within the range of the 32-bit size field.
pub const MAX_CHUNK_PAYLOAD: u32 = 0xffff_fff6;

/// The tag `RIFF`: opens every file.
pub const TAG_RIFF: u32 = 0x4646_4952;

/// The tag `WEBP`: the form of the file, behind the size field.
pub const TAG_WEBP: u32 = 0x5042_4557;

/// The tag `VP8 `: a lossy image.
pub const TAG_VP8: u32 = 0x2038_5056;

/// The tag `VP8L`: a lossless image.
pub const TAG_VP8L: u32 = 0x4c38_5056;

/// The tag `VP8X`: the extended header.
pub const TAG_VP8X: u32 = 0x5838_5056;

/// The tag `ALPH`: the transparency of a lossy image.
pub const TAG_ALPH: u32 = 0x4850_4c41;

/// The tag `ANIM`: the parameters of an animation.
pub const TAG_ANIM: u32 = 0x4d49_4e41;

/// The tag `ANMF`: one frame of an animation.
pub const TAG_ANMF: u32 = 0x464d_4e41;

/// The tag `ICCP`: a colour profile.
pub const TAG_ICCP: u32 = 0x5043_4349;

/// The tag `EXIF`: EXIF metadata.
pub const TAG_EXIF: u32 = 0x4649_5845;

/// The tag `XMP `: XMP metadata.
pub const TAG_XMP: u32 = 0x2050_4d58;

/// The four bytes of a tag as one number, first byte least significant.
pub open spec fn fourcc_value(a: u8, b: u8, c: u8, d: u8) -> int {
    a as int + 0x100 * (b as int) + 0x1_0000 * (c as int) + 0x100_0000 * (d as int)
}

/// Packs the four bytes of a tag into the number that stands for it.
pub fn fourcc(a: u8, b: u8, c: u8, d: u8) -> (tag: u32)
    ensures
        tag as int == fourcc_value(a, b, c, d),
        le32_bytes(tag as int) == seq![a, b, c, d],
{
    let tag = (a as u32) + 0x100 * (b as u32) + 0x1_0000 * (c as u32) + 0x100_0000 * (d as u32);
    proof {
        let t = tag as int;
        let hi = c as int + 0x100 * (d as int);
        let mid = b as int + 0x100 * hi;
        assert(t == a as int + 0x100 * mid);
        assert(t % 0x100 == a as int);
        assert(t / 0x100 == mid);
        assert(mid % 0x100 == b as int);
        assert(mid / 0x100 == hi);
        assert(t / 0x1_0000 == hi);
        assert(hi % 0x100 == c as int);
        assert(hi / 0x100 == d as int);
        assert(t / 0x100_0000 == d as int);
        assert(le32_bytes(t) =~= seq![a, b, c, d]);
    }
    tag
}

/// One chunk: a tag and the payload that belongs to it.
#[derive(Debug, Clone, PartialEq, Eq)]
pub struct Chunk {
    pub tag: u32,
    pub payload: Vec<u8>,
}

/// What a chunk is, with its payload as a sequence.
pub struct ChunkView {
    pub tag: u32,
    pub payload: Seq<u8>,
}

impl View for Chunk {
    type V = ChunkView;

    open spec fn view(&self) -> ChunkView {
        ChunkView { tag: self.tag, payload: self.payload@ }
    }
}

/// The views of a list of chunks, in order.
pub open spec fn chunk_views(cs: Seq<Chunk>) -> Seq<ChunkView> {
    Seq::new(cs.len(), |i: int| cs[i]@)
}

/// A payload length rounded up to the next even number.
pub open spec fn padded_len(n: int) -> int {
    n + n % 2
}

/// The bytes that encode one chunk: tag, length, payload, and a zero byte
/// after a payload of odd length.
pub open spec fn chunk_bytes(c: ChunkView) -> Seq<u8> {
    le32_bytes(c.tag as int) + le32_bytes(c.payload.len() as int) + c.payload + (if c.payload.len()
        % 2 == 1 {
        seq![0u8]
    } else {
        Seq::<u8>::empty()
    })
}

/// The bytes that encode a list of chunks, one after another.
pub open spec fn chunks_bytes(cs: Seq<ChunkView>) -> Seq<u8>
    decreases cs.len(),
{
    if cs.len() == 0 {
        Seq::<u8>::empty()
    } else {
        chunks_bytes(cs.drop_last()) + chunk_bytes(cs.last())
    }
}

/// Whether a whole chunk, padding included, lies between `pos` and `end`.
pub open spec fn chunk_fits(s: Seq<u8>, pos: int, end: int) -> bool {
    &&& 0 <= pos
    &&& pos + 8 <= end <= s.len()
    &&& pos + 8 + padded_len(le32(s, pos + 4)) <= end
}

/// The chunk that starts at `pos`.
pub open spec fn chunk_at(s: Seq<u8>, pos: int) -> ChunkView {
    ChunkView {
        tag: le32(s, pos) as u32,
        payload: s.subrange(pos + 8, pos + 8 + le32(s, pos + 4)),
    }
}

/// Where the chunk after the one at `pos` starts.
pub open spec fn chunk_next(s: Seq<u8>, pos: int) -> int {
    pos + 8 + padded_len(le32(s, pos + 4))
}

/// The whole chunks that lie one after another between `pos` and `end`.
pub open spec fn tokens(s: Seq<u8>, pos: int, end: int) -> Seq<ChunkView>
    decreases end - pos,
{
    if chunk_fits(s, pos, end) {
        seq![chunk_at(s, pos)] + tokens(s, chunk_next(s, pos), end)
    } else {
        Seq::<ChunkView>::empty()
    }
}

/// Where the run of whole chunks that starts at `pos` stops.
pub open spec fn tokens_stop(s: Seq<u8>, pos: int, end: int) -> int
    decreases end - pos,
{
    if chunk_fits(s, pos, end) {
        tokens_stop(s, chunk_next(s, pos), end)
    } else {
        pos
    }
}

/// Writes one chunk: the tag, the payload's length, the payload, and one zero
/// byte where the payload's length is odd.
pub fn write(tag: u32, payload: &[u8]) -> (r: Result<Vec<u8>, WebpError>)
    ensures
        r.is_ok() <==> payload@.len() <= MAX_CHUNK_PAYLOAD,
        r matches Ok(bytes) ==> bytes@ == chunk_bytes(ChunkView { tag, payload: payload@ }),
        r matches Err(e) ==> e == WebpError::InvalidArgument,
{
    if payload.len() > MAX_CHUNK_PAYLOAD as usize {
        return Err(WebpError::InvalidArgument);
    }
    let mut out: Vec<u8> = Vec::new();
    append_chunk(&mut out, tag, payload);
    Ok(out)
}

/// Appends the encoding of one chunk to `out`.
pub fn append_chunk(out: &mut Vec<u8>, tag: u32, payload: &[u8])
    requires
        payload@.len() <= MAX_CHUNK_PAYLOAD,
    ensures
        final(out)@ == old(out)@ + chunk_bytes(ChunkView { tag, payload: payload@ }),
{
    push_le32(out, tag);
    push_le32(out, payload.len() as u32);
    push_bytes(out, payload);
    if payload.len() % 2 == 1 {
        out.push(0u8);
    }
    assert(out@ =~= old(out)@ + chunk_bytes(ChunkView { tag, payload: payload@ }));
}

/// A cursor that walks a buffer chunk by chunk.
#[derive(Debug, Clone, Copy, PartialEq, Eq, Structural)]
pub struct ChunkReader {
    pub cursor: usize,
}

impl ChunkReader {
    /// A reader at the start of a buffer.
    pub fn new() -> (r: ChunkReader)
        ensures
            r.cursor == 0,
    {
        ChunkReader { cursor: 0 }
    }

    /// A reader that continues at `cursor`.
    pub fn at(cursor: usize) -> (r: ChunkReader)
        ensures
            r.cursor == cursor,
    {
        ChunkReader { cursor }
    }

    /// Reads the chunk under the cursor and moves the cursor behind it.
    ///
    /// At or behind the end of the buffer there is no chunk left: `None`,
    /// cursor unchanged. Where the buffer ends inside the header, the payload
    /// or the padding byte of the chunk under the cursor, the chunk is
    /// truncated, and the cursor stays as well.
    pub fn read_next(&mut self, buf: &[u8]) -> (r: Result<Option<Chunk>, WebpError>)
        ensures
            old(self).cursor >= buf@.len() ==> {
                &&& r == Ok::<Option<Chunk>, WebpError>(None)
                &&& final(self).cursor == old(self).cursor
            },
            old(self).cursor < buf@.len() && !chunk_fits(buf@, old(self).cursor as int, buf@.len() as int)
                ==> {
                &&& r == Err::<Option<Chunk>, WebpError>(WebpError::TruncatedChunk)
                &&& final(self).cursor == old(self).cursor
            },
            chunk_fits(buf@, old(self).cursor as int, buf@.len() as int) ==> {
                &&& r matches Ok(Some(c))
                &&& c@ == chunk_at(buf@, old(self).cursor as int)
                &&& final(self).cursor == chunk_next(buf@, old(self).cursor as int)
            },
    {
        let pos = self.cursor;
        if pos >= buf.len() {
            return Ok(None);
        }
        let remaining = buf.len() - pos;
        if remaining < CHUNK_HEADER_SIZE {
            return Err(WebpError::TruncatedChunk);
        }
        let tag = read_le32(buf, pos);
        let len = read_le32(buf, pos + 4);
        let padded: u64 = len as u64 + (len % 2) as u64;
        if padded > (remaining - CHUNK_HEADER_SIZE) as u64 {
            return Err(WebpError::TruncatedChunk);
        }
        let start = pos + CHUNK_HEADER_SIZE;
        let payload = copy_range(buf, start, start + len as usize);
        self.cursor = start + padded as usize;
        Ok(Some(Chunk { tag, payload }))
    }
}

} // verus!
