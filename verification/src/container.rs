use vstd::prelude::*;
use crate::bitstream::bitstream_info;
use crate::bytes::{le16_bytes, le24_bytes, le32_bytes};
use crate::chunk::{
    chunk_views, chunks_bytes, Chunk, ChunkView, MAX_CHUNK_PAYLOAD, TAG_ALPH, TAG_ANIM,
    TAG_ANMF, TAG_EXIF, TAG_ICCP, TAG_RIFF, TAG_VP8, TAG_VP8L, TAG_VP8X, TAG_WEBP, TAG_XMP,
};

verus! {

/// Bit of the extended header's flag byte: the file is an animation.
pub const ANIMATION_FLAG: u32 = 0x02;

/// Bit of the extended header's flag byte: the file carries XMP metadata.
pub const XMP_FLAG: u32 = 0x04;

/// Bit of the extended header's flag byte: the file carries EXIF metadata.
pub const EXIF_FLAG: u32 = 0x08;

/// Bit of the extended header's flag byte: some frame has transparency.
pub const ALPHA_FLAG: u32 = 0x10;

/// Bit of the extended header's flag byte: the file carries a colour profile.
pub const ICCP_FLAG: u32 = 0x20;

/// The largest canvas side that the extended header can hold.
pub const MAX_CANVAS_SIZE: u32 = 0x100_0000;

/// Bytes of the extended header's payload.
pub const VP8X_CHUNK_SIZE: usize = 10;

/// Bytes of the animation parameters' payload.
pub const ANIM_CHUNK_SIZE: usize = 6;

/// Bytes of the frame header that opens the payload of an animation frame.
pub const ANMF_HEADER_SIZE: usize = 16;

/// What happens to a frame's area before the next frame is drawn.
#[allow(non_camel_case_types)]
#[derive(Debug, Clone, Copy, PartialEq, Eq, Structural, Hash)]
pub enum WebPMuxAnimDispose {
    /// The area is left as it is.
    WEBP_MUX_DISPOSE_NONE,
    /// The area is cleared to the background colour.
    WEBP_MUX_DISPOSE_BACKGROUND,
}

/// How a frame is combined with what the canvas holds.
#[allow(non_camel_case_types)]
#[derive(Debug, Clone, Copy, PartialEq, Eq, Structural, Hash)]
pub enum WebPMuxAnimBlend {
    /// The frame is alpha-blended onto the canvas.
    WEBP_MUX_BLEND,
    /// The frame replaces the canvas area.
    WEBP_MUX_NO_BLEND,
}

/// The kinds of chunk that the container knows.
#[allow(non_camel_case_types)]
#[derive(Debug, Clone, Copy, PartialEq, Eq, Structural, Hash)]
pub enum WebPChunkId {
    WEBP_CHUNK_VP8X,
    WEBP_CHUNK_ICCP,
    WEBP_CHUNK_ANIM,
    WEBP_CHUNK_ANMF,
    WEBP_CHUNK_FRGM,
    WEBP_CHUNK_ALPHA,
    WEBP_CHUNK_IMAGE,
    WEBP_CHUNK_EXIF,
    WEBP_CHUNK_XMP,
    WEBP_CHUNK_UNKNOWN,
    WEBP_CHUNK_NIL,
}

/// The parameters of an animation as a whole.
#[derive(Debug, Clone, Copy, PartialEq, Eq, Structural, Hash)]
pub struct WebPMuxAnimParams {
    /// Background colour of the canvas, as stored in the file.
    pub bgcolor: u32,
    /// How often the animation plays; zero means forever.
    pub loop_count: u32,
}

/// One frame: the image payload with what places it on the canvas.
#[derive(Debug, Clone, PartialEq, Eq)]
pub struct WebPMuxFrameInfo {
    /// The payload of the frame's image chunk.
    pub bitstream: Vec<u8>,
    /// The payload of the frame's transparency chunk, if it has one.
    pub alpha: Option<Vec<u8>>,
    pub x_offset: u32,
    pub y_offset: u32,
    /// Milliseconds for which the frame is shown.
    pub duration: u32,
    /// `WEBP_CHUNK_IMAGE` for a still image, `WEBP_CHUNK_ANMF` for a frame of
    /// an animation, `WEBP_CHUNK_FRGM` for a fragment.
    pub id: WebPChunkId,
    pub dispose_method: WebPMuxAnimDispose,
    pub blend_method: WebPMuxAnimBlend,
}

/// A frame with its payloads as sequences.
pub struct FrameView {
    pub bitstream: Seq<u8>,
    pub alpha: Option<Seq<u8>>,
    pub x_offset: u32,
    pub y_offset: u32,
    pub duration: u32,
    pub id: WebPChunkId,
    pub dispose_method: WebPMuxAnimDispose,
    pub blend_method: WebPMuxAnimBlend,
}

/// The content of an optional byte buffer.
pub open spec fn opt_bytes(o: Option<Vec<u8>>) -> Option<Seq<u8>> {
    match o {
        Some(v) => Some(v@),
        None => None,
    }
}

impl View for WebPMuxFrameInfo {
    type V = FrameView;

    open spec fn view(&self) -> FrameView {
        FrameView {
            bitstream: self.bitstream@,
            alpha: opt_bytes(self.alpha),
            x_offset: self.x_offset,
            y_offset: self.y_offset,
            duration: self.duration,
            id: self.id,
            dispose_method: self.dispose_method,
            blend_method: self.blend_method,
        }
    }
}

/// The views of a list of frames, in order.
pub open spec fn frame_views(fs: Seq<WebPMuxFrameInfo>) -> Seq<FrameView> {
    Seq::new(fs.len(), |i: int| fs[i]@)
}

/// A WebP file in memory: the canvas, the animation parameters, the metadata
/// chunks, the frames in order and the chunks of unknown kind.
///
/// A canvas of zero by zero stands for "not set": the canvas is then as large
/// as the frames need.
#[derive(Debug, Clone, PartialEq, Eq)]
pub struct ContainerModel {
    pub canvas_width: u32,
    pub canvas_height: u32,
    pub anim: Option<WebPMuxAnimParams>,
    pub iccp: Option<Vec<u8>>,
    pub exif: Option<Vec<u8>>,
    pub xmp: Option<Vec<u8>>,
    pub frames: Vec<WebPMuxFrameInfo>,
    pub unknown: Vec<Chunk>,
}

/// A container with all its buffers as sequences.
pub struct ModelView {
    pub canvas_width: u32,
    pub canvas_height: u32,
    pub anim: Option<WebPMuxAnimParams>,
    pub iccp: Option<Seq<u8>>,
    pub exif: Option<Seq<u8>>,
    pub xmp: Option<Seq<u8>>,
    pub frames: Seq<FrameView>,
    pub unknown: Seq<ChunkView>,
}

impl View for ContainerModel {
    type V = ModelView;

    open spec fn view(&self) -> ModelView {
        ModelView {
            canvas_width: self.canvas_width,
            canvas_height: self.canvas_height,
            anim: self.anim,
            iccp: opt_bytes(self.iccp),
            exif: opt_bytes(self.exif),
            xmp: opt_bytes(self.xmp),
            frames: frame_views(self.frames@),
            unknown: chunk_views(self.unknown@),
        }
    }
}

/// The model that holds nothing yet.
pub open spec fn empty_model() -> ModelView {
    ModelView {
        canvas_width: 0,
        canvas_height: 0,
        anim: None,
        iccp: None,
        exif: None,
        xmp: None,
        frames: Seq::empty(),
        unknown: Seq::empty(),
    }
}

// ---------------------------------------------------------------------------
// What a model means
// ---------------------------------------------------------------------------

/// Whether a tag names a chunk kind that the container gives a meaning to.
pub open spec fn is_reserved_tag(tag: u32) -> bool {
    tag == TAG_VP8X || tag == TAG_VP8 || tag == TAG_VP8L || tag == TAG_ALPH || tag == TAG_ANIM
        || tag == TAG_ANMF || tag == TAG_ICCP || tag == TAG_EXIF || tag == TAG_XMP
}

/// Whether the model is one still image.
pub open spec fn is_still(m: ModelView) -> bool {
    m.frames.len() == 1 && m.frames[0].id == WebPChunkId::WEBP_CHUNK_IMAGE
}

/// Whether the model is an animation: at least one frame, and every frame an
/// animation frame.
pub open spec fn is_animation(m: ModelView) -> bool {
    m.frames.len() >= 1 && forall|i: int|
        0 <= i < m.frames.len() ==> (#[trigger] m.frames[i]).id == WebPChunkId::WEBP_CHUNK_ANMF
}

/// Width of a frame's image, or zero where the payload's header is unsound.
pub open spec fn frame_width(f: FrameView) -> int {
    match bitstream_info(f.bitstream) {
        Some(i) => i.width as int,
        None => 0,
    }
}

/// Height of a frame's image, or zero where the payload's header is unsound.
pub open spec fn frame_height(f: FrameView) -> int {
    match bitstream_info(f.bitstream) {
        Some(i) => i.height as int,
        None => 0,
    }
}

/// Whether a frame has transparency: a transparency chunk of its own, or a
/// lossless payload that says so.
pub open spec fn frame_has_alpha(f: FrameView) -> bool {
    f.alpha is Some || (bitstream_info(f.bitstream) matches Some(i) && i.has_alpha)
}

/// The least canvas width that holds every frame.
pub open spec fn extent_width(fs: Seq<FrameView>) -> int
    decreases fs.len(),
{
    if fs.len() == 0 {
        0
    } else {
        let rest = extent_width(fs.drop_last());
        let right = fs.last().x_offset + frame_width(fs.last());
        if right > rest {
            right
        } else {
            rest
        }
    }
}

/// The least canvas height that holds every frame.
pub open spec fn extent_height(fs: Seq<FrameView>) -> int
    decreases fs.len(),
{
    if fs.len() == 0 {
        0
    } else {
        let rest = extent_height(fs.drop_last());
        let bottom = fs.last().y_offset + frame_height(fs.last());
        if bottom > rest {
            bottom
        } else {
            rest
        }
    }
}

/// Whether the canvas was left for the frames to decide.
pub open spec fn canvas_unset(m: ModelView) -> bool {
    m.canvas_width == 0 && m.canvas_height == 0
}

/// The canvas width that the file declares.
pub open spec fn effective_width(m: ModelView) -> int {
    if canvas_unset(m) {
        extent_width(m.frames)
    } else {
        m.canvas_width as int
    }
}

/// The canvas height that the file declares.
pub open spec fn effective_height(m: ModelView) -> int {
    if canvas_unset(m) {
        extent_height(m.frames)
    } else {
        m.canvas_height as int
    }
}

/// Whether any frame has transparency.
pub open spec fn any_alpha(fs: Seq<FrameView>) -> bool {
    exists|i: int| 0 <= i < fs.len() && frame_has_alpha(#[trigger] fs[i])
}

/// The flag byte that the model's content calls for.
pub open spec fn derived_flags(m: ModelView) -> int {
    (if is_animation(m) {
        ANIMATION_FLAG as int
    } else {
        0
    }) + (if m.xmp is Some {
        XMP_FLAG as int
    } else {
        0
    }) + (if m.exif is Some {
        EXIF_FLAG as int
    } else {
        0
    }) + (if any_alpha(m.frames) {
        ALPHA_FLAG as int
    } else {
        0
    }) + (if m.iccp is Some {
        ICCP_FLAG as int
    } else {
        0
    })
}

/// Whether the file needs the extended header: it does for any flag, for any
/// chunk of unknown kind, and for a canvas that differs from the one image.
pub open spec fn needs_vp8x(m: ModelView) -> bool {
    ||| derived_flags(m) != 0
    ||| m.unknown.len() > 0
    ||| effective_width(m) != frame_width(m.frames[0])
    ||| effective_height(m) != frame_height(m.frames[0])
}

/// What holds of a frame of a model that can be written.
pub open spec fn frame_valid(f: FrameView, cw: int, ch: int) -> bool {
    &&& bitstream_info(f.bitstream) is Some
    &&& f.x_offset + frame_width(f) <= cw
    &&& f.y_offset + frame_height(f) <= ch
    &&& if f.id == WebPChunkId::WEBP_CHUNK_ANMF {
        &&& f.x_offset % 2 == 0
        &&& f.y_offset % 2 == 0
        &&& f.duration < 0x100_0000
    } else {
        &&& f.id == WebPChunkId::WEBP_CHUNK_IMAGE
        &&& f.x_offset == 0
        &&& f.y_offset == 0
        &&& f.duration == 0
        &&& f.dispose_method == WebPMuxAnimDispose::WEBP_MUX_DISPOSE_NONE
        &&& f.blend_method == WebPMuxAnimBlend::WEBP_MUX_BLEND
    }
}

/// What holds of the structure of a model that can be written: it is one
/// still image or an animation with its parameters, the canvas is set in both
/// directions or in none and holds every frame, every frame is sound, and no
/// chunk of unknown kind bears a tag that the container gives a meaning to.
pub open spec fn structure_valid(m: ModelView) -> bool {
    &&& is_still(m) || is_animation(m)
    &&& (m.canvas_width == 0) == (m.canvas_height == 0)
    &&& 1 <= effective_width(m) <= MAX_CANVAS_SIZE
    &&& 1 <= effective_height(m) <= MAX_CANVAS_SIZE
    &&& forall|i: int|
        0 <= i < m.frames.len() ==> frame_valid(
            #[trigger] m.frames[i],
            effective_width(m),
            effective_height(m),
        )
    &&& is_animation(m) ==> (m.anim matches Some(a) && a.loop_count <= 0xffff)
    &&& forall|i: int| 0 <= i < m.unknown.len() ==> !is_reserved_tag((#[trigger] m.unknown[i]).tag)
}

// ---------------------------------------------------------------------------
// The file that a model stands for
// ---------------------------------------------------------------------------

/// A list of no chunk or one chunk, for a payload that may be absent.
pub open spec fn optional_chunk(tag: u32, payload: Option<Seq<u8>>) -> Seq<ChunkView> {
    match payload {
        Some(p) => seq![ChunkView { tag, payload: p }],
        None => Seq::<ChunkView>::empty(),
    }
}

/// The tag of the chunk that holds a frame's image payload.
pub open spec fn image_tag(f: FrameView) -> u32 {
    match bitstream_info(f.bitstream) {
        Some(i) => if i.lossless {
            TAG_VP8L
        } else {
            TAG_VP8
        },
        None => TAG_VP8,
    }
}

/// The chunks of one image: the transparency chunk, if any, then the image.
pub open spec fn image_chunks(f: FrameView) -> Seq<ChunkView> {
    optional_chunk(TAG_ALPH, f.alpha) + seq![
        ChunkView { tag: image_tag(f), payload: f.bitstream },
    ]
}

/// The flag byte of a frame header.
pub open spec fn anmf_flags(f: FrameView) -> int {
    (if f.dispose_method == WebPMuxAnimDispose::WEBP_MUX_DISPOSE_BACKGROUND {
        1int
    } else {
        0int
    }) + (if f.blend_method == WebPMuxAnimBlend::WEBP_MUX_NO_BLEND {
        2int
    } else {
        0int
    })
}

/// The sixteen bytes of a frame header: the halved offsets, the width and the
/// height each less one, the duration, all in 24 bits, and the flag byte.
pub open spec fn anmf_header(f: FrameView) -> Seq<u8> {
    le24_bytes(f.x_offset as int / 2) + le24_bytes(f.y_offset as int / 2) + le24_bytes(
        frame_width(f) - 1,
    ) + le24_bytes(frame_height(f) - 1) + le24_bytes(f.duration as int) + seq![
        anmf_flags(f) as u8,
    ]
}

/// The payload of an animation frame's chunk: the frame header, then the
/// chunks of the frame's image.
#[verifier::opaque]
pub open spec fn anmf_payload(f: FrameView) -> Seq<u8> {
    anmf_header(f) + chunks_bytes(image_chunks(f))
}

/// The chunks of a list of animation frames, one chunk each.
pub open spec fn anmf_chunks(fs: Seq<FrameView>) -> Seq<ChunkView> {
    Seq::new(fs.len(), |i: int| ChunkView { tag: TAG_ANMF, payload: anmf_payload(fs[i]) })
}

/// The payload of the extended header: the flag byte, three reserved bytes,
/// and the canvas width and height each less one, in 24 bits.
pub open spec fn vp8x_payload(m: ModelView) -> Seq<u8> {
    seq![derived_flags(m) as u8, 0u8, 0u8, 0u8] + le24_bytes(effective_width(m) - 1) + le24_bytes(
        effective_height(m) - 1,
    )
}

/// The payload of the animation parameters: the background colour in 32
/// bits, the loop count in 16.
pub open spec fn anim_payload(a: WebPMuxAnimParams) -> Seq<u8> {
    le32_bytes(a.bgcolor as int) + le16_bytes(a.loop_count as int)
}

/// The chunks that carry the frames: one chunk per frame of an animation, or
/// the chunks of the one still image.
pub open spec fn frame_chunks(m: ModelView) -> Seq<ChunkView> {
    if is_animation(m) {
        seq![ChunkView { tag: TAG_ANIM, payload: anim_payload(m.anim->0) }] + anmf_chunks(m.frames)
    } else {
        image_chunks(m.frames[0])
    }
}

/// The chunks of the file, in the order in which they are written: alone the
/// image chunk in the simple layout; else the extended header, the colour
/// profile, the animation parameters and the frames, EXIF, XMP, and last the
/// chunks of unknown kind.
pub open spec fn model_chunks(m: ModelView) -> Seq<ChunkView> {
    if needs_vp8x(m) {
        seq![ChunkView { tag: TAG_VP8X, payload: vp8x_payload(m) }] + optional_chunk(
            TAG_ICCP,
            m.iccp,
        ) + frame_chunks(m) + optional_chunk(TAG_EXIF, m.exif) + optional_chunk(TAG_XMP, m.xmp)
            + m.unknown
    } else {
        image_chunks(m.frames[0])
    }
}

/// The bytes between the file header and the end of the file.
pub open spec fn body_bytes(m: ModelView) -> Seq<u8> {
    chunks_bytes(model_chunks(m))
}

/// Whether a model can be written: its structure is sound and the file stays
/// within what the 32-bit size field can say.
pub open spec fn model_valid(m: ModelView) -> bool {
    &&& structure_valid(m)
    &&& 4 + body_bytes(m).len() <= MAX_CHUNK_PAYLOAD
}

/// The bytes of the file: `RIFF`, the size of all that follows the size
/// field, `WEBP`, and the chunks.
pub open spec fn file_bytes(m: ModelView) -> Seq<u8> {
    le32_bytes(TAG_RIFF as int) + le32_bytes(4 + body_bytes(m).len() as int) + le32_bytes(TAG_WEBP as int)
        + body_bytes(m)
}

/// The model as a file presents it: the canvas spelled out, and animation
/// parameters only where there is an animation.
pub open spec fn normalized(m: ModelView) -> ModelView {
    ModelView {
        canvas_width: effective_width(m) as u32,
        canvas_height: effective_height(m) as u32,
        anim: if is_animation(m) {
            m.anim
        } else {
            None
        },
        ..m
    }
}

} // verus!
