use vstd::prelude::*;
use vstd::slice::slice_subrange;
use crate::bitstream::{bitstream_info, get_bitstream_info, BitstreamInfo};
use crate::bytes::{le16, le24, le32, read_le16, read_le24, read_le32};
use crate::chunk::{
    chunk_at, chunk_fits, chunk_next, chunk_views, tokens, tokens_stop, Chunk, ChunkReader,
    ChunkView, MAX_CHUNK_PAYLOAD, RIFF_HEADER_SIZE, TAG_ALPH, TAG_ANIM, TAG_ANMF, TAG_EXIF,
    TAG_ICCP, TAG_RIFF, TAG_VP8, TAG_VP8L, TAG_VP8X, TAG_WEBP, TAG_XMP,
};
use crate::container::{
    any_alpha, empty_model, frame_height, frame_width, opt_bytes, ContainerModel, FrameView,
    ModelView, WebPChunkId, WebPMuxAnimBlend, WebPMuxAnimDispose, WebPMuxAnimParams,
    WebPMuxFrameInfo, ANIM_CHUNK_SIZE, ANMF_HEADER_SIZE, VP8X_CHUNK_SIZE,
};

verus! {

/// How far the parsing of a file has come.
#[allow(non_camel_case_types)]
#[derive(Debug, Clone, Copy, PartialEq, Eq, Structural, Hash)]
pub enum WebPDemuxState {
    /// The bytes break the container's structure.
    WEBP_DEMUX_PARSE_ERROR,
    /// Too few bytes to know the canvas.
    WEBP_DEMUX_PARSING_HEADER,
    /// The canvas is known; frames may still be missing.
    WEBP_DEMUX_PARSED_HEADER,
    /// The whole file was parsed.
    WEBP_DEMUX_DONE,
}

/// What has been gathered from the chunks read so far.
pub struct BuildState {
    /// No chunk was read yet.
    pub fresh: bool,
    /// The file opened with the extended header.
    pub extended: bool,
    /// The flag byte of the extended header.
    pub flags: u8,
    pub model: ModelView,
    /// A transparency chunk that waits for its image.
    pub pending_alpha: Option<Seq<u8>>,
}

/// The state before the first chunk.
pub open spec fn build_init() -> BuildState {
    BuildState {
        fresh: true,
        extended: false,
        flags: 0,
        model: empty_model(),
        pending_alpha: None,
    }
}

/// Whether a tag is that of an image chunk.
pub open spec fn is_image_tag(tag: u32) -> bool {
    tag == TAG_VP8 || tag == TAG_VP8L
}

/// The header of an image chunk's payload, where it is sound and of the kind
/// that the chunk's tag announces.
pub open spec fn image_info(tag: u32, payload: Seq<u8>) -> Option<BitstreamInfo> {
    match bitstream_info(payload) {
        Some(i) => if is_image_tag(tag) && i.lossless == (tag == TAG_VP8L) {
            Some(i)
        } else {
            None
        },
        None => None,
    }
}

/// The frame that a still image's chunks stand for.
pub open spec fn still_frame(payload: Seq<u8>, alpha: Option<Seq<u8>>) -> FrameView {
    FrameView {
        bitstream: payload,
        alpha,
        x_offset: 0,
        y_offset: 0,
        duration: 0,
        id: WebPChunkId::WEBP_CHUNK_IMAGE,
        dispose_method: WebPMuxAnimDispose::WEBP_MUX_DISPOSE_NONE,
        blend_method: WebPMuxAnimBlend::WEBP_MUX_BLEND,
    }
}

/// The frame that a frame header and the chunks behind it stand for: a
/// transparency chunk or none, then one image chunk whose size is the one
/// that the header gives.
pub open spec fn frame_of_parts(p: Seq<u8>, toks: Seq<ChunkView>) -> Option<FrameView> {
    let n = toks.len();
    if n < 1 || n > 2 {
        None
    } else if n == 2 && toks[0].tag != TAG_ALPH {
        None
    } else {
        let img = toks[n - 1];
        match image_info(img.tag, img.payload) {
            Some(i) => if i.width == le24(p, 6) + 1 && i.height == le24(p, 9) + 1 {
                Some(
                    FrameView {
                        bitstream: img.payload,
                        alpha: if n == 2 {
                            Some(toks[0].payload)
                        } else {
                            None
                        },
                        x_offset: (2 * le24(p, 0)) as u32,
                        y_offset: (2 * le24(p, 3)) as u32,
                        duration: le24(p, 12) as u32,
                        id: WebPChunkId::WEBP_CHUNK_ANMF,
                        dispose_method: if p[15] % 2 == 1 {
                            WebPMuxAnimDispose::WEBP_MUX_DISPOSE_BACKGROUND
                        } else {
                            WebPMuxAnimDispose::WEBP_MUX_DISPOSE_NONE
                        },
                        blend_method: if p[15] / 2 % 2 == 1 {
                            WebPMuxAnimBlend::WEBP_MUX_NO_BLEND
                        } else {
                            WebPMuxAnimBlend::WEBP_MUX_BLEND
                        },
                    },
                )
            } else {
                None
            },
            None => None,
        }
    }
}

/// The frame that the payload of an animation frame's chunk stands for: a
/// frame header, then the chunks of the frame, which fill the payload to its
/// end.
pub open spec fn parse_anmf(p: Seq<u8>) -> Option<FrameView> {
    if p.len() < ANMF_HEADER_SIZE || tokens_stop(p, ANMF_HEADER_SIZE as int, p.len() as int)
        != p.len() {
        None
    } else {
        frame_of_parts(p, tokens(p, ANMF_HEADER_SIZE as int, p.len() as int))
    }
}

/// Whether a frame lies on the canvas of a model.
pub open spec fn on_canvas(m: ModelView, f: FrameView) -> bool {
    &&& f.x_offset + frame_width(f) <= m.canvas_width
    &&& f.y_offset + frame_height(f) <= m.canvas_height
}

/// The state after the first chunk of a file, which is the extended header
/// or, in the simple layout, the image.
pub open spec fn first_step(c: ChunkView) -> Option<BuildState> {
    if c.tag == TAG_VP8X {
        if c.payload.len() == VP8X_CHUNK_SIZE {
            Some(
                BuildState {
                    fresh: false,
                    extended: true,
                    flags: c.payload[0],
                    model: ModelView {
                        canvas_width: (le24(c.payload, 4) + 1) as u32,
                        canvas_height: (le24(c.payload, 7) + 1) as u32,
                        ..empty_model()
                    },
                    pending_alpha: None,
                },
            )
        } else {
            None
        }
    } else {
        match image_info(c.tag, c.payload) {
            Some(i) => Some(
                BuildState {
                    fresh: false,
                    extended: false,
                    flags: 0,
                    model: ModelView {
                        canvas_width: i.width,
                        canvas_height: i.height,
                        frames: seq![still_frame(c.payload, None)],
                        ..empty_model()
                    },
                    pending_alpha: None,
                },
            ),
            None => None,
        }
    }
}

/// The state after one more chunk, or `None` where the chunk breaks the
/// structure of the file.
///
/// The simple layout ends with its image. In the extended layout the header
/// comes once; the colour profile, the animation parameters, EXIF and XMP
/// come at most once each; animation frames come after the animation
/// parameters and never beside a still image; a transparency chunk comes
/// before the one still image, which it belongs to; every frame lies on the
/// canvas. A chunk of any other tag is kept as it is.
#[verifier::opaque]
pub open spec fn build_step(s: BuildState, c: ChunkView) -> Option<BuildState> {
    let m = s.model;
    if s.fresh {
        first_step(c)
    } else if !s.extended || c.tag == TAG_VP8X {
        None
    } else if c.tag == TAG_ICCP {
        if m.iccp is None {
            Some(BuildState { model: ModelView { iccp: Some(c.payload), ..m }, ..s })
        } else {
            None
        }
    } else if c.tag == TAG_EXIF {
        if m.exif is None {
            Some(BuildState { model: ModelView { exif: Some(c.payload), ..m }, ..s })
        } else {
            None
        }
    } else if c.tag == TAG_XMP {
        if m.xmp is None {
            Some(BuildState { model: ModelView { xmp: Some(c.payload), ..m }, ..s })
        } else {
            None
        }
    } else if c.tag == TAG_ANIM {
        if m.anim is None && c.payload.len() == ANIM_CHUNK_SIZE {
            Some(
                BuildState {
                    model: ModelView {
                        anim: Some(
                            WebPMuxAnimParams {
                                bgcolor: le32(c.payload, 0) as u32,
                                loop_count: le16(c.payload, 4) as u32,
                            },
                        ),
                        ..m
                    },
                    ..s
                },
            )
        } else {
            None
        }
    } else if c.tag == TAG_ANMF {
        match parse_anmf(c.payload) {
            Some(f) => if m.anim is Some && s.pending_alpha is None && (m.frames.len() == 0
                || m.frames.last().id == WebPChunkId::WEBP_CHUNK_ANMF) && on_canvas(m, f) {
                Some(BuildState { model: ModelView { frames: m.frames.push(f), ..m }, ..s })
            } else {
                None
            },
            None => None,
        }
    } else if c.tag == TAG_ALPH {
        if s.pending_alpha is None && m.frames.len() == 0 {
            Some(BuildState { pending_alpha: Some(c.payload), ..s })
        } else {
            None
        }
    } else if is_image_tag(c.tag) {
        let f = still_frame(c.payload, s.pending_alpha);
        if image_info(c.tag, c.payload) is Some && m.frames.len() == 0 && on_canvas(m, f) {
            Some(
                BuildState {
                    model: ModelView { frames: m.frames.push(f), ..m },
                    pending_alpha: None,
                    ..s
                },
            )
        } else {
            None
        }
    } else {
        Some(BuildState { model: ModelView { unknown: m.unknown.push(c), ..m }, ..s })
    }
}

/// The state after a list of chunks, starting from `s0`.
pub open spec fn build_from(s0: BuildState, cs: Seq<ChunkView>) -> Option<BuildState>
    decreases cs.len(),
{
    if cs.len() == 0 {
        Some(s0)
    } else {
        match build_from(s0, cs.drop_last()) {
            Some(s) => build_step(s, cs.last()),
            None => None,
        }
    }
}

/// Whether the chunks read make a whole file: there is a frame, no
/// transparency chunk waits for an image, and the extended header announces
/// an animation exactly where the frames are animation frames.
pub open spec fn finished(s: BuildState) -> bool {
    &&& s.model.frames.len() >= 1
    &&& s.pending_alpha is None
    &&& s.extended ==> ((s.flags / 2 % 2 == 1) == (s.model.frames[0].id
        == WebPChunkId::WEBP_CHUNK_ANMF))
}

/// What parsing makes of a buffer: the state reached, and the model as far as
/// it is known.
pub struct DemuxView {
    pub state: WebPDemuxState,
    /// The flag byte of the file: that of the extended header or, in the
    /// simple layout, the transparency flag where the image has transparency.
    pub flags: u8,
    pub model: ModelView,
}

/// The flag byte that a file shows after the chunks read so far.
pub open spec fn shown_flags(s: BuildState) -> u8 {
    if s.extended {
        s.flags
    } else if any_alpha(s.model.frames) {
        0x10
    } else {
        0
    }
}

/// Whether the twelve bytes of the file header are sound: the two magic
/// words, and a size that leaves room for the second of them and stays within
/// what a chunk may declare.
pub open spec fn header_ok(d: Seq<u8>) -> bool {
    &&& le32(d, 0) == TAG_RIFF
    &&& le32(d, 8) == TAG_WEBP
    &&& 4 <= le32(d, 4) <= MAX_CHUNK_PAYLOAD
}

/// Where the file ends within the buffer: at the end that the header
/// declares, or at the end of the buffer if that comes first.
pub open spec fn file_end(d: Seq<u8>) -> int {
    if d.len() < 8 + le32(d, 4) {
        d.len() as int
    } else {
        8 + le32(d, 4)
    }
}

/// What is made of the chunks that a buffer holds.
///
/// Chunks that were refused make the file malformed. Where the buffer holds
/// the whole file, the chunks must fill it to its declared end and make a
/// whole file. Where it does not, the state says whether the first chunk,
/// which gives the canvas, was read.
pub open spec fn conclusion(built: Option<BuildState>, complete: bool, filled: bool) -> DemuxView {
    let failed = DemuxView {
        state: WebPDemuxState::WEBP_DEMUX_PARSE_ERROR,
        flags: 0,
        model: empty_model(),
    };
    match built {
        None => failed,
        Some(s) => if complete {
            if filled && finished(s) {
                DemuxView {
                    state: WebPDemuxState::WEBP_DEMUX_DONE,
                    flags: shown_flags(s),
                    model: s.model,
                }
            } else {
                failed
            }
        } else {
            DemuxView {
                state: if s.fresh {
                    WebPDemuxState::WEBP_DEMUX_PARSING_HEADER
                } else {
                    WebPDemuxState::WEBP_DEMUX_PARSED_HEADER
                },
                flags: shown_flags(s),
                model: s.model,
            }
        },
    }
}

/// Whether a buffer holds a file to its declared end.
pub open spec fn reaches_end(d: Seq<u8>) -> bool {
    d.len() >= 8 + le32(d, 4)
}

/// What parsing makes of a buffer that holds a file or the beginning of one.
///
/// With fewer than twelve bytes nothing is known. An unsound header is an
/// error. Then the whole chunks up to the end of the file, or of the buffer,
/// are read one by one, and the conclusion is drawn from them.
#[verifier::opaque]
pub open spec fn demux_spec(d: Seq<u8>) -> DemuxView {
    if d.len() < RIFF_HEADER_SIZE {
        DemuxView {
            state: WebPDemuxState::WEBP_DEMUX_PARSING_HEADER,
            flags: 0,
            model: empty_model(),
        }
    } else if !header_ok(d) {
        conclusion(None, false, false)
    } else {
        let end = file_end(d);
        let b = d.subrange(0, end);
        conclusion(
            build_from(build_init(), tokens(b, RIFF_HEADER_SIZE as int, end)),
            reaches_end(d),
            tokens_stop(b, RIFF_HEADER_SIZE as int, end) == end,
        )
    }
}

// ---------------------------------------------------------------------------
// Parsing
// ---------------------------------------------------------------------------

/// The executable counterpart of `BuildState`.
pub struct Builder {
    pub fresh: bool,
    pub extended: bool,
    pub flags: u8,
    pub model: ContainerModel,
    pub pending_alpha: Option<Vec<u8>>,
}

impl View for Builder {
    type V = BuildState;

    open spec fn view(&self) -> BuildState {
        BuildState {
            fresh: self.fresh,
            extended: self.extended,
            flags: self.flags,
            model: self.model@,
            pending_alpha: opt_bytes(self.pending_alpha),
        }
    }
}

/// The view of a builder that may be absent.
pub open spec fn opt_builder(o: Option<Builder>) -> Option<BuildState> {
    match o {
        Some(b) => Some(b@),
        None => None,
    }
}

/// The view of a frame that may be absent.
pub open spec fn opt_frame(o: Option<WebPMuxFrameInfo>) -> Option<FrameView> {
    match o {
        Some(f) => Some(f@),
        None => None,
    }
}

/// A model that holds nothing.
pub fn new_model() -> (m: ContainerModel)
    ensures
        m@ == empty_model(),
{
    let m = ContainerModel {
        canvas_width: 0,
        canvas_height: 0,
        anim: None,
        iccp: None,
        exif: None,
        xmp: None,
        frames: Vec::new(),
        unknown: Vec::new(),
    };
    assert(m@.frames =~= empty_model().frames);
    assert(m@.unknown =~= empty_model().unknown);
    m
}

/// Reads the whole chunks that follow one another from `start` on, and says
/// where they stop.
pub fn read_all(buf: &[u8], start: usize) -> (r: (Vec<Chunk>, usize))
    requires
        start <= buf.len(),
    ensures
        chunk_views(r.0@) == tokens(buf@, start as int, buf@.len() as int),
        r.1 == tokens_stop(buf@, start as int, buf@.len() as int),
        start <= r.1 <= buf@.len(),
{
    let mut out: Vec<Chunk> = Vec::new();
    let mut reader = ChunkReader::at(start);
    let ghost end = buf@.len() as int;
    assert(chunk_views(out@) + tokens(buf@, start as int, end) =~= tokens(buf@, start as int, end));
    loop
        invariant
            end == buf@.len(),
            start <= reader.cursor <= end,
            tokens(buf@, start as int, end) == chunk_views(out@) + tokens(
                buf@,
                reader.cursor as int,
                end,
            ),
            tokens_stop(buf@, start as int, end) == tokens_stop(buf@, reader.cursor as int, end),
        decreases end - reader.cursor,
    {
        let ghost before = reader.cursor as int;
        let ghost done = chunk_views(out@);
        match reader.read_next(buf) {
            Ok(Some(c)) => {
                proof {
                    assert(chunk_fits(buf@, before, end));
                    assert(chunk_views(out@.push(c)) =~= done.push(c@));
                    assert(done.push(c@) + tokens(buf@, reader.cursor as int, end) =~= done + (
                    seq![c@] + tokens(buf@, reader.cursor as int, end)));
                }
                out.push(c);
            },
            _ => {
                proof {
                    assert(!chunk_fits(buf@, before, end));
                    assert(done + tokens(buf@, before, end) =~= done);
                }
                return (out, reader.cursor);
            },
        }
    }
}

/// Reads the header of an image chunk's payload and holds it against the tag.
pub fn get_image_info(tag: u32, payload: &[u8]) -> (r: Option<BitstreamInfo>)
    ensures
        r == image_info(tag, payload@),
        r matches Some(i) ==> 1 <= i.width <= 0x4000 && 1 <= i.height <= 0x4000,
{
    match get_bitstream_info(payload) {
        Some(i) => {
            if (tag == TAG_VP8 || tag == TAG_VP8L) && i.lossless == (tag == TAG_VP8L) {
                Some(i)
            } else {
                None
            }
        },
        None => None,
    }
}

/// Reads the payload of an animation frame's chunk.
pub fn parse_anmf_payload(p: &[u8]) -> (r: Option<WebPMuxFrameInfo>)
    ensures
        opt_frame(r) == parse_anmf(p@),
{
    if p.len() < ANMF_HEADER_SIZE {
        return None;
    }
    let (mut chunks, stop) = read_all(p, ANMF_HEADER_SIZE);
    let n = chunks.len();
    let ghost toks = tokens(p@, ANMF_HEADER_SIZE as int, p@.len() as int);
    assert(toks.len() == n);
    if stop != p.len() || n < 1 || n > 2 {
        return None;
    }
    assert(chunks@[n - 1]@ == toks[n - 1]);
    assert(chunks@[0]@ == toks[0]);
    let img = chunks.pop().unwrap();
    let first = chunks.pop();
    let alpha = match first {
        Some(a) => {
            if a.tag != TAG_ALPH {
                return None;
            }
            Some(a.payload)
        },
        None => None,
    };
    let info = match get_image_info(img.tag, img.payload.as_slice()) {
        Some(i) => i,
        None => {
            return None;
        },
    };
    if info.width != read_le24(p, 6) + 1 || info.height != read_le24(p, 9) + 1 {
        return None;
    }
    let flags = p[15];
    Some(
        WebPMuxFrameInfo {
            bitstream: img.payload,
            alpha,
            x_offset: 2 * read_le24(p, 0),
            y_offset: 2 * read_le24(p, 3),
            duration: read_le24(p, 12),
            id: WebPChunkId::WEBP_CHUNK_ANMF,
            dispose_method: if flags % 2 == 1 {
                WebPMuxAnimDispose::WEBP_MUX_DISPOSE_BACKGROUND
            } else {
                WebPMuxAnimDispose::WEBP_MUX_DISPOSE_NONE
            },
            blend_method: if flags / 2 % 2 == 1 {
                WebPMuxAnimBlend::WEBP_MUX_NO_BLEND
            } else {
                WebPMuxAnimBlend::WEBP_MUX_BLEND
            },
        },
    )
}

/// Whether a frame lies on the canvas of a model.
fn frame_on_canvas(model: &ContainerModel, f: &WebPMuxFrameInfo, info: BitstreamInfo) -> (b: bool)
    requires
        bitstream_info(f@.bitstream) == Some(info),
    ensures
        b == on_canvas(model@, f@),
{
    f.x_offset as u64 + info.width as u64 <= model.canvas_width as u64 && f.y_offset as u64
        + info.height as u64 <= model.canvas_height as u64
}

impl Builder {
    /// The builder before the first chunk.
    pub fn new() -> (b: Builder)
        ensures
            b@ == build_init(),
    {
        Builder {
            fresh: true,
            extended: false,
            flags: 0,
            model: new_model(),
            pending_alpha: None,
        }
    }

    /// Takes the first chunk of a file.
    fn first(c: Chunk) -> (r: Option<Builder>)
        ensures
            opt_builder(r) == first_step(c@),
    {
        let mut model = new_model();
        if c.tag == TAG_VP8X {
            if c.payload.len() != VP8X_CHUNK_SIZE {
                return None;
            }
            let p = c.payload.as_slice();
            model.canvas_width = read_le24(p, 4) + 1;
            model.canvas_height = read_le24(p, 7) + 1;
            let b = Builder {
                fresh: false,
                extended: true,
                flags: p[0],
                model,
                pending_alpha: None,
            };
            assert(b@.model.frames =~= empty_model().frames);
            assert(b@.model.unknown =~= empty_model().unknown);
            Some(b)
        } else {
            match get_image_info(c.tag, c.payload.as_slice()) {
                Some(i) => {
                    model.canvas_width = i.width;
                    model.canvas_height = i.height;
                    let f = WebPMuxFrameInfo {
                        bitstream: c.payload,
                        alpha: None,
                        x_offset: 0,
                        y_offset: 0,
                        duration: 0,
                        id: WebPChunkId::WEBP_CHUNK_IMAGE,
                        dispose_method: WebPMuxAnimDispose::WEBP_MUX_DISPOSE_NONE,
                        blend_method: WebPMuxAnimBlend::WEBP_MUX_BLEND,
                    };
                    assert(f@ == still_frame(c@.payload, None));
                    model.frames.push(f);
                    let b = Builder {
                        fresh: false,
                        extended: false,
                        flags: 0,
                        model,
                        pending_alpha: None,
                    };
                    assert(b@.model.frames =~= seq![still_frame(c@.payload, None)]);
                    assert(b@.model.unknown =~= empty_model().unknown);
                    Some(b)
                },
                None => None,
            }
        }
    }

    /// Takes one more chunk, or refuses it where it breaks the structure of
    /// the file.
    pub fn step(self, c: Chunk) -> (r: Option<Builder>)
        ensures
            opt_builder(r) == build_step(self@, c@),
    {
        reveal(build_step);
        let mut b = self;
        let ghost s = self@;
        let ghost m = self@.model;
        if b.fresh {
            return Builder::first(c);
        }
        if !b.extended || c.tag == TAG_VP8X {
            return None;
        }
        if c.tag == TAG_ICCP {
            if b.model.iccp.is_some() {
                return None;
            }
            b.model.iccp = Some(c.payload);
            assert(b@.model == ModelView { iccp: Some(c@.payload), ..m });
            Some(b)
        } else if c.tag == TAG_EXIF {
            if b.model.exif.is_some() {
                return None;
            }
            b.model.exif = Some(c.payload);
            assert(b@.model == ModelView { exif: Some(c@.payload), ..m });
            Some(b)
        } else if c.tag == TAG_XMP {
            if b.model.xmp.is_some() {
                return None;
            }
            b.model.xmp = Some(c.payload);
            assert(b@.model == ModelView { xmp: Some(c@.payload), ..m });
            Some(b)
        } else if c.tag == TAG_ANIM {
            if b.model.anim.is_some() || c.payload.len() != ANIM_CHUNK_SIZE {
                return None;
            }
            let p = c.payload.as_slice();
            let params = WebPMuxAnimParams { bgcolor: read_le32(p, 0), loop_count: read_le16(p, 4) };
            b.model.anim = Some(params);
            assert(b@.model == ModelView { anim: Some(params), ..m });
            Some(b)
        } else if c.tag == TAG_ANMF {
            let f = match parse_anmf_payload(c.payload.as_slice()) {
                Some(f) => f,
                None => {
                    return None;
                },
            };
            let n = b.model.frames.len();
            if b.model.anim.is_none() || b.pending_alpha.is_some() {
                return None;
            }
            if n > 0 {
                assert(b.model.frames@[n - 1]@ == m.frames.last());
                match b.model.frames[n - 1].id {
                    WebPChunkId::WEBP_CHUNK_ANMF => {},
                    _ => {
                        return None;
                    },
                }
            }
            let info = get_bitstream_info(f.bitstream.as_slice());
            if !frame_on_canvas(&b.model, &f, info.unwrap()) {
                return None;
            }
            let ghost fv = f@;
            b.model.frames.push(f);
            assert(b@.model.frames =~= m.frames.push(fv));
            assert(b@.model == ModelView { frames: m.frames.push(fv), ..m });
            Some(b)
        } else if c.tag == TAG_ALPH {
            if b.pending_alpha.is_some() || b.model.frames.len() != 0 {
                return None;
            }
            b.pending_alpha = Some(c.payload);
            Some(b)
        } else if c.tag == TAG_VP8 || c.tag == TAG_VP8L {
            let info = match get_image_info(c.tag, c.payload.as_slice()) {
                Some(i) => i,
                None => {
                    return None;
                },
            };
            if b.model.frames.len() != 0 {
                return None;
            }
            let f = WebPMuxFrameInfo {
                bitstream: c.payload,
                alpha: b.pending_alpha,
                x_offset: 0,
                y_offset: 0,
                duration: 0,
                id: WebPChunkId::WEBP_CHUNK_IMAGE,
                dispose_method: WebPMuxAnimDispose::WEBP_MUX_DISPOSE_NONE,
                blend_method: WebPMuxAnimBlend::WEBP_MUX_BLEND,
            };
            let ghost fv = f@;
            assert(fv == still_frame(c@.payload, s.pending_alpha));
            if !frame_on_canvas(&b.model, &f, info) {
                return None;
            }
            b.model.frames.push(f);
            b.pending_alpha = None;
            assert(b@.model.frames =~= m.frames.push(fv));
            assert(b@.model == ModelView { frames: m.frames.push(fv), ..m });
            Some(b)
        } else {
            let ghost cv = c@;
            b.model.unknown.push(c);
            assert(b@.model.unknown =~= m.unknown.push(cv));
            assert(b@.model == ModelView { unknown: m.unknown.push(cv), ..m });
            Some(b)
        }
    }
}

/// Reading one more chunk takes one more step.
pub proof fn lemma_build_push(s0: BuildState, cs: Seq<ChunkView>, c: ChunkView)
    ensures
        build_from(s0, cs.push(c)) == match build_from(s0, cs) {
            Some(s) => build_step(s, c),
            None => None,
        },
{
    assert(cs.push(c).drop_last() =~= cs);
}

/// The state after two lists of chunks, one after the other.
pub proof fn lemma_build_concat(s0: BuildState, a: Seq<ChunkView>, b: Seq<ChunkView>)
    ensures
        build_from(s0, a + b) == match build_from(s0, a) {
            Some(s1) => build_from(s1, b),
            None => None,
        },
    decreases b.len(),
{
    if b.len() == 0 {
        assert(a + b =~= a);
    } else {
        lemma_build_concat(s0, a, b.drop_last());
        assert((a + b).drop_last() =~= a + b.drop_last());
        assert((a + b).last() == b.last());
    }
}

/// The state after the whole chunks between `pos` and `end`, read one by
/// one from the front.
pub open spec fn build_tokens(st: BuildState, s: Seq<u8>, pos: int, end: int) -> Option<BuildState>
    decreases end - pos,
{
    if chunk_fits(s, pos, end) {
        match build_step(st, chunk_at(s, pos)) {
            Some(next) => build_tokens(next, s, chunk_next(s, pos), end),
            None => None,
        }
    } else {
        Some(st)
    }
}

/// Reading the chunks front to back gives the state of the list of them.
pub proof fn lemma_build_tokens(st: BuildState, s: Seq<u8>, pos: int, end: int)
    ensures
        build_tokens(st, s, pos, end) == build_from(st, tokens(s, pos, end)),
    decreases end - pos,
{
    if chunk_fits(s, pos, end) {
        let c = chunk_at(s, pos);
        let rest = tokens(s, chunk_next(s, pos), end);
        let one = seq![c];
        lemma_build_concat(st, one, rest);
        lemma_build_push(st, Seq::<ChunkView>::empty(), c);
        assert(Seq::<ChunkView>::empty().push(c) =~= one);
        match build_step(st, c) {
            Some(next) => {
                lemma_build_tokens(next, s, chunk_next(s, pos), end);
            },
            None => {},
        }
    } else {
        assert(tokens(s, pos, end) =~= Seq::<ChunkView>::empty());
    }
}

/// Where the chunks of the beginning of a buffer are all taken, reading the
/// whole buffer can go on where the beginning stopped, from the state reached
/// there; where one of them is refused, the whole buffer is refused too.
pub proof fn lemma_resume(st: BuildState, s: Seq<u8>, e: int, pos: int)
    requires
        0 <= pos <= e <= s.len(),
    ensures
        match build_tokens(st, s.subrange(0, e), pos, e) {
            Some(part) => {
                let stop = tokens_stop(s.subrange(0, e), pos, e);
                &&& pos <= stop <= e
                &&& build_tokens(st, s, pos, s.len() as int) == build_tokens(
                    part,
                    s,
                    stop,
                    s.len() as int,
                )
                &&& tokens_stop(s, pos, s.len() as int) == tokens_stop(s, stop, s.len() as int)
            },
            None => build_tokens(st, s, pos, s.len() as int) is None,
        },
    decreases e - pos,
{
    let s1 = s.subrange(0, e);
    let end = s.len() as int;
    if chunk_fits(s1, pos, e) {
        assert forall|i: int| pos <= i < pos + 8 implies #[trigger] s1[i] == s[i] by {}
        assert(le32(s1, pos) == le32(s, pos));
        assert(le32(s1, pos + 4) == le32(s, pos + 4));
        assert(chunk_fits(s, pos, end));
        assert(chunk_at(s1, pos).payload =~= chunk_at(s, pos).payload);
        assert(chunk_at(s1, pos) == chunk_at(s, pos));
        match build_step(st, chunk_at(s, pos)) {
            Some(next) => {
                lemma_resume(next, s, e, chunk_next(s, pos));
            },
            None => {},
        }
    }
}

/// Feeds a builder the whole chunks of `buf` from `start` on, and says where
/// they stop.
pub fn feed(buf: &[u8], start: usize, b0: Builder) -> (r: (Option<Builder>, usize))
    requires
        start <= buf.len(),
    ensures
        opt_builder(r.0) == build_tokens(b0@, buf@, start as int, buf@.len() as int),
        r.0 is Some ==> r.1 == tokens_stop(buf@, start as int, buf@.len() as int),
        r.0 is Some ==> start <= r.1 <= buf@.len(),
{
    let mut reader = ChunkReader::at(start);
    let mut b = b0;
    let ghost end = buf@.len() as int;
    loop
        invariant
            end == buf@.len(),
            start <= reader.cursor <= end,
            build_tokens(b0@, buf@, start as int, end) == build_tokens(
                b@,
                buf@,
                reader.cursor as int,
                end,
            ),
            tokens_stop(buf@, start as int, end) == tokens_stop(buf@, reader.cursor as int, end),
        decreases end - reader.cursor,
    {
        match reader.read_next(buf) {
            Ok(Some(c)) => {
                match b.step(c) {
                    Some(nb) => {
                        b = nb;
                    },
                    None => {
                        return (None, reader.cursor);
                    },
                }
            },
            _ => {
                return (Some(b), reader.cursor);
            },
        }
    }
}

/// What a builder shows of a file: the state, the flag byte and the model.
pub open spec fn shown(state: WebPDemuxState, flags: u8, b: Builder) -> DemuxView {
    DemuxView { state, flags, model: b@.model }
}

/// Draws the conclusion from the chunks read. The builder that comes back
/// is the one that was given, or an empty one where the file is malformed.
pub fn conclude(fed: Option<Builder>, complete: bool, filled: bool) -> (r: (
    WebPDemuxState,
    u8,
    Builder,
))
    ensures
        shown(r.0, r.1, r.2) == conclusion(opt_builder(fed), complete, filled),
        r.0 != WebPDemuxState::WEBP_DEMUX_PARSE_ERROR ==> fed == Some(r.2),
        r.0 == WebPDemuxState::WEBP_DEMUX_PARSE_ERROR ==> r.2@ == build_init(),
{
    let b = match fed {
        Some(b) => b,
        None => {
            return (WebPDemuxState::WEBP_DEMUX_PARSE_ERROR, 0, Builder::new());
        },
    };
    let flags: u8 = if b.extended {
        b.flags
    } else if crate::mux::frames_have_alpha(&b.model) {
        0x10
    } else {
        0
    };
    if complete {
        let n = b.model.frames.len();
        if !filled || n == 0 || b.pending_alpha.is_some() {
            return (WebPDemuxState::WEBP_DEMUX_PARSE_ERROR, 0, Builder::new());
        }
        assert(b.model.frames@[0]@ == b@.model.frames[0]);
        let animated = match b.model.frames[0].id {
            WebPChunkId::WEBP_CHUNK_ANMF => true,
            _ => false,
        };
        if b.extended && (b.flags / 2 % 2 == 1) != animated {
            return (WebPDemuxState::WEBP_DEMUX_PARSE_ERROR, 0, Builder::new());
        }
        (WebPDemuxState::WEBP_DEMUX_DONE, flags, b)
    } else if b.fresh {
        (WebPDemuxState::WEBP_DEMUX_PARSING_HEADER, flags, b)
    } else {
        (WebPDemuxState::WEBP_DEMUX_PARSED_HEADER, flags, b)
    }
}

/// Whether the twelve bytes of a file header are sound.
pub fn check_header(data: &[u8]) -> (ok: bool)
    requires
        data.len() >= RIFF_HEADER_SIZE,
    ensures
        ok == header_ok(data@),
{
    let riff_size = read_le32(data, 4);
    read_le32(data, 0) == TAG_RIFF && read_le32(data, 8) == TAG_WEBP && riff_size >= 4 && riff_size
        <= MAX_CHUNK_PAYLOAD
}

/// Where the file ends within the buffer, and whether the buffer reaches
/// the declared end of the file.
pub fn find_file_end(data: &[u8]) -> (r: (usize, bool))
    requires
        data.len() >= RIFF_HEADER_SIZE,
        header_ok(data@),
    ensures
        r.0 == file_end(data@),
        r.1 == reaches_end(data@),
        RIFF_HEADER_SIZE <= r.0 <= data@.len(),
{
    let riff_size = read_le32(data, 4);
    if data.len() as u64 >= 8 + riff_size as u64 {
        (8 + riff_size as usize, true)
    } else {
        (data.len(), false)
    }
}

/// Parses a buffer that holds a file or the beginning of one.
pub fn demux_bytes(data: &[u8]) -> (r: (WebPDemuxState, ContainerModel, u8))
    ensures
        r.0 == demux_spec(data@).state,
        r.1@ == demux_spec(data@).model,
        r.2 == demux_spec(data@).flags,
{
    reveal(demux_spec);
    if data.len() < RIFF_HEADER_SIZE {
        return (WebPDemuxState::WEBP_DEMUX_PARSING_HEADER, new_model(), 0);
    }
    if !check_header(data) {
        return (WebPDemuxState::WEBP_DEMUX_PARSE_ERROR, new_model(), 0);
    }
    let (end, complete) = find_file_end(data);
    let buf = slice_subrange(data, 0, end);
    proof {
        lemma_build_tokens(build_init(), buf@, RIFF_HEADER_SIZE as int, end as int);
    }
    let (fed, stop) = feed(buf, RIFF_HEADER_SIZE, Builder::new());
    let (state, flags, b) = conclude(fed, complete, stop == end);
    (state, b.model, flags)
}

} // verus!
