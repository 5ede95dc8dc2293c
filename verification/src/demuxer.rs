use vstd::prelude::*;
use crate::bitstream::get_bitstream_info;
use crate::bytes::{copy_range, le32};
use crate::chunk::{tokens_stop, ChunkView, RIFF_HEADER_SIZE, TAG_EXIF, TAG_ICCP, TAG_XMP};
use crate::container::{
    frame_has_alpha, frame_height, frame_width, ContainerModel, ModelView, WebPMuxAnimBlend,
    WebPMuxAnimDispose,
};
use crate::demux::{
    build_init, build_tokens, check_header, conclude, demux_bytes, demux_spec, feed, file_end,
    find_file_end, header_ok, lemma_build_tokens, lemma_resume, reaches_end, shown, Builder,
    DemuxView, WebPDemuxState,
};
use crate::error::WebpError;

verus! {

/// What parsing made of a buffer: the state reached, the flag byte of the
/// file, and the model as far as it is known.
#[derive(Debug)]
pub struct WebPDemuxer {
    pub state: WebPDemuxState,
    pub flags: u8,
    pub model: ContainerModel,
}

impl View for WebPDemuxer {
    type V = DemuxView;

    open spec fn view(&self) -> DemuxView {
        DemuxView { state: self.state, flags: self.flags, model: self.model@ }
    }
}

/// The numbers that can be asked of a parsed file.
#[allow(non_camel_case_types)]
#[derive(Debug, Clone, Copy, PartialEq, Eq, Structural, Hash)]
pub enum WebPFormatFeature {
    WEBP_FF_FORMAT_FLAGS,
    WEBP_FF_CANVAS_WIDTH,
    WEBP_FF_CANVAS_HEIGHT,
    WEBP_FF_LOOP_COUNT,
    WEBP_FF_BACKGROUND_COLOR,
    WEBP_FF_FRAME_COUNT,
}

/// The loop count of a file without animation parameters.
pub const DEFAULT_LOOP_COUNT: u32 = 1;

/// The background colour of a file without animation parameters: white.
pub const DEFAULT_BACKGROUND_COLOR: u32 = 0xffff_ffff;

/// A count as a 32-bit number, which stands at its largest for any count
/// beyond.
pub open spec fn count32(n: int) -> u32 {
    if n > u32::MAX {
        u32::MAX
    } else {
        n as u32
    }
}

/// A count as a 32-bit number.
fn to_count32(n: usize) -> (r: u32)
    ensures
        r == count32(n as int),
{
    if n as u64 > 0xffff_ffff {
        0xffff_ffff
    } else {
        n as u32
    }
}

/// A number of a parsed file: the flag byte, the width or the height of the
/// canvas, the loop count or the background colour of the animation, or the
/// number of frames that are parsed as a whole.
pub open spec fn feature_of(d: DemuxView, feature: WebPFormatFeature) -> u32 {
    match feature {
        WebPFormatFeature::WEBP_FF_FORMAT_FLAGS => d.flags as u32,
        WebPFormatFeature::WEBP_FF_CANVAS_WIDTH => d.model.canvas_width,
        WebPFormatFeature::WEBP_FF_CANVAS_HEIGHT => d.model.canvas_height,
        WebPFormatFeature::WEBP_FF_LOOP_COUNT => match d.model.anim {
            Some(a) => a.loop_count,
            None => DEFAULT_LOOP_COUNT,
        },
        WebPFormatFeature::WEBP_FF_BACKGROUND_COLOR => match d.model.anim {
            Some(a) => a.bgcolor,
            None => DEFAULT_BACKGROUND_COLOR,
        },
        WebPFormatFeature::WEBP_FF_FRAME_COUNT => count32(d.model.frames.len() as int),
    }
}

/// A cursor on one frame of a parsed file.
#[derive(Debug, Clone, PartialEq, Eq)]
pub struct WebPIterator {
    /// The number of the frame, counted from one.
    pub frame_num: u32,
    /// How many frames are parsed as a whole.
    pub num_frames: u32,
    pub x_offset: u32,
    pub y_offset: u32,
    pub width: u32,
    pub height: u32,
    pub duration: u32,
    pub dispose_method: WebPMuxAnimDispose,
    /// Whether the payload of the frame is there to its end.
    pub complete: bool,
    /// The payload of the frame's image chunk.
    pub fragment: Vec<u8>,
    pub has_alpha: bool,
    pub blend_method: WebPMuxAnimBlend,
}

/// A cursor on a frame, with the payload as a sequence.
pub struct IteratorView {
    pub frame_num: u32,
    pub num_frames: u32,
    pub x_offset: u32,
    pub y_offset: u32,
    pub width: u32,
    pub height: u32,
    pub duration: u32,
    pub dispose_method: WebPMuxAnimDispose,
    pub complete: bool,
    pub fragment: Seq<u8>,
    pub has_alpha: bool,
    pub blend_method: WebPMuxAnimBlend,
}

impl View for WebPIterator {
    type V = IteratorView;

    open spec fn view(&self) -> IteratorView {
        IteratorView {
            frame_num: self.frame_num,
            num_frames: self.num_frames,
            x_offset: self.x_offset,
            y_offset: self.y_offset,
            width: self.width,
            height: self.height,
            duration: self.duration,
            dispose_method: self.dispose_method,
            complete: self.complete,
            fragment: self.fragment@,
            has_alpha: self.has_alpha,
            blend_method: self.blend_method,
        }
    }
}

/// Whether a model has a frame with the given number, counted from one.
pub open spec fn has_frame(m: ModelView, n: int) -> bool {
    1 <= n <= m.frames.len() && n <= u32::MAX
}

/// The cursor on the frame with the given number. Only frames that are
/// parsed as a whole are in a model, so the frame is complete.
pub open spec fn iterator_at(m: ModelView, n: int) -> IteratorView {
    let f = m.frames[n - 1];
    IteratorView {
        frame_num: n as u32,
        num_frames: count32(m.frames.len() as int),
        x_offset: f.x_offset,
        y_offset: f.y_offset,
        width: frame_width(f) as u32,
        height: frame_height(f) as u32,
        duration: f.duration,
        dispose_method: f.dispose_method,
        complete: true,
        fragment: f.bitstream,
        has_alpha: frame_has_alpha(f),
        blend_method: f.blend_method,
    }
}

/// A cursor on one chunk of a parsed file.
#[derive(Debug, Clone, PartialEq, Eq)]
pub struct WebPChunkIterator {
    /// The number of the chunk among those with its tag, counted from one.
    pub chunk_num: u32,
    /// How many chunks bear the tag.
    pub num_chunks: u32,
    /// The payload of the chunk.
    pub chunk: Vec<u8>,
}

/// A cursor on a chunk, with the payload as a sequence.
pub struct ChunkIteratorView {
    pub chunk_num: u32,
    pub num_chunks: u32,
    pub chunk: Seq<u8>,
}

impl View for WebPChunkIterator {
    type V = ChunkIteratorView;

    open spec fn view(&self) -> ChunkIteratorView {
        ChunkIteratorView {
            chunk_num: self.chunk_num,
            num_chunks: self.num_chunks,
            chunk: self.chunk@,
        }
    }
}

/// The payloads of the chunks that bear a tag, in their order.
pub open spec fn tagged(cs: Seq<ChunkView>, tag: u32) -> Seq<Seq<u8>>
    decreases cs.len(),
{
    if cs.len() == 0 {
        Seq::empty()
    } else if cs.last().tag == tag {
        tagged(cs.drop_last(), tag).push(cs.last().payload)
    } else {
        tagged(cs.drop_last(), tag)
    }
}

/// A list of no payload or one.
pub open spec fn optional_payload(p: Option<Seq<u8>>) -> Seq<Seq<u8>> {
    match p {
        Some(b) => seq![b],
        None => Seq::empty(),
    }
}

/// The payloads that a model holds under a tag, in the order of the file:
/// the metadata chunk, or the chunks of unknown kind with the tag.
pub open spec fn chunks_with_tag(m: ModelView, tag: u32) -> Seq<Seq<u8>> {
    if tag == TAG_ICCP {
        optional_payload(m.iccp)
    } else if tag == TAG_EXIF {
        optional_payload(m.exif)
    } else if tag == TAG_XMP {
        optional_payload(m.xmp)
    } else {
        tagged(m.unknown, tag)
    }
}

/// Whether a model has a chunk with the given number under a tag.
pub open spec fn has_chunk(m: ModelView, tag: u32, n: int) -> bool {
    1 <= n <= chunks_with_tag(m, tag).len() && n <= u32::MAX
}

/// The cursor on the chunk with the given number under a tag.
pub open spec fn chunk_iterator_at(m: ModelView, tag: u32, n: int) -> ChunkIteratorView {
    ChunkIteratorView {
        chunk_num: n as u32,
        num_chunks: count32(chunks_with_tag(m, tag).len() as int),
        chunk: chunks_with_tag(m, tag)[n - 1],
    }
}

/// Parses a whole file.
///
/// A file that breaks the container's structure is malformed. A buffer that
/// ends before the file does is truncated, wherever it ends: in the file
/// header, in a chunk header or in a payload.
#[allow(non_snake_case)]
pub fn WebPDemux(data: &[u8]) -> (r: Result<WebPDemuxer, WebpError>)
    ensures
        match demux_spec(data@).state {
            WebPDemuxState::WEBP_DEMUX_DONE => r matches Ok(d) && d@ == demux_spec(data@),
            WebPDemuxState::WEBP_DEMUX_PARSE_ERROR => r matches Err(e) && e
                == WebpError::MalformedContainer,
            _ => r matches Err(e) && e == WebpError::TruncatedChunk,
        },
{
    let (state, model, flags) = demux_bytes(data);
    match state {
        WebPDemuxState::WEBP_DEMUX_DONE => Ok(WebPDemuxer { state, flags, model }),
        WebPDemuxState::WEBP_DEMUX_PARSE_ERROR => Err(WebpError::MalformedContainer),
        _ => Err(WebpError::TruncatedChunk),
    }
}

/// Parses a buffer that holds a file or only its beginning, and says how far
/// it came. There is something to hand out once the canvas is known.
#[allow(non_snake_case)]
pub fn WebPDemuxPartial(data: &[u8]) -> (r: (Option<WebPDemuxer>, WebPDemuxState))
    ensures
        r.1 == demux_spec(data@).state,
        r.0 is Some <==> (r.1 == WebPDemuxState::WEBP_DEMUX_PARSED_HEADER || r.1
            == WebPDemuxState::WEBP_DEMUX_DONE),
        r.0 matches Some(d) ==> d@ == demux_spec(data@),
{
    let (state, model, flags) = demux_bytes(data);
    match state {
        WebPDemuxState::WEBP_DEMUX_DONE | WebPDemuxState::WEBP_DEMUX_PARSED_HEADER => (
            Some(WebPDemuxer { state, flags, model }),
            state,
        ),
        _ => (None, state),
    }
}

/// A number of a parsed file.
#[allow(non_snake_case)]
pub fn WebPDemuxGetI(dmux: &WebPDemuxer, feature: WebPFormatFeature) -> (r: u32)
    ensures
        r == feature_of(dmux@, feature),
{
    match feature {
        WebPFormatFeature::WEBP_FF_FORMAT_FLAGS => dmux.flags as u32,
        WebPFormatFeature::WEBP_FF_CANVAS_WIDTH => dmux.model.canvas_width,
        WebPFormatFeature::WEBP_FF_CANVAS_HEIGHT => dmux.model.canvas_height,
        WebPFormatFeature::WEBP_FF_LOOP_COUNT => match dmux.model.anim {
            Some(a) => a.loop_count,
            None => DEFAULT_LOOP_COUNT,
        },
        WebPFormatFeature::WEBP_FF_BACKGROUND_COLOR => match dmux.model.anim {
            Some(a) => a.bgcolor,
            None => DEFAULT_BACKGROUND_COLOR,
        },
        WebPFormatFeature::WEBP_FF_FRAME_COUNT => to_count32(dmux.model.frames.len()),
    }
}

/// The cursor on a frame of a model.
fn make_iterator(model: &ContainerModel, n: u32) -> (it: WebPIterator)
    requires
        has_frame(model@, n as int),
    ensures
        it@ == iterator_at(model@, n as int),
{
    let f = &model.frames[(n - 1) as usize];
    assert(f@ == model@.frames[n - 1]);
    let info = get_bitstream_info(f.bitstream.as_slice());
    let (width, height, lossless_alpha) = match info {
        Some(i) => (i.width, i.height, i.has_alpha),
        None => (0, 0, false),
    };
    let fragment = copy_range(f.bitstream.as_slice(), 0, f.bitstream.len());
    assert(fragment@ =~= f@.bitstream);
    WebPIterator {
        frame_num: n,
        num_frames: to_count32(model.frames.len()),
        x_offset: f.x_offset,
        y_offset: f.y_offset,
        width,
        height,
        duration: f.duration,
        dispose_method: f.dispose_method,
        complete: true,
        fragment,
        has_alpha: f.alpha.is_some() || lossless_alpha,
        blend_method: f.blend_method,
    }
}

/// Whether a model has a frame with the given number.
fn frame_exists(model: &ContainerModel, n: u32) -> (b: bool)
    ensures
        b == has_frame(model@, n as int),
{
    n >= 1 && n as u64 <= model.frames.len() as u64
}

/// The cursor on the frame with the given number. Frames are counted from
/// one; any other number finds nothing.
#[allow(non_snake_case)]
pub fn WebPDemuxGetFrame(dmux: &WebPDemuxer, frame_number: u32) -> (r: Result<
    WebPIterator,
    WebpError,
>)
    ensures
        r.is_ok() <==> has_frame(dmux@.model, frame_number as int),
        r matches Ok(it) ==> it@ == iterator_at(dmux@.model, frame_number as int),
        r matches Err(e) ==> e == WebpError::NotFound,
{
    if !frame_exists(&dmux.model, frame_number) {
        return Err(WebpError::NotFound);
    }
    Ok(make_iterator(&dmux.model, frame_number))
}

/// Moves a cursor to the next frame, and says whether there was one. A
/// cursor that cannot move stays as it is.
#[allow(non_snake_case)]
pub fn WebPDemuxNextFrame(dmux: &WebPDemuxer, iter: &mut WebPIterator) -> (moved: bool)
    ensures
        moved <==> has_frame(dmux@.model, old(iter).frame_num + 1),
        moved ==> final(iter)@ == iterator_at(dmux@.model, old(iter).frame_num + 1),
        !moved ==> *final(iter) == *old(iter),
{
    if iter.frame_num == 0xffff_ffff || !frame_exists(&dmux.model, iter.frame_num + 1) {
        return false;
    }
    *iter = make_iterator(&dmux.model, iter.frame_num + 1);
    true
}

/// Moves a cursor to the frame before, and says whether there was one. A
/// cursor that cannot move stays as it is.
#[allow(non_snake_case)]
pub fn WebPDemuxPrevFrame(dmux: &WebPDemuxer, iter: &mut WebPIterator) -> (moved: bool)
    ensures
        moved <==> has_frame(dmux@.model, old(iter).frame_num - 1),
        moved ==> final(iter)@ == iterator_at(dmux@.model, old(iter).frame_num - 1),
        !moved ==> *final(iter) == *old(iter),
{
    if iter.frame_num == 0 || !frame_exists(&dmux.model, iter.frame_num - 1) {
        return false;
    }
    *iter = make_iterator(&dmux.model, iter.frame_num - 1);
    true
}

/// Looks for the chunk with the given number among the chunks of unknown
/// kind that bear a tag, and counts them.
fn find_tagged(model: &ContainerModel, tag: u32, n: u32) -> (r: (Option<usize>, usize))
    requires
        n >= 1,
    ensures
        r.1 == tagged(model@.unknown, tag).len(),
        r.0 is Some <==> n <= r.1,
        r.0 matches Some(i) ==> i < model.unknown@.len() && model.unknown@[i as int].payload@
            == tagged(model@.unknown, tag)[n - 1],
{
    let mut count: usize = 0;
    let mut found: Option<usize> = None;
    let mut i: usize = 0;
    let ghost cs = model@.unknown;
    while i < model.unknown.len()
        invariant
            i <= model.unknown@.len(),
            cs == model@.unknown,
            cs.len() == model.unknown@.len(),
            count == tagged(cs.subrange(0, i as int), tag).len(),
            count <= i,
            n >= 1,
            found is Some <==> n <= count,
            found is Some ==> found->0 < i,
            found is Some ==> cs[found->0 as int].payload == tagged(cs.subrange(0, i as int), tag)[n
                - 1],
        decreases model.unknown@.len() - i,
    {
        proof {
            let next = cs.subrange(0, i as int + 1);
            let prev = cs.subrange(0, i as int);
            assert(next.drop_last() =~= prev);
            assert(next.last() == cs[i as int]);
            assert(model.unknown@[i as int]@ == cs[i as int]);
            assert(tagged(next, tag) == if cs[i as int].tag == tag {
                tagged(prev, tag).push(cs[i as int].payload)
            } else {
                tagged(prev, tag)
            });
        }
        if model.unknown[i].tag == tag {
            count = count + 1;
            if count as u64 == n as u64 {
                found = Some(i);
            }
        }
        i = i + 1;
    }
    assert(cs.subrange(0, i as int) =~= cs);
    proof {
        if found is Some {
            assert(model.unknown@[found->0 as int]@ == cs[found->0 as int]);
        }
    }
    (found, count)
}

/// The cursor on the chunk with the given number among the chunks that bear
/// a tag. Chunks are counted from one; any other number finds nothing.
#[allow(non_snake_case)]
pub fn WebPDemuxGetChunk(dmux: &WebPDemuxer, tag: u32, chunk_number: u32) -> (r: Result<
    WebPChunkIterator,
    WebpError,
>)
    ensures
        r.is_ok() <==> has_chunk(dmux@.model, tag, chunk_number as int),
        r matches Ok(it) ==> it@ == chunk_iterator_at(dmux@.model, tag, chunk_number as int),
        r matches Err(e) ==> e == WebpError::NotFound,
{
    if chunk_number == 0 {
        return Err(WebpError::NotFound);
    }
    let slot = if tag == TAG_ICCP {
        &dmux.model.iccp
    } else if tag == TAG_EXIF {
        &dmux.model.exif
    } else if tag == TAG_XMP {
        &dmux.model.xmp
    } else {
        let (found, count) = find_tagged(&dmux.model, tag, chunk_number);
        return match found {
            Some(i) => {
                let p = &dmux.model.unknown[i].payload;
                let chunk = copy_range(p.as_slice(), 0, p.len());
                assert(chunk@ =~= p@);
                Ok(
                    WebPChunkIterator {
                        chunk_num: chunk_number,
                        num_chunks: to_count32(count),
                        chunk,
                    },
                )
            },
            None => Err(WebpError::NotFound),
        };
    };
    match slot {
        Some(p) => {
            if chunk_number != 1 {
                return Err(WebpError::NotFound);
            }
            let chunk = copy_range(p.as_slice(), 0, p.len());
            assert(chunk@ =~= p@);
            Ok(WebPChunkIterator { chunk_num: 1, num_chunks: 1, chunk })
        },
        None => Err(WebpError::NotFound),
    }
}

/// Moves a cursor to the next chunk with the tag, and says whether there was
/// one. A cursor that cannot move stays as it is.
#[allow(non_snake_case)]
pub fn WebPDemuxNextChunk(dmux: &WebPDemuxer, tag: u32, iter: &mut WebPChunkIterator) -> (moved:
    bool)
    ensures
        moved <==> has_chunk(dmux@.model, tag, old(iter).chunk_num + 1),
        moved ==> final(iter)@ == chunk_iterator_at(dmux@.model, tag, old(iter).chunk_num + 1),
        !moved ==> *final(iter) == *old(iter),
{
    if iter.chunk_num == 0xffff_ffff {
        return false;
    }
    match WebPDemuxGetChunk(dmux, tag, iter.chunk_num + 1) {
        Ok(next) => {
            *iter = next;
            true
        },
        Err(_) => false,
    }
}

/// Moves a cursor to the chunk with the tag before, and says whether there
/// was one. A cursor that cannot move stays as it is.
#[allow(non_snake_case)]
pub fn WebPDemuxPrevChunk(dmux: &WebPDemuxer, tag: u32, iter: &mut WebPChunkIterator) -> (moved:
    bool)
    ensures
        moved <==> has_chunk(dmux@.model, tag, old(iter).chunk_num - 1),
        moved ==> final(iter)@ == chunk_iterator_at(dmux@.model, tag, old(iter).chunk_num - 1),
        !moved ==> *final(iter) == *old(iter),
{
    if iter.chunk_num == 0 {
        return false;
    }
    match WebPDemuxGetChunk(dmux, tag, iter.chunk_num - 1) {
        Ok(prev) => {
            *iter = prev;
            true
        },
        Err(_) => false,
    }
}

/// Whether a buffer begins with an earlier one: the same bytes, and maybe
/// more behind them.
pub open spec fn extends(d: Seq<u8>, earlier: Seq<u8>) -> bool {
    earlier.len() <= d.len() && d.subrange(0, earlier.len() as int) == earlier
}

/// Once a buffer is parsed to the end of its file, or is found malformed,
/// more bytes behind it change nothing.
pub proof fn lemma_final_states_extend(earlier: Seq<u8>, d: Seq<u8>)
    requires
        extends(d, earlier),
        demux_spec(earlier).state == WebPDemuxState::WEBP_DEMUX_DONE || demux_spec(earlier).state
            == WebPDemuxState::WEBP_DEMUX_PARSE_ERROR,
    ensures
        demux_spec(d) == demux_spec(earlier),
{
    reveal(demux_spec);
    assert forall|i: int| 0 <= i < 12 implies #[trigger] d[i] == earlier[i] by {
        assert(d.subrange(0, earlier.len() as int)[i] == earlier[i]);
    }
    assert(le32(d, 0) == le32(earlier, 0));
    assert(le32(d, 4) == le32(earlier, 4));
    assert(le32(d, 8) == le32(earlier, 8));
    if header_ok(earlier) {
        let e1 = file_end(earlier);
        let e2 = file_end(d);
        let b2 = d.subrange(0, e2);
        assert(earlier.subrange(0, e1) =~= b2.subrange(0, e1));
        if reaches_end(earlier) {
            assert(b2.subrange(0, e1) =~= b2);
        } else {
            lemma_build_tokens(build_init(), earlier.subrange(0, e1), RIFF_HEADER_SIZE as int, e1);
            lemma_build_tokens(build_init(), b2, RIFF_HEADER_SIZE as int, e2);
            lemma_resume(build_init(), b2, e1, RIFF_HEADER_SIZE as int);
        }
    }
}

/// A demuxer for a file that arrives piece by piece. It is fed the buffer
/// each time the buffer has grown, and reads only the chunks that are new:
/// what it made of the chunks before stays as it is.
pub struct DemuxStream {
    builder: Builder,
    stop: usize,
    state: WebPDemuxState,
    flags: u8,
    fed: Ghost<Seq<u8>>,
}

impl DemuxStream {
    /// The buffer that the demuxer was fed last.
    pub closed spec fn fed(&self) -> Seq<u8> {
        self.fed@
    }

    /// What the demuxer has made of the buffer.
    pub closed spec fn view(&self) -> DemuxView {
        shown(self.state, self.flags, self.builder)
    }

    /// Whether the demuxer is sound: what it shows is what parsing makes of
    /// the buffer that it was fed last, and it knows where to go on. Every
    /// demuxer that this module hands out is sound and stays so.
    pub closed spec fn wf(&self) -> bool {
        let d = self.fed@;
        let e = file_end(d);
        let b = d.subrange(0, e);
        &&& self@ == demux_spec(d)
        &&& d.len() < RIFF_HEADER_SIZE ==> self.builder@ == build_init() && self.stop == 0
        &&& d.len() >= RIFF_HEADER_SIZE && self.goes_on() ==> {
            &&& build_tokens(build_init(), b, RIFF_HEADER_SIZE as int, e) == Some(self.builder@)
            &&& self.stop == tokens_stop(b, RIFF_HEADER_SIZE as int, e)
            &&& RIFF_HEADER_SIZE <= self.stop <= e
        }
    }

    /// Whether more bytes can still change what the demuxer shows.
    pub closed spec fn goes_on(&self) -> bool {
        self.state == WebPDemuxState::WEBP_DEMUX_PARSING_HEADER || self.state
            == WebPDemuxState::WEBP_DEMUX_PARSED_HEADER
    }

    /// A demuxer that has seen nothing.
    pub fn new() -> (r: DemuxStream)
        ensures
            r.wf(),
            r.fed() == Seq::<u8>::empty(),
            r@ == demux_spec(Seq::<u8>::empty()),
    {
        reveal(demux_spec);
        DemuxStream {
            builder: Builder::new(),
            stop: 0,
            state: WebPDemuxState::WEBP_DEMUX_PARSING_HEADER,
            flags: 0,
            fed: Ghost(Seq::empty()),
        }
    }

    /// Takes the buffer after it has grown, and says how far parsing has
    /// come. The buffer must begin with the bytes that were fed before.
    ///
    /// What the demuxer shows afterwards is what parsing the whole buffer
    /// anew would give.
    pub fn feed(&mut self, data: &[u8]) -> (state: WebPDemuxState)
        requires
            old(self).wf(),
            extends(data@, old(self).fed()),
        ensures
            final(self).wf(),
            final(self).fed() == data@,
            final(self)@ == demux_spec(data@),
            state == demux_spec(data@).state,
    {
        reveal(demux_spec);
        let ghost earlier = self.fed@;
        match self.state {
            WebPDemuxState::WEBP_DEMUX_DONE | WebPDemuxState::WEBP_DEMUX_PARSE_ERROR => {
                proof {
                    lemma_final_states_extend(earlier, data@);
                }
                self.fed = Ghost(data@);
                return self.state;
            },
            _ => {},
        }
        if data.len() < RIFF_HEADER_SIZE {
            self.fed = Ghost(data@);
            return self.state;
        }
        if !check_header(data) {
            self.builder = Builder::new();
            self.state = WebPDemuxState::WEBP_DEMUX_PARSE_ERROR;
            self.flags = 0;
            self.fed = Ghost(data@);
            return self.state;
        }
        let (end, complete) = find_file_end(data);
        let buf = vstd::slice::slice_subrange(data, 0, end);
        let start = if self.stop < RIFF_HEADER_SIZE {
            RIFF_HEADER_SIZE
        } else {
            self.stop
        };
        proof {
            lemma_build_tokens(build_init(), buf@, RIFF_HEADER_SIZE as int, end as int);
            if earlier.len() >= RIFF_HEADER_SIZE {
                assert forall|i: int| 0 <= i < 12 implies #[trigger] data@[i] == earlier[i] by {
                    assert(data@.subrange(0, earlier.len() as int)[i] == earlier[i]);
                }
                assert(le32(data@, 4) == le32(earlier, 4));
                let e1 = file_end(earlier);
                assert(earlier.subrange(0, e1) =~= buf@.subrange(0, e1));
                lemma_resume(build_init(), buf@, e1, RIFF_HEADER_SIZE as int);
            }
        }
        let mut b = Builder::new();
        std::mem::swap(&mut self.builder, &mut b);
        let (built, stop) = feed(buf, start, b);
        let (state, flags, builder) = conclude(built, complete, stop == end);
        self.builder = builder;
        self.state = state;
        self.flags = flags;
        self.stop = stop;
        self.fed = Ghost(data@);
        state
    }

    /// How far parsing has come.
    pub fn state(&self) -> (s: WebPDemuxState)
        ensures
            s == self@.state,
    {
        self.state
    }

    /// The model as far as it is known.
    pub fn model(&self) -> (m: &ContainerModel)
        ensures
            m@ == self@.model,
    {
        &self.builder.model
    }

    /// What the demuxer has made of the buffer, to ask numbers, frames and
    /// chunks of.
    pub fn into_demuxer(self) -> (d: WebPDemuxer)
        ensures
            d@ == self@,
    {
        WebPDemuxer { state: self.state, flags: self.flags, model: self.builder.model }
    }
}

} // verus!
