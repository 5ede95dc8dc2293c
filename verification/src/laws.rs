use vstd::prelude::*;
use crate::bitstream::{
    bitstream_info, lemma_info_bounds, lemma_info_kinds, lemma_info_moves, looks_lossless,
    VP8L_FRAME_HEADER_SIZE, VP8_FRAME_HEADER_SIZE,
};
use crate::buffer::{
    chroma_rows, laid_out, lemma_plane_rows_fit, packed_row_bytes, sized, uv_dim, DecBufferView,
    MAX_DIMENSION,
};
use crate::bytes::{
    le16, le16_bytes, le24, le24_bytes, le32, le32_bytes, lemma_le16_roundtrip,
    lemma_le24_roundtrip, lemma_le32_roundtrip,
};
use crate::checks::lemma_stride_quotient;
use crate::chunk::{
    chunk_at, chunk_bytes, chunk_fits, chunk_next, chunks_bytes, padded_len, tokens,
    tokens_stop, ChunkView, RIFF_HEADER_SIZE, TAG_ALPH, TAG_ANIM, TAG_ANMF, TAG_EXIF, TAG_ICCP,
    TAG_RIFF, TAG_VP8, TAG_VP8L, TAG_VP8X, TAG_WEBP, TAG_XMP,
};
use crate::container::{
    anim_payload, anmf_chunks, anmf_flags, anmf_header, anmf_payload, any_alpha, body_bytes,
    derived_flags, effective_height, effective_width, empty_model, file_bytes, frame_chunks,
    frame_has_alpha, frame_height, frame_valid, frame_width, image_chunks, image_tag,
    is_animation, is_reserved_tag, model_chunks, model_valid, needs_vp8x, normalized,
    optional_chunk, structure_valid, vp8x_payload, ContainerModel, FrameView, ModelView,
    WebPChunkId, WebPMuxAnimParams,
};
use crate::decode::{
    extended_features, features_spec, image_features, is_rgb_mode, lemma_features_sound,
    mode_bytes_per_pixel, scan_to_image, CanvasInfo, ImagePosition, VP8StatusCode,
    WebPBitstreamFeatures, WebPBitstreamFormat, WEBP_CSP_MODE,
};
use crate::demux::{
    build_from, build_init, build_step, build_tokens, demux_spec, file_end, finished,
    first_step, frame_of_parts, header_ok, image_info, lemma_build_concat, lemma_build_push,
    lemma_build_tokens, on_canvas, parse_anmf, reaches_end, still_frame, BuildState, DemuxView,
    WebPDemuxState,
};
use crate::error::WebpError;
use crate::idec::{
    accepts, answer, fed, idec_wf, is_failure, is_live, refuses_append, run, state_of, step,
    DecoderEvent, DecoderState, FeedMode, IDecoderView,
};
use crate::mux::{lemma_chunks_bytes_concat, lemma_chunks_bytes_push};
use crate::muxer::chunk_of;
use crate::rows::{in_row, lemma_place_rows_len, lemma_untouched_byte, place_rows};
use crate::simple::{packed_into_outcome, still_image};

verus! {

/// The bytes of a list of chunks, with the first chunk set apart.
pub proof fn lemma_chunks_bytes_front(cs: Seq<ChunkView>)
    requires
        cs.len() > 0,
    ensures
        chunks_bytes(cs) == chunk_bytes(cs[0]) + chunks_bytes(cs.subrange(1, cs.len() as int)),
{
    let one = seq![cs[0]];
    let rest = cs.subrange(1, cs.len() as int);
    assert(one + rest =~= cs);
    lemma_chunks_bytes_concat(one, rest);
    lemma_chunks_bytes_push(Seq::<ChunkView>::empty(), cs[0]);
    assert(Seq::<ChunkView>::empty().push(cs[0]) =~= one);
    assert(chunks_bytes(Seq::<ChunkView>::empty()) + chunk_bytes(cs[0]) =~= chunk_bytes(cs[0]));
}

/// The encoding of one chunk, read back where it stands in a buffer.
pub proof fn lemma_chunk_read_back(pre: Seq<u8>, c: ChunkView, post: Seq<u8>)
    requires
        c.payload.len() < 0x1_0000_0000,
    ensures
        ({
            let s = pre + chunk_bytes(c) + post;
            let pos = pre.len() as int;
            &&& chunk_fits(s, pos, s.len() as int)
            &&& chunk_at(s, pos) == c
            &&& chunk_next(s, pos) == pos + chunk_bytes(c).len()
        }),
{
    let s = pre + chunk_bytes(c) + post;
    let pos = pre.len() as int;
    let n = c.payload.len() as int;
    let t = le32_bytes(c.tag as int);
    let l = le32_bytes(n);
    lemma_le32_roundtrip(c.tag as int);
    lemma_le32_roundtrip(n);
    assert(chunk_bytes(c).len() == 8 + padded_len(n));
    assert forall|i: int| 0 <= i < 4 implies s[pos + i] == t[i] && s[pos + 4 + i] == l[i] by {
        assert(s[pos + i] == chunk_bytes(c)[i]);
        assert(s[pos + 4 + i] == chunk_bytes(c)[4 + i]);
    }
    assert(le32(s, pos) == le32(t, 0));
    assert(le32(s, pos + 4) == le32(l, 0));
    assert forall|i: int| 0 <= i < n implies s[pos + 8 + i] == c.payload[i] by {
        assert(s[pos + 8 + i] == chunk_bytes(c)[8 + i]);
    }
    assert(s.subrange(pos + 8, pos + 8 + n) =~= c.payload);
}

/// Reading back the encoding of a list of chunks gives the list, and the
/// reading stops at the end of it.
pub proof fn lemma_tokens_of_chunks(pre: Seq<u8>, cs: Seq<ChunkView>)
    requires
        chunks_bytes(cs).len() < 0x1_0000_0000,
    ensures
        ({
            let s = pre + chunks_bytes(cs);
            &&& tokens(s, pre.len() as int, s.len() as int) == cs
            &&& tokens_stop(s, pre.len() as int, s.len() as int) == s.len()
        }),
    decreases cs.len(),
{
    let s = pre + chunks_bytes(cs);
    let pos = pre.len() as int;
    let end = s.len() as int;
    if cs.len() == 0 {
        assert(!chunk_fits(s, pos, end));
        assert(tokens(s, pos, end) =~= cs);
    } else {
        let c = cs[0];
        let rest = cs.subrange(1, cs.len() as int);
        lemma_chunks_bytes_front(cs);
        let post = chunks_bytes(rest);
        assert(s =~= pre + chunk_bytes(c) + post);
        lemma_chunk_read_back(pre, c, post);
        let pre2 = pre + chunk_bytes(c);
        assert(s =~= pre2 + chunks_bytes(rest));
        lemma_tokens_of_chunks(pre2, rest);
        assert(seq![c] + rest =~= cs);
    }
}

/// What holds of an animation frame that a file can carry: a sound image
/// header, even offsets, and fields that fit the widths the frame header
/// gives them.
pub open spec fn anmf_frame_ok(f: FrameView) -> bool {
    &&& f.id == WebPChunkId::WEBP_CHUNK_ANMF
    &&& bitstream_info(f.bitstream) is Some
    &&& f.x_offset % 2 == 0
    &&& f.y_offset % 2 == 0
    &&& f.x_offset <= 0x100_0000
    &&& f.y_offset <= 0x100_0000
    &&& f.duration < 0x100_0000
    &&& anmf_payload(f).len() < 0x1_0000_0000
}

/// The sixteen bytes of a frame header, read back field by field.
pub proof fn lemma_anmf_header_read_back(f: FrameView, rest: Seq<u8>)
    requires
        bitstream_info(f.bitstream) is Some,
        1 <= frame_width(f) <= 0x4000,
        1 <= frame_height(f) <= 0x4000,
        f.x_offset <= 0x100_0000,
        f.y_offset <= 0x100_0000,
        f.duration < 0x100_0000,
    ensures
        ({
            let p = anmf_header(f) + rest;
            &&& anmf_header(f).len() == 16
            &&& le24(p, 0) == f.x_offset as int / 2
            &&& le24(p, 3) == f.y_offset as int / 2
            &&& le24(p, 6) == frame_width(f) - 1
            &&& le24(p, 9) == frame_height(f) - 1
            &&& le24(p, 12) == f.duration as int
            &&& p[15] as int == anmf_flags(f)
        }),
{
    let h = anmf_header(f);
    let p = h + rest;
    let x = le24_bytes(f.x_offset as int / 2);
    let y = le24_bytes(f.y_offset as int / 2);
    let w = le24_bytes(frame_width(f) - 1);
    let ht = le24_bytes(frame_height(f) - 1);
    let d = le24_bytes(f.duration as int);
    lemma_le24_roundtrip(f.x_offset as int / 2);
    lemma_le24_roundtrip(f.y_offset as int / 2);
    lemma_le24_roundtrip(frame_width(f) - 1);
    lemma_le24_roundtrip(frame_height(f) - 1);
    lemma_le24_roundtrip(f.duration as int);
    assert(h.len() == 16);
    assert forall|i: int| 0 <= i < 3 implies p[i] == x[i] && p[3 + i] == y[i] && p[6 + i] == w[i]
        && p[9 + i] == ht[i] && p[12 + i] == d[i] by {
        assert(p[i] == h[i]);
        assert(p[3 + i] == h[3 + i]);
        assert(p[6 + i] == h[6 + i]);
        assert(p[9 + i] == h[9 + i]);
        assert(p[12 + i] == h[12 + i]);
    }
    assert(le24(p, 0) == le24(x, 0));
    assert(le24(p, 3) == le24(y, 0));
    assert(le24(p, 6) == le24(w, 0));
    assert(le24(p, 9) == le24(ht, 0));
    assert(le24(p, 12) == le24(d, 0));
    assert(p[15] == h[15]);
}

/// The header of a frame's image, held against the tag of its chunk.
pub proof fn lemma_image_info_of_frame(f: FrameView)
    requires
        bitstream_info(f.bitstream) is Some,
    ensures
        image_info(image_tag(f), f.bitstream) == bitstream_info(f.bitstream),
{
}

/// A frame header and the chunks of its frame, put together again.
pub proof fn lemma_frame_of_parts(f: FrameView, p: Seq<u8>)
    requires
        anmf_frame_ok(f),
        le24(p, 0) == f.x_offset as int / 2,
        le24(p, 3) == f.y_offset as int / 2,
        le24(p, 6) == frame_width(f) - 1,
        le24(p, 9) == frame_height(f) - 1,
        le24(p, 12) == f.duration as int,
        p[15] as int == anmf_flags(f),
    ensures
        frame_of_parts(p, image_chunks(f)) == Some(f),
{
    let cs = image_chunks(f);
    let img = ChunkView { tag: image_tag(f), payload: f.bitstream };
    lemma_image_info_of_frame(f);
    match f.alpha {
        Some(a) => {
            assert(cs =~= seq![ChunkView { tag: TAG_ALPH, payload: a }, img]);
        },
        None => {
            assert(cs =~= seq![img]);
        },
    }
    assert(cs[cs.len() - 1] == img);
}

/// The payload of an animation frame's chunk, read back, gives the frame.
pub proof fn lemma_parse_anmf_roundtrip(f: FrameView)
    requires
        anmf_frame_ok(f),
        1 <= frame_width(f) <= 0x4000,
        1 <= frame_height(f) <= 0x4000,
    ensures
        parse_anmf(anmf_payload(f)) == Some(f),
{
    reveal(anmf_payload);
    let h = anmf_header(f);
    let cs = image_chunks(f);
    let p = anmf_payload(f);
    lemma_anmf_header_read_back(f, chunks_bytes(cs));
    lemma_tokens_of_chunks(h, cs);
    lemma_frame_of_parts(f, p);
}

/// The state after a single chunk.
pub proof fn lemma_build_one(s: BuildState, c: ChunkView)
    ensures
        build_from(s, seq![c]) == build_step(s, c),
{
    lemma_build_push(s, Seq::<ChunkView>::empty(), c);
    assert(Seq::<ChunkView>::empty().push(c) =~= seq![c]);
}

/// A colour profile, where there is one, is taken into the model.
pub proof fn lemma_build_iccp(s: BuildState, payload: Option<Seq<u8>>)
    requires
        !s.fresh,
        s.extended,
        s.model.iccp is None,
    ensures
        build_from(s, optional_chunk(TAG_ICCP, payload)) == Some(
            BuildState { model: ModelView { iccp: payload, ..s.model }, ..s },
        ),
{
    reveal(build_step);
    match payload {
        Some(p) => {
            lemma_build_one(s, ChunkView { tag: TAG_ICCP, payload: p });
        },
        None => {},
    }
}

/// EXIF metadata, where there is some, is taken into the model.
pub proof fn lemma_build_exif(s: BuildState, payload: Option<Seq<u8>>)
    requires
        !s.fresh,
        s.extended,
        s.model.exif is None,
    ensures
        build_from(s, optional_chunk(TAG_EXIF, payload)) == Some(
            BuildState { model: ModelView { exif: payload, ..s.model }, ..s },
        ),
{
    reveal(build_step);
    match payload {
        Some(p) => {
            lemma_build_one(s, ChunkView { tag: TAG_EXIF, payload: p });
        },
        None => {},
    }
}

/// XMP metadata, where there is some, is taken into the model.
pub proof fn lemma_build_xmp(s: BuildState, payload: Option<Seq<u8>>)
    requires
        !s.fresh,
        s.extended,
        s.model.xmp is None,
    ensures
        build_from(s, optional_chunk(TAG_XMP, payload)) == Some(
            BuildState { model: ModelView { xmp: payload, ..s.model }, ..s },
        ),
{
    reveal(build_step);
    match payload {
        Some(p) => {
            lemma_build_one(s, ChunkView { tag: TAG_XMP, payload: p });
        },
        None => {},
    }
}

/// One chunk of unknown kind is kept behind those kept before.
pub proof fn lemma_step_unknown(s: BuildState, c: ChunkView)
    requires
        !s.fresh,
        s.extended,
        !is_reserved_tag(c.tag),
    ensures
        build_step(s, c) == Some(
            BuildState { model: ModelView { unknown: s.model.unknown.push(c), ..s.model }, ..s },
        ),
{
    reveal(build_step);
}

/// Chunks of unknown kind are kept in their order.
pub proof fn lemma_build_unknown(s: BuildState, cs: Seq<ChunkView>)
    requires
        !s.fresh,
        s.extended,
        forall|i: int| 0 <= i < cs.len() ==> !is_reserved_tag((#[trigger] cs[i]).tag),
    ensures
        build_from(s, cs) == Some(
            BuildState { model: ModelView { unknown: s.model.unknown + cs, ..s.model }, ..s },
        ),
    decreases cs.len(),
{
    if cs.len() == 0 {
        assert(s.model.unknown + cs =~= s.model.unknown);
    } else {
        let prev = cs.drop_last();
        let mid = BuildState {
            model: ModelView { unknown: s.model.unknown + prev, ..s.model },
            ..s
        };
        lemma_build_unknown(s, prev);
        assert(!is_reserved_tag(cs[cs.len() - 1].tag));
        lemma_step_unknown(mid, cs.last());
        assert((s.model.unknown + prev).push(cs.last()) =~= s.model.unknown + cs);
    }
}

/// One animation frame's chunk adds its frame to those read before.
pub proof fn lemma_step_anmf(s: BuildState, p: Seq<u8>, f: FrameView)
    requires
        !s.fresh,
        s.extended,
        s.model.anim is Some,
        s.pending_alpha is None,
        s.model.frames.len() == 0 || s.model.frames.last().id == WebPChunkId::WEBP_CHUNK_ANMF,
        parse_anmf(p) == Some(f),
        on_canvas(s.model, f),
    ensures
        build_step(s, ChunkView { tag: TAG_ANMF, payload: p }) == Some(
            BuildState { model: ModelView { frames: s.model.frames.push(f), ..s.model }, ..s },
        ),
{
    reveal(build_step);
}

/// Whether an animation frame is read back from its chunk and lies on a
/// canvas of the given size.
#[verifier::opaque]
pub open spec fn anmf_ready(canvas_width: u32, canvas_height: u32, f: FrameView) -> bool {
    &&& f.id == WebPChunkId::WEBP_CHUNK_ANMF
    &&& parse_anmf(anmf_payload(f)) == Some(f)
    &&& f.x_offset + frame_width(f) <= canvas_width
    &&& f.y_offset + frame_height(f) <= canvas_height
}

/// What a frame that is ready gives to the state that takes it.
pub proof fn lemma_anmf_ready_use(m: ModelView, f: FrameView)
    requires
        anmf_ready(m.canvas_width, m.canvas_height, f),
    ensures
        f.id == WebPChunkId::WEBP_CHUNK_ANMF,
        parse_anmf(anmf_payload(f)) == Some(f),
        on_canvas(m, f),
{
    reveal(anmf_ready);
}

/// A state with more frames behind those it has.
pub open spec fn grown(s: BuildState, fs: Seq<FrameView>) -> BuildState {
    BuildState { model: ModelView { frames: s.model.frames + fs, ..s.model }, ..s }
}

/// The chunk of one more frame that is ready adds the frame.
pub proof fn lemma_grow_step(s: BuildState, prev: Seq<FrameView>, f: FrameView)
    requires
        !s.fresh,
        s.extended,
        s.model.anim is Some,
        s.pending_alpha is None,
        s.model.frames.len() == 0 || s.model.frames.last().id == WebPChunkId::WEBP_CHUNK_ANMF,
        prev.len() > 0 ==> prev.last().id == WebPChunkId::WEBP_CHUNK_ANMF,
        anmf_ready(s.model.canvas_width, s.model.canvas_height, f),
    ensures
        build_step(grown(s, prev), ChunkView { tag: TAG_ANMF, payload: anmf_payload(f) }) == Some(
            grown(s, prev.push(f)),
        ),
{
    let mid = grown(s, prev);
    lemma_anmf_ready_use(mid.model, f);
    if prev.len() > 0 {
        assert(mid.model.frames.last() == prev.last());
    } else {
        assert(mid.model.frames =~= s.model.frames);
    }
    lemma_step_anmf(mid, anmf_payload(f), f);
    assert((s.model.frames + prev).push(f) =~= s.model.frames + prev.push(f));
}

/// The chunks of an animation's frames are read back as the frames.
pub proof fn lemma_build_anmf(s: BuildState, fs: Seq<FrameView>)
    requires
        !s.fresh,
        s.extended,
        s.model.anim is Some,
        s.pending_alpha is None,
        s.model.frames.len() == 0 || s.model.frames.last().id == WebPChunkId::WEBP_CHUNK_ANMF,
        forall|i: int|
            0 <= i < fs.len() ==> anmf_ready(
                s.model.canvas_width,
                s.model.canvas_height,
                #[trigger] fs[i],
            ),
    ensures
        build_from(s, anmf_chunks(fs)) == Some(grown(s, fs)),
    decreases fs.len(),
{
    if fs.len() == 0 {
        assert(anmf_chunks(fs) =~= Seq::<ChunkView>::empty());
        assert(s.model.frames + fs =~= s.model.frames);
    } else {
        let prev = fs.drop_last();
        let f = fs.last();
        let c = ChunkView { tag: TAG_ANMF, payload: anmf_payload(f) };
        assert forall|i: int| 0 <= i < prev.len() implies anmf_ready(
            s.model.canvas_width,
            s.model.canvas_height,
            #[trigger] prev[i],
        ) by {
            assert(prev[i] == fs[i]);
        }
        lemma_build_anmf(s, prev);
        assert(anmf_chunks(fs) =~= anmf_chunks(prev).push(c));
        lemma_build_push(s, anmf_chunks(prev), c);
        assert(anmf_ready(s.model.canvas_width, s.model.canvas_height, fs[fs.len() - 1]));
        if prev.len() > 0 {
            assert(anmf_ready(s.model.canvas_width, s.model.canvas_height, prev[prev.len() - 1]));
            lemma_anmf_ready_use(s.model, prev.last());
        }
        lemma_grow_step(s, prev, f);
        assert(prev.push(f) =~= fs);
    }
}

/// The chunks of a still image are read back as its frame.
pub proof fn lemma_build_still(s: BuildState, f: FrameView)
    requires
        !s.fresh,
        s.extended,
        s.pending_alpha is None,
        s.model.frames.len() == 0,
        f == still_frame(f.bitstream, f.alpha),
        bitstream_info(f.bitstream) is Some,
        on_canvas(s.model, f),
    ensures
        build_from(s, image_chunks(f)) == Some(
            BuildState { model: ModelView { frames: seq![f], ..s.model }, ..s },
        ),
{
    reveal(build_step);
    let img = ChunkView { tag: image_tag(f), payload: f.bitstream };
    lemma_image_info_of_frame(f);
    assert(s.model.frames.push(f) =~= seq![f]);
    match f.alpha {
        Some(a) => {
            let alph = ChunkView { tag: TAG_ALPH, payload: a };
            assert(image_chunks(f) =~= seq![alph].push(img));
            lemma_build_push(s, seq![alph], img);
            lemma_build_one(s, alph);
        },
        None => {
            assert(image_chunks(f) =~= seq![img]);
            lemma_build_one(s, img);
        },
    }
}

/// The animation parameters, read back from their chunk.
pub proof fn lemma_build_anim(s: BuildState, a: WebPMuxAnimParams)
    requires
        !s.fresh,
        s.extended,
        s.model.anim is None,
        a.loop_count <= 0xffff,
    ensures
        build_step(s, ChunkView { tag: TAG_ANIM, payload: anim_payload(a) }) == Some(
            BuildState { model: ModelView { anim: Some(a), ..s.model }, ..s },
        ),
{
    reveal(build_step);
    let p = anim_payload(a);
    let b = le32_bytes(a.bgcolor as int);
    let l = le16_bytes(a.loop_count as int);
    lemma_le32_roundtrip(a.bgcolor as int);
    lemma_le16_roundtrip(a.loop_count as int);
    assert(p.len() == 6);
    assert forall|i: int| 0 <= i < 4 implies p[i] == b[i] by {}
    assert forall|i: int| 0 <= i < 2 implies p[4 + i] == l[i] by {}
    assert(le32(p, 0) == le32(b, 0));
    assert(le16(p, 4) == le16(l, 0));
}

/// The bytes of a list of chunks are at least as many as those of any one
/// of its chunks.
pub proof fn lemma_chunks_len_bound(cs: Seq<ChunkView>, i: int)
    requires
        0 <= i < cs.len(),
    ensures
        chunks_bytes(cs).len() >= 8 + cs[i].payload.len(),
    decreases cs.len(),
{
    if i < cs.len() - 1 {
        lemma_chunks_len_bound(cs.drop_last(), i);
    }
}

/// The state after the extended header of the file that a model stands for.
pub open spec fn after_header(m: ModelView) -> BuildState {
    BuildState {
        fresh: false,
        extended: true,
        flags: derived_flags(m) as u8,
        model: ModelView {
            canvas_width: effective_width(m) as u32,
            canvas_height: effective_height(m) as u32,
            ..empty_model()
        },
        pending_alpha: None,
    }
}

/// The extended header, read back, gives the canvas and the flag byte.
pub proof fn lemma_vp8x_read_back(m: ModelView)
    requires
        structure_valid(m),
    ensures
        first_step(ChunkView { tag: TAG_VP8X, payload: vp8x_payload(m) }) == Some(after_header(m)),
{
    let p = vp8x_payload(m);
    let w = le24_bytes(effective_width(m) - 1);
    let h = le24_bytes(effective_height(m) - 1);
    lemma_le24_roundtrip(effective_width(m) - 1);
    lemma_le24_roundtrip(effective_height(m) - 1);
    assert(p.len() == 10);
    assert forall|i: int| 0 <= i < 3 implies p[4 + i] == w[i] && p[7 + i] == h[i] by {}
    assert(le24(p, 4) == le24(w, 0));
    assert(le24(p, 7) == le24(h, 0));
    assert(p[0] == derived_flags(m) as u8);
}

/// Every frame of a sound animation can be carried by a file, provided its
/// chunk stays within the range of a length field.
pub proof fn lemma_frames_ok(m: ModelView)
    requires
        structure_valid(m),
    ensures
        forall|i: int|
            0 <= i < m.frames.len() ==> {
                &&& 1 <= frame_width(#[trigger] m.frames[i]) <= 0x4000
                &&& 1 <= frame_height(m.frames[i]) <= 0x4000
                &&& m.frames[i].x_offset <= 0x100_0000
                &&& m.frames[i].y_offset <= 0x100_0000
            },
{
    assert forall|i: int| 0 <= i < m.frames.len() implies {
        &&& 1 <= frame_width(#[trigger] m.frames[i]) <= 0x4000
        &&& 1 <= frame_height(m.frames[i]) <= 0x4000
        &&& m.frames[i].x_offset <= 0x100_0000
        &&& m.frames[i].y_offset <= 0x100_0000
    } by {
        assert(frame_valid(m.frames[i], effective_width(m), effective_height(m)));
        lemma_info_bounds(m.frames[i].bitstream);
    }
}

/// The state after the chunks that carry the frames.
pub open spec fn with_frames(s: BuildState, m: ModelView) -> BuildState {
    BuildState {
        model: ModelView {
            frames: m.frames,
            anim: if is_animation(m) {
                m.anim
            } else {
                None
            },
            ..s.model
        },
        ..s
    }
}

/// The chunks that carry the frames are read back as the frames.
pub proof fn lemma_build_frames(s: BuildState, m: ModelView)
    requires
        structure_valid(m),
        !s.fresh,
        s.extended,
        s.model.anim is None,
        s.pending_alpha is None,
        s.model.frames.len() == 0,
        s.model.canvas_width == effective_width(m),
        s.model.canvas_height == effective_height(m),
        chunks_bytes(frame_chunks(m)).len() < 0x1_0000_0000,
    ensures
        build_from(s, frame_chunks(m)) == Some(with_frames(s, m)),
{
    lemma_frames_ok(m);
    if is_animation(m) {
        let a = m.anim->0;
        let head = ChunkView { tag: TAG_ANIM, payload: anim_payload(a) };
        let tail = anmf_chunks(m.frames);
        lemma_build_concat(s, seq![head], tail);
        lemma_build_one(s, head);
        lemma_build_anim(s, a);
        let s1 = BuildState { model: ModelView { anim: Some(a), ..s.model }, ..s };
        assert forall|i: int| 0 <= i < m.frames.len() implies anmf_ready(
            s1.model.canvas_width,
            s1.model.canvas_height,
            #[trigger] m.frames[i],
        ) by {
            assert(frame_valid(m.frames[i], effective_width(m), effective_height(m)));
            assert(frame_chunks(m)[i + 1] == ChunkView {
                tag: TAG_ANMF,
                payload: anmf_payload(m.frames[i]),
            });
            lemma_chunks_len_bound(frame_chunks(m), i + 1);
            assert(anmf_frame_ok(m.frames[i]));
            lemma_parse_anmf_roundtrip(m.frames[i]);
            reveal(anmf_ready);
        }
        lemma_build_anmf(s1, m.frames);
        assert(s1.model.frames + m.frames =~= m.frames);
        assert(grown(s1, m.frames) == with_frames(s, m));
    } else {
        let f = m.frames[0];
        assert(frame_valid(f, effective_width(m), effective_height(m)));
        lemma_build_still(s, f);
        assert(seq![f] =~= m.frames);
    }
}

/// The state after all the chunks of the file that a model stands for.
pub open spec fn final_state(m: ModelView) -> BuildState {
    BuildState {
        fresh: false,
        extended: needs_vp8x(m),
        flags: if needs_vp8x(m) {
            derived_flags(m) as u8
        } else {
            0
        },
        model: normalized(m),
        pending_alpha: None,
    }
}

/// The flag byte says "animation" exactly of an animation.
pub proof fn lemma_animation_flag(m: ModelView)
    ensures
        0 <= derived_flags(m) < 0x40,
        (derived_flags(m) / 2 % 2 == 1) == is_animation(m),
{
}

/// In the extended layout, the chunks of a model's file are read back as the
/// model.
pub proof fn lemma_build_extended(m: ModelView)
    requires
        model_valid(m),
        needs_vp8x(m),
    ensures
        build_from(build_init(), model_chunks(m)) == Some(final_state(m)),
{
    let head = ChunkView { tag: TAG_VP8X, payload: vp8x_payload(m) };
    let iccp = optional_chunk(TAG_ICCP, m.iccp);
    let frames = frame_chunks(m);
    let exif = optional_chunk(TAG_EXIF, m.exif);
    let xmp = optional_chunk(TAG_XMP, m.xmp);
    let s0 = build_init();
    let s1 = after_header(m);
    let s2 = BuildState { model: ModelView { iccp: m.iccp, ..s1.model }, ..s1 };
    let s3 = with_frames(s2, m);
    let s4 = BuildState { model: ModelView { exif: m.exif, ..s3.model }, ..s3 };
    let s5 = BuildState { model: ModelView { xmp: m.xmp, ..s4.model }, ..s4 };
    let s6 = BuildState { model: ModelView { unknown: s5.model.unknown + m.unknown, ..s5.model }, ..s5 };

    assert(build_from(s0, seq![head]) == Some(s1)) by {
        reveal(build_step);
        lemma_build_one(s0, head);
        lemma_vp8x_read_back(m);
    }
    lemma_build_iccp(s1, m.iccp);
    assert(chunks_bytes(frames).len() <= body_bytes(m).len()) by {
        lemma_chunks_bytes_concat(seq![head], iccp);
        lemma_chunks_bytes_concat(seq![head] + iccp, frames);
        lemma_chunks_bytes_concat(seq![head] + iccp + frames, exif);
        lemma_chunks_bytes_concat(seq![head] + iccp + frames + exif, xmp);
        lemma_chunks_bytes_concat(seq![head] + iccp + frames + exif + xmp, m.unknown);
    }
    lemma_build_frames(s2, m);
    lemma_build_exif(s3, m.exif);
    lemma_build_xmp(s4, m.xmp);
    lemma_build_unknown(s5, m.unknown);

    lemma_build_concat(s0, seq![head], iccp);
    lemma_build_concat(s0, seq![head] + iccp, frames);
    lemma_build_concat(s0, seq![head] + iccp + frames, exif);
    lemma_build_concat(s0, seq![head] + iccp + frames + exif, xmp);
    lemma_build_concat(s0, seq![head] + iccp + frames + exif + xmp, m.unknown);
    assert(build_from(s0, model_chunks(m)) == Some(s6));
    assert(s6.model.unknown =~= m.unknown);
    assert(s6.model == normalized(m));
}

/// In the simple layout, the one chunk of a model's file is read back as the
/// model.
pub proof fn lemma_build_simple(m: ModelView)
    requires
        model_valid(m),
        !needs_vp8x(m),
    ensures
        build_from(build_init(), model_chunks(m)) == Some(final_state(m)),
{
    reveal(build_step);
    let f = m.frames[0];
    assert(frame_valid(f, effective_width(m), effective_height(m)));
    assert(!is_animation(m));
    assert(!frame_has_alpha(f));
    let img = ChunkView { tag: image_tag(f), payload: f.bitstream };
    assert(model_chunks(m) =~= seq![img]);
    lemma_build_one(build_init(), img);
    lemma_image_info_of_frame(f);
    lemma_info_bounds(f.bitstream);
    let got = first_step(img)->0;
    assert(got.model.frames =~= m.frames);
    assert(got.model.unknown =~= m.unknown);
    assert(got.model == normalized(m));
}

/// The chunks of a model's file make a whole file.
pub proof fn lemma_final_state_finished(m: ModelView)
    requires
        structure_valid(m),
    ensures
        finished(final_state(m)),
{
    lemma_animation_flag(m);
    assert(normalized(m).frames[0] == m.frames[0]);
}

/// The header of the file that a model stands for is sound and declares the
/// end of the file where the file ends, and the chunks of the file, read
/// back, are those of the model.
pub proof fn lemma_file_header(m: ModelView)
    requires
        model_valid(m),
    ensures
        ({
            let d = file_bytes(m);
            &&& d.len() == 12 + body_bytes(m).len()
            &&& header_ok(d)
            &&& le32(d, 4) == 4 + body_bytes(m).len()
            &&& file_end(d) == d.len()
            &&& tokens(d, 12, d.len() as int) == model_chunks(m)
            &&& tokens_stop(d, 12, d.len() as int) == d.len()
        }),
{
    let d = file_bytes(m);
    let body = body_bytes(m);
    let riff = le32_bytes(TAG_RIFF as int);
    let size = le32_bytes(4 + body.len() as int);
    let webp = le32_bytes(TAG_WEBP as int);
    let pre = riff + size + webp;
    lemma_le32_roundtrip(TAG_RIFF as int);
    lemma_le32_roundtrip(TAG_WEBP as int);
    lemma_le32_roundtrip(4 + body.len() as int);
    assert(pre.len() == 12);
    assert(d =~= pre + body);
    assert forall|i: int| 0 <= i < 4 implies d[i] == riff[i] && d[4 + i] == size[i] && d[8 + i]
        == webp[i] by {}
    assert(le32(d, 0) == le32(riff, 0));
    assert(le32(d, 4) == le32(size, 0));
    assert(le32(d, 8) == le32(webp, 0));
    lemma_tokens_of_chunks(pre, model_chunks(m));
}

/// Round trip: the file that a sound model stands for is parsed to the end,
/// and what parsing finds is the model as a file presents it: the same
/// canvas, the same frames with their offsets, durations and payloads, the
/// same metadata and the same chunks of unknown kind.
pub proof fn law_demux_of_assembled(m: ModelView)
    requires
        model_valid(m),
    ensures
        demux_spec(file_bytes(m)) == (DemuxView {
            state: WebPDemuxState::WEBP_DEMUX_DONE,
            flags: derived_flags(m) as u8,
            model: normalized(m),
        }),
{
    reveal(demux_spec);
    let d = file_bytes(m);
    lemma_file_header(m);
    assert(d.subrange(0, d.len() as int) =~= d);
    if needs_vp8x(m) {
        lemma_build_extended(m);
    } else {
        lemma_build_simple(m);
    }
    lemma_final_state_finished(m);
    assert(any_alpha(normalized(m).frames) == any_alpha(m.frames));
}

/// The model as a file presents it is sound where the model is, and stands
/// for the same file. So writing what was parsed from a written file gives
/// that file again.
pub proof fn law_normalized_same_file(m: ModelView)
    requires
        model_valid(m),
    ensures
        model_valid(normalized(m)),
        file_bytes(normalized(m)) == file_bytes(m),
        normalized(normalized(m)) == normalized(m),
{
    let n = normalized(m);
    assert(effective_width(n) == effective_width(m));
    assert(effective_height(n) == effective_height(m));
    assert(is_animation(n) == is_animation(m));
    assert(derived_flags(n) == derived_flags(m));
    assert(needs_vp8x(n) == needs_vp8x(m));
    assert(vp8x_payload(n) == vp8x_payload(m));
    assert(frame_chunks(n) == frame_chunks(m));
    assert(model_chunks(n) == model_chunks(m));
}

/// Writing depends on nothing but the content of the model: two models with
/// the same content, or one model written twice, give the same verdict and
/// the same bytes.
pub proof fn law_assemble_idempotent(a: ContainerModel, b: ContainerModel)
    requires
        a@ == b@,
    ensures
        model_valid(a@) == model_valid(b@),
        file_bytes(a@) == file_bytes(b@),
{
}

/// Whether the frames of one list are the first frames of another.
pub open spec fn frames_begin(longer: Seq<FrameView>, shorter: Seq<FrameView>) -> bool {
    shorter.len() <= longer.len() && longer.subrange(0, shorter.len() as int) == shorter
}

/// A chunk that is taken leaves the frames read before as they are, and
/// leaves a state that has seen a chunk.
pub proof fn lemma_step_grows(s: BuildState, c: ChunkView)
    requires
        build_step(s, c) is Some,
        s.fresh ==> s.model.frames.len() == 0,
    ensures
        frames_begin(build_step(s, c)->0.model.frames, s.model.frames),
        !build_step(s, c)->0.fresh,
{
    reveal(build_step);
    let after = build_step(s, c)->0.model.frames;
    assert(after.subrange(0, s.model.frames.len() as int) =~= s.model.frames);
}

/// Reading more chunks leaves the frames read before as they are, and a
/// state that has seen a chunk stays one.
pub proof fn lemma_tokens_grow(st: BuildState, s: Seq<u8>, pos: int, end: int)
    requires
        build_tokens(st, s, pos, end) is Some,
        st.fresh ==> st.model.frames.len() == 0,
    ensures
        frames_begin(build_tokens(st, s, pos, end)->0.model.frames, st.model.frames),
        build_tokens(st, s, pos, end)->0.fresh ==> st.fresh,
    decreases end - pos,
{
    if chunk_fits(s, pos, end) {
        let c = chunk_at(s, pos);
        let next = build_step(st, c)->0;
        let last = build_tokens(next, s, chunk_next(s, pos), end)->0;
        lemma_step_grows(st, c);
        lemma_tokens_grow(next, s, chunk_next(s, pos), end);
        assert(last.model.frames.subrange(0, st.model.frames.len() as int)
            =~= next.model.frames.subrange(0, st.model.frames.len() as int));
    } else {
        assert(st.model.frames.subrange(0, st.model.frames.len() as int) =~= st.model.frames);
    }
}

/// Where a buffer's chunks are all taken, so are those of any beginning of
/// it; the beginning's frames are the first frames of the whole buffer, and
/// where the beginning has given the canvas, so has the whole buffer.
pub proof fn lemma_prefix_builds(st: BuildState, s: Seq<u8>, e: int, pos: int)
    requires
        0 <= pos <= e <= s.len(),
        build_tokens(st, s, pos, s.len() as int) is Some,
        st.fresh ==> st.model.frames.len() == 0,
    ensures
        build_tokens(st, s.subrange(0, e), pos, e) is Some,
        frames_begin(
            build_tokens(st, s, pos, s.len() as int)->0.model.frames,
            build_tokens(st, s.subrange(0, e), pos, e)->0.model.frames,
        ),
        build_tokens(st, s, pos, s.len() as int)->0.fresh ==> build_tokens(
            st,
            s.subrange(0, e),
            pos,
            e,
        )->0.fresh,
    decreases e - pos,
{
    let s1 = s.subrange(0, e);
    let end = s.len() as int;
    if chunk_fits(s1, pos, e) {
        assert forall|i: int| pos <= i < pos + 8 implies #[trigger] s1[i] == s[i] by {}
        assert(le32(s1, pos) == le32(s, pos));
        assert(le32(s1, pos + 4) == le32(s, pos + 4));
        assert(chunk_fits(s, pos, end));
        assert(chunk_at(s1, pos).payload =~= chunk_at(s, pos).payload);
        assert(chunk_at(s1, pos) == chunk_at(s, pos));
        let c = chunk_at(s, pos);
        lemma_step_grows(st, c);
        lemma_prefix_builds(build_step(st, c)->0, s, e, chunk_next(s, pos));
    } else {
        lemma_tokens_grow(st, s, pos, end);
    }
}

/// What parsing makes of the first `j` bytes of a file that parses to the
/// end: no error, and the chunks that lie within them are all taken.
pub proof fn lemma_prefix_of_done(b: Seq<u8>, j: int)
    requires
        demux_spec(b).state == WebPDemuxState::WEBP_DEMUX_DONE,
        RIFF_HEADER_SIZE <= j <= b.len(),
    ensures
        ({
            let d = b.subrange(0, j);
            let end = file_end(d);
            let got = build_tokens(build_init(), d.subrange(0, end), RIFF_HEADER_SIZE as int, end);
            &&& header_ok(d)
            &&& RIFF_HEADER_SIZE <= end <= file_end(b)
            &&& d.subrange(0, end) == b.subrange(0, file_end(b)).subrange(0, end)
            &&& got is Some
            &&& demux_spec(d).state != WebPDemuxState::WEBP_DEMUX_PARSE_ERROR
            &&& demux_spec(d).model == got->0.model
            &&& reaches_end(d) ==> demux_spec(d).state == WebPDemuxState::WEBP_DEMUX_DONE
            &&& !reaches_end(d) ==> demux_spec(d).state == if got->0.fresh {
                WebPDemuxState::WEBP_DEMUX_PARSING_HEADER
            } else {
                WebPDemuxState::WEBP_DEMUX_PARSED_HEADER
            }
            &&& reaches_end(d) == (j >= 8 + le32(b, 4))
        }),
{
    reveal(demux_spec);
    let d = b.subrange(0, j);
    let end = file_end(d);
    let full_end = file_end(b);
    let full = b.subrange(0, full_end);
    assert forall|i: int| 0 <= i < 12 implies d[i] == b[i] by {}
    assert(le32(d, 0) == le32(b, 0));
    assert(le32(d, 4) == le32(b, 4));
    assert(le32(d, 8) == le32(b, 8));
    assert(d.subrange(0, end) =~= full.subrange(0, end));
    lemma_build_tokens(build_init(), full, RIFF_HEADER_SIZE as int, full_end);
    lemma_build_tokens(build_init(), d.subrange(0, end), RIFF_HEADER_SIZE as int, end);
    lemma_prefix_builds(build_init(), full, end, RIFF_HEADER_SIZE as int);
    if j >= 8 + le32(b, 4) {
        assert(d.subrange(0, end) =~= full);
    }
}

/// Of fewer than twelve bytes nothing is known.
pub proof fn lemma_short_beginning(d: Seq<u8>)
    ensures
        d.len() < RIFF_HEADER_SIZE ==> demux_spec(d).state
            == WebPDemuxState::WEBP_DEMUX_PARSING_HEADER && demux_spec(d).model.frames.len() == 0,
{
    reveal(demux_spec);
}

/// How far a state of parsing is: an error is behind everything, and the
/// end of the file is ahead of everything.
pub open spec fn state_rank(state: WebPDemuxState) -> int {
    match state {
        WebPDemuxState::WEBP_DEMUX_PARSE_ERROR => -1,
        WebPDemuxState::WEBP_DEMUX_PARSING_HEADER => 0,
        WebPDemuxState::WEBP_DEMUX_PARSED_HEADER => 1,
        WebPDemuxState::WEBP_DEMUX_DONE => 2,
    }
}

/// Monotonic streaming: of a file that parses to the end, no beginning is
/// taken for malformed. A longer beginning shows the frames of a shorter one
/// unchanged, and maybe more behind them, so never fewer; and its state is
/// never behind that of the shorter one.
pub proof fn law_streaming_monotonic(b: Seq<u8>, k: int, k2: int)
    requires
        demux_spec(b).state == WebPDemuxState::WEBP_DEMUX_DONE,
        0 <= k <= k2 <= b.len(),
    ensures
        demux_spec(b.subrange(0, k)).state != WebPDemuxState::WEBP_DEMUX_PARSE_ERROR,
        demux_spec(b.subrange(0, k2)).state != WebPDemuxState::WEBP_DEMUX_PARSE_ERROR,
        demux_spec(b.subrange(0, k)).model.frames.len() <= demux_spec(
            b.subrange(0, k2),
        ).model.frames.len(),
        frames_begin(
            demux_spec(b.subrange(0, k2)).model.frames,
            demux_spec(b.subrange(0, k)).model.frames,
        ),
        state_rank(demux_spec(b.subrange(0, k)).state) <= state_rank(
            demux_spec(b.subrange(0, k2)).state,
        ),
{
    let d1 = b.subrange(0, k);
    let d2 = b.subrange(0, k2);
    let f1 = demux_spec(d1).model.frames;
    let f2 = demux_spec(d2).model.frames;
    lemma_short_beginning(d1);
    lemma_short_beginning(d2);
    if k2 >= RIFF_HEADER_SIZE {
        lemma_prefix_of_done(b, k2);
        if k >= RIFF_HEADER_SIZE {
            lemma_prefix_of_done(b, k);
            let e1 = file_end(d1);
            let e2 = file_end(d2);
            let buf2 = d2.subrange(0, e2);
            assert(e1 <= e2);
            assert(d1.subrange(0, e1) =~= buf2.subrange(0, e1));
            lemma_prefix_builds(build_init(), buf2, e1, RIFF_HEADER_SIZE as int);
            assert forall|i: int| 0 <= i < 12 implies #[trigger] d1[i] == d2[i] by {}
            assert(le32(d1, 4) == le32(d2, 4));
            if reaches_end(d1) {
                assert(d1.subrange(0, e1) =~= buf2);
            }
        } else {
            assert(f2.subrange(0, 0) =~= f1);
        }
    } else {
        assert(f2.subrange(0, 0) =~= f1);
    }
}

/// A decoder that is complete is one that has decoded every row of its
/// image, and the other way round.
pub proof fn law_complete_means_all_rows(d: IDecoderView)
    requires
        idec_wf(d),
    ensures
        state_of(d) == DecoderState::Complete <==> d.ready && d.last_y == d.output.height,
{
}

/// A decoder that is complete or has failed stays as it is, whatever
/// happens, and never answers with success or with a call for more: a
/// failed one answers its failure, a complete one "invalid parameter".
pub proof fn law_final_states_stay(d: IDecoderView, e: DecoderEvent)
    requires
        idec_wf(d),
        !is_live(d),
    ensures
        step(d, e) == d,
        is_failure(answer(d, e)),
        answer(d, e) == if is_failure(d.status) {
            d.status
        } else {
            VP8StatusCode::VP8_STATUS_INVALID_PARAM
        },
{
}

/// Feeding a decoder in the mode that it was not fed in before is an error,
/// whether the decoder is live or complete, and leaves it as it is; a
/// decoder that has failed answers its failure and stays as it is too.
pub proof fn law_other_mode_is_refused(d: IDecoderView, bytes: Seq<u8>)
    ensures
        d.mode == FeedMode::Update ==> {
            &&& step(d, DecoderEvent::Append(bytes)) == d
            &&& is_failure(answer(d, DecoderEvent::Append(bytes)))
            &&& !is_failure(d.status) ==> answer(d, DecoderEvent::Append(bytes))
                == VP8StatusCode::VP8_STATUS_INVALID_PARAM
        },
        d.mode == FeedMode::Append ==> {
            &&& step(d, DecoderEvent::Update(bytes)) == d
            &&& is_failure(answer(d, DecoderEvent::Update(bytes)))
            &&& !is_failure(d.status) ==> answer(d, DecoderEvent::Update(bytes))
                == VP8StatusCode::VP8_STATUS_INVALID_PARAM
        },
{
}

/// A decoder that refuses every append goes on doing so, whatever happens
/// to it.
pub proof fn lemma_refusal_stays(d: IDecoderView, events: Seq<DecoderEvent>)
    requires
        refuses_append(d),
    ensures
        refuses_append(run(d, events)),
    decreases events.len(),
{
    if events.len() > 0 {
        lemma_refusal_stays(d, events.drop_last());
    }
}

/// After an update, append is an error for good: whatever happens to a
/// decoder that was fed by update, an append is answered with an error,
/// never with success or with a call for more, and changes nothing, so the
/// decoded rows are what they were.
pub proof fn law_append_after_update(d: IDecoderView, events: Seq<DecoderEvent>, bytes: Seq<u8>)
    requires
        d.mode == FeedMode::Update,
    ensures
        is_failure(answer(run(d, events), DecoderEvent::Append(bytes))),
        step(run(d, events), DecoderEvent::Append(bytes)) == run(d, events),
{
    lemma_refusal_stays(d, events);
}

/// An append that was refused is refused for good: once an append has been
/// answered with an error, every later append is answered with an error,
/// whatever comes between the two, and changes nothing.
pub proof fn law_refused_append_is_lasting(
    d: IDecoderView,
    bytes: Seq<u8>,
    events: Seq<DecoderEvent>,
    later: Seq<u8>,
)
    requires
        idec_wf(d),
        is_failure(answer(d, DecoderEvent::Append(bytes))),
    ensures
        ({
            let then = run(step(d, DecoderEvent::Append(bytes)), events);
            &&& is_failure(answer(then, DecoderEvent::Append(later)))
            &&& step(then, DecoderEvent::Append(later)) == then
        }),
{
    lemma_refusal_stays(step(d, DecoderEvent::Append(bytes)), events);
}

/// What a model holds under a tag, its written and parsed file holds too:
/// every payload that was set comes back, and what was absent stays absent.
pub proof fn law_chunks_survive_round_trip(m: ModelView, tag: u32)
    requires
        model_valid(m),
    ensures
        chunk_of(demux_spec(file_bytes(m)).model, tag) == chunk_of(m, tag),
{
    law_demux_of_assembled(m);
}

/// Decoded rows never go back: whatever happens to a sound decoder, it stays
/// sound, it has no fewer decoded rows than before, and it is complete
/// exactly when all rows of the image are decoded.
pub proof fn law_rows_monotonic(d: IDecoderView, e: DecoderEvent)
    requires
        idec_wf(d),
    ensures
        idec_wf(step(d, e)),
        step(d, e).last_y >= d.last_y,
        state_of(step(d, e)) == DecoderState::Complete <==> step(d, e).ready && step(d, e).last_y
            == step(d, e).output.height,
{
    if accepts(d, e) {
        match e {
            DecoderEvent::Append(bytes) => {
                lemma_features_sound(d.input + bytes);
            },
            DecoderEvent::Update(bytes) => {
                lemma_features_sound(d.input.subrange(0, d.consumed) + bytes);
            },
            DecoderEvent::RgbRows { consumed, last_row, rows } => {
                let b = d.output;
                lemma_plane_rows_fit(
                    b.rgba.len() as int,
                    b.width as int,
                    b.height as int,
                    b.stride as int,
                    mode_bytes_per_pixel(b.colorspace),
                    d.last_y as int,
                    last_row - d.last_y,
                );
                lemma_place_rows_len(
                    b.rgba,
                    b.stride as int,
                    packed_row_bytes(b),
                    d.last_y as int,
                    rows,
                    last_row - d.last_y,
                );
            },
            DecoderEvent::YuvaRows { consumed, last_row, y, u, v, a } => {
                let b = d.output;
                let first = d.last_y as int;
                let count = last_row - d.last_y;
                let uv_width = uv_dim(b.width as int);
                let uv_height = uv_dim(b.height as int);
                let uv_first = uv_dim(first);
                let uv_count = chroma_rows(first, first + count);
                lemma_plane_rows_fit(
                    b.y.len() as int,
                    b.width as int,
                    b.height as int,
                    b.y_stride as int,
                    1,
                    first,
                    count,
                );
                lemma_place_rows_len(b.y, b.y_stride as int, b.width as int, first, y, count);
                lemma_plane_rows_fit(
                    b.u.len() as int,
                    uv_width,
                    uv_height,
                    b.u_stride as int,
                    1,
                    uv_first,
                    uv_count,
                );
                lemma_place_rows_len(b.u, b.u_stride as int, uv_width, uv_first, u, uv_count);
                lemma_plane_rows_fit(
                    b.v.len() as int,
                    uv_width,
                    uv_height,
                    b.v_stride as int,
                    1,
                    uv_first,
                    uv_count,
                );
                lemma_place_rows_len(b.v, b.v_stride as int, uv_width, uv_first, v, uv_count);
                if b.colorspace == WEBP_CSP_MODE::MODE_YUVA {
                    lemma_plane_rows_fit(
                        b.a.len() as int,
                        b.width as int,
                        b.height as int,
                        b.a_stride as int,
                        1,
                        first,
                        count,
                    );
                    lemma_place_rows_len(b.a, b.a_stride as int, b.width as int, first, a, count);
                }
            },
            DecoderEvent::Failure(status) => {},
        }
    }
}

/// Stride validation: for a file that holds a still image, decoding into a
/// packed plane of the caller is refused as an invalid argument whenever the
/// plane is not exactly `height` rows of `stride` bytes, and whenever a row
/// of `stride` bytes is too short for the pixels of one row of the image.
pub proof fn law_stride_validation(
    d: Seq<u8>,
    mode: WEBP_CSP_MODE,
    len: int,
    stride: int,
    pixels: int,
)
    requires
        still_image(d).is_ok(),
        is_rgb_mode(mode),
        0 <= stride,
        len != stride * still_image(d)->Ok_0.height || stride < still_image(d)->Ok_0.width
            * mode_bytes_per_pixel(mode),
    ensures
        packed_into_outcome(d, mode, len, stride, pixels) == Err::<
            WebPBitstreamFeatures,
            WebpError,
        >(WebpError::InvalidArgument),
{
    let f = still_image(d)->Ok_0;
    lemma_stride_quotient(f.width as int, stride, mode_bytes_per_pixel(mode));
}

/// Decoding into a plane of the caller touches the bytes of the pixels and
/// no others: a byte that lies in none of the image's rows of pixels, such
/// as the room between the end of a row's pixels and the start of the next
/// row, is after the decoding what it was before.
pub proof fn law_decode_into_keeps_other_bytes(
    d: Seq<u8>,
    mode: WEBP_CSP_MODE,
    plane: Seq<u8>,
    stride: int,
    pixels: Seq<u8>,
    i: int,
)
    requires
        0 <= stride,
        packed_into_outcome(d, mode, plane.len() as int, stride, pixels.len() as int).is_ok(),
        0 <= i < plane.len(),
        forall|r: int|
            0 <= r < still_image(d)->Ok_0.height ==> !#[trigger] in_row(
                i,
                stride,
                still_image(d)->Ok_0.width * mode_bytes_per_pixel(mode),
                r,
            ),
    ensures
        place_rows(
            plane,
            stride,
            still_image(d)->Ok_0.width * mode_bytes_per_pixel(mode),
            0,
            pixels,
            still_image(d)->Ok_0.height as int,
        )[i] == plane[i],
{
    let f = still_image(d)->Ok_0;
    let bpp = mode_bytes_per_pixel(mode);
    lemma_features_sound(d);
    lemma_plane_rows_fit(
        plane.len() as int,
        f.width as int,
        f.height as int,
        stride,
        bpp,
        0,
        f.height as int,
    );
    assert(f.width * f.height * bpp == f.height * (f.width * bpp)) by (nonlinear_arith);
    lemma_untouched_byte(plane, stride, f.width * bpp, 0, pixels, f.height as int, i);
}

/// What reading the headers of a model's file says about the image: of an
/// animation the canvas, of a still image the size and the coding of the
/// image, and of both whether anything in them is transparent.
pub open spec fn file_features(m: ModelView) -> WebPBitstreamFeatures {
    if is_animation(m) {
        WebPBitstreamFeatures {
            width: effective_width(m) as u32,
            height: effective_height(m) as u32,
            has_alpha: any_alpha(m.frames),
            has_animation: true,
            format: WebPBitstreamFormat::UNDEFINED,
        }
    } else {
        let f = m.frames[0];
        WebPBitstreamFeatures {
            width: frame_width(f) as u32,
            height: frame_height(f) as u32,
            has_alpha: frame_has_alpha(f),
            has_animation: false,
            format: if looks_lossless(f.bitstream) {
                WebPBitstreamFormat::LOSSLESS
            } else {
                WebPBitstreamFormat::LOSSY
            },
        }
    }
}

/// Where a buffer's chunks are known, so is its first chunk, and the chunks
/// behind it are the others.
pub proof fn lemma_tokens_head(s: Seq<u8>, pos: int, end: int, cs: Seq<ChunkView>)
    requires
        tokens(s, pos, end) == cs,
        cs.len() > 0,
    ensures
        chunk_fits(s, pos, end),
        chunk_at(s, pos) == cs[0],
        le32(s, pos) == cs[0].tag,
        le32(s, pos + 4) == cs[0].payload.len(),
        tokens(s, chunk_next(s, pos), end) == cs.subrange(1, cs.len() as int),
{
    let rest = tokens(s, chunk_next(s, pos), end);
    assert(cs[0] == (seq![chunk_at(s, pos)] + rest)[0]);
    assert(rest =~= cs.subrange(1, cs.len() as int));
}

/// The features of the image whose chunk is the first of a run of chunks
/// that reaches the end of the file.
pub proof fn lemma_image_features_at(
    d: Seq<u8>,
    pos: int,
    f: FrameView,
    canvas: Option<CanvasInfo>,
    alpha_seen: bool,
)
    requires
        chunk_fits(d, pos, d.len() as int),
        chunk_at(d, pos) == (ChunkView { tag: image_tag(f), payload: f.bitstream }),
        le32(d, pos) == image_tag(f),
        le32(d, pos + 4) == f.bitstream.len(),
        bitstream_info(f.bitstream) is Some,
        canvas matches Some(c) ==> frame_width(f) <= c.width && frame_height(f) <= c.height,
    ensures
        image_features(d, pos, d.len() as int, canvas, alpha_seen) == Ok::<
            WebPBitstreamFeatures,
            VP8StatusCode,
        >(
            WebPBitstreamFeatures {
                width: frame_width(f) as u32,
                height: frame_height(f) as u32,
                has_alpha: alpha_seen || (if looks_lossless(f.bitstream) {
                    bitstream_info(f.bitstream)->0.has_alpha
                } else {
                    canvas matches Some(c) && c.alpha_flag
                }),
                has_animation: false,
                format: if looks_lossless(f.bitstream) {
                    WebPBitstreamFormat::LOSSLESS
                } else {
                    WebPBitstreamFormat::LOSSY
                },
            },
        ),
{
    reveal(image_features);
    let p = f.bitstream;
    lemma_info_kinds(p);
    lemma_info_bounds(p);
    assert forall|i: int| 0 <= i < p.len() implies #[trigger] d[pos + 8 + i] == p[i] by {
        assert(chunk_at(d, pos).payload[i] == d[pos + 8 + i]);
    }
    lemma_info_moves(d, pos + 8, p, p.len() as int);
}

/// The extended header as it stands in the file of a model: the flag byte,
/// the canvas, and behind the header the other chunks of the model.
pub proof fn lemma_extended_header(m: ModelView)
    requires
        model_valid(m),
        needs_vp8x(m),
    ensures
        ({
            let d = file_bytes(m);
            let cs = model_chunks(m);
            &&& d.len() >= 30
            &&& le32(d, 12) == TAG_VP8X
            &&& le32(d, 16) == 10
            &&& d[20] as int == derived_flags(m)
            &&& le24(d, 24) + 1 == effective_width(m)
            &&& le24(d, 27) + 1 == effective_height(m)
            &&& tokens(d, 30, d.len() as int) == cs.subrange(1, cs.len() as int)
        }),
{
    let d = file_bytes(m);
    let end = d.len() as int;
    let cs = model_chunks(m);
    let x = vp8x_payload(m);
    lemma_file_header(m);
    lemma_animation_flag(m);
    assert(cs[0] == ChunkView { tag: TAG_VP8X, payload: x });
    lemma_tokens_head(d, 12, end, cs);
    let w = le24_bytes(effective_width(m) - 1);
    let h = le24_bytes(effective_height(m) - 1);
    lemma_le24_roundtrip(effective_width(m) - 1);
    lemma_le24_roundtrip(effective_height(m) - 1);
    assert(x.len() == 10);
    assert forall|i: int| 0 <= i < 10 implies #[trigger] d[20 + i] == x[i] by {
        assert(chunk_at(d, 12).payload[i] == d[20 + i]);
    }
    assert forall|i: int| 0 <= i < 3 implies d[24 + i] == w[i] && d[27 + i] == h[i] by {
        assert(d[20 + (4 + i)] == x[4 + i]);
        assert(d[20 + (7 + i)] == x[7 + i]);
    }
    assert(le24(d, 24) == le24(w, 0));
    assert(le24(d, 27) == le24(h, 0));
    assert(d[20 + 0int] == x[0]);
}

/// Walking from `pos` over a colour profile, if there is one, and a
/// transparency chunk, if there is one, ends at the image chunk behind them
/// and has seen the transparency chunk exactly where there is one.
pub proof fn lemma_scan_to_still(
    d: Seq<u8>,
    pos: int,
    iccp: Option<Seq<u8>>,
    alpha: Option<Seq<u8>>,
    img: ChunkView,
    tail: Seq<ChunkView>,
) -> (at: int)
    requires
        0 <= pos,
        img.tag == TAG_VP8 || img.tag == TAG_VP8L,
        tokens(d, pos, d.len() as int) == optional_chunk(TAG_ICCP, iccp) + (optional_chunk(
            TAG_ALPH,
            alpha,
        ) + (seq![img] + tail)),
    ensures
        scan_to_image(d, pos, d.len() as int, false) == Ok::<ImagePosition, VP8StatusCode>(
            ImagePosition { pos: at, alpha_seen: alpha is Some },
        ),
        chunk_fits(d, at, d.len() as int),
        chunk_at(d, at) == img,
        le32(d, at) == img.tag,
        le32(d, at + 4) == img.payload.len(),
{
    let end = d.len() as int;
    let c3 = seq![img] + tail;
    let c2 = optional_chunk(TAG_ALPH, alpha) + c3;
    let c1 = optional_chunk(TAG_ICCP, iccp) + c2;
    let p2 = if iccp is Some {
        chunk_next(d, pos)
    } else {
        pos
    };
    if iccp is Some {
        lemma_tokens_head(d, pos, end, c1);
        assert(c1.subrange(1, c1.len() as int) =~= c2);
    } else {
        assert(c1 =~= c2);
    }
    assert(scan_to_image(d, pos, end, false) == scan_to_image(d, p2, end, false));
    let p3 = if alpha is Some {
        chunk_next(d, p2)
    } else {
        p2
    };
    lemma_tokens_head(d, p2, end, c2);
    if alpha is Some {
        assert(c2.subrange(1, c2.len() as int) =~= c3);
    } else {
        assert(c2 =~= c3);
    }
    assert(scan_to_image(d, p2, end, false) == scan_to_image(d, p3, end, alpha is Some));
    lemma_tokens_head(d, p3, end, c3);
    p3
}

/// A still image is transparent where its one frame is.
pub proof fn lemma_still_alpha(m: ModelView)
    requires
        m.frames.len() == 1,
    ensures
        any_alpha(m.frames) == frame_has_alpha(m.frames[0]),
{
    if any_alpha(m.frames) {
        let i = choose|i: int| 0 <= i < m.frames.len() && frame_has_alpha(m.frames[i]);
        assert(i == 0);
    }
}

/// The chunks of a still image's file behind the extended header.
pub proof fn lemma_still_chunks(m: ModelView)
    requires
        structure_valid(m),
        needs_vp8x(m),
        !is_animation(m),
    ensures
        ({
            let f = m.frames[0];
            let cs = model_chunks(m);
            cs.subrange(1, cs.len() as int) == optional_chunk(TAG_ICCP, m.iccp) + (optional_chunk(
                TAG_ALPH,
                f.alpha,
            ) + (seq![ChunkView { tag: image_tag(f), payload: f.bitstream }] + (optional_chunk(
                TAG_EXIF,
                m.exif,
            ) + optional_chunk(TAG_XMP, m.xmp) + m.unknown)))
        }),
{
    let f = m.frames[0];
    let cs = model_chunks(m);
    assert(cs.subrange(1, cs.len() as int) =~= optional_chunk(TAG_ICCP, m.iccp) + (optional_chunk(
        TAG_ALPH,
        f.alpha,
    ) + (seq![ChunkView { tag: image_tag(f), payload: f.bitstream }] + (optional_chunk(
        TAG_EXIF,
        m.exif,
    ) + optional_chunk(TAG_XMP, m.xmp) + m.unknown))));
}

/// What the headers say of a still image's file with an extended header.
pub proof fn lemma_extended_still_features(m: ModelView)
    requires
        model_valid(m),
        needs_vp8x(m),
        !is_animation(m),
    ensures
        extended_features(file_bytes(m), file_bytes(m).len() as int) == Ok::<
            WebPBitstreamFeatures,
            VP8StatusCode,
        >(file_features(m)),
{
    let d = file_bytes(m);
    let f = m.frames[0];
    let img = ChunkView { tag: image_tag(f), payload: f.bitstream };
    let tail = optional_chunk(TAG_EXIF, m.exif) + optional_chunk(TAG_XMP, m.xmp) + m.unknown;
    let canvas = CanvasInfo {
        width: effective_width(m),
        height: effective_height(m),
        alpha_flag: any_alpha(m.frames),
    };
    lemma_extended_header(m);
    lemma_animation_flag(m);
    lemma_still_alpha(m);
    lemma_still_chunks(m);
    assert(frame_valid(f, effective_width(m), effective_height(m)));
    lemma_info_kinds(f.bitstream);
    let at = lemma_scan_to_still(d, 30, m.iccp, f.alpha, img, tail);
    lemma_image_features_at(d, at, f, Some(canvas), f.alpha is Some);
    assert((d[20] / 16 % 2 == 1) == any_alpha(m.frames));
}

/// What the headers say of a file in the simple layout.
pub proof fn lemma_simple_file_features(m: ModelView)
    requires
        model_valid(m),
        !needs_vp8x(m),
    ensures
        ({
            let d = file_bytes(m);
            &&& d.len() >= 20
            &&& le32(d, 12) == TAG_VP8 || le32(d, 12) == TAG_VP8L
            &&& image_features(d, 12, d.len() as int, None, false) == Ok::<
                WebPBitstreamFeatures,
                VP8StatusCode,
            >(file_features(m))
        }),
{
    let d = file_bytes(m);
    let end = d.len() as int;
    let f = m.frames[0];
    let cs = model_chunks(m);
    lemma_file_header(m);
    lemma_animation_flag(m);
    assert(frame_valid(f, effective_width(m), effective_height(m)));
    lemma_info_kinds(f.bitstream);
    lemma_still_alpha(m);
    assert(cs =~= seq![ChunkView { tag: image_tag(f), payload: f.bitstream }]);
    lemma_tokens_head(d, 12, end, cs);
    lemma_image_features_at(d, 12, f, None, false);
}

/// What the headers say of a file with an extended header.
pub proof fn lemma_extended_file_features(m: ModelView)
    requires
        model_valid(m),
        needs_vp8x(m),
    ensures
        ({
            let d = file_bytes(m);
            &&& d.len() >= 30
            &&& le32(d, 12) == TAG_VP8X
            &&& extended_features(d, d.len() as int) == Ok::<WebPBitstreamFeatures, VP8StatusCode>(
                file_features(m),
            )
        }),
{
    let d = file_bytes(m);
    lemma_extended_header(m);
    lemma_animation_flag(m);
    if is_animation(m) {
        assert((d[20] / 16 % 2 == 1) == any_alpha(m.frames));
        assert(d[20] / 2 % 2 == 1);
    } else {
        lemma_extended_still_features(m);
    }
}

/// Reading the headers of the file that a sound model stands for gives the
/// features of the model: what is written is what is read.
pub proof fn law_features_of_file(m: ModelView)
    requires
        model_valid(m),
    ensures
        features_spec(file_bytes(m)) == Ok::<WebPBitstreamFeatures, VP8StatusCode>(
            file_features(m),
        ),
{
    let d = file_bytes(m);
    lemma_file_header(m);
    if needs_vp8x(m) {
        lemma_extended_file_features(m);
    } else {
        lemma_simple_file_features(m);
    }
    assert(8 + le32(d, 4) == d.len());
    reveal(features_spec);
}

/// Walking to the image chunk in the beginning of a buffer ends where it
/// ends in the whole buffer, or the beginning is too short.
pub proof fn lemma_scan_of_beginning(w: Seq<u8>, k: int, pos: int, riff_end: int, alpha: bool)
    requires
        0 <= pos,
        0 <= k <= w.len(),
        scan_to_image(w, pos, riff_end, alpha) is Ok,
    ensures
        scan_to_image(w, pos, riff_end, alpha)->Ok_0.pos >= pos,
        scan_to_image(w, pos, riff_end, alpha)->Ok_0.pos + 8 <= w.len(),
        scan_to_image(w.subrange(0, k), pos, riff_end, alpha) == scan_to_image(
            w,
            pos,
            riff_end,
            alpha,
        ) || scan_to_image(w.subrange(0, k), pos, riff_end, alpha) == Err::<
            ImagePosition,
            VP8StatusCode,
        >(VP8StatusCode::VP8_STATUS_NOT_ENOUGH_DATA),
        scan_to_image(w.subrange(0, k), pos, riff_end, alpha) is Ok ==> scan_to_image(
            w,
            pos,
            riff_end,
            alpha,
        )->Ok_0.pos + 8 <= k,
    decreases w.len() - pos,
{
    let p = w.subrange(0, k);
    if pos + 8 <= k {
        assert forall|i: int| pos <= i < pos + 8 implies #[trigger] p[i] == w[i] by {}
        assert(le32(p, pos) == le32(w, pos));
        assert(le32(p, pos + 4) == le32(w, pos + 4));
        if !(le32(w, pos) == TAG_VP8 || le32(w, pos) == TAG_VP8L) {
            let next = pos + 8 + padded_len(le32(w, pos + 4));
            lemma_scan_of_beginning(w, k, next, riff_end, alpha || le32(w, pos) == TAG_ALPH);
        }
    } else if !(le32(w, pos) == TAG_VP8 || le32(w, pos) == TAG_VP8L) {
        let next = pos + 8 + padded_len(le32(w, pos + 4));
        lemma_scan_of_beginning(w, 0, next, riff_end, alpha || le32(w, pos) == TAG_ALPH);
    }
}

/// The features of an image read from the beginning of a buffer are those
/// read from the whole buffer, or the beginning is too short.
pub proof fn lemma_image_features_of_beginning(
    w: Seq<u8>,
    k: int,
    pos: int,
    riff_end: int,
    canvas: Option<CanvasInfo>,
    alpha: bool,
)
    requires
        0 <= pos,
        pos + 8 <= k <= w.len(),
        image_features(w, pos, riff_end, canvas, alpha) is Ok,
    ensures
        image_features(w.subrange(0, k), pos, riff_end, canvas, alpha) == image_features(
            w,
            pos,
            riff_end,
            canvas,
            alpha,
        ) || image_features(w.subrange(0, k), pos, riff_end, canvas, alpha) == Err::<
            WebPBitstreamFeatures,
            VP8StatusCode,
        >(VP8StatusCode::VP8_STATUS_NOT_ENOUGH_DATA),
{
    reveal(image_features);
    let p = w.subrange(0, k);
    assert forall|i: int| pos <= i < pos + 8 implies #[trigger] p[i] == w[i] by {}
    assert(le32(p, pos) == le32(w, pos));
    assert(le32(p, pos + 4) == le32(w, pos + 4));
    let size = le32(w, pos + 4);
    let header = if le32(w, pos) == TAG_VP8L {
        VP8L_FRAME_HEADER_SIZE as int
    } else {
        VP8_FRAME_HEADER_SIZE as int
    };
    if k >= pos + 8 + header {
        let bytes = w.subrange(pos + 8, pos + 8 + header);
        assert forall|i: int| 0 <= i < bytes.len() implies #[trigger] p[pos + 8 + i] == bytes[i] by {}
        lemma_info_moves(w, pos + 8, bytes, size);
        lemma_info_moves(p, pos + 8, bytes, size);
    }
}

/// What the headers say with an extended header, read from a beginning.
pub proof fn lemma_extended_features_of_beginning(w: Seq<u8>, k: int, riff_end: int)
    requires
        20 <= k <= w.len(),
        extended_features(w, riff_end) is Ok,
    ensures
        extended_features(w.subrange(0, k), riff_end) == extended_features(w, riff_end)
            || extended_features(w.subrange(0, k), riff_end) == Err::<
            WebPBitstreamFeatures,
            VP8StatusCode,
        >(VP8StatusCode::VP8_STATUS_NOT_ENOUGH_DATA),
{
    let p = w.subrange(0, k);
    assert forall|i: int| 16 <= i < 20 implies #[trigger] p[i] == w[i] by {}
    assert(le32(p, 16) == le32(w, 16));
    if k >= 30 {
        assert forall|i: int| 20 <= i < 30 implies #[trigger] p[i] == w[i] by {}
        assert(le24(p, 24) == le24(w, 24));
        assert(le24(p, 27) == le24(w, 27));
        assert(p[20] == w[20]);
        if !(w[20] / 2 % 2 == 1) {
            lemma_scan_of_beginning(w, k, 30, riff_end, false);
            let at = scan_to_image(w, 30, riff_end, false)->Ok_0;
            if scan_to_image(p, 30, riff_end, false) is Ok {
                let canvas = CanvasInfo {
                    width: le24(w, 24) + 1,
                    height: le24(w, 27) + 1,
                    alpha_flag: w[20] / 16 % 2 == 1,
                };
                lemma_image_features_of_beginning(
                    w,
                    k,
                    at.pos,
                    riff_end,
                    Some(canvas),
                    at.alpha_seen,
                );
            }
        }
    }
}

/// The headers of a beginning: of a buffer whose headers are sound, every
/// beginning either is too short to say anything or says exactly what the
/// whole buffer says. So the size that a decoder reads from the first pieces
/// of a file is the size of the file's image.
pub proof fn law_features_of_beginning(w: Seq<u8>, k: int)
    requires
        features_spec(w) is Ok,
        0 <= k <= w.len(),
    ensures
        features_spec(w.subrange(0, k)) == features_spec(w) || features_spec(w.subrange(0, k))
            == Err::<WebPBitstreamFeatures, VP8StatusCode>(
            VP8StatusCode::VP8_STATUS_NOT_ENOUGH_DATA,
        ),
{
    reveal(features_spec);
    let p = w.subrange(0, k);
    if k >= 12 {
        assert forall|i: int| 0 <= i < 12 implies #[trigger] p[i] == w[i] by {}
        assert(le32(p, 0) == le32(w, 0));
        assert(le32(p, 4) == le32(w, 4));
        assert(le32(p, 8) == le32(w, 8));
        let riff_end = 8 + le32(w, 4);
        if k >= 20 {
            assert forall|i: int| 12 <= i < 16 implies #[trigger] p[i] == w[i] by {}
            assert(le32(p, 12) == le32(w, 12));
            if le32(w, 12) == TAG_VP8X {
                lemma_extended_features_of_beginning(w, k, riff_end);
            } else {
                lemma_image_features_of_beginning(w, k, 12, riff_end, None, false);
            }
        }
    }
}

/// Memory of the buffer's own fits every image: sizing a buffer lays it out
/// whenever its layout is one and the memory is not the caller's.
pub proof fn lemma_own_memory_fits(b: DecBufferView, width: u32, height: u32)
    requires
        b.is_external_memory <= 0,
        b.colorspace != WEBP_CSP_MODE::MODE_LAST,
        1 <= width <= MAX_DIMENSION,
        1 <= height <= MAX_DIMENSION,
    ensures
        laid_out(sized(b, width, height)),
{
    let bpp = mode_bytes_per_pixel(b.colorspace);
    let stride = width * bpp;
    crate::rows::lemma_mul_le(width as int, MAX_DIMENSION as int, bpp);
    lemma_stride_quotient(width as int, stride, bpp);
    lemma_stride_quotient(width as int, width as int, 1);
    lemma_stride_quotient(uv_dim(width as int), uv_dim(width as int), 1);
    assert(width * 1 == width && uv_dim(width as int) * 1 == uv_dim(width as int));
}

/// The pieces of a file keep a decoder waiting: an append that makes the
/// input of a live decoder a beginning of a file with a still image is
/// answered with "suspended", provided the output buffer fits the image, as
/// memory of the buffer's own in any layout always does. The rows decoded stay as they
/// are, and where the append has read the headers, the output buffer has the
/// size of the file's image. Only the report of the pixel codec completes a
/// decoder.
pub proof fn law_pieces_keep_suspended(d: IDecoderView, bytes: Seq<u8>, w: Seq<u8>, k: int)
    requires
        idec_wf(d),
        is_live(d),
        d.mode != FeedMode::Update,
        features_spec(w) is Ok,
        !features_spec(w)->Ok_0.has_animation,
        0 <= k <= w.len(),
        d.input + bytes == w.subrange(0, k),
        d.ready || (d.output.is_external_memory <= 0 && d.output.colorspace
            != WEBP_CSP_MODE::MODE_LAST) || laid_out(
            sized(d.output, features_spec(w)->Ok_0.width, features_spec(w)->Ok_0.height),
        ),
    ensures
        answer(d, DecoderEvent::Append(bytes)) == VP8StatusCode::VP8_STATUS_SUSPENDED,
        step(d, DecoderEvent::Append(bytes)).last_y == d.last_y,
        !d.ready && step(d, DecoderEvent::Append(bytes)).ready ==> {
            &&& step(d, DecoderEvent::Append(bytes)).output.width == features_spec(w)->Ok_0.width
            &&& step(d, DecoderEvent::Append(bytes)).output.height == features_spec(
                w,
            )->Ok_0.height
        },
{
    let f = features_spec(w)->Ok_0;
    law_features_of_beginning(w, k);
    lemma_features_sound(w);
    if d.output.is_external_memory <= 0 && d.output.colorspace != WEBP_CSP_MODE::MODE_LAST {
        lemma_own_memory_fits(d.output, f.width, f.height);
    }
}

} // verus!
