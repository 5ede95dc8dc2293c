use vstd::prelude::*;
use crate::bitstream::{bitstream_info, get_bitstream_info, BitstreamInfo};
use crate::bytes::{push_bytes, push_le16, push_le24, push_le32};
use crate::chunk::{
    chunk_bytes, chunks_bytes, ChunkView, MAX_CHUNK_PAYLOAD, TAG_ALPH, TAG_ANIM, TAG_ANMF,
    TAG_EXIF, TAG_ICCP, TAG_RIFF, TAG_VP8, TAG_VP8L, TAG_VP8X, TAG_WEBP, TAG_XMP,
};
use crate::container::{
    anim_payload, anmf_chunks, anmf_header, anmf_payload, any_alpha, derived_flags,
    effective_height, effective_width, extent_height, extent_width, file_bytes, frame_chunks,
    frame_has_alpha, frame_valid, image_chunks, image_tag, is_animation, is_reserved_tag,
    model_chunks, model_valid, needs_vp8x, opt_bytes, optional_chunk, structure_valid,
    vp8x_payload, ContainerModel, WebPChunkId, WebPMuxAnimBlend, WebPMuxAnimDispose,
    WebPMuxFrameInfo, ALPHA_FLAG, ANIMATION_FLAG, EXIF_FLAG, ICCP_FLAG, MAX_CANVAS_SIZE,
    XMP_FLAG,
};
use crate::error::WebpError;

verus! {

/// What the checks before writing find out about a model.
#[derive(Debug, Clone, Copy, PartialEq, Eq, Structural)]
pub struct Layout {
    /// Canvas width that the file declares.
    pub width: u32,
    /// Canvas height that the file declares.
    pub height: u32,
    /// Whether the frames form an animation.
    pub animated: bool,
    /// The flag byte of the extended header.
    pub flags: u32,
    /// Whether the file has an extended header.
    pub extended: bool,
}

/// Whether a tag names a chunk kind that the container gives a meaning to.
pub fn reserved_tag(tag: u32) -> (b: bool)
    ensures
        b == is_reserved_tag(tag),
{
    tag == TAG_VP8X || tag == TAG_VP8 || tag == TAG_VP8L || tag == TAG_ALPH || tag == TAG_ANIM
        || tag == TAG_ANMF || tag == TAG_ICCP || tag == TAG_EXIF || tag == TAG_XMP
}

/// Appends the encoding of one chunk, whatever the payload's length; the
/// length field holds the low 32 bits of it.
fn append_any_chunk(out: &mut Vec<u8>, tag: u32, payload: &[u8])
    ensures
        final(out)@ == old(out)@ + chunk_bytes(ChunkView { tag, payload: payload@ }),
{
    let n = payload.len();
    push_le32(out, tag);
    out.push((n % 0x100) as u8);
    out.push((n / 0x100 % 0x100) as u8);
    out.push((n / 0x1_0000 % 0x100) as u8);
    out.push((n / 0x100_0000 % 0x100) as u8);
    push_bytes(out, payload);
    if n % 2 == 1 {
        out.push(0u8);
    }
    assert(out@ =~= old(out)@ + chunk_bytes(ChunkView { tag, payload: payload@ }));
}

/// Writing one more chunk appends its bytes to those of the chunks before.
pub proof fn lemma_chunks_bytes_push(cs: Seq<ChunkView>, c: ChunkView)
    ensures
        chunks_bytes(cs.push(c)) == chunks_bytes(cs) + chunk_bytes(c),
{
    assert(cs.push(c).drop_last() =~= cs);
}

/// The bytes of two lists of chunks written one after the other.
pub proof fn lemma_chunks_bytes_concat(a: Seq<ChunkView>, b: Seq<ChunkView>)
    ensures
        chunks_bytes(a + b) == chunks_bytes(a) + chunks_bytes(b),
    decreases b.len(),
{
    if b.len() == 0 {
        assert(a + b =~= a);
        assert(chunks_bytes(a) + chunks_bytes(b) =~= chunks_bytes(a));
    } else {
        lemma_chunks_bytes_concat(a, b.drop_last());
        assert((a + b).drop_last() =~= a + b.drop_last());
        assert((a + b).last() == b.last());
        assert(chunks_bytes(a + b) =~= chunks_bytes(a) + chunks_bytes(b));
    }
}

/// Appends a chunk where there is a payload, and nothing where there is none.
fn append_optional_chunk(out: &mut Vec<u8>, tag: u32, payload: &Option<Vec<u8>>)
    ensures
        final(out)@ == old(out)@ + chunks_bytes(optional_chunk(tag, opt_bytes(*payload))),
{
    match payload {
        Some(p) => {
            append_any_chunk(out, tag, p.as_slice());
            proof {
                let c = ChunkView { tag, payload: p@ };
                lemma_chunks_bytes_push(Seq::<ChunkView>::empty(), c);
                assert(Seq::<ChunkView>::empty().push(c) =~= optional_chunk(tag, opt_bytes(*payload)));
                assert(out@ =~= old(out)@ + chunks_bytes(optional_chunk(tag, opt_bytes(*payload))));
            }
        },
        None => {
            assert(out@ =~= old(out)@ + chunks_bytes(optional_chunk(tag, opt_bytes(*payload))));
        },
    }
}

/// Appends the chunks of one image: transparency, if any, then the payload.
fn append_image_chunks(out: &mut Vec<u8>, f: &WebPMuxFrameInfo, info: BitstreamInfo)
    requires
        bitstream_info(f@.bitstream) == Some(info),
    ensures
        final(out)@ == old(out)@ + chunks_bytes(image_chunks(f@)),
{
    append_optional_chunk(out, TAG_ALPH, &f.alpha);
    let tag = if info.lossless {
        TAG_VP8L
    } else {
        TAG_VP8
    };
    append_any_chunk(out, tag, f.bitstream.as_slice());
    proof {
        let a = optional_chunk(TAG_ALPH, f@.alpha);
        let c = ChunkView { tag: image_tag(f@), payload: f@.bitstream };
        lemma_chunks_bytes_push(a, c);
        assert(a.push(c) =~= image_chunks(f@));
        assert(out@ =~= old(out)@ + chunks_bytes(image_chunks(f@)));
    }
}

/// The payload of an animation frame's chunk.
fn build_anmf_payload(f: &WebPMuxFrameInfo, info: BitstreamInfo) -> (p: Vec<u8>)
    requires
        bitstream_info(f@.bitstream) == Some(info),
        1 <= info.width <= 0x4000,
        1 <= info.height <= 0x4000,
        f.duration < 0x100_0000,
        f.x_offset <= 0x100_0000,
        f.y_offset <= 0x100_0000,
    ensures
        p@ == anmf_payload(f@),
{
    reveal(anmf_payload);
    let mut p: Vec<u8> = Vec::new();
    push_le24(&mut p, f.x_offset / 2);
    push_le24(&mut p, f.y_offset / 2);
    push_le24(&mut p, info.width - 1);
    push_le24(&mut p, info.height - 1);
    push_le24(&mut p, f.duration);
    let d: u8 = match f.dispose_method {
        WebPMuxAnimDispose::WEBP_MUX_DISPOSE_BACKGROUND => 1,
        WebPMuxAnimDispose::WEBP_MUX_DISPOSE_NONE => 0,
    };
    let b: u8 = match f.blend_method {
        WebPMuxAnimBlend::WEBP_MUX_NO_BLEND => 2,
        WebPMuxAnimBlend::WEBP_MUX_BLEND => 0,
    };
    p.push(d + b);
    assert(p@ =~= anmf_header(f@));
    append_image_chunks(&mut p, f, info);
    p
}

/// The header check of every frame, and the least canvas that holds them all.
fn frame_extents(model: &ContainerModel) -> (r: Option<(u64, u64)>)
    ensures
        r.is_some() <==> forall|i: int|
            0 <= i < model@.frames.len() ==> bitstream_info(
                (#[trigger] model@.frames[i]).bitstream,
            ) is Some,
        r matches Some((w, h)) ==> w == extent_width(model@.frames) && h == extent_height(
            model@.frames,
        ),
{
    let mut w: u64 = 0;
    let mut h: u64 = 0;
    let mut i: usize = 0;
    let ghost fs = model@.frames;
    while i < model.frames.len()
        invariant
            i <= model.frames@.len(),
            fs == model@.frames,
            fs.len() == model.frames@.len(),
            forall|j: int| 0 <= j < i ==> bitstream_info((#[trigger] fs[j]).bitstream) is Some,
            w == extent_width(fs.subrange(0, i as int)),
            h == extent_height(fs.subrange(0, i as int)),
            w <= 0x1_0000_4000,
            h <= 0x1_0000_4000,
        decreases model.frames@.len() - i,
    {
        let f = &model.frames[i];
        assert(f@ == fs[i as int]);
        match get_bitstream_info(f.bitstream.as_slice()) {
            None => {
                return None;
            },
            Some(info) => {
                let right = f.x_offset as u64 + info.width as u64;
                let bottom = f.y_offset as u64 + info.height as u64;
                proof {
                    let next = fs.subrange(0, i as int + 1);
                    assert(next.drop_last() =~= fs.subrange(0, i as int));
                    assert(next.last() == fs[i as int]);
                }
                if right > w {
                    w = right;
                }
                if bottom > h {
                    h = bottom;
                }
            },
        }
        i = i + 1;
    }
    assert(fs.subrange(0, i as int) =~= fs);
    Some((w, h))
}

/// Whether every frame is an animation frame.
fn all_frames_animated(model: &ContainerModel) -> (b: bool)
    ensures
        b <==> forall|i: int|
            0 <= i < model@.frames.len() ==> (#[trigger] model@.frames[i]).id
                == WebPChunkId::WEBP_CHUNK_ANMF,
{
    let mut i: usize = 0;
    while i < model.frames.len()
        invariant
            i <= model.frames@.len(),
            model@.frames.len() == model.frames@.len(),
            forall|j: int|
                0 <= j < i ==> (#[trigger] model@.frames[j]).id == WebPChunkId::WEBP_CHUNK_ANMF,
        decreases model.frames@.len() - i,
    {
        assert(model.frames[i as int]@ == model@.frames[i as int]);
        match model.frames[i].id {
            WebPChunkId::WEBP_CHUNK_ANMF => {},
            _ => {
                return false;
            },
        }
        i = i + 1;
    }
    true
}

/// Whether any frame has transparency.
pub fn frames_have_alpha(model: &ContainerModel) -> (b: bool)
    ensures
        b == any_alpha(model@.frames),
{
    let mut i: usize = 0;
    while i < model.frames.len()
        invariant
            i <= model.frames@.len(),
            model@.frames.len() == model.frames@.len(),
            forall|j: int| 0 <= j < i ==> !frame_has_alpha(#[trigger] model@.frames[j]),
        decreases model.frames@.len() - i,
    {
        let f = &model.frames[i];
        assert(f@ == model@.frames[i as int]);
        let alpha = match &f.alpha {
            Some(_) => true,
            None => match get_bitstream_info(f.bitstream.as_slice()) {
                Some(info) => info.has_alpha,
                None => false,
            },
        };
        if alpha {
            return true;
        }
        i = i + 1;
    }
    false
}

/// Whether one frame is sound on a canvas of the given size.
fn check_frame(f: &WebPMuxFrameInfo, cw: u64, ch: u64) -> (b: bool)
    ensures
        b == frame_valid(f@, cw as int, ch as int),
{
    let info = match get_bitstream_info(f.bitstream.as_slice()) {
        Some(info) => info,
        None => {
            return false;
        },
    };
    if f.x_offset as u64 + info.width as u64 > cw || f.y_offset as u64 + info.height as u64 > ch {
        return false;
    }
    match f.id {
        WebPChunkId::WEBP_CHUNK_ANMF => f.x_offset % 2 == 0 && f.y_offset % 2 == 0 && f.duration
            < 0x100_0000,
        WebPChunkId::WEBP_CHUNK_IMAGE => {
            let plain_dispose = match f.dispose_method {
                WebPMuxAnimDispose::WEBP_MUX_DISPOSE_NONE => true,
                _ => false,
            };
            let plain_blend = match f.blend_method {
                WebPMuxAnimBlend::WEBP_MUX_BLEND => true,
                _ => false,
            };
            f.x_offset == 0 && f.y_offset == 0 && f.duration == 0 && plain_dispose && plain_blend
        },
        _ => false,
    }
}

/// Whether every frame is sound on a canvas of the given size.
fn check_frames(model: &ContainerModel, cw: u64, ch: u64) -> (b: bool)
    ensures
        b <==> forall|i: int|
            0 <= i < model@.frames.len() ==> frame_valid(
                #[trigger] model@.frames[i],
                cw as int,
                ch as int,
            ),
{
    let mut i: usize = 0;
    while i < model.frames.len()
        invariant
            i <= model.frames@.len(),
            model@.frames.len() == model.frames@.len(),
            forall|j: int|
                0 <= j < i ==> frame_valid(#[trigger] model@.frames[j], cw as int, ch as int),
        decreases model.frames@.len() - i,
    {
        assert(model.frames[i as int]@ == model@.frames[i as int]);
        if !check_frame(&model.frames[i], cw, ch) {
            return false;
        }
        i = i + 1;
    }
    true
}

/// Whether no chunk of unknown kind bears a reserved tag.
fn check_unknown_tags(model: &ContainerModel) -> (b: bool)
    ensures
        b <==> forall|i: int|
            0 <= i < model@.unknown.len() ==> !is_reserved_tag((#[trigger] model@.unknown[i]).tag),
{
    let mut i: usize = 0;
    while i < model.unknown.len()
        invariant
            i <= model.unknown@.len(),
            model@.unknown.len() == model.unknown@.len(),
            forall|j: int| 0 <= j < i ==> !is_reserved_tag((#[trigger] model@.unknown[j]).tag),
        decreases model.unknown@.len() - i,
    {
        assert(model.unknown[i as int]@ == model@.unknown[i as int]);
        if reserved_tag(model.unknown[i].tag) {
            return false;
        }
        i = i + 1;
    }
    true
}

/// Checks the structure of a model and works out what the file's header says.
pub fn check_structure(model: &ContainerModel) -> (r: Option<Layout>)
    ensures
        r.is_some() <==> structure_valid(model@),
        r matches Some(l) ==> {
            &&& l.width == effective_width(model@)
            &&& l.height == effective_height(model@)
            &&& l.animated == is_animation(model@)
            &&& l.flags == derived_flags(model@)
            &&& l.extended == needs_vp8x(model@)
        },
{
    let n = model.frames.len();
    if n == 0 {
        return None;
    }
    assert(model.frames[0]@ == model@.frames[0]);
    let animated = all_frames_animated(model);
    let still = n == 1 && match model.frames[0].id {
        WebPChunkId::WEBP_CHUNK_IMAGE => true,
        _ => false,
    };
    if !animated && !still {
        return None;
    }
    if (model.canvas_width == 0) != (model.canvas_height == 0) {
        return None;
    }
    let (ew, eh) = match frame_extents(model) {
        Some(e) => e,
        None => {
            return None;
        },
    };
    let unset = model.canvas_width == 0 && model.canvas_height == 0;
    let cw: u64 = if unset {
        ew
    } else {
        model.canvas_width as u64
    };
    let ch: u64 = if unset {
        eh
    } else {
        model.canvas_height as u64
    };
    if cw < 1 || cw > MAX_CANVAS_SIZE as u64 || ch < 1 || ch > MAX_CANVAS_SIZE as u64 {
        return None;
    }
    if !check_frames(model, cw, ch) {
        return None;
    }
    if animated {
        match model.anim {
            Some(a) => {
                if a.loop_count > 0xffff {
                    return None;
                }
            },
            None => {
                return None;
            },
        }
    }
    if !check_unknown_tags(model) {
        return None;
    }
    let alpha = frames_have_alpha(model);
    let mut flags: u32 = 0;
    if animated {
        flags = flags + ANIMATION_FLAG;
    }
    if model.xmp.is_some() {
        flags = flags + XMP_FLAG;
    }
    if model.exif.is_some() {
        flags = flags + EXIF_FLAG;
    }
    if alpha {
        flags = flags + ALPHA_FLAG;
    }
    if model.iccp.is_some() {
        flags = flags + ICCP_FLAG;
    }
    let info = match get_bitstream_info(model.frames[0].bitstream.as_slice()) {
        Some(i) => i,
        None => {
            return None;
        },
    };
    let extended = flags != 0 || model.unknown.len() > 0 || cw != info.width as u64 || ch
        != info.height as u64;
    Some(Layout { width: cw as u32, height: ch as u32, animated, flags, extended })
}

/// Appends the chunks of all frames of an animation, one chunk per frame.
fn append_anmf_chunks(out: &mut Vec<u8>, model: &ContainerModel)
    requires
        forall|i: int|
            0 <= i < model@.frames.len() ==> {
                &&& bitstream_info((#[trigger] model@.frames[i]).bitstream) is Some
                &&& model@.frames[i].duration < 0x100_0000
                &&& model@.frames[i].x_offset <= 0x100_0000
                &&& model@.frames[i].y_offset <= 0x100_0000
            },
    ensures
        final(out)@ == old(out)@ + chunks_bytes(anmf_chunks(model@.frames)),
{
    let mut i: usize = 0;
    let ghost fs = model@.frames;
    assert(anmf_chunks(fs.subrange(0, 0)) =~= Seq::<ChunkView>::empty());
    assert(out@ =~= old(out)@ + chunks_bytes(anmf_chunks(fs.subrange(0, 0))));
    while i < model.frames.len()
        invariant
            i <= model.frames@.len(),
            fs == model@.frames,
            fs.len() == model.frames@.len(),
            forall|j: int|
                0 <= j < fs.len() ==> {
                    &&& bitstream_info((#[trigger] fs[j]).bitstream) is Some
                    &&& fs[j].duration < 0x100_0000
                    &&& fs[j].x_offset <= 0x100_0000
                    &&& fs[j].y_offset <= 0x100_0000
                },
            out@ == old(out)@ + chunks_bytes(anmf_chunks(fs.subrange(0, i as int))),
        decreases model.frames@.len() - i,
    {
        let f = &model.frames[i];
        assert(f@ == fs[i as int]);
        let info = get_bitstream_info(f.bitstream.as_slice());
        let payload = build_anmf_payload(f, info.unwrap());
        append_any_chunk(out, TAG_ANMF, payload.as_slice());
        proof {
            let done = anmf_chunks(fs.subrange(0, i as int));
            let c = ChunkView { tag: TAG_ANMF, payload: anmf_payload(fs[i as int]) };
            lemma_chunks_bytes_push(done, c);
            assert(done.push(c) =~= anmf_chunks(fs.subrange(0, i as int + 1)));
            assert(out@ =~= old(out)@ + chunks_bytes(anmf_chunks(fs.subrange(0, i as int + 1))));
        }
        i = i + 1;
    }
    assert(fs.subrange(0, i as int) =~= fs);
}

/// Appends the chunks of unknown kind as they stand.
fn append_unknown_chunks(out: &mut Vec<u8>, model: &ContainerModel)
    ensures
        final(out)@ == old(out)@ + chunks_bytes(model@.unknown),
{
    let mut i: usize = 0;
    let ghost cs = model@.unknown;
    assert(out@ =~= old(out)@ + chunks_bytes(cs.subrange(0, 0)));
    while i < model.unknown.len()
        invariant
            i <= model.unknown@.len(),
            cs == model@.unknown,
            cs.len() == model.unknown@.len(),
            out@ == old(out)@ + chunks_bytes(cs.subrange(0, i as int)),
        decreases model.unknown@.len() - i,
    {
        let c = &model.unknown[i];
        assert(c@ == cs[i as int]);
        append_any_chunk(out, c.tag, c.payload.as_slice());
        proof {
            let done = cs.subrange(0, i as int);
            lemma_chunks_bytes_push(done, cs[i as int]);
            assert(done.push(cs[i as int]) =~= cs.subrange(0, i as int + 1));
            assert(out@ =~= old(out)@ + chunks_bytes(cs.subrange(0, i as int + 1)));
        }
        i = i + 1;
    }
    assert(cs.subrange(0, i as int) =~= cs);
}

/// Appends the chunks that carry the frames.
fn append_frame_chunks(out: &mut Vec<u8>, model: &ContainerModel, layout: Layout)
    requires
        structure_valid(model@),
        layout.animated == is_animation(model@),
    ensures
        final(out)@ == old(out)@ + chunks_bytes(frame_chunks(model@)),
{
    assert(model.frames[0]@ == model@.frames[0]);
    if layout.animated {
        let a = model.anim.unwrap();
        let mut p: Vec<u8> = Vec::new();
        push_le32(&mut p, a.bgcolor);
        push_le16(&mut p, a.loop_count);
        assert(p@ =~= anim_payload(a));
        append_any_chunk(out, TAG_ANIM, p.as_slice());
        append_anmf_chunks(out, model);
        proof {
            let head = seq![ChunkView { tag: TAG_ANIM, payload: anim_payload(a) }];
            lemma_chunks_bytes_push(Seq::<ChunkView>::empty(), head[0]);
            assert(Seq::<ChunkView>::empty().push(head[0]) =~= head);
            lemma_chunks_bytes_concat(head, anmf_chunks(model@.frames));
            assert(out@ =~= old(out)@ + chunks_bytes(frame_chunks(model@)));
        }
    } else {
        let f = &model.frames[0];
        let info = get_bitstream_info(f.bitstream.as_slice());
        append_image_chunks(out, f, info.unwrap());
    }
}

/// Writes the file that a model stands for.
///
/// The model is checked here and nowhere earlier. It must be one still image
/// or an animation with its parameters; its frames must have sound headers
/// and lie on the canvas; the file must stay within the range of its size
/// field. The extended header is written exactly where the content needs it.
pub fn assemble(model: &ContainerModel) -> (r: Result<Vec<u8>, WebpError>)
    ensures
        r.is_ok() <==> model_valid(model@),
        r matches Ok(bytes) ==> bytes@ == file_bytes(model@),
        r matches Err(e) ==> e == WebpError::InvalidArgument,
{
    let layout = match check_structure(model) {
        Some(l) => l,
        None => {
            return Err(WebpError::InvalidArgument);
        },
    };
    let mut body: Vec<u8> = Vec::new();
    assert(model.frames[0]@ == model@.frames[0]);
    if layout.extended {
        let mut x: Vec<u8> = Vec::new();
        x.push(layout.flags as u8);
        x.push(0u8);
        x.push(0u8);
        x.push(0u8);
        push_le24(&mut x, layout.width - 1);
        push_le24(&mut x, layout.height - 1);
        assert(x@ =~= vp8x_payload(model@));
        append_any_chunk(&mut body, TAG_VP8X, x.as_slice());
        append_optional_chunk(&mut body, TAG_ICCP, &model.iccp);
        append_frame_chunks(&mut body, model, layout);
        append_optional_chunk(&mut body, TAG_EXIF, &model.exif);
        append_optional_chunk(&mut body, TAG_XMP, &model.xmp);
        append_unknown_chunks(&mut body, model);
        proof {
            let m = model@;
            let head = seq![ChunkView { tag: TAG_VP8X, payload: vp8x_payload(m) }];
            let iccp = optional_chunk(TAG_ICCP, m.iccp);
            let frames = frame_chunks(m);
            let exif = optional_chunk(TAG_EXIF, m.exif);
            let xmp = optional_chunk(TAG_XMP, m.xmp);
            lemma_chunks_bytes_push(Seq::<ChunkView>::empty(), head[0]);
            assert(Seq::<ChunkView>::empty().push(head[0]) =~= head);
            lemma_chunks_bytes_concat(head, iccp);
            lemma_chunks_bytes_concat(head + iccp, frames);
            lemma_chunks_bytes_concat(head + iccp + frames, exif);
            lemma_chunks_bytes_concat(head + iccp + frames + exif, xmp);
            lemma_chunks_bytes_concat(head + iccp + frames + exif + xmp, m.unknown);
            assert(body@ =~= chunks_bytes(model_chunks(m)));
        }
    } else {
        let f = &model.frames[0];
        let info = get_bitstream_info(f.bitstream.as_slice());
        append_image_chunks(&mut body, f, info.unwrap());
        assert(body@ =~= chunks_bytes(model_chunks(model@)));
    }
    if body.len() > MAX_CHUNK_PAYLOAD as usize - 4 {
        return Err(WebpError::InvalidArgument);
    }
    let mut out: Vec<u8> = Vec::new();
    push_le32(&mut out, TAG_RIFF);
    push_le32(&mut out, 4 + body.len() as u32);
    push_le32(&mut out, TAG_WEBP);
    push_bytes(&mut out, body.as_slice());
    assert(out@ =~= file_bytes(model@));
    Ok(out)
}

} // verus!
