use vstd::prelude::*;
use crate::bytes::copy_range;
use crate::chunk::{Chunk, ChunkView, TAG_EXIF, TAG_ICCP, TAG_XMP};
use crate::container::{
    derived_flags, effective_height, effective_width, empty_model, file_bytes, is_reserved_tag,
    model_valid, structure_valid, ContainerModel, ModelView, WebPChunkId, WebPMuxAnimBlend,
    WebPMuxAnimDispose, WebPMuxAnimParams, WebPMuxFrameInfo,
};
use crate::demux::{demux_bytes, demux_spec, new_model, still_frame, WebPDemuxState};
use crate::error::WebpError;
use crate::mux::{assemble, check_structure};

verus! {

/// A builder of WebP files: a model that is filled step by step and written
/// at the end. Nothing is checked before the file is written.
#[derive(Debug)]
pub struct WebPMux {
    pub model: ContainerModel,
}

impl View for WebPMux {
    type V = ModelView;

    open spec fn view(&self) -> ModelView {
        self.model@
    }
}

/// Whether a tag is one of the three metadata tags.
pub open spec fn is_metadata_tag(tag: u32) -> bool {
    tag == TAG_ICCP || tag == TAG_EXIF || tag == TAG_XMP
}

/// Whether a chunk can be set under a tag: under the three metadata tags and
/// under every tag that the container gives no meaning to. The extended
/// header, the animation parameters and the chunks of frames are written
/// from the model and never set by hand.
pub open spec fn is_settable_tag(tag: u32) -> bool {
    is_metadata_tag(tag) || !is_reserved_tag(tag)
}

/// Whether `i` is the place of the first chunk with a tag.
pub open spec fn is_first_with_tag(cs: Seq<ChunkView>, tag: u32, i: int) -> bool {
    &&& 0 <= i < cs.len()
    &&& cs[i].tag == tag
    &&& forall|j: int| 0 <= j < i ==> (#[trigger] cs[j]).tag != tag
}

/// Whether some chunk bears a tag.
pub open spec fn has_tag(cs: Seq<ChunkView>, tag: u32) -> bool {
    exists|i: int| 0 <= i < cs.len() && (#[trigger] cs[i]).tag == tag
}

/// The place of the first chunk with a tag, where there is one.
pub open spec fn first_with_tag(cs: Seq<ChunkView>, tag: u32) -> int {
    choose|i: int| is_first_with_tag(cs, tag, i)
}

/// The first chunk with a tag is in one place only.
pub proof fn lemma_first_with_tag(cs: Seq<ChunkView>, tag: u32, i: int)
    requires
        is_first_with_tag(cs, tag, i),
    ensures
        first_with_tag(cs, tag) == i,
        has_tag(cs, tag),
{
    let j = first_with_tag(cs, tag);
    assert(is_first_with_tag(cs, tag, j));
    if j < i {
        assert(cs[j].tag != tag);
    }
    if i < j {
        assert(cs[i].tag != tag);
    }
}

/// Where some chunk bears a tag, one of them is the first.
pub proof fn lemma_first_exists(cs: Seq<ChunkView>, tag: u32, k: int)
    requires
        0 <= k < cs.len(),
        cs[k].tag == tag,
    ensures
        is_first_with_tag(cs, tag, first_with_tag(cs, tag)),
    decreases k,
{
    if forall|j: int| 0 <= j < k ==> (#[trigger] cs[j]).tag != tag {
        assert(is_first_with_tag(cs, tag, k));
    } else {
        let j = choose|j: int| 0 <= j < k && (#[trigger] cs[j]).tag == tag;
        lemma_first_exists(cs, tag, j);
    }
}

/// The payload that a model holds under a tag: the metadata chunk, or the
/// first chunk of unknown kind with the tag. Under the tags of the chunks
/// that are written from the model itself (the extended header, the
/// animation parameters, the chunks of frames) a model holds nothing.
pub open spec fn chunk_of(m: ModelView, tag: u32) -> Option<Seq<u8>> {
    if tag == TAG_ICCP {
        m.iccp
    } else if tag == TAG_EXIF {
        m.exif
    } else if tag == TAG_XMP {
        m.xmp
    } else if is_reserved_tag(tag) {
        None
    } else if has_tag(m.unknown, tag) {
        Some(m.unknown[first_with_tag(m.unknown, tag)].payload)
    } else {
        None
    }
}

/// The model after a payload was set under a tag: a metadata chunk takes the
/// place of the one before; a chunk of unknown kind takes the place of the
/// first with its tag or, where there is none, comes last.
pub open spec fn with_chunk(m: ModelView, tag: u32, payload: Seq<u8>) -> ModelView {
    let c = ChunkView { tag, payload };
    if tag == TAG_ICCP {
        ModelView { iccp: Some(payload), ..m }
    } else if tag == TAG_EXIF {
        ModelView { exif: Some(payload), ..m }
    } else if tag == TAG_XMP {
        ModelView { xmp: Some(payload), ..m }
    } else if has_tag(m.unknown, tag) {
        ModelView { unknown: m.unknown.update(first_with_tag(m.unknown, tag), c), ..m }
    } else {
        ModelView { unknown: m.unknown.push(c), ..m }
    }
}

/// The model after the chunk under a tag was deleted: the metadata chunk, or
/// the first chunk of unknown kind with the tag.
pub open spec fn without_chunk(m: ModelView, tag: u32) -> ModelView {
    if tag == TAG_ICCP {
        ModelView { iccp: None, ..m }
    } else if tag == TAG_EXIF {
        ModelView { exif: None, ..m }
    } else if tag == TAG_XMP {
        ModelView { xmp: None, ..m }
    } else {
        ModelView { unknown: m.unknown.remove(first_with_tag(m.unknown, tag)), ..m }
    }
}

/// Looks for the first chunk of unknown kind with a tag.
fn find_unknown(model: &ContainerModel, tag: u32) -> (r: Option<usize>)
    ensures
        r is Some <==> has_tag(model@.unknown, tag),
        r matches Some(i) ==> i < model.unknown@.len() && first_with_tag(model@.unknown, tag) == i,
{
    let mut i: usize = 0;
    while i < model.unknown.len()
        invariant
            i <= model.unknown@.len(),
            model@.unknown.len() == model.unknown@.len(),
            forall|j: int| 0 <= j < i ==> (#[trigger] model@.unknown[j]).tag != tag,
        decreases model.unknown@.len() - i,
    {
        assert(model.unknown@[i as int]@ == model@.unknown[i as int]);
        if model.unknown[i].tag == tag {
            proof {
                lemma_first_with_tag(model@.unknown, tag, i as int);
            }
            return Some(i);
        }
        i = i + 1;
    }
    None
}

/// A builder that holds nothing yet.
#[allow(non_snake_case)]
pub fn WebPMuxNew() -> (mux: WebPMux)
    ensures
        mux@ == empty_model(),
{
    WebPMux { model: new_model() }
}

/// A builder that holds what a whole file holds.
///
/// A file that breaks the container's structure is malformed; the beginning
/// of a file is truncated.
#[allow(non_snake_case)]
pub fn WebPMuxCreate(data: &[u8]) -> (r: Result<WebPMux, WebpError>)
    ensures
        match demux_spec(data@).state {
            WebPDemuxState::WEBP_DEMUX_DONE => r matches Ok(mux) && mux@ == demux_spec(data@).model,
            WebPDemuxState::WEBP_DEMUX_PARSE_ERROR => r matches Err(e) && e
                == WebpError::MalformedContainer,
            _ => r matches Err(e) && e == WebpError::TruncatedChunk,
        },
{
    let (state, model, _) = demux_bytes(data);
    match state {
        WebPDemuxState::WEBP_DEMUX_DONE => Ok(WebPMux { model }),
        WebPDemuxState::WEBP_DEMUX_PARSE_ERROR => Err(WebpError::MalformedContainer),
        _ => Err(WebpError::TruncatedChunk),
    }
}

impl WebPMux {
    /// Sets the size of the canvas. Zero by zero leaves the size to the
    /// frames.
    pub fn set_canvas(&mut self, width: u32, height: u32)
        ensures
            final(self)@ == (ModelView { canvas_width: width, canvas_height: height, ..old(self)@ }),
    {
        self.model.canvas_width = width;
        self.model.canvas_height = height;
    }

    /// The size of the canvas that the file will declare: the size that was
    /// set or, where none was set, the least that holds every frame. A model
    /// that cannot be written has no canvas to tell.
    pub fn get_canvas_size(&self) -> (r: Result<(u32, u32), WebpError>)
        ensures
            r.is_ok() <==> structure_valid(self@),
            r matches Ok(size) ==> size.0 == effective_width(self@) && size.1 == effective_height(
                self@,
            ),
            r matches Err(e) ==> e == WebpError::InvalidArgument,
    {
        match check_structure(&self.model) {
            Some(l) => Ok((l.width, l.height)),
            None => Err(WebpError::InvalidArgument),
        }
    }

    /// The flag byte that the file will show. A model that cannot be written
    /// has none to tell.
    pub fn get_features(&self) -> (r: Result<u32, WebpError>)
        ensures
            r.is_ok() <==> structure_valid(self@),
            r matches Ok(flags) ==> flags == derived_flags(self@),
            r matches Err(e) ==> e == WebpError::InvalidArgument,
    {
        match check_structure(&self.model) {
            Some(l) => Ok(l.flags),
            None => Err(WebpError::InvalidArgument),
        }
    }

    /// Adds a frame behind the frames that are there.
    pub fn push_frame(&mut self, frame: WebPMuxFrameInfo)
        ensures
            final(self)@ == (ModelView { frames: old(self)@.frames.push(frame@), ..old(self)@ }),
    {
        let ghost before = self@.frames;
        let ghost f = frame@;
        self.model.frames.push(frame);
        assert(self@.frames =~= before.push(f));
    }

    /// Makes the model one still image with the given payload: the frames
    /// that were there are dropped.
    pub fn set_image(&mut self, bitstream: &[u8])
        ensures
            final(self)@ == (ModelView {
                frames: seq![still_frame(bitstream@, None)],
                ..old(self)@
            }),
    {
        let payload = copy_range(bitstream, 0, bitstream.len());
        assert(payload@ =~= bitstream@);
        self.model.frames.clear();
        self.model.frames.push(
            WebPMuxFrameInfo {
                bitstream: payload,
                alpha: None,
                x_offset: 0,
                y_offset: 0,
                duration: 0,
                id: WebPChunkId::WEBP_CHUNK_IMAGE,
                dispose_method: WebPMuxAnimDispose::WEBP_MUX_DISPOSE_NONE,
                blend_method: WebPMuxAnimBlend::WEBP_MUX_BLEND,
            },
        );
        assert(self@.frames =~= seq![still_frame(bitstream@, None)]);
    }

    /// How many frames the model holds.
    pub fn num_frames(&self) -> (n: usize)
        ensures
            n == self@.frames.len(),
    {
        self.model.frames.len()
    }

    /// The frame with the given number. Frames are counted from one.
    pub fn get_frame(&self, nth: u32) -> (r: Result<&WebPMuxFrameInfo, WebpError>)
        ensures
            r.is_ok() <==> 1 <= nth <= self@.frames.len(),
            r matches Ok(f) ==> f@ == self@.frames[nth - 1],
            r matches Err(e) ==> e == WebpError::NotFound,
    {
        if nth == 0 || nth as u64 > self.model.frames.len() as u64 {
            return Err(WebpError::NotFound);
        }
        let f = &self.model.frames[(nth - 1) as usize];
        Ok(f)
    }

    /// Takes out the frame with the given number. Frames are counted from
    /// one; the frames behind move up.
    pub fn delete_frame(&mut self, nth: u32) -> (r: Result<(), WebpError>)
        ensures
            r.is_ok() <==> 1 <= nth <= old(self)@.frames.len(),
            r.is_ok() ==> final(self)@ == (ModelView {
                frames: old(self)@.frames.remove(nth - 1),
                ..old(self)@
            }),
            r.is_err() ==> r == Err::<(), WebpError>(WebpError::NotFound) && final(self)@ == old(
                self,
            )@,
    {
        if nth == 0 || nth as u64 > self.model.frames.len() as u64 {
            return Err(WebpError::NotFound);
        }
        let ghost before = self@.frames;
        self.model.frames.remove((nth - 1) as usize);
        assert(self@.frames =~= before.remove(nth - 1));
        Ok(())
    }

    /// Sets the parameters of the animation.
    pub fn set_animation_params(&mut self, params: WebPMuxAnimParams)
        ensures
            final(self)@ == (ModelView { anim: Some(params), ..old(self)@ }),
    {
        self.model.anim = Some(params);
    }

    /// The parameters of the animation, where they were set.
    pub fn get_animation_params(&self) -> (r: Result<WebPMuxAnimParams, WebpError>)
        ensures
            match self@.anim {
                Some(p) => r == Ok::<WebPMuxAnimParams, WebpError>(p),
                None => r == Err::<WebPMuxAnimParams, WebpError>(WebpError::NotFound),
            },
    {
        match self.model.anim {
            Some(p) => Ok(p),
            None => Err(WebpError::NotFound),
        }
    }

    /// Sets the payload of the chunk with the given tag.
    ///
    /// A tag of the extended header, of the animation parameters or of a
    /// frame's chunks is refused: those chunks are written from the model.
    pub fn set_chunk(&mut self, tag: u32, payload: &[u8]) -> (r: Result<(), WebpError>)
        ensures
            r.is_ok() <==> is_settable_tag(tag),
            r.is_ok() ==> final(self)@ == with_chunk(old(self)@, tag, payload@),
            r.is_err() ==> r == Err::<(), WebpError>(WebpError::InvalidArgument) && final(self)@
                == old(self)@,
    {
        let copy = copy_range(payload, 0, payload.len());
        assert(copy@ =~= payload@);
        if tag == TAG_ICCP {
            self.model.iccp = Some(copy);
        } else if tag == TAG_EXIF {
            self.model.exif = Some(copy);
        } else if tag == TAG_XMP {
            self.model.xmp = Some(copy);
        } else if crate::mux::reserved_tag(tag) {
            return Err(WebpError::InvalidArgument);
        } else {
            let ghost before = self@.unknown;
            let c = Chunk { tag, payload: copy };
            let ghost cv = c@;
            match find_unknown(&self.model, tag) {
                Some(i) => {
                    self.model.unknown.set(i, c);
                    assert(self@.unknown =~= before.update(i as int, cv));
                },
                None => {
                    self.model.unknown.push(c);
                    assert(self@.unknown =~= before.push(cv));
                },
            }
        }
        Ok(())
    }

    /// The payload of the chunk with the given tag.
    ///
    /// A tag under which the model holds nothing is not found; that is so
    /// for every tag of a chunk that is written from the model itself.
    pub fn get_chunk(&self, tag: u32) -> (r: Result<&[u8], WebpError>)
        ensures
            r.is_ok() <==> chunk_of(self@, tag) is Some,
            r matches Ok(p) ==> Some(p@) == chunk_of(self@, tag),
            r matches Err(e) ==> e == WebpError::NotFound,
    {
        let slot = if tag == TAG_ICCP {
            &self.model.iccp
        } else if tag == TAG_EXIF {
            &self.model.exif
        } else if tag == TAG_XMP {
            &self.model.xmp
        } else if crate::mux::reserved_tag(tag) {
            return Err(WebpError::NotFound);
        } else {
            return match find_unknown(&self.model, tag) {
                Some(i) => {
                    assert(self.model.unknown@[i as int]@ == self@.unknown[i as int]);
                    Ok(self.model.unknown[i].payload.as_slice())
                },
                None => Err(WebpError::NotFound),
            };
        };
        match slot {
            Some(p) => Ok(p.as_slice()),
            None => Err(WebpError::NotFound),
        }
    }

    /// Deletes the chunk with the given tag.
    ///
    /// A tag under which the model holds nothing is not found, and the model
    /// stays as it is; that is so for every tag of a chunk that is written
    /// from the model itself.
    pub fn delete_chunk(&mut self, tag: u32) -> (r: Result<(), WebpError>)
        ensures
            r.is_ok() <==> chunk_of(old(self)@, tag) is Some,
            r.is_ok() ==> final(self)@ == without_chunk(old(self)@, tag),
            r matches Err(e) ==> final(self)@ == old(self)@ && e == WebpError::NotFound,
    {
        if tag == TAG_ICCP {
            if self.model.iccp.is_none() {
                return Err(WebpError::NotFound);
            }
            self.model.iccp = None;
        } else if tag == TAG_EXIF {
            if self.model.exif.is_none() {
                return Err(WebpError::NotFound);
            }
            self.model.exif = None;
        } else if tag == TAG_XMP {
            if self.model.xmp.is_none() {
                return Err(WebpError::NotFound);
            }
            self.model.xmp = None;
        } else if crate::mux::reserved_tag(tag) {
            return Err(WebpError::NotFound);
        } else {
            let ghost before = self@.unknown;
            match find_unknown(&self.model, tag) {
                Some(i) => {
                    self.model.unknown.remove(i);
                    assert(self@.unknown =~= before.remove(i as int));
                },
                None => {
                    return Err(WebpError::NotFound);
                },
            }
        }
        Ok(())
    }

    /// Writes the file that the model stands for; see `assemble`. The
    /// builder stays as it is, so writing again gives the same bytes.
    pub fn assemble(&self) -> (r: Result<Vec<u8>, WebpError>)
        ensures
            r.is_ok() <==> model_valid(self@),
            r matches Ok(bytes) ==> bytes@ == file_bytes(self@),
            r matches Err(e) ==> e == WebpError::InvalidArgument,
    {
        assemble(&self.model)
    }
}

/// What was set under a tag is what is got under it.
pub proof fn law_get_after_set(m: ModelView, tag: u32, payload: Seq<u8>)
    requires
        is_settable_tag(tag),
    ensures
        chunk_of(with_chunk(m, tag, payload), tag) == Some(payload),
{
    if !is_metadata_tag(tag) {
        let c = ChunkView { tag, payload };
        if has_tag(m.unknown, tag) {
            let i = first_with_tag(m.unknown, tag);
            let k = choose|k: int| 0 <= k < m.unknown.len() && (#[trigger] m.unknown[k]).tag == tag;
            lemma_first_exists(m.unknown, tag, k);
            let after = m.unknown.update(i, c);
            assert(is_first_with_tag(after, tag, i));
            lemma_first_with_tag(after, tag, i);
        } else {
            let after = m.unknown.push(c);
            let i = m.unknown.len() as int;
            assert(is_first_with_tag(after, tag, i));
            lemma_first_with_tag(after, tag, i);
        }
    }
}

} // verus!
