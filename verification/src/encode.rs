use vstd::prelude::*;
use crate::bitstream::{bitstream_info, get_bitstream_info};
use crate::boxed::WebpBox;
use crate::bytes::copy_range;
use crate::checks::{check_stride, stride_ok};
use crate::container::{
    empty_model, file_bytes, frame_height, frame_width, is_still, model_valid, ModelView,
    WebPChunkId, WebPMuxAnimBlend, WebPMuxAnimDispose, WebPMuxFrameInfo,
};
use crate::demux::{demux_bytes, demux_spec, new_model, still_frame, WebPDemuxState};
use crate::error::WebpError;
use crate::mux::assemble;

verus! {

/// The model of a file that holds one still image and nothing else.
pub open spec fn still_model(bitstream: Seq<u8>) -> ModelView {
    ModelView { frames: seq![still_frame(bitstream, None)], ..empty_model() }
}

/// Whether a picture can be handed to a pixel codec: its buffer holds
/// exactly `height` rows of `stride` bytes, a row holds `width` pixels of
/// `bpp` bytes, and the three numbers fit a signed 32-bit integer.
pub open spec fn picture_ok(len: int, width: int, height: int, stride: int, bpp: int) -> bool {
    &&& stride_ok(len, width, height, stride, bpp)
    &&& width <= i32::MAX
    &&& height <= i32::MAX
    &&& stride <= i32::MAX
}

/// Checks a picture before it is handed to a pixel codec.
pub fn check_picture(len: usize, width: u32, height: u32, stride: u32, bpp: u32) -> (r: Result<
    (),
    WebpError,
>)
    ensures
        r.is_ok() <==> picture_ok(len as int, width as int, height as int, stride as int, bpp as int),
        r matches Err(e) ==> e == WebpError::InvalidArgument,
{
    match check_stride(len, width, height, stride, bpp) {
        Ok(()) => {},
        Err(e) => {
            return Err(e);
        },
    }
    if width > 0x7fff_ffff || height > 0x7fff_ffff || stride > 0x7fff_ffff {
        return Err(WebpError::InvalidArgument);
    }
    Ok(())
}

/// What becomes of a picture and the payload that a pixel codec made of it.
///
/// A picture that cannot be handed to a codec is an invalid argument. A
/// payload whose header is unsound, or gives another size than the
/// picture's, is a bitstream error. A payload too long for a file is an
/// invalid argument. Else the outcome is the file that holds the payload as
/// its one still image.
pub open spec fn encode_outcome(
    len: int,
    width: int,
    height: int,
    stride: int,
    bpp: int,
    bitstream: Seq<u8>,
) -> Result<Seq<u8>, WebpError> {
    if !picture_ok(len, width, height, stride, bpp) {
        Err(WebpError::InvalidArgument)
    } else {
        match bitstream_info(bitstream) {
            None => Err(WebpError::BitstreamError),
            Some(i) => if i.width != width || i.height != height {
                Err(WebpError::BitstreamError)
            } else if !model_valid(still_model(bitstream)) {
                Err(WebpError::InvalidArgument)
            } else {
                Ok(file_bytes(still_model(bitstream)))
            },
        }
    }
}

/// The view of an encoded file that may be missing.
pub open spec fn encoded_view(r: Result<WebpBox<u8>, WebpError>) -> Result<Seq<u8>, WebpError> {
    match r {
        Ok(b) => Ok(b@),
        Err(e) => Err(e),
    }
}

/// Makes a file of a picture and the bare image payload that a pixel codec
/// made of it.
///
/// `len` is the size of the picture's buffer, `bpp` the bytes of one pixel.
pub fn encode_packed(
    len: usize,
    width: u32,
    height: u32,
    stride: u32,
    bpp: u32,
    bitstream: &[u8],
) -> (r: Result<WebpBox<u8>, WebpError>)
    ensures
        encoded_view(r) == encode_outcome(
            len as int,
            width as int,
            height as int,
            stride as int,
            bpp as int,
            bitstream@,
        ),
{
    match check_picture(len, width, height, stride, bpp) {
        Ok(()) => {},
        Err(e) => {
            return Err(e);
        },
    }
    match get_bitstream_info(bitstream) {
        None => {
            return Err(WebpError::BitstreamError);
        },
        Some(i) => {
            if i.width != width || i.height != height {
                return Err(WebpError::BitstreamError);
            }
        },
    }
    let mut model = new_model();
    let payload = copy_range(bitstream, 0, bitstream.len());
    assert(payload@ =~= bitstream@);
    model.frames.push(
        WebPMuxFrameInfo {
            bitstream: payload,
            alpha: None,
            x_offset: 0,
            y_offset: 0,
            duration: 0,
            id: WebPChunkId::WEBP_CHUNK_IMAGE,
            dispose_method: WebPMuxAnimDispose::WEBP_MUX_DISPOSE_NONE,
            blend_method: WebPMuxAnimBlend::WEBP_MUX_BLEND,
        },
    );
    assert(model@.frames =~= still_model(bitstream@).frames);
    assert(model@.unknown =~= still_model(bitstream@).unknown);
    assert(model@ == still_model(bitstream@));
    match assemble(&model) {
        Ok(bytes) => Ok(WebpBox::from_raw(bytes)),
        Err(e) => Err(e),
    }
}

/// What becomes of a picture and the file that a pixel codec made of it.
///
/// A picture that cannot be handed to a codec is an invalid argument. What
/// the codec made must parse to its end as one still image of the
/// picture's size, else it is a bitstream error. The outcome is the file
/// written anew from what was parsed, transparency and metadata included; a
/// model that cannot be written is an invalid argument.
pub open spec fn rewritten_outcome(
    len: int,
    width: int,
    height: int,
    stride: int,
    bpp: int,
    encoded: Seq<u8>,
) -> Result<Seq<u8>, WebpError> {
    let parsed = demux_spec(encoded);
    if !picture_ok(len, width, height, stride, bpp) {
        Err(WebpError::InvalidArgument)
    } else if parsed.state != WebPDemuxState::WEBP_DEMUX_DONE || !is_still(parsed.model)
        || frame_width(parsed.model.frames[0]) != width || frame_height(parsed.model.frames[0])
        != height {
        Err(WebpError::BitstreamError)
    } else if !model_valid(parsed.model) {
        Err(WebpError::InvalidArgument)
    } else {
        Ok(file_bytes(parsed.model))
    }
}

/// Checks a picture and the file that a pixel codec made of it, and writes
/// the file anew.
///
/// `len` is the size of the picture's buffer, `bpp` the bytes of one pixel.
pub fn encode_from_file(
    len: usize,
    width: u32,
    height: u32,
    stride: u32,
    bpp: u32,
    encoded: &[u8],
) -> (r: Result<WebpBox<u8>, WebpError>)
    ensures
        encoded_view(r) == rewritten_outcome(
            len as int,
            width as int,
            height as int,
            stride as int,
            bpp as int,
            encoded@,
        ),
{
    match check_picture(len, width, height, stride, bpp) {
        Ok(()) => {},
        Err(e) => {
            return Err(e);
        },
    }
    let (state, model, _) = demux_bytes(encoded);
    match state {
        WebPDemuxState::WEBP_DEMUX_DONE => {},
        _ => {
            return Err(WebpError::BitstreamError);
        },
    }
    if model.frames.len() != 1 {
        return Err(WebpError::BitstreamError);
    }
    assert(model.frames@[0]@ == model@.frames[0]);
    match model.frames[0].id {
        WebPChunkId::WEBP_CHUNK_IMAGE => {},
        _ => {
            return Err(WebpError::BitstreamError);
        },
    }
    let (w, h) = match get_bitstream_info(model.frames[0].bitstream.as_slice()) {
        Some(i) => (i.width, i.height),
        None => (0, 0),
    };
    if w != width || h != height {
        return Err(WebpError::BitstreamError);
    }
    match assemble(&model) {
        Ok(bytes) => Ok(WebpBox::from_raw(bytes)),
        Err(e) => Err(e),
    }
}

/// Makes the file of an RGB picture from what the pixel codec made of it
/// without loss; see `encode_from_file`.
#[allow(non_snake_case)]
pub fn WebPEncodeLosslessRGB(
    rgb: &[u8],
    width: u32,
    height: u32,
    stride: u32,
    encoded: &[u8],
) -> (r: Result<WebpBox<u8>, WebpError>)
    ensures
        encoded_view(r) == rewritten_outcome(
            rgb@.len() as int,
            width as int,
            height as int,
            stride as int,
            3,
            encoded@,
        ),
{
    encode_from_file(rgb.len(), width, height, stride, 3, encoded)
}

/// Makes the file of a BGR picture from what the pixel codec made of it
/// without loss; see `encode_from_file`.
#[allow(non_snake_case)]
pub fn WebPEncodeLosslessBGR(
    bgr: &[u8],
    width: u32,
    height: u32,
    stride: u32,
    encoded: &[u8],
) -> (r: Result<WebpBox<u8>, WebpError>)
    ensures
        encoded_view(r) == rewritten_outcome(
            bgr@.len() as int,
            width as int,
            height as int,
            stride as int,
            3,
            encoded@,
        ),
{
    encode_from_file(bgr.len(), width, height, stride, 3, encoded)
}

/// Makes the file of an RGBA picture from what the pixel codec made of it
/// without loss; see `encode_from_file`.
#[allow(non_snake_case)]
pub fn WebPEncodeLosslessRGBA(
    rgba: &[u8],
    width: u32,
    height: u32,
    stride: u32,
    encoded: &[u8],
) -> (r: Result<WebpBox<u8>, WebpError>)
    ensures
        encoded_view(r) == rewritten_outcome(
            rgba@.len() as int,
            width as int,
            height as int,
            stride as int,
            4,
            encoded@,
        ),
{
    encode_from_file(rgba.len(), width, height, stride, 4, encoded)
}

/// Makes the file of a BGRA picture from what the pixel codec made of it
/// without loss; see `encode_from_file`.
#[allow(non_snake_case)]
pub fn WebPEncodeLosslessBGRA(
    bgra: &[u8],
    width: u32,
    height: u32,
    stride: u32,
    encoded: &[u8],
) -> (r: Result<WebpBox<u8>, WebpError>)
    ensures
        encoded_view(r) == rewritten_outcome(
            bgra@.len() as int,
            width as int,
            height as int,
            stride as int,
            4,
            encoded@,
        ),
{
    encode_from_file(bgra.len(), width, height, stride, 4, encoded)
}

} // verus!
