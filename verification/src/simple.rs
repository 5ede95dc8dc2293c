use vstd::prelude::*;
use crate::boxed::{WebpBox, WebpYuvBox, YuvView};
use crate::buffer::{chroma_dim, lemma_plane_rows_fit, uv_dim};
use crate::bytes::{copy_range, le32, read_le32};
use crate::checks::{check_stride, stride_ok};
use crate::chunk::RIFF_HEADER_SIZE;
use crate::decode::{
    bytes_per_pixel, features_spec, is_rgb_mode, mode_bytes_per_pixel, VP8StatusCode,
    WebPBitstreamFeatures, WebPGetFeatures, WebPIsRGBMode, WEBP_CSP_MODE,
};
use crate::error::{WebpError, WebpUnknownError};
use crate::rows::{lemma_mul_le, place_rows, write_rows};

verus! {

/// Whether a buffer holds a file to its declared end.
pub open spec fn file_complete(d: Seq<u8>) -> bool {
    d.len() >= RIFF_HEADER_SIZE && d.len() >= 8 + le32(d, 4)
}

/// The features of the still image that a buffer holds as a whole file.
///
/// Unsound headers make a malformed container. Headers that are cut short,
/// and a file that ends before its declared end, are truncated. An animation
/// is no still image: the pixel codec has nothing to decode it to.
pub open spec fn still_image(d: Seq<u8>) -> Result<WebPBitstreamFeatures, WebpError> {
    match features_spec(d) {
        Err(e) => if e == VP8StatusCode::VP8_STATUS_BITSTREAM_ERROR {
            Err(WebpError::MalformedContainer)
        } else {
            Err(WebpError::TruncatedChunk)
        },
        Ok(f) => if f.has_animation {
            Err(WebpError::BitstreamError)
        } else if !file_complete(d) {
            Err(WebpError::TruncatedChunk)
        } else {
            Ok(f)
        },
    }
}

/// Reads the features of the still image that `data` holds as a whole file.
pub fn read_still_image(data: &[u8]) -> (r: Result<WebPBitstreamFeatures, WebpError>)
    ensures
        r == still_image(data@),
        r matches Ok(f) ==> 1 <= f.width <= 0x4000 && 1 <= f.height <= 0x4000,
{
    match WebPGetFeatures(data) {
        Err(VP8StatusCode::VP8_STATUS_BITSTREAM_ERROR) => Err(WebpError::MalformedContainer),
        Err(_) => Err(WebpError::TruncatedChunk),
        Ok(f) => {
            if f.has_animation {
                Err(WebpError::BitstreamError)
            } else if data.len() < RIFF_HEADER_SIZE || (data.len() as u64) < 8 + read_le32(
                data,
                4,
            ) as u64 {
                Err(WebpError::TruncatedChunk)
            } else {
                Ok(f)
            }
        },
    }
}

/// Bytes of the pixels of an image in a packed layout, rows without gaps.
pub open spec fn packed_len(f: WebPBitstreamFeatures, mode: WEBP_CSP_MODE) -> int {
    f.width * f.height * mode_bytes_per_pixel(mode)
}

/// Bytes of the pixels of an image in a packed layout.
fn packed_size(f: WebPBitstreamFeatures, mode: WEBP_CSP_MODE) -> (n: usize)
    requires
        1 <= f.width <= 0x4000,
        1 <= f.height <= 0x4000,
    ensures
        n == packed_len(f, mode),
        n == f.height * (f.width * mode_bytes_per_pixel(mode)),
{
    let bpp = bytes_per_pixel(mode);
    proof {
        lemma_mul_le(f.width as int, 0x4000, f.height as int);
        lemma_mul_le(f.height as int, 0x4000, 0x4000);
        lemma_mul_le(f.width * f.height, 0x1000_0000int, bpp as int);
        assert(f.width * f.height * bpp == f.height * (f.width * bpp)) by (nonlinear_arith);
    }
    f.width as usize * f.height as usize * bpp as usize
}

/// Takes the pixels that the pixel codec decoded from a file to a packed
/// layout, and hands them out with the width and the height of the image.
///
/// `data` must hold a whole file with one still image, `mode` must be a
/// packed layout, and `pixels` must hold exactly the pixels of the image,
/// row after row without gaps.
pub fn decode_packed(data: &[u8], mode: WEBP_CSP_MODE, pixels: &[u8]) -> (r: Result<
    (u32, u32, WebpBox<u8>),
    WebpUnknownError,
>)
    ensures
        r.is_ok() <==> is_rgb_mode(mode) && still_image(data@).is_ok() && pixels@.len()
            == packed_len(still_image(data@)->Ok_0, mode),
        r matches Ok(got) ==> {
            &&& got.0 == still_image(data@)->Ok_0.width
            &&& got.1 == still_image(data@)->Ok_0.height
            &&& got.2@ == pixels@
        },
{
    if !WebPIsRGBMode(mode) {
        return Err(WebpUnknownError);
    }
    let f = match read_still_image(data) {
        Ok(f) => f,
        Err(_) => {
            return Err(WebpUnknownError);
        },
    };
    if pixels.len() != packed_size(f, mode) {
        return Err(WebpUnknownError);
    }
    let copy = copy_range(pixels, 0, pixels.len());
    assert(copy@ =~= pixels@);
    Ok((f.width, f.height, WebpBox::from_raw(copy)))
}

/// The decoded image in layout RGBA: width, height and pixels.
#[allow(non_snake_case)]
pub fn WebPDecodeRGBA(data: &[u8], pixels: &[u8]) -> (r: Result<
    (u32, u32, WebpBox<u8>),
    WebpUnknownError,
>)
    ensures
        r.is_ok() <==> still_image(data@).is_ok() && pixels@.len() == packed_len(
            still_image(data@)->Ok_0,
            WEBP_CSP_MODE::MODE_RGBA,
        ),
        r matches Ok(got) ==> {
            &&& got.0 == still_image(data@)->Ok_0.width
            &&& got.1 == still_image(data@)->Ok_0.height
            &&& got.2@ == pixels@
            &&& got.2@.len() == got.0 * got.1 * 4
        },
{
    decode_packed(data, WEBP_CSP_MODE::MODE_RGBA, pixels)
}

/// The decoded image in layout ARGB: width, height and pixels.
#[allow(non_snake_case)]
pub fn WebPDecodeARGB(data: &[u8], pixels: &[u8]) -> (r: Result<
    (u32, u32, WebpBox<u8>),
    WebpUnknownError,
>)
    ensures
        r.is_ok() <==> still_image(data@).is_ok() && pixels@.len() == packed_len(
            still_image(data@)->Ok_0,
            WEBP_CSP_MODE::MODE_ARGB,
        ),
        r matches Ok(got) ==> {
            &&& got.0 == still_image(data@)->Ok_0.width
            &&& got.1 == still_image(data@)->Ok_0.height
            &&& got.2@ == pixels@
            &&& got.2@.len() == got.0 * got.1 * 4
        },
{
    decode_packed(data, WEBP_CSP_MODE::MODE_ARGB, pixels)
}

/// The decoded image in layout BGRA: width, height and pixels.
#[allow(non_snake_case)]
pub fn WebPDecodeBGRA(data: &[u8], pixels: &[u8]) -> (r: Result<
    (u32, u32, WebpBox<u8>),
    WebpUnknownError,
>)
    ensures
        r.is_ok() <==> still_image(data@).is_ok() && pixels@.len() == packed_len(
            still_image(data@)->Ok_0,
            WEBP_CSP_MODE::MODE_BGRA,
        ),
        r matches Ok(got) ==> {
            &&& got.0 == still_image(data@)->Ok_0.width
            &&& got.1 == still_image(data@)->Ok_0.height
            &&& got.2@ == pixels@
            &&& got.2@.len() == got.0 * got.1 * 4
        },
{
    decode_packed(data, WEBP_CSP_MODE::MODE_BGRA, pixels)
}

/// The decoded image in layout RGB: width, height and pixels.
#[allow(non_snake_case)]
pub fn WebPDecodeRGB(data: &[u8], pixels: &[u8]) -> (r: Result<
    (u32, u32, WebpBox<u8>),
    WebpUnknownError,
>)
    ensures
        r.is_ok() <==> still_image(data@).is_ok() && pixels@.len() == packed_len(
            still_image(data@)->Ok_0,
            WEBP_CSP_MODE::MODE_RGB,
        ),
        r matches Ok(got) ==> {
            &&& got.0 == still_image(data@)->Ok_0.width
            &&& got.1 == still_image(data@)->Ok_0.height
            &&& got.2@ == pixels@
            &&& got.2@.len() == got.0 * got.1 * 3
        },
{
    decode_packed(data, WEBP_CSP_MODE::MODE_RGB, pixels)
}

/// The decoded image in layout BGR: width, height and pixels.
#[allow(non_snake_case)]
pub fn WebPDecodeBGR(data: &[u8], pixels: &[u8]) -> (r: Result<
    (u32, u32, WebpBox<u8>),
    WebpUnknownError,
>)
    ensures
        r.is_ok() <==> still_image(data@).is_ok() && pixels@.len() == packed_len(
            still_image(data@)->Ok_0,
            WEBP_CSP_MODE::MODE_BGR,
        ),
        r matches Ok(got) ==> {
            &&& got.0 == still_image(data@)->Ok_0.width
            &&& got.1 == still_image(data@)->Ok_0.height
            &&& got.2@ == pixels@
            &&& got.2@.len() == got.0 * got.1 * 3
        },
{
    decode_packed(data, WEBP_CSP_MODE::MODE_BGR, pixels)
}

/// What becomes of a request to decode into a packed plane of the caller.
///
/// The file must hold one still image, else the error is that of the file.
/// The plane must be `height` rows of `stride` bytes and a row must hold the
/// pixels of one row of the image, else the argument is invalid. The pixels
/// that the codec decoded must be those of the whole image, else the file
/// and the codec disagree.
pub open spec fn packed_into_outcome(
    d: Seq<u8>,
    mode: WEBP_CSP_MODE,
    len: int,
    stride: int,
    pixels: int,
) -> Result<WebPBitstreamFeatures, WebpError> {
    match still_image(d) {
        Err(e) => Err(e),
        Ok(f) => if !is_rgb_mode(mode) || !stride_ok(
            len,
            f.width as int,
            f.height as int,
            stride,
            mode_bytes_per_pixel(mode),
        ) {
            Err(WebpError::InvalidArgument)
        } else if pixels != packed_len(f, mode) {
            Err(WebpError::BitstreamError)
        } else {
            Ok(f)
        },
    }
}

/// Writes the pixels that the pixel codec decoded from a file into a packed
/// plane of the caller, row by row, `output_stride` bytes apart.
///
/// Only the bytes of the pixels change: what lies between the end of a row's
/// pixels and the start of the next row stays as it was. On any error the
/// plane is not touched at all.
pub fn decode_packed_into(
    data: &[u8],
    mode: WEBP_CSP_MODE,
    output_buffer: &mut [u8],
    output_stride: u32,
    pixels: &[u8],
) -> (r: Result<(), WebpError>)
    ensures
        match packed_into_outcome(
            data@,
            mode,
            old(output_buffer)@.len() as int,
            output_stride as int,
            pixels@.len() as int,
        ) {
            Ok(f) => r.is_ok() && final(output_buffer)@ == place_rows(
                old(output_buffer)@,
                output_stride as int,
                f.width * mode_bytes_per_pixel(mode),
                0,
                pixels@,
                f.height as int,
            ),
            Err(e) => r == Err::<(), WebpError>(e) && final(output_buffer)@ == old(output_buffer)@,
        },
        final(output_buffer)@.len() == old(output_buffer)@.len(),
{
    let f = match read_still_image(data) {
        Ok(f) => f,
        Err(e) => {
            return Err(e);
        },
    };
    if !WebPIsRGBMode(mode) {
        return Err(WebpError::InvalidArgument);
    }
    let bpp = bytes_per_pixel(mode);
    match check_stride(output_buffer.len(), f.width, f.height, output_stride, bpp) {
        Ok(()) => {},
        Err(e) => {
            return Err(e);
        },
    }
    if pixels.len() != packed_size(f, mode) {
        return Err(WebpError::BitstreamError);
    }
    proof {
        lemma_plane_rows_fit(
            output_buffer@.len() as int,
            f.width as int,
            f.height as int,
            output_stride as int,
            bpp as int,
            0,
            f.height as int,
        );
        lemma_mul_le(f.width as int, 0x4000, bpp as int);
    }
    write_rows(
        output_buffer,
        output_stride as usize,
        (f.width * bpp) as usize,
        0,
        pixels,
        f.height as usize,
    );
    Ok(())
}

/// Writes the decoded image into the caller's plane in layout RGBA; see
/// `decode_packed_into`.
#[allow(non_snake_case)]
pub fn WebPDecodeRGBAInto(
    data: &[u8],
    output_buffer: &mut [u8],
    output_stride: u32,
    pixels: &[u8],
) -> (r: Result<(), WebpError>)
    ensures
        match packed_into_outcome(
            data@,
            WEBP_CSP_MODE::MODE_RGBA,
            old(output_buffer)@.len() as int,
            output_stride as int,
            pixels@.len() as int,
        ) {
            Ok(f) => r.is_ok() && final(output_buffer)@ == place_rows(
                old(output_buffer)@,
                output_stride as int,
                f.width * mode_bytes_per_pixel(WEBP_CSP_MODE::MODE_RGBA),
                0,
                pixels@,
                f.height as int,
            ),
            Err(e) => r == Err::<(), WebpError>(e) && final(output_buffer)@ == old(output_buffer)@,
        },
        final(output_buffer)@.len() == old(output_buffer)@.len(),
{
    decode_packed_into(data, WEBP_CSP_MODE::MODE_RGBA, output_buffer, output_stride, pixels)
}

/// Writes the decoded image into the caller's plane in layout ARGB; see
/// `decode_packed_into`.
#[allow(non_snake_case)]
pub fn WebPDecodeARGBInto(
    data: &[u8],
    output_buffer: &mut [u8],
    output_stride: u32,
    pixels: &[u8],
) -> (r: Result<(), WebpError>)
    ensures
        match packed_into_outcome(
            data@,
            WEBP_CSP_MODE::MODE_ARGB,
            old(output_buffer)@.len() as int,
            output_stride as int,
            pixels@.len() as int,
        ) {
            Ok(f) => r.is_ok() && final(output_buffer)@ == place_rows(
                old(output_buffer)@,
                output_stride as int,
                f.width * mode_bytes_per_pixel(WEBP_CSP_MODE::MODE_ARGB),
                0,
                pixels@,
                f.height as int,
            ),
            Err(e) => r == Err::<(), WebpError>(e) && final(output_buffer)@ == old(output_buffer)@,
        },
        final(output_buffer)@.len() == old(output_buffer)@.len(),
{
    decode_packed_into(data, WEBP_CSP_MODE::MODE_ARGB, output_buffer, output_stride, pixels)
}

/// Writes the decoded image into the caller's plane in layout BGRA; see
/// `decode_packed_into`.
#[allow(non_snake_case)]
pub fn WebPDecodeBGRAInto(
    data: &[u8],
    output_buffer: &mut [u8],
    output_stride: u32,
    pixels: &[u8],
) -> (r: Result<(), WebpError>)
    ensures
        match packed_into_outcome(
            data@,
            WEBP_CSP_MODE::MODE_BGRA,
            old(output_buffer)@.len() as int,
            output_stride as int,
            pixels@.len() as int,
        ) {
            Ok(f) => r.is_ok() && final(output_buffer)@ == place_rows(
                old(output_buffer)@,
                output_stride as int,
                f.width * mode_bytes_per_pixel(WEBP_CSP_MODE::MODE_BGRA),
                0,
                pixels@,
                f.height as int,
            ),
            Err(e) => r == Err::<(), WebpError>(e) && final(output_buffer)@ == old(output_buffer)@,
        },
        final(output_buffer)@.len() == old(output_buffer)@.len(),
{
    decode_packed_into(data, WEBP_CSP_MODE::MODE_BGRA, output_buffer, output_stride, pixels)
}

/// Writes the decoded image into the caller's plane in layout RGB; see
/// `decode_packed_into`.
#[allow(non_snake_case)]
pub fn WebPDecodeRGBInto(
    data: &[u8],
    output_buffer: &mut [u8],
    output_stride: u32,
    pixels: &[u8],
) -> (r: Result<(), WebpError>)
    ensures
        match packed_into_outcome(
            data@,
            WEBP_CSP_MODE::MODE_RGB,
            old(output_buffer)@.len() as int,
            output_stride as int,
            pixels@.len() as int,
        ) {
            Ok(f) => r.is_ok() && final(output_buffer)@ == place_rows(
                old(output_buffer)@,
                output_stride as int,
                f.width * mode_bytes_per_pixel(WEBP_CSP_MODE::MODE_RGB),
                0,
                pixels@,
                f.height as int,
            ),
            Err(e) => r == Err::<(), WebpError>(e) && final(output_buffer)@ == old(output_buffer)@,
        },
        final(output_buffer)@.len() == old(output_buffer)@.len(),
{
    decode_packed_into(data, WEBP_CSP_MODE::MODE_RGB, output_buffer, output_stride, pixels)
}

/// Writes the decoded image into the caller's plane in layout BGR; see
/// `decode_packed_into`.
#[allow(non_snake_case)]
pub fn WebPDecodeBGRInto(
    data: &[u8],
    output_buffer: &mut [u8],
    output_stride: u32,
    pixels: &[u8],
) -> (r: Result<(), WebpError>)
    ensures
        match packed_into_outcome(
            data@,
            WEBP_CSP_MODE::MODE_BGR,
            old(output_buffer)@.len() as int,
            output_stride as int,
            pixels@.len() as int,
        ) {
            Ok(f) => r.is_ok() && final(output_buffer)@ == place_rows(
                old(output_buffer)@,
                output_stride as int,
                f.width * mode_bytes_per_pixel(WEBP_CSP_MODE::MODE_BGR),
                0,
                pixels@,
                f.height as int,
            ),
            Err(e) => r == Err::<(), WebpError>(e) && final(output_buffer)@ == old(output_buffer)@,
        },
        final(output_buffer)@.len() == old(output_buffer)@.len(),
{
    decode_packed_into(data, WEBP_CSP_MODE::MODE_BGR, output_buffer, output_stride, pixels)
}

/// Whether three planes hold exactly the samples of a planar image, rows
/// without gaps: luma at full size, chroma at half size, rounded up.
pub open spec fn yuv_planes_sized(f: WebPBitstreamFeatures, y: int, u: int, v: int) -> bool {
    &&& y == f.width * f.height
    &&& u == uv_dim(f.width as int) * uv_dim(f.height as int)
    &&& v == u
}

/// Checks the sizes of the three planes of a decoded planar image.
fn check_yuv_planes(f: WebPBitstreamFeatures, y: usize, u: usize, v: usize) -> (b: bool)
    requires
        1 <= f.width <= 0x4000,
        1 <= f.height <= 0x4000,
    ensures
        b == yuv_planes_sized(f, y as int, u as int, v as int),
        b ==> y == f.height * (f.width * 1) && u == uv_dim(f.height as int) * (uv_dim(
            f.width as int,
        ) * 1),
{
    let uv_width = chroma_dim(f.width);
    let uv_height = chroma_dim(f.height);
    proof {
        lemma_mul_le(f.width as int, 0x4000, f.height as int);
        lemma_mul_le(f.height as int, 0x4000, 0x4000);
        lemma_mul_le(uv_width as int, 0x4000, uv_height as int);
        lemma_mul_le(uv_height as int, 0x4000, 0x4000);
        assert(f.width * f.height == f.height * (f.width * 1)) by (nonlinear_arith);
        assert(uv_width * uv_height == uv_height * (uv_width * 1)) by (nonlinear_arith);
    }
    y == f.width as usize * f.height as usize && u == uv_width as usize * uv_height as usize && v
        == u
}

/// Takes the three planes that the pixel codec decoded from a file, and
/// hands them out with the width and the height of the image and with the
/// distances between the rows of luma and of chroma, which are the widths of
/// the planes.
///
/// `data` must hold a whole file with one still image, and the planes must
/// hold exactly the samples of the image, rows without gaps.
#[allow(non_snake_case)]
pub fn WebPDecodeYUV(data: &[u8], y: &[u8], u: &[u8], v: &[u8]) -> (r: Result<
    (u32, u32, u32, u32, WebpYuvBox),
    WebpUnknownError,
>)
    ensures
        r.is_ok() <==> still_image(data@).is_ok() && yuv_planes_sized(
            still_image(data@)->Ok_0,
            y@.len() as int,
            u@.len() as int,
            v@.len() as int,
        ),
        r matches Ok(got) ==> {
            &&& got.0 == still_image(data@)->Ok_0.width
            &&& got.1 == still_image(data@)->Ok_0.height
            &&& got.2 == got.0
            &&& got.3 == uv_dim(got.0 as int)
            &&& got.4@ == (YuvView { y: y@, u: u@, v: v@ })
        },
{
    let f = match read_still_image(data) {
        Ok(f) => f,
        Err(_) => {
            return Err(WebpUnknownError);
        },
    };
    if !check_yuv_planes(f, y.len(), u.len(), v.len()) {
        return Err(WebpUnknownError);
    }
    let yc = copy_range(y, 0, y.len());
    let uc = copy_range(u, 0, u.len());
    let vc = copy_range(v, 0, v.len());
    assert(yc@ =~= y@ && uc@ =~= u@ && vc@ =~= v@);
    Ok((f.width, f.height, f.width, chroma_dim(f.width), WebpYuvBox::from_raw_parts(yc, uc, vc)))
}

/// What becomes of a request to decode into three planes of the caller.
///
/// The file must hold one still image, else the error is that of the file.
/// Every plane must be as many rows as its part of the image has, each of
/// its stride, with room for the samples of one row, else the argument is
/// invalid. The planes that the codec decoded must be those of the whole
/// image, else the file and the codec disagree.
pub open spec fn yuv_into_outcome(
    d: Seq<u8>,
    luma: int,
    luma_stride: int,
    u: int,
    u_stride: int,
    v: int,
    v_stride: int,
    y_px: int,
    u_px: int,
    v_px: int,
) -> Result<WebPBitstreamFeatures, WebpError> {
    match still_image(d) {
        Err(e) => Err(e),
        Ok(f) => {
            let uv_width = uv_dim(f.width as int);
            let uv_height = uv_dim(f.height as int);
            if !stride_ok(luma, f.width as int, f.height as int, luma_stride, 1) || !stride_ok(
                u,
                uv_width,
                uv_height,
                u_stride,
                1,
            ) || !stride_ok(v, uv_width, uv_height, v_stride, 1) {
                Err(WebpError::InvalidArgument)
            } else if !yuv_planes_sized(f, y_px, u_px, v_px) {
                Err(WebpError::BitstreamError)
            } else {
                Ok(f)
            }
        },
    }
}

/// Writes the three planes that the pixel codec decoded from a file into
/// planes of the caller, row by row, each plane with its own distance
/// between rows.
///
/// Only the bytes of the samples change. On any error no plane is touched.
#[allow(non_snake_case)]
pub fn WebPDecodeYUVInto(
    data: &[u8],
    luma: &mut [u8],
    luma_stride: u32,
    u: &mut [u8],
    u_stride: u32,
    v: &mut [u8],
    v_stride: u32,
    y_pixels: &[u8],
    u_pixels: &[u8],
    v_pixels: &[u8],
) -> (r: Result<(), WebpError>)
    ensures
        match yuv_into_outcome(
            data@,
            old(luma)@.len() as int,
            luma_stride as int,
            old(u)@.len() as int,
            u_stride as int,
            old(v)@.len() as int,
            v_stride as int,
            y_pixels@.len() as int,
            u_pixels@.len() as int,
            v_pixels@.len() as int,
        ) {
            Ok(f) => {
                &&& r.is_ok()
                &&& final(luma)@ == place_rows(
                    old(luma)@,
                    luma_stride as int,
                    f.width as int * 1,
                    0,
                    y_pixels@,
                    f.height as int,
                )
                &&& final(u)@ == place_rows(
                    old(u)@,
                    u_stride as int,
                    uv_dim(f.width as int) * 1,
                    0,
                    u_pixels@,
                    uv_dim(f.height as int),
                )
                &&& final(v)@ == place_rows(
                    old(v)@,
                    v_stride as int,
                    uv_dim(f.width as int) * 1,
                    0,
                    v_pixels@,
                    uv_dim(f.height as int),
                )
            },
            Err(e) => {
                &&& r == Err::<(), WebpError>(e)
                &&& final(luma)@ == old(luma)@
                &&& final(u)@ == old(u)@
                &&& final(v)@ == old(v)@
            },
        },
{
    let f = match read_still_image(data) {
        Ok(f) => f,
        Err(e) => {
            return Err(e);
        },
    };
    let uv_width = chroma_dim(f.width);
    let uv_height = chroma_dim(f.height);
    if check_stride(luma.len(), f.width, f.height, luma_stride, 1).is_err() || check_stride(
        u.len(),
        uv_width,
        uv_height,
        u_stride,
        1,
    ).is_err() || check_stride(v.len(), uv_width, uv_height, v_stride, 1).is_err() {
        return Err(WebpError::InvalidArgument);
    }
    if !check_yuv_planes(f, y_pixels.len(), u_pixels.len(), v_pixels.len()) {
        return Err(WebpError::BitstreamError);
    }
    proof {
        lemma_plane_rows_fit(
            luma@.len() as int,
            f.width as int,
            f.height as int,
            luma_stride as int,
            1,
            0,
            f.height as int,
        );
        lemma_plane_rows_fit(
            u@.len() as int,
            uv_width as int,
            uv_height as int,
            u_stride as int,
            1,
            0,
            uv_height as int,
        );
        lemma_plane_rows_fit(
            v@.len() as int,
            uv_width as int,
            uv_height as int,
            v_stride as int,
            1,
            0,
            uv_height as int,
        );
    }
    write_rows(luma, luma_stride as usize, f.width as usize, 0, y_pixels, f.height as usize);
    write_rows(u, u_stride as usize, uv_width as usize, 0, u_pixels, uv_height as usize);
    write_rows(v, v_stride as usize, uv_width as usize, 0, v_pixels, uv_height as usize);
    Ok(())
}

} // verus!
