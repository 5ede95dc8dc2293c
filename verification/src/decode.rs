use vstd::prelude::*;
use crate::bitstream::{
    vp8_get_info, vp8_info, vp8l_get_info, vp8l_info, VP8L_FRAME_HEADER_SIZE,
    VP8_FRAME_HEADER_SIZE,
};
use crate::bytes::{le24, le32, read_le24, read_le32};
use crate::chunk::{
    padded_len, MAX_CHUNK_PAYLOAD, RIFF_HEADER_SIZE, TAG_ALPH, TAG_RIFF, TAG_VP8, TAG_VP8L,
    TAG_VP8X, TAG_WEBP,
};
use crate::demux::header_ok;
use crate::error::{WebpError, WebpUnknownError};

verus! {

/// The pixel layouts that a decoder can write.
#[allow(non_camel_case_types)]
#[derive(Debug, Clone, Copy, PartialEq, Eq, Structural, Hash)]
pub enum WEBP_CSP_MODE {
    MODE_RGB,
    MODE_RGBA,
    MODE_BGR,
    MODE_BGRA,
    MODE_ARGB,
    MODE_RGBA_4444,
    MODE_RGB_565,
    MODE_rgbA,
    MODE_bgrA,
    MODE_Argb,
    MODE_rgbA_4444,
    MODE_YUV,
    MODE_YUVA,
    MODE_LAST,
}

/// How a decoding step ended.
#[allow(non_camel_case_types)]
#[derive(Debug, Clone, Copy, PartialEq, Eq, Structural, Hash)]
pub enum VP8StatusCode {
    VP8_STATUS_OK,
    VP8_STATUS_OUT_OF_MEMORY,
    VP8_STATUS_INVALID_PARAM,
    VP8_STATUS_BITSTREAM_ERROR,
    VP8_STATUS_UNSUPPORTED_FEATURE,
    /// More bytes are needed; this is the normal answer while data arrives.
    VP8_STATUS_SUSPENDED,
    VP8_STATUS_USER_ABORT,
    VP8_STATUS_NOT_ENOUGH_DATA,
}

/// What a status means as an outcome: success, or the kind of error.
///
/// "Suspended" and "not enough data" both ask for more bytes, the one of a
/// decoder that is running, the other of headers that are cut short. A codec
/// that meets a feature it does not support, or is stopped by its caller,
/// has given up on the payload.
pub open spec fn status_outcome(status: VP8StatusCode) -> Result<(), WebpError> {
    match status {
        VP8StatusCode::VP8_STATUS_OK => Ok(()),
        VP8StatusCode::VP8_STATUS_OUT_OF_MEMORY => Err(WebpError::OutOfMemory),
        VP8StatusCode::VP8_STATUS_INVALID_PARAM => Err(WebpError::InvalidArgument),
        VP8StatusCode::VP8_STATUS_BITSTREAM_ERROR => Err(WebpError::BitstreamError),
        VP8StatusCode::VP8_STATUS_UNSUPPORTED_FEATURE => Err(WebpError::BitstreamError),
        VP8StatusCode::VP8_STATUS_SUSPENDED => Err(WebpError::Suspended),
        VP8StatusCode::VP8_STATUS_USER_ABORT => Err(WebpError::BitstreamError),
        VP8StatusCode::VP8_STATUS_NOT_ENOUGH_DATA => Err(WebpError::TruncatedChunk),
    }
}

impl VP8StatusCode {
    /// This status as an outcome: success, or the kind of error.
    pub fn into_result(self) -> (r: Result<(), WebpError>)
        ensures
            r == status_outcome(self),
    {
        match self {
            VP8StatusCode::VP8_STATUS_OK => Ok(()),
            VP8StatusCode::VP8_STATUS_OUT_OF_MEMORY => Err(WebpError::OutOfMemory),
            VP8StatusCode::VP8_STATUS_INVALID_PARAM => Err(WebpError::InvalidArgument),
            VP8StatusCode::VP8_STATUS_BITSTREAM_ERROR => Err(WebpError::BitstreamError),
            VP8StatusCode::VP8_STATUS_UNSUPPORTED_FEATURE => Err(WebpError::BitstreamError),
            VP8StatusCode::VP8_STATUS_SUSPENDED => Err(WebpError::Suspended),
            VP8StatusCode::VP8_STATUS_USER_ABORT => Err(WebpError::BitstreamError),
            VP8StatusCode::VP8_STATUS_NOT_ENOUGH_DATA => Err(WebpError::TruncatedChunk),
        }
    }
}

/// The place of a layout in the list of layouts, counted from zero.
pub open spec fn mode_ordinal(mode: WEBP_CSP_MODE) -> int {
    match mode {
        WEBP_CSP_MODE::MODE_RGB => 0,
        WEBP_CSP_MODE::MODE_RGBA => 1,
        WEBP_CSP_MODE::MODE_BGR => 2,
        WEBP_CSP_MODE::MODE_BGRA => 3,
        WEBP_CSP_MODE::MODE_ARGB => 4,
        WEBP_CSP_MODE::MODE_RGBA_4444 => 5,
        WEBP_CSP_MODE::MODE_RGB_565 => 6,
        WEBP_CSP_MODE::MODE_rgbA => 7,
        WEBP_CSP_MODE::MODE_bgrA => 8,
        WEBP_CSP_MODE::MODE_Argb => 9,
        WEBP_CSP_MODE::MODE_rgbA_4444 => 10,
        WEBP_CSP_MODE::MODE_YUV => 11,
        WEBP_CSP_MODE::MODE_YUVA => 12,
        WEBP_CSP_MODE::MODE_LAST => 13,
    }
}

/// Whether the colour channels of a layout are multiplied by alpha.
pub open spec fn is_premultiplied_mode(mode: WEBP_CSP_MODE) -> bool {
    mode == WEBP_CSP_MODE::MODE_rgbA || mode == WEBP_CSP_MODE::MODE_bgrA || mode
        == WEBP_CSP_MODE::MODE_Argb || mode == WEBP_CSP_MODE::MODE_rgbA_4444
}

/// Whether a layout carries an alpha channel.
pub open spec fn is_alpha_mode(mode: WEBP_CSP_MODE) -> bool {
    mode == WEBP_CSP_MODE::MODE_RGBA || mode == WEBP_CSP_MODE::MODE_BGRA || mode
        == WEBP_CSP_MODE::MODE_ARGB || mode == WEBP_CSP_MODE::MODE_RGBA_4444 || mode
        == WEBP_CSP_MODE::MODE_YUVA || is_premultiplied_mode(mode)
}

/// Whether a layout is packed: every layout listed before the planar ones.
pub open spec fn is_rgb_mode(mode: WEBP_CSP_MODE) -> bool {
    mode_ordinal(mode) < mode_ordinal(WEBP_CSP_MODE::MODE_YUV)
}

/// Bytes of one pixel in a packed layout; for a planar layout, bytes of one
/// sample of the luma plane.
pub open spec fn mode_bytes_per_pixel(mode: WEBP_CSP_MODE) -> int {
    match mode {
        WEBP_CSP_MODE::MODE_RGB | WEBP_CSP_MODE::MODE_BGR => 3,
        WEBP_CSP_MODE::MODE_RGBA
        | WEBP_CSP_MODE::MODE_BGRA
        | WEBP_CSP_MODE::MODE_ARGB
        | WEBP_CSP_MODE::MODE_rgbA
        | WEBP_CSP_MODE::MODE_bgrA
        | WEBP_CSP_MODE::MODE_Argb => 4,
        WEBP_CSP_MODE::MODE_RGBA_4444
        | WEBP_CSP_MODE::MODE_RGB_565
        | WEBP_CSP_MODE::MODE_rgbA_4444 => 2,
        WEBP_CSP_MODE::MODE_YUV | WEBP_CSP_MODE::MODE_YUVA | WEBP_CSP_MODE::MODE_LAST => 1,
    }
}

/// Whether the colour channels of a layout are multiplied by alpha.
#[allow(non_snake_case)]
pub fn WebPIsPremultipliedMode(mode: WEBP_CSP_MODE) -> (b: bool)
    ensures
        b == is_premultiplied_mode(mode),
{
    match mode {
        WEBP_CSP_MODE::MODE_rgbA
        | WEBP_CSP_MODE::MODE_bgrA
        | WEBP_CSP_MODE::MODE_Argb
        | WEBP_CSP_MODE::MODE_rgbA_4444 => true,
        _ => false,
    }
}

/// Whether a layout carries an alpha channel.
#[allow(non_snake_case)]
pub fn WebPIsAlphaMode(mode: WEBP_CSP_MODE) -> (b: bool)
    ensures
        b == is_alpha_mode(mode),
{
    match mode {
        WEBP_CSP_MODE::MODE_RGBA
        | WEBP_CSP_MODE::MODE_BGRA
        | WEBP_CSP_MODE::MODE_ARGB
        | WEBP_CSP_MODE::MODE_RGBA_4444
        | WEBP_CSP_MODE::MODE_YUVA => true,
        _ => WebPIsPremultipliedMode(mode),
    }
}

/// Whether a layout is packed.
#[allow(non_snake_case)]
pub fn WebPIsRGBMode(mode: WEBP_CSP_MODE) -> (b: bool)
    ensures
        b == is_rgb_mode(mode),
{
    match mode {
        WEBP_CSP_MODE::MODE_YUV | WEBP_CSP_MODE::MODE_YUVA | WEBP_CSP_MODE::MODE_LAST => false,
        _ => true,
    }
}

/// Bytes of one pixel in a packed layout; one for a planar layout.
pub fn bytes_per_pixel(mode: WEBP_CSP_MODE) -> (n: u32)
    ensures
        n == mode_bytes_per_pixel(mode),
        1 <= n <= 4,
{
    match mode {
        WEBP_CSP_MODE::MODE_RGB | WEBP_CSP_MODE::MODE_BGR => 3,
        WEBP_CSP_MODE::MODE_RGBA
        | WEBP_CSP_MODE::MODE_BGRA
        | WEBP_CSP_MODE::MODE_ARGB
        | WEBP_CSP_MODE::MODE_rgbA
        | WEBP_CSP_MODE::MODE_bgrA
        | WEBP_CSP_MODE::MODE_Argb => 4,
        WEBP_CSP_MODE::MODE_RGBA_4444
        | WEBP_CSP_MODE::MODE_RGB_565
        | WEBP_CSP_MODE::MODE_rgbA_4444 => 2,
        WEBP_CSP_MODE::MODE_YUV | WEBP_CSP_MODE::MODE_YUVA | WEBP_CSP_MODE::MODE_LAST => 1,
    }
}

/// How the pixels of an image are coded.
#[derive(Debug, Clone, Copy, PartialEq, Eq, Structural, Hash)]
pub enum WebPBitstreamFormat {
    /// Not one coding: the file is an animation.
    UNDEFINED,
    LOSSY,
    LOSSLESS,
}

/// What the headers of a file say about the image.
#[derive(Debug, Clone, Copy, PartialEq, Eq, Structural)]
pub struct WebPBitstreamFeatures {
    pub width: u32,
    pub height: u32,
    pub has_alpha: bool,
    pub has_animation: bool,
    pub format: WebPBitstreamFormat,
}

impl WebPBitstreamFeatures {
    /// Width of the image in pixels.
    pub fn width(&self) -> (w: u32)
        ensures
            w == self.width,
    {
        self.width
    }

    /// Height of the image in pixels.
    pub fn height(&self) -> (h: u32)
        ensures
            h == self.height,
    {
        self.height
    }

    /// Whether the image has transparency.
    pub fn has_alpha(&self) -> (b: bool)
        ensures
            b == self.has_alpha,
    {
        self.has_alpha
    }

    /// Whether the file is an animation.
    pub fn has_animation(&self) -> (b: bool)
        ensures
            b == self.has_animation,
    {
        self.has_animation
    }

    /// How the pixels are coded.
    pub fn format(&self) -> (f: WebPBitstreamFormat)
        ensures
            f == self.format,
    {
        self.format
    }
}

/// Whether a status is one that reading headers can end with: the bytes end
/// too early, or they are unsound.
pub open spec fn is_header_error(e: VP8StatusCode) -> bool {
    e == VP8StatusCode::VP8_STATUS_NOT_ENOUGH_DATA || e == VP8StatusCode::VP8_STATUS_BITSTREAM_ERROR
}

/// Where an image chunk sits, and whether a transparency chunk came before.
pub struct ImagePosition {
    pub pos: int,
    pub alpha_seen: bool,
}

/// Walks over the chunks from `pos` on until an image chunk, and says where
/// it is and whether a transparency chunk was passed on the way.
///
/// A chunk that cannot end within the file, or the lack of room for another
/// chunk header before the file's end, is a bitstream error. Where the
/// buffer ends before the chunk under the cursor does, more data is needed.
pub open spec fn scan_to_image(d: Seq<u8>, pos: int, riff_end: int, alpha_seen: bool) -> Result<
    ImagePosition,
    VP8StatusCode,
>
    decreases d.len() - pos,
{
    if pos + 8 > riff_end {
        Err(VP8StatusCode::VP8_STATUS_BITSTREAM_ERROR)
    } else if pos + 8 > d.len() || pos < 0 {
        Err(VP8StatusCode::VP8_STATUS_NOT_ENOUGH_DATA)
    } else if le32(d, pos) == TAG_VP8 || le32(d, pos) == TAG_VP8L {
        Ok(ImagePosition { pos, alpha_seen })
    } else if pos + 8 + padded_len(le32(d, pos + 4)) > riff_end {
        Err(VP8StatusCode::VP8_STATUS_BITSTREAM_ERROR)
    } else if pos + 8 + padded_len(le32(d, pos + 4)) > d.len() {
        Err(VP8StatusCode::VP8_STATUS_NOT_ENOUGH_DATA)
    } else {
        scan_to_image(
            d,
            pos + 8 + padded_len(le32(d, pos + 4)),
            riff_end,
            alpha_seen || le32(d, pos) == TAG_ALPH,
        )
    }
}

/// What the extended header says, as far as an image's features go.
pub struct CanvasInfo {
    pub width: int,
    pub height: int,
    pub alpha_flag: bool,
}

/// The features of the image whose chunk starts at `pos`.
///
/// The chunk must end within the file and be long enough for its header;
/// where the buffer ends before the header does, more data is needed. The
/// header must be sound, and the image must lie on the canvas where the file
/// declares one. A lossless image says itself whether it has transparency; a
/// lossy one has it where the extended header says so; either has it where a
/// transparency chunk came before.
#[verifier::opaque]
pub open spec fn image_features(
    d: Seq<u8>,
    pos: int,
    riff_end: int,
    canvas: Option<CanvasInfo>,
    alpha_seen: bool,
) -> Result<WebPBitstreamFeatures, VP8StatusCode> {
    let size = le32(d, pos + 4);
    let lossless = le32(d, pos) == TAG_VP8L;
    let header = if lossless {
        VP8L_FRAME_HEADER_SIZE as int
    } else {
        VP8_FRAME_HEADER_SIZE as int
    };
    if pos + 8 + size > riff_end || size < header {
        Err(VP8StatusCode::VP8_STATUS_BITSTREAM_ERROR)
    } else if d.len() < pos + 8 + header {
        Err(VP8StatusCode::VP8_STATUS_NOT_ENOUGH_DATA)
    } else {
        let info = if lossless {
            vp8l_info(d, pos + 8)
        } else {
            vp8_info(d, pos + 8, size)
        };
        match info {
            None => Err(VP8StatusCode::VP8_STATUS_BITSTREAM_ERROR),
            Some(i) => if canvas matches Some(c) && (i.width > c.width || i.height > c.height) {
                Err(VP8StatusCode::VP8_STATUS_BITSTREAM_ERROR)
            } else {
                Ok(
                    WebPBitstreamFeatures {
                        width: i.width,
                        height: i.height,
                        has_alpha: alpha_seen || (if lossless {
                            i.has_alpha
                        } else {
                            canvas matches Some(c) && c.alpha_flag
                        }),
                        has_animation: false,
                        format: if lossless {
                            WebPBitstreamFormat::LOSSLESS
                        } else {
                            WebPBitstreamFormat::LOSSY
                        },
                    },
                )
            },
        }
    }
}

/// What the headers say where the first chunk is the extended header.
///
/// Behind an extended header that announces an animation nothing more is
/// read: the features are the canvas and the transparency flag, and the
/// format is undefined. Behind any other extended header the chunks up to
/// the image are passed over.
pub open spec fn extended_features(d: Seq<u8>, riff_end: int) -> Result<
    WebPBitstreamFeatures,
    VP8StatusCode,
> {
    if le32(d, 16) != 10 || riff_end < 30 {
        Err(VP8StatusCode::VP8_STATUS_BITSTREAM_ERROR)
    } else if d.len() < 30 {
        Err(VP8StatusCode::VP8_STATUS_NOT_ENOUGH_DATA)
    } else {
        let canvas = CanvasInfo {
            width: le24(d, 24) + 1,
            height: le24(d, 27) + 1,
            alpha_flag: d[20] / 16 % 2 == 1,
        };
        if d[20] / 2 % 2 == 1 {
            Ok(
                WebPBitstreamFeatures {
                    width: canvas.width as u32,
                    height: canvas.height as u32,
                    has_alpha: canvas.alpha_flag,
                    has_animation: true,
                    format: WebPBitstreamFormat::UNDEFINED,
                },
            )
        } else {
            match scan_to_image(d, 30, riff_end, false) {
                Err(e) => Err(e),
                Ok(at) => image_features(d, at.pos, riff_end, Some(canvas), at.alpha_seen),
            }
        }
    }
}

/// What the headers at the start of a buffer say about the image.
///
/// Twelve bytes of file header come first: fewer are not enough data, an
/// unsound header is a bitstream error. The first chunk is the image or the
/// extended header; any other is a bitstream error.
#[verifier::opaque]
pub open spec fn features_spec(d: Seq<u8>) -> Result<WebPBitstreamFeatures, VP8StatusCode> {
    if d.len() < RIFF_HEADER_SIZE {
        Err(VP8StatusCode::VP8_STATUS_NOT_ENOUGH_DATA)
    } else if !header_ok(d) {
        Err(VP8StatusCode::VP8_STATUS_BITSTREAM_ERROR)
    } else {
        let riff_end = 8 + le32(d, 4);
        if riff_end < 20 {
            Err(VP8StatusCode::VP8_STATUS_BITSTREAM_ERROR)
        } else if d.len() < 20 {
            Err(VP8StatusCode::VP8_STATUS_NOT_ENOUGH_DATA)
        } else if le32(d, 12) == TAG_VP8X {
            extended_features(d, riff_end)
        } else if le32(d, 12) == TAG_VP8 || le32(d, 12) == TAG_VP8L {
            image_features(d, 12, riff_end, None, false)
        } else {
            Err(VP8StatusCode::VP8_STATUS_BITSTREAM_ERROR)
        }
    }
}

/// Walking over chunks ends with an image chunk or with a header error.
pub proof fn lemma_scan_errors(d: Seq<u8>, pos: int, riff_end: int, alpha_seen: bool)
    ensures
        scan_to_image(d, pos, riff_end, alpha_seen) matches Err(e) ==> is_header_error(e),
    decreases d.len() - pos,
{
    if pos + 8 <= riff_end && pos + 8 <= d.len() && pos >= 0 && !(le32(d, pos) == TAG_VP8 || le32(
        d,
        pos,
    ) == TAG_VP8L) {
        let next = pos + 8 + padded_len(le32(d, pos + 4));
        if next <= riff_end && next <= d.len() {
            lemma_scan_errors(d, next, riff_end, alpha_seen || le32(d, pos) == TAG_ALPH);
        }
    }
}

/// What reading headers can end with: an error is "not enough data" or
/// "bitstream error", and the image of a file that is no animation is
/// between one and 16384 pixels wide and high.
pub proof fn lemma_features_sound(d: Seq<u8>)
    ensures
        features_spec(d) matches Err(e) ==> is_header_error(e),
        features_spec(d) matches Ok(f) ==> f.has_animation || (1 <= f.width <= 0x4000 && 1
            <= f.height <= 0x4000),
{
    reveal(features_spec);
    reveal(image_features);
    reveal(vp8_info);
    reveal(vp8l_info);
    if d.len() >= 30 {
        lemma_scan_errors(d, 30, 8 + le32(d, 4), false);
    }
}

/// Walks over the chunks from `pos` on until an image chunk.
fn scan_chunks(data: &[u8], pos: usize, riff_end: u64) -> (r: Result<(usize, bool), VP8StatusCode>)
    requires
        pos <= data.len(),
        riff_end <= 0x1_0000_0000,
    ensures
        r matches Ok(found) ==> {
            &&& scan_to_image(data@, pos as int, riff_end as int, false) == Ok::<
                ImagePosition,
                VP8StatusCode,
            >(ImagePosition { pos: found.0 as int, alpha_seen: found.1 })
            &&& found.0 + 8 <= data@.len()
            &&& found.0 + 8 <= riff_end
        },
        r matches Err(e) ==> is_header_error(e) && scan_to_image(
            data@,
            pos as int,
            riff_end as int,
            false,
        ) == Err::<ImagePosition, VP8StatusCode>(e),
{
    let mut at: usize = pos;
    let mut alpha = false;
    loop
        invariant
            at <= data@.len(),
            riff_end <= 0x1_0000_0000,
            scan_to_image(data@, pos as int, riff_end as int, false) == scan_to_image(
                data@,
                at as int,
                riff_end as int,
                alpha,
            ),
        decreases data@.len() - at,
    {
        if riff_end < 8 || at as u64 > riff_end - 8 {
            return Err(VP8StatusCode::VP8_STATUS_BITSTREAM_ERROR);
        }
        if data.len() - at < 8 {
            return Err(VP8StatusCode::VP8_STATUS_NOT_ENOUGH_DATA);
        }
        let tag = read_le32(data, at);
        if tag == TAG_VP8 || tag == TAG_VP8L {
            return Ok((at, alpha));
        }
        let size = read_le32(data, at + 4);
        let disk: u64 = 8 + size as u64 + (size % 2) as u64;
        if at as u64 + disk > riff_end {
            return Err(VP8StatusCode::VP8_STATUS_BITSTREAM_ERROR);
        }
        if disk > (data.len() - at) as u64 {
            return Err(VP8StatusCode::VP8_STATUS_NOT_ENOUGH_DATA);
        }
        if tag == TAG_ALPH {
            alpha = true;
        }
        at = at + disk as usize;
    }
}

/// Reads the features of the image whose chunk starts at `pos`.
fn read_image_features(
    data: &[u8],
    pos: usize,
    riff_end: u64,
    canvas: Option<(u32, u32, bool)>,
    alpha_seen: bool,
) -> (r: Result<WebPBitstreamFeatures, VP8StatusCode>)
    requires
        pos + 8 <= data.len(),
        pos + 8 <= riff_end <= 0x1_0000_0000,
    ensures
        r == image_features(
            data@,
            pos as int,
            riff_end as int,
            match canvas {
                Some(c) => Some(
                    CanvasInfo { width: c.0 as int, height: c.1 as int, alpha_flag: c.2 },
                ),
                None => None,
            },
            alpha_seen,
        ),
        r matches Ok(f) ==> 1 <= f.width <= 0x4000 && 1 <= f.height <= 0x4000,
        r matches Err(e) ==> is_header_error(e),
{
    reveal(image_features);
    let size = read_le32(data, pos + 4);
    let lossless = read_le32(data, pos) == TAG_VP8L;
    let header: usize = if lossless {
        VP8L_FRAME_HEADER_SIZE
    } else {
        VP8_FRAME_HEADER_SIZE
    };
    if pos as u64 + 8 + size as u64 > riff_end || (size as u64) < header as u64 {
        return Err(VP8StatusCode::VP8_STATUS_BITSTREAM_ERROR);
    }
    if data.len() - pos - 8 < header {
        return Err(VP8StatusCode::VP8_STATUS_NOT_ENOUGH_DATA);
    }
    let info = if lossless {
        vp8l_get_info(data, pos + 8)
    } else {
        vp8_get_info(data, pos + 8, size)
    };
    let i = match info {
        Some(i) => i,
        None => {
            return Err(VP8StatusCode::VP8_STATUS_BITSTREAM_ERROR);
        },
    };
    let mut flagged = false;
    match canvas {
        Some(c) => {
            if i.width > c.0 || i.height > c.1 {
                return Err(VP8StatusCode::VP8_STATUS_BITSTREAM_ERROR);
            }
            flagged = c.2;
        },
        None => {},
    }
    Ok(
        WebPBitstreamFeatures {
            width: i.width,
            height: i.height,
            has_alpha: alpha_seen || (if lossless {
                i.has_alpha
            } else {
                flagged
            }),
            has_animation: false,
            format: if lossless {
                WebPBitstreamFormat::LOSSLESS
            } else {
                WebPBitstreamFormat::LOSSY
            },
        },
    )
}

/// Reads the features where the first chunk is the extended header.
fn read_extended_features(data: &[u8], riff_end: u64) -> (r: Result<
    WebPBitstreamFeatures,
    VP8StatusCode,
>)
    requires
        data.len() >= 20,
        20 <= riff_end <= 0x1_0000_0000,
    ensures
        r == extended_features(data@, riff_end as int),
        r matches Ok(f) ==> f.has_animation || (1 <= f.width <= 0x4000 && 1 <= f.height <= 0x4000),
        r matches Err(e) ==> is_header_error(e),
{
    if read_le32(data, 16) != 10 || riff_end < 30 {
        return Err(VP8StatusCode::VP8_STATUS_BITSTREAM_ERROR);
    }
    if data.len() < 30 {
        return Err(VP8StatusCode::VP8_STATUS_NOT_ENOUGH_DATA);
    }
    let flags = data[20];
    let width = read_le24(data, 24) + 1;
    let height = read_le24(data, 27) + 1;
    let alpha_flag = flags / 16 % 2 == 1;
    if flags / 2 % 2 == 1 {
        return Ok(
            WebPBitstreamFeatures {
                width,
                height,
                has_alpha: alpha_flag,
                has_animation: true,
                format: WebPBitstreamFormat::UNDEFINED,
            },
        );
    }
    match scan_chunks(data, 30, riff_end) {
        Err(e) => Err(e),
        Ok((pos, alpha_seen)) => read_image_features(
            data,
            pos,
            riff_end,
            Some((width, height, alpha_flag)),
            alpha_seen,
        ),
    }
}

/// Reads what the headers at the start of `data` say about the image.
///
/// The buffer may hold the whole file or only its beginning. Where it ends
/// before the headers do, the answer is `VP8_STATUS_NOT_ENOUGH_DATA`; where
/// the headers are unsound, `VP8_STATUS_BITSTREAM_ERROR`.
#[allow(non_snake_case)]
pub fn WebPGetFeatures(data: &[u8]) -> (r: Result<WebPBitstreamFeatures, VP8StatusCode>)
    ensures
        r == features_spec(data@),
        r matches Ok(f) ==> f.has_animation || (1 <= f.width <= 0x4000 && 1 <= f.height <= 0x4000),
        r matches Err(e) ==> is_header_error(e),
{
    reveal(features_spec);
    if data.len() < RIFF_HEADER_SIZE {
        return Err(VP8StatusCode::VP8_STATUS_NOT_ENOUGH_DATA);
    }
    let riff_size = read_le32(data, 4);
    if read_le32(data, 0) != TAG_RIFF || read_le32(data, 8) != TAG_WEBP || riff_size < 4
        || riff_size > MAX_CHUNK_PAYLOAD {
        return Err(VP8StatusCode::VP8_STATUS_BITSTREAM_ERROR);
    }
    let riff_end: u64 = 8 + riff_size as u64;
    if riff_end < 20 {
        return Err(VP8StatusCode::VP8_STATUS_BITSTREAM_ERROR);
    }
    if data.len() < 20 {
        return Err(VP8StatusCode::VP8_STATUS_NOT_ENOUGH_DATA);
    }
    let tag = read_le32(data, 12);
    if tag == TAG_VP8X {
        read_extended_features(data, riff_end)
    } else if tag == TAG_VP8 || tag == TAG_VP8L {
        read_image_features(data, 12, riff_end, None, false)
    } else {
        Err(VP8StatusCode::VP8_STATUS_BITSTREAM_ERROR)
    }
}

/// The width and the height that the headers at the start of `data` give,
/// or an error where they give none.
#[allow(non_snake_case)]
pub fn WebPGetInfo(data: &[u8]) -> (r: Result<(u32, u32), WebpUnknownError>)
    ensures
        r.is_ok() <==> features_spec(data@).is_ok(),
        r matches Ok(dim) ==> dim.0 == features_spec(data@)->Ok_0.width && dim.1 == features_spec(
            data@,
        )->Ok_0.height,
{
    match WebPGetFeatures(data) {
        Ok(f) => Ok((f.width, f.height)),
        Err(_) => Err(WebpUnknownError),
    }
}

} // verus!
