use libwebp::convert::Void;
use libwebp::{
    PolyfillTryFrom, PolyfillTryInto, TryFromIntError, WebPEncodeLosslessBGR,
    WebPEncodeLosslessBGRA, WebPEncodeLosslessRGB, WebPEncodeLosslessRGBA, WebpBox, WebpError,
    WebpUnknownError, WebpYuvBox,
};

#[test]
fn test_try_from_signed() {
    assert_eq!(<u32 as PolyfillTryFrom<i64>>::try_from(0), Ok(0));
    assert_eq!(<u32 as PolyfillTryFrom<i64>>::try_from(0xffff_ffff), Ok(0xffff_ffff));
    assert!(<u32 as PolyfillTryFrom<i64>>::try_from(0x1_0000_0000).is_err());
    assert!(<u32 as PolyfillTryFrom<i64>>::try_from(-1).is_err());
    assert_eq!(<u32 as PolyfillTryFrom<i32>>::try_from(i32::MAX), Ok(0x7fff_ffff));
    assert!(<u32 as PolyfillTryFrom<i32>>::try_from(-1).is_err());
    assert_eq!(<u32 as PolyfillTryFrom<i16>>::try_from(i16::MAX), Ok(0x7fff));
    assert!(<u32 as PolyfillTryFrom<i16>>::try_from(i16::MIN).is_err());
}

#[test]
fn test_try_from_unsigned() {
    let wide: Result<i64, Void> = PolyfillTryFrom::try_from(0xffff_ffffu32);
    assert_eq!(wide, Ok(0xffff_ffff));
    assert_eq!(<i32 as PolyfillTryFrom<u32>>::try_from(0x7fff_ffff), Ok(i32::MAX));
    assert!(<i32 as PolyfillTryFrom<u32>>::try_from(0x8000_0000).is_err());
    assert_eq!(<i16 as PolyfillTryFrom<u32>>::try_from(0x7fff), Ok(i16::MAX));
    assert!(<i16 as PolyfillTryFrom<u32>>::try_from(0x8000).is_err());
}

#[test]
fn test_try_into() {
    let narrow: Result<i16, TryFromIntError> = PolyfillTryInto::try_into(42u32);
    assert_eq!(narrow, Ok(42));
    let failed: Result<i32, TryFromIntError> = PolyfillTryInto::try_into(0xffff_ffffu32);
    assert!(failed.is_err());
    assert_eq!(
        failed.unwrap_err().description(),
        "out of range integral type conversion attempted"
    );
}

#[test]
fn test_error_descriptions() {
    assert_eq!(WebpUnknownError.description(), "webp library error");
    assert_eq!(WebpUnknownError::default(), WebpUnknownError);
    assert!(WebpError::TruncatedChunk.is_recoverable_by_more_data());
    assert!(WebpError::Suspended.is_recoverable_by_more_data());
    for fatal in [
        WebpError::MalformedContainer,
        WebpError::NotFound,
        WebpError::InvalidArgument,
        WebpError::BitstreamError,
        WebpError::OutOfMemory,
    ] {
        assert!(!fatal.is_recoverable_by_more_data());
    }
}

#[test]
fn test_webp_box() {
    let mut b = WebpBox::from_raw(vec![1u8, 2, 3]);
    assert_eq!(b.len(), 3);
    assert_eq!(b.as_slice(), &[1, 2, 3]);
    b.as_mut_slice()[1] = 9;
    assert_eq!(WebpBox::into_raw(b), vec![1, 9, 3]);
    assert_eq!(WebpBox::<u16>::from_raw(vec![]).len(), 0);
    assert_eq!(WebpBox::from_raw(vec![1, 2]), WebpBox::from_raw(vec![1, 2]));
    assert!(WebpBox::from_raw(vec![1, 2]) < WebpBox::from_raw(vec![1, 3]));
    assert!(WebpBox::from_raw(vec![1, 2]) < WebpBox::from_raw(vec![1, 2, 0]));
}

#[test]
fn test_webp_yuv_box() {
    let mut yuv = WebpYuvBox::from_raw_parts(vec![1, 2], vec![3], vec![4]);
    assert_eq!(yuv.yuv(), (&[1u8, 2][..], &[3u8][..], &[4u8][..]));
    yuv.y_mut()[0] = 10;
    yuv.u_mut()[0] = 30;
    yuv.v_mut()[0] = 40;
    assert_eq!((yuv.y(), yuv.u(), yuv.v()), (&[10u8, 2][..], &[30u8][..], &[40u8][..]));
    {
        let (y, u, v) = yuv.yuv_mut();
        y[1] = 20;
        u[0] += 1;
        v[0] += 1;
    }
    assert_eq!(yuv.yuv(), (&[10u8, 20][..], &[31u8][..], &[41u8][..]));
}

fn lossless_payload(width: u32, height: u32) -> Vec<u8> {
    let bits: u32 = (width - 1) | ((height - 1) << 14);
    let mut payload = vec![0x2f];
    payload.extend_from_slice(&bits.to_le_bytes());
    payload.extend_from_slice(&[0xC0, 0xDE]);
    payload
}

fn lossless_file(width: u32, height: u32) -> Vec<u8> {
    let payload = lossless_payload(width, height);
    [&b"RIFF"[..], &[20, 0, 0, 0], b"WEBPVP8L", &[7, 0, 0, 0], &payload, &[0]].concat()
}

#[test]
fn test_encode_packed_wraps_the_payload() {
    let file = libwebp::encode::encode_packed(24, 4, 2, 12, 3, &lossless_payload(4, 2)).unwrap();
    assert_eq!(file.as_slice(), &lossless_file(4, 2)[..]);
    assert_eq!(libwebp::WebPGetInfo(file.as_slice()), Ok((4, 2)));
}

#[test]
fn test_encode_lossless_writes_the_file_anew() {
    let expected = lossless_file(4, 2);
    let mut encoded = expected.clone();
    encoded.extend_from_slice(&[9, 9, 9]);
    let file = WebPEncodeLosslessRGB(&[0; 24], 4, 2, 12, &encoded).unwrap();
    assert_eq!(file.as_slice(), &expected[..]);
    let file = WebPEncodeLosslessBGR(&[0; 26], 4, 2, 13, &encoded).unwrap();
    assert_eq!(file.as_slice(), &expected[..]);
    let file = WebPEncodeLosslessRGBA(&[0; 32], 4, 2, 16, &encoded).unwrap();
    assert_eq!(file.as_slice(), &expected[..]);
    let file = WebPEncodeLosslessBGRA(&[0; 40], 4, 2, 20, &encoded).unwrap();
    assert_eq!(file.as_slice(), &expected[..]);
}

#[test]
fn test_encode_keeps_transparency_and_metadata() {
    let payload: &[u8] = b"\xD0\x01\x00\x9D\x01*\x03\x00\x02\x00\x02\x00\x01\x02\x03\x04";
    let encoded: Vec<u8> = [
        &b"RIFF"[..], &[66, 0, 0, 0], b"WEBP",
        b"VP8X", &[10, 0, 0, 0], &[0x18, 0, 0, 0, 2, 0, 0, 1, 0, 0],
        b"ALPH", &[2, 0, 0, 0], &[7, 8],
        b"VP8 ", &[16, 0, 0, 0], payload,
        b"EXIF", &[1, 0, 0, 0], &[0xE1, 0],
    ]
    .concat();
    let file = libwebp::encode::encode_from_file(24, 3, 2, 12, 4, &encoded).unwrap();
    assert_eq!(file.as_slice(), &encoded[..]);
}

#[test]
fn test_encode_errors() {
    let encoded = lossless_file(4, 2);
    let refused = |r: Result<WebpBox<u8>, WebpError>, e: WebpError| assert_eq!(r.err(), Some(e));
    refused(WebPEncodeLosslessRGB(&[0; 23], 4, 2, 12, &encoded), WebpError::InvalidArgument);
    refused(WebPEncodeLosslessRGB(&[0; 22], 4, 2, 11, &encoded), WebpError::InvalidArgument);
    refused(WebPEncodeLosslessRGBA(&[0; 24], 4, 2, 12, &encoded), WebpError::InvalidArgument);
    refused(WebPEncodeLosslessRGB(&[], 0x8000_0000, 0, 0, &encoded), WebpError::InvalidArgument);
    refused(WebPEncodeLosslessRGB(&[0; 24], 4, 2, 12, &[1, 2, 3]), WebpError::BitstreamError);
    refused(
        WebPEncodeLosslessRGB(&[0; 24], 4, 2, 12, &encoded[..27]),
        WebpError::BitstreamError,
    );
    refused(
        WebPEncodeLosslessRGB(&[0; 24], 4, 2, 12, &lossless_file(2, 4)),
        WebpError::BitstreamError,
    );
    let payload = lossless_payload(4, 2);
    refused(
        libwebp::encode::encode_packed(24, 4, 2, 12, 3, &[1, 2, 3]),
        WebpError::BitstreamError,
    );
    refused(
        libwebp::encode::encode_packed(24, 4, 2, 12, 3, &lossless_payload(2, 4)),
        WebpError::BitstreamError,
    );
    refused(
        libwebp::encode::encode_packed(24, 4, 2, 12, 0, &payload),
        WebpError::InvalidArgument,
    );
}
