use libwebp::{
    VP8StatusCode, WebPBitstreamFormat, WebPDecodeRGBA, WebPDecodeRGBAInto, WebPDecodeRGBInto,
    WebPDecodeYUV, WebPDecodeYUVInto, WebPGetFeatures, WebPGetInfo, WebPIsAlphaMode,
    WebPIsPremultipliedMode, WebPIsRGBMode, WebpError, WebpUnknownError, WEBP_CSP_MODE,
};

fn sample() -> Vec<u8> {
    let data: &[u8] = b"\
        RIFFV\x00\x00\x00WEBPVP8\x20\
        J\x00\x00\x00\xD0\x01\x00\x9D\x01*\x03\x00\x02\x00\x02\x00\
        4%\xA8\x02t\x01\x0E\xFE\x03\x8E\x00\x00\xFE\xAD\xFF\xF1\
        \x5C\xB4\xF8\xED\xFF\xF0\xC0\xBA\xBF\x93\x05\xEA\x0C\x9F\x93?\
        \xE8\xC0\xBF?\xFF\xA9\xBF\xFF${\xCB\xFFF\x05\xF9\xFF\
        \xFDM\xFE0\xE5\x86\xAA\x071#o\x00\x00\x00";
    data.to_vec()
}

#[test]
fn test_get_features() {
    let data = b"\
        RIFFV\x00\x00\x00WEBPVP8\x20\
        J\x00\x00\x00\xD0\x01\x00\x9D\x01*\x03\x00\x02\x00\x02\x00\
        4%\xA8\x02t\x01\x0E\xFE\x03\x8E\x00\x00\xFE\xAD\xFF\xF1\
        \x5C\xB4\xF8\xED\xFF\xF0\xC0\xBA\xBF\x93\x05\xEA\x0C\x9F\x93?\
        \xE8\xC0\xBF?\xFF\xA9\xBF\xFF${\xCB\xFFF\x05\xF9\xFF\
        \xFDM\xFE0\xE5\x86\xAA\x071#o\x00\x00\x00";
    let feature = WebPGetFeatures(&data[..32]).unwrap();
    assert_eq!(feature.width(), 3);
    assert_eq!(feature.height(), 2);
    assert_eq!(feature.has_alpha(), false);
    assert_eq!(feature.has_animation(), false);
    assert_eq!(feature.format(), WebPBitstreamFormat::LOSSY);

    assert_eq!(
        WebPGetFeatures(&data[..16]).err(),
        Some(VP8StatusCode::VP8_STATUS_NOT_ENOUGH_DATA)
    );

    let data = b"\
        RIFFV\x00\x00\x00WEBPVP8\x20\
        K\x00\x00\x00\xD0\x01\x00\x9D\x01*\x03\x00\x02\x00\x02\x00";
    assert_eq!(
        WebPGetFeatures(data).err(),
        Some(VP8StatusCode::VP8_STATUS_BITSTREAM_ERROR)
    );
}

#[test]
fn test_get_info_on_sample() {
    assert_eq!(sample().len(), 94);
    assert_eq!(WebPGetInfo(&sample()), Ok((3, 2)));
}

#[test]
fn test_get_info_of_short_or_bad_data_fails() {
    assert_eq!(WebPGetInfo(&sample()[..16]), Err(WebpUnknownError));
    assert_eq!(WebPGetInfo(b"RIFFV\x00\x00\x00WEBQVP8\x20J\x00\x00\x00"), Err(WebpUnknownError));
    assert_eq!(WebPGetInfo(&[]), Err(WebpUnknownError));
}

#[test]
fn test_get_features_bad_magic_is_bitstream_error() {
    let mut data = sample();
    data[0] = b'X';
    assert_eq!(WebPGetFeatures(&data).err(), Some(VP8StatusCode::VP8_STATUS_BITSTREAM_ERROR));
    let mut data = sample();
    data[15] = b'?';
    assert_eq!(WebPGetFeatures(&data).err(), Some(VP8StatusCode::VP8_STATUS_BITSTREAM_ERROR));
}

#[test]
fn test_get_features_every_prefix_is_short_or_sound() {
    let data = sample();
    for k in 0..=data.len() {
        match WebPGetFeatures(&data[..k]) {
            Ok(f) => {
                assert!(k >= 30);
                assert_eq!((f.width(), f.height()), (3, 2));
            }
            Err(e) => {
                assert!(k < 30);
                assert_eq!(e, VP8StatusCode::VP8_STATUS_NOT_ENOUGH_DATA);
            }
        }
    }
}

fn lossless_file(width: u32, height: u32, alpha: bool) -> Vec<u8> {
    let bits: u32 = (width - 1) | ((height - 1) << 14) | ((alpha as u32) << 28);
    let mut payload = vec![0x2f];
    payload.extend_from_slice(&bits.to_le_bytes());
    payload.push(0);
    let mut data = b"RIFF".to_vec();
    data.extend_from_slice(&(4 + 8 + payload.len() as u32).to_le_bytes());
    data.extend_from_slice(b"WEBPVP8L");
    data.extend_from_slice(&(payload.len() as u32).to_le_bytes());
    data.extend_from_slice(&payload);
    data
}

#[test]
fn test_get_features_lossless() {
    let f = WebPGetFeatures(&lossless_file(5, 4, true)).unwrap();
    assert_eq!((f.width(), f.height()), (5, 4));
    assert!(f.has_alpha());
    assert!(!f.has_animation());
    assert_eq!(f.format(), WebPBitstreamFormat::LOSSLESS);
    let f = WebPGetFeatures(&lossless_file(16384, 1, false)).unwrap();
    assert_eq!((f.width(), f.height()), (16384, 1));
    assert!(!f.has_alpha());
}

#[test]
fn test_get_features_lossless_bad_version_is_bitstream_error() {
    let mut data = lossless_file(5, 4, false);
    data[24] |= 0x20;
    assert_eq!(WebPGetFeatures(&data).err(), Some(VP8StatusCode::VP8_STATUS_BITSTREAM_ERROR));
}

#[test]
fn test_get_features_animation_stops_at_header() {
    let mut data = b"RIFF".to_vec();
    data.extend_from_slice(&22u32.to_le_bytes());
    data.extend_from_slice(b"WEBPVP8X");
    data.extend_from_slice(&10u32.to_le_bytes());
    data.extend_from_slice(&[0x12, 0, 0, 0, 9, 0, 0, 4, 0, 0]);
    let f = WebPGetFeatures(&data).unwrap();
    assert_eq!((f.width(), f.height()), (10, 5));
    assert!(f.has_animation());
    assert!(f.has_alpha());
    assert_eq!(f.format(), WebPBitstreamFormat::UNDEFINED);
}

#[test]
fn test_mode_predicates() {
    let all = [
        WEBP_CSP_MODE::MODE_RGB, WEBP_CSP_MODE::MODE_RGBA, WEBP_CSP_MODE::MODE_BGR, WEBP_CSP_MODE::MODE_BGRA, WEBP_CSP_MODE::MODE_ARGB, WEBP_CSP_MODE::MODE_RGBA_4444, WEBP_CSP_MODE::MODE_RGB_565,
        WEBP_CSP_MODE::MODE_rgbA, WEBP_CSP_MODE::MODE_bgrA, WEBP_CSP_MODE::MODE_Argb, WEBP_CSP_MODE::MODE_rgbA_4444, WEBP_CSP_MODE::MODE_YUV, WEBP_CSP_MODE::MODE_YUVA, WEBP_CSP_MODE::MODE_LAST,
    ];
    let premultiplied = [WEBP_CSP_MODE::MODE_rgbA, WEBP_CSP_MODE::MODE_bgrA, WEBP_CSP_MODE::MODE_Argb, WEBP_CSP_MODE::MODE_rgbA_4444];
    let alpha = [
        WEBP_CSP_MODE::MODE_RGBA, WEBP_CSP_MODE::MODE_BGRA, WEBP_CSP_MODE::MODE_ARGB, WEBP_CSP_MODE::MODE_RGBA_4444, WEBP_CSP_MODE::MODE_YUVA, WEBP_CSP_MODE::MODE_rgbA, WEBP_CSP_MODE::MODE_bgrA,
        WEBP_CSP_MODE::MODE_Argb, WEBP_CSP_MODE::MODE_rgbA_4444,
    ];
    for (i, mode) in all.iter().enumerate() {
        assert_eq!(WebPIsPremultipliedMode(*mode), premultiplied.contains(mode));
        assert_eq!(WebPIsAlphaMode(*mode), alpha.contains(mode));
        assert_eq!(WebPIsRGBMode(*mode), i < 11);
    }
}

#[test]
fn test_decode_rgba_on_sample() {
    let pixels: Vec<u8> = (0..24).collect();
    let (width, height, data) = WebPDecodeRGBA(&sample(), &pixels).unwrap();
    assert_eq!((width, height), (3, 2));
    assert_eq!(data.len(), 3 * 2 * 4);
    assert_eq!(data.as_slice(), &pixels[..]);
}

#[test]
fn test_decode_rgba_refuses_wrong_pixel_count_and_short_file() {
    assert!(WebPDecodeRGBA(&sample(), &[0; 23]).is_err());
    assert!(WebPDecodeRGBA(&sample(), &[0; 25]).is_err());
    assert!(WebPDecodeRGBA(&sample()[..93], &[0; 24]).is_err());
}

#[test]
fn test_decode_rgba_into_on_sample() {
    let pixels: Vec<u8> = (1..=24).collect();
    let mut out = vec![0xEE; 16 * 2];
    WebPDecodeRGBAInto(&sample(), &mut out, 16, &pixels).unwrap();
    assert_eq!(&out[..12], &pixels[..12]);
    assert_eq!(&out[12..16], &[0xEE; 4]);
    assert_eq!(&out[16..28], &pixels[12..]);
    assert_eq!(&out[28..], &[0xEE; 4]);
}

#[test]
fn test_decode_into_stride_validation() {
    let pixels = [7u8; 18];
    let (width, height, bpp) = (3usize, 2usize, 3usize);
    for stride in 0..14usize {
        for len in 0..30usize {
            let mut out = vec![0x55; len];
            let r = WebPDecodeRGBInto(&sample(), &mut out, stride as u32, &pixels);
            let sound = len == stride * height && stride >= width * bpp;
            if sound {
                assert_eq!(r, Ok(()));
                for (i, b) in out.iter().enumerate() {
                    let expected = if i % stride < width * bpp { 7 } else { 0x55 };
                    assert_eq!(*b, expected);
                }
            } else {
                assert_eq!(r, Err(WebpError::InvalidArgument));
                assert!(out.iter().all(|b| *b == 0x55));
            }
        }
    }
}

#[test]
fn test_decode_into_error_kinds() {
    let mut out = vec![0; 24];
    assert_eq!(
        WebPDecodeRGBAInto(&sample()[..20], &mut out, 12, &[0; 24]),
        Err(WebpError::TruncatedChunk)
    );
    assert_eq!(
        WebPDecodeRGBAInto(&sample()[..60], &mut out, 12, &[0; 24]),
        Err(WebpError::TruncatedChunk)
    );
    let mut bad = sample();
    bad[8] = b'-';
    assert_eq!(
        WebPDecodeRGBAInto(&bad, &mut out, 12, &[0; 24]),
        Err(WebpError::MalformedContainer)
    );
    assert_eq!(
        WebPDecodeRGBAInto(&sample(), &mut out, 12, &[0; 20]),
        Err(WebpError::BitstreamError)
    );
    assert_eq!(WebPDecodeRGBAInto(&sample(), &mut out, 12, &[9; 24]), Ok(()));
    assert_eq!(out, vec![9; 24]);
}

#[test]
fn test_decode_yuv_on_sample() {
    let y = [1u8, 2, 3, 4, 5, 6];
    let u = [7u8, 8];
    let v = [9u8, 10];
    let (width, height, stride, uv_stride, yuv) = WebPDecodeYUV(&sample(), &y, &u, &v).unwrap();
    assert_eq!((width, height, stride, uv_stride), (3, 2, 3, 2));
    assert_eq!(yuv.y(), &y);
    assert_eq!(yuv.u(), &u);
    assert_eq!(yuv.v(), &v);
    assert!(WebPDecodeYUV(&sample(), &y, &u[..1], &v).is_err());
}

#[test]
fn test_decode_yuv_into_on_sample() {
    let (mut y, mut u, mut v) = (vec![0; 8], vec![0; 3], vec![0; 2]);
    let r = WebPDecodeYUVInto(
        &sample(), &mut y, 4, &mut u, 3, &mut v, 2, &[1, 2, 3, 4, 5, 6], &[7, 8], &[9, 10],
    );
    assert_eq!(r, Ok(()));
    assert_eq!(y, vec![1, 2, 3, 0, 4, 5, 6, 0]);
    assert_eq!(u, vec![7, 8, 0]);
    assert_eq!(v, vec![9, 10]);
    let r = WebPDecodeYUVInto(
        &sample(), &mut y, 4, &mut u, 1, &mut v, 2, &[1, 2, 3, 4, 5, 6], &[7, 8], &[9, 10],
    );
    assert_eq!(r, Err(WebpError::InvalidArgument));
}

#[test]
fn test_status_as_outcome() {
    assert_eq!(VP8StatusCode::VP8_STATUS_OK.into_result(), Ok(()));
    let errors = [
        (VP8StatusCode::VP8_STATUS_OUT_OF_MEMORY, WebpError::OutOfMemory),
        (VP8StatusCode::VP8_STATUS_INVALID_PARAM, WebpError::InvalidArgument),
        (VP8StatusCode::VP8_STATUS_BITSTREAM_ERROR, WebpError::BitstreamError),
        (VP8StatusCode::VP8_STATUS_UNSUPPORTED_FEATURE, WebpError::BitstreamError),
        (VP8StatusCode::VP8_STATUS_SUSPENDED, WebpError::Suspended),
        (VP8StatusCode::VP8_STATUS_USER_ABORT, WebpError::BitstreamError),
        (VP8StatusCode::VP8_STATUS_NOT_ENOUGH_DATA, WebpError::TruncatedChunk),
    ];
    for (status, error) in errors {
        assert_eq!(status.into_result(), Err(error));
    }
    assert_eq!(
        WebPGetFeatures(&sample()[..16]).map_err(|s| s.into_result()).err(),
        Some(Err(WebpError::TruncatedChunk))
    );
}
