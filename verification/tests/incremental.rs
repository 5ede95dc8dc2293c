use libwebp::{
    DecoderState, VP8StatusCode, WebPDecBuffer, WebPIAppend, WebPIDecGetRGB, WebPIDecGetYUV,
    WebPIDecGetYUVA, WebPIDecodedArea, WebPIDecoder, WebPINewDecoder, WebPINewRGB, WebPINewYUV,
    WebPINewYUVA, WebPIUpdate, WebPInitDecBuffer, WebPIsRGBMode, WEBP_CSP_MODE,
};

fn sample() -> Vec<u8> {
    let data: &[u8] = b"\
        RIFFV\x00\x00\x00WEBPVP8\x20\
        J\x00\x00\x00\xD0\x01\x00\x9D\x01*\x03\x00\x02\x00\x02\x00\
        4%\xA8\x02t\x01\x0E\xFE\x03\x8E\x00\x00\xFE\xAD\xFF\xF1\
        \x5C\xB4\xF8\xED\xFF\xF0\xC0\xBA\xBF\x93\x05\xEA\x0C\x9F\x93?\
        \xE8\xC0\xBF?\xFF\xA9\xBF\xFF${\xCB\xFFF\x05\xF9\xFF\
        \xFDM\xFE0\xE5\x86\xAA\x071#o\x00\x00\x00";
    data.to_vec()
}

fn large_file(width: u32, height: u32, tail: usize) -> Vec<u8> {
    let bits: u32 = (width - 1) | ((height - 1) << 14);
    let mut payload = vec![0x2f];
    payload.extend_from_slice(&bits.to_le_bytes());
    payload.extend((0..tail).map(|i| (i % 251) as u8));
    if payload.len() % 2 == 1 {
        payload.push(0);
    }
    let mut data = b"RIFF".to_vec();
    data.extend_from_slice(&(4 + 8 + payload.len() as u32).to_le_bytes());
    data.extend_from_slice(b"WEBPVP8L");
    data.extend_from_slice(&(payload.len() as u32).to_le_bytes());
    data.extend_from_slice(&payload);
    data
}

fn pixel(row: u32, column: u32) -> u8 {
    (row * 31 + column * 7) as u8
}

/// Stands in for the pixel codec: once the headers are read it reports rows
/// in step with the bytes that have arrived, and the last row with the last
/// byte.
fn run_codec(idec: &mut WebPIDecoder, total: usize, fed: usize, bpp: u32) -> VP8StatusCode {
    let (width, height, done) = match WebPIDecodedArea(idec) {
        Ok((out, _, _, width, done)) => (width, out.height(), done),
        Err(_) => return idec.status(),
    };
    let target = if fed == total { height } else { (height as usize * fed / total / 2) as u32 };
    let target = target.max(done);
    let mut rows = Vec::new();
    for row in done..target {
        for column in 0..width * bpp {
            rows.push(pixel(row, column));
        }
    }
    idec.commit_rgb_rows(fed, target, &rows)
}

fn decode_in_chunks(mode: WEBP_CSP_MODE, bpp: u32) {
    let mut buf = WebPInitDecBuffer().unwrap();
    buf.set_colorspace(mode);
    for data in [sample(), large_file(40, 30, 5000)] {
        let mut idec = WebPINewDecoder(Some(buf)).unwrap();
        let mut last_status = VP8StatusCode::VP8_STATUS_SUSPENDED;
        let mut fed = 0;
        let mut rows_before = 0;
        for chunk in data.chunks(1024) {
            assert_eq!(last_status, VP8StatusCode::VP8_STATUS_SUSPENDED);
            assert_eq!(WebPIAppend(&mut idec, chunk), VP8StatusCode::VP8_STATUS_SUSPENDED);
            fed += chunk.len();
            last_status = run_codec(&mut idec, data.len(), fed, bpp);
            assert!(idec.last_row() >= rows_before);
            rows_before = idec.last_row();
        }
        assert_eq!(last_status, VP8StatusCode::VP8_STATUS_OK);
        assert_eq!(idec.state(), DecoderState::Complete);
        let (pixels, last_y, width, height, stride) = WebPIDecGetRGB(&idec).unwrap();
        assert_eq!(last_y, height);
        assert_eq!(stride, width * bpp);
        assert_eq!(pixels.len(), (stride * height) as usize);
        for row in 0..height {
            for column in 0..width * bpp {
                assert_eq!(pixels[(row * stride + column) as usize], pixel(row, column));
            }
        }
        buf = idec.into_output();
    }
}

#[test]
fn test_incremental_decode_rgb_in_chunks() {
    decode_in_chunks(WEBP_CSP_MODE::MODE_RGB, 3);
}

#[test]
fn test_incremental_decode_rgba_in_chunks() {
    decode_in_chunks(WEBP_CSP_MODE::MODE_RGBA, 4);
}

#[test]
fn test_incremental_decode_waits_for_headers() {
    let data = sample();
    let mut idec = WebPINewDecoder(None).unwrap();
    assert_eq!(idec.state(), DecoderState::AwaitingData);
    for (i, byte) in data.iter().enumerate() {
        assert_eq!(WebPIAppend(&mut idec, &[*byte]), VP8StatusCode::VP8_STATUS_SUSPENDED);
        if i + 1 < 30 {
            assert_eq!(idec.state(), DecoderState::AwaitingData);
            assert!(WebPIDecGetRGB(&idec).is_err());
            assert!(WebPIDecodedArea(&idec).is_err());
        } else {
            assert_eq!(idec.state(), DecoderState::PartiallyDecoded(0));
            let (pixels, last_y, width, height, stride) = WebPIDecGetRGB(&idec).unwrap();
            assert_eq!((pixels.len(), last_y, width, height, stride), (0, 0, 3, 2, 9));
        }
        assert_eq!(idec.pending_input().len(), i + 1);
    }
}

#[test]
fn test_rows_are_reported_whole_and_never_go_back() {
    let mut idec = WebPINewRGB(WEBP_CSP_MODE::MODE_BGR, None, 0).unwrap();
    assert_eq!(idec.append(&sample()), VP8StatusCode::VP8_STATUS_SUSPENDED);
    assert_eq!(idec.commit_rgb_rows(40, 1, &[1; 8]), VP8StatusCode::VP8_STATUS_INVALID_PARAM);
    assert_eq!(idec.commit_rgb_rows(40, 1, &[1; 10]), VP8StatusCode::VP8_STATUS_INVALID_PARAM);
    assert_eq!(idec.commit_rgb_rows(95, 1, &[1; 9]), VP8StatusCode::VP8_STATUS_INVALID_PARAM);
    assert_eq!(idec.commit_rgb_rows(40, 3, &[1; 27]), VP8StatusCode::VP8_STATUS_INVALID_PARAM);
    assert_eq!(idec.last_row(), 0);
    assert_eq!(idec.commit_rgb_rows(40, 1, &[1; 9]), VP8StatusCode::VP8_STATUS_SUSPENDED);
    assert_eq!(idec.state(), DecoderState::PartiallyDecoded(1));
    assert_eq!(idec.pending_input(), &sample()[40..]);
    assert_eq!(idec.commit_rgb_rows(39, 1, &[]), VP8StatusCode::VP8_STATUS_INVALID_PARAM);
    assert_eq!(idec.commit_rgb_rows(40, 0, &[]), VP8StatusCode::VP8_STATUS_INVALID_PARAM);
    assert_eq!(idec.commit_rgb_rows(50, 1, &[]), VP8StatusCode::VP8_STATUS_SUSPENDED);
    assert_eq!(
        idec.commit_yuva_rows(94, 2, &[0; 3], &[], &[], &[]),
        VP8StatusCode::VP8_STATUS_INVALID_PARAM
    );
    {
        let (pixels, last_y, _, _, stride) = WebPIDecGetRGB(&idec).unwrap();
        assert_eq!((pixels, last_y, stride), (&[1u8; 9][..], 1, 9));
    }
    assert_eq!(idec.commit_rgb_rows(94, 2, &[2; 9]), VP8StatusCode::VP8_STATUS_OK);
    assert_eq!(idec.last_row(), 2);
    assert_eq!(idec.status(), VP8StatusCode::VP8_STATUS_OK);
    assert_eq!(idec.append(&[0]), VP8StatusCode::VP8_STATUS_INVALID_PARAM);
    assert_eq!(idec.update(&[0]), VP8StatusCode::VP8_STATUS_INVALID_PARAM);
    assert_eq!(idec.commit_rgb_rows(94, 2, &[]), VP8StatusCode::VP8_STATUS_INVALID_PARAM);
    assert_eq!(
        idec.fail(VP8StatusCode::VP8_STATUS_BITSTREAM_ERROR),
        VP8StatusCode::VP8_STATUS_INVALID_PARAM
    );
    assert_eq!(idec.state(), DecoderState::Complete);
    assert_eq!((idec.input_len(), idec.consumed()), (94, 94));
    assert_eq!(idec.pending_input().len(), 0);
    let out = idec.into_output();
    assert!(out.has_private_memory() && !out.is_external_memory());
    assert_eq!(out.into_rgba(), [[1u8; 9], [2u8; 9]].concat());
}

#[test]
fn test_caller_memory_keeps_its_padding() {
    let mut idec = WebPINewRGB(WEBP_CSP_MODE::MODE_RGBA, Some(vec![0xAA; 32]), 16).unwrap();
    assert_eq!(idec.append(&sample()), VP8StatusCode::VP8_STATUS_SUSPENDED);
    assert_eq!(idec.commit_rgb_rows(94, 2, &[3; 24]), VP8StatusCode::VP8_STATUS_OK);
    let out = idec.into_output();
    assert!(out.is_external_memory() && !out.has_private_memory());
    let expected = [&[3u8; 12][..], &[0xAA; 4], &[3; 12], &[0xAA; 4]].concat();
    assert_eq!(out.into_rgba(), expected);
}

#[test]
fn test_caller_memory_of_wrong_size_fails_the_decoder() {
    for (len, stride) in [(31, 16), (33, 16), (22, 11), (48, 16)] {
        let mut idec = WebPINewRGB(WEBP_CSP_MODE::MODE_RGBA, Some(vec![0; len]), stride).unwrap();
        assert_eq!(idec.append(&sample()[..20]), VP8StatusCode::VP8_STATUS_SUSPENDED);
        assert_eq!(idec.append(&sample()[20..]), VP8StatusCode::VP8_STATUS_INVALID_PARAM);
        assert_eq!(idec.state(), DecoderState::Failed(VP8StatusCode::VP8_STATUS_INVALID_PARAM));
        assert_eq!(idec.append(&[1]), VP8StatusCode::VP8_STATUS_INVALID_PARAM);
        assert!(WebPIDecGetRGB(&idec).is_err());
    }
}

#[test]
fn test_new_rgb_refuses_planar_modes_and_empty_planes() {
    assert!(WebPINewRGB(WEBP_CSP_MODE::MODE_YUV, None, 0).is_err());
    assert!(WebPINewRGB(WEBP_CSP_MODE::MODE_YUVA, None, 0).is_err());
    assert!(WebPINewRGB(WEBP_CSP_MODE::MODE_LAST, None, 0).is_err());
    assert!(WebPINewRGB(WEBP_CSP_MODE::MODE_RGB, Some(vec![]), 4).is_err());
    assert!(WebPINewRGB(WEBP_CSP_MODE::MODE_RGB, Some(vec![1]), 0).is_err());
    let idec = WebPINewRGB(WEBP_CSP_MODE::MODE_rgbA_4444, None, 77).unwrap();
    assert_eq!(idec.output().colorspace(), WEBP_CSP_MODE::MODE_rgbA_4444);
    assert!(!idec.output().is_external_memory());
}

#[test]
fn test_append_and_update_do_not_mix() {
    let data = sample();
    let mut appended = WebPINewDecoder(None).unwrap();
    assert_eq!(WebPIAppend(&mut appended, &data[..10]), VP8StatusCode::VP8_STATUS_SUSPENDED);
    assert_eq!(WebPIUpdate(&mut appended, &data), VP8StatusCode::VP8_STATUS_INVALID_PARAM);
    assert_eq!(appended.pending_input(), &data[..10]);
    assert_eq!(appended.state(), DecoderState::AwaitingData);
    assert_eq!(WebPIAppend(&mut appended, &data[10..]), VP8StatusCode::VP8_STATUS_SUSPENDED);
    assert_eq!(appended.state(), DecoderState::PartiallyDecoded(0));

    let mut updated = WebPINewDecoder(None).unwrap();
    assert_eq!(WebPIUpdate(&mut updated, &data[..10]), VP8StatusCode::VP8_STATUS_SUSPENDED);
    assert_eq!(WebPIAppend(&mut updated, &data[10..]), VP8StatusCode::VP8_STATUS_INVALID_PARAM);
    assert_eq!(updated.pending_input(), &data[..10]);
    assert_eq!(WebPIUpdate(&mut updated, &data[..50]), VP8StatusCode::VP8_STATUS_SUSPENDED);
    assert_eq!(updated.pending_input(), &data[..50]);
    assert_eq!(updated.state(), DecoderState::PartiallyDecoded(0));
    assert_eq!(updated.commit_rgb_rows(40, 1, &[5; 9]), VP8StatusCode::VP8_STATUS_SUSPENDED);
    assert_eq!(WebPIUpdate(&mut updated, &data[40..]), VP8StatusCode::VP8_STATUS_SUSPENDED);
    assert_eq!(updated.pending_input(), &data[40..]);
    assert_eq!(updated.commit_rgb_rows(94, 2, &[6; 9]), VP8StatusCode::VP8_STATUS_OK);
}

#[test]
fn test_append_after_update_is_an_error_on_a_complete_decoder_too() {
    let data = sample();
    let mut idec = WebPINewDecoder(None).unwrap();
    assert_eq!(WebPIUpdate(&mut idec, &data), VP8StatusCode::VP8_STATUS_SUSPENDED);
    assert_eq!(WebPIAppend(&mut idec, &[1]), VP8StatusCode::VP8_STATUS_INVALID_PARAM);
    assert_eq!(idec.commit_rgb_rows(94, 2, &[7; 18]), VP8StatusCode::VP8_STATUS_OK);
    assert_eq!(idec.state(), DecoderState::Complete);
    let rows_before = WebPIDecGetRGB(&idec).unwrap().0.to_vec();
    assert_eq!(WebPIAppend(&mut idec, &[1]), VP8StatusCode::VP8_STATUS_INVALID_PARAM);
    assert_eq!(WebPIAppend(&mut idec, &[]), VP8StatusCode::VP8_STATUS_INVALID_PARAM);
    assert_eq!(WebPIUpdate(&mut idec, &data), VP8StatusCode::VP8_STATUS_INVALID_PARAM);
    assert_eq!(idec.state(), DecoderState::Complete);
    assert_eq!(WebPIDecGetRGB(&idec).unwrap().0, &rows_before[..]);
    assert_eq!(idec.input_len(), 94);

    let mut appended = WebPINewDecoder(None).unwrap();
    assert_eq!(WebPIAppend(&mut appended, &data), VP8StatusCode::VP8_STATUS_SUSPENDED);
    assert_eq!(appended.commit_rgb_rows(94, 2, &[7; 18]), VP8StatusCode::VP8_STATUS_OK);
    assert_eq!(WebPIUpdate(&mut appended, &data), VP8StatusCode::VP8_STATUS_INVALID_PARAM);
    assert_eq!(WebPIAppend(&mut appended, &data), VP8StatusCode::VP8_STATUS_INVALID_PARAM);
    assert_eq!(appended.state(), DecoderState::Complete);
}

#[test]
fn test_chroma_planes_share_one_stride() {
    let mut idec =
        WebPINewYUV(Some(vec![0; 6]), 3, Some(vec![0; 2]), 2, Some(vec![0; 3]), 3).unwrap();
    assert_eq!(idec.append(&sample()), VP8StatusCode::VP8_STATUS_INVALID_PARAM);
    assert!(WebPIDecGetYUVA(&idec).is_err());

    let mut idec =
        WebPINewYUV(Some(vec![0; 8]), 4, Some(vec![0; 3]), 3, Some(vec![0; 3]), 3).unwrap();
    assert_eq!(idec.append(&sample()), VP8StatusCode::VP8_STATUS_SUSPENDED);
    assert_eq!(
        idec.commit_yuva_rows(94, 1, &[1, 2, 3], &[4, 5], &[6, 7], &[]),
        VP8StatusCode::VP8_STATUS_SUSPENDED
    );
    {
        let (y, last_y, u, v, a, width, height, stride, uv_stride, a_stride) =
            WebPIDecGetYUVA(&idec).unwrap();
        assert_eq!((last_y, width, height, stride, uv_stride, a_stride), (1, 3, 2, 4, 3, 0));
        assert_eq!(y.len() as u32, last_y * stride);
        assert_eq!(u.len() as u32, (last_y + 1) / 2 * uv_stride);
        assert_eq!(v.len(), u.len());
        assert_eq!((u, v, a), (&[4u8, 5, 0][..], &[6u8, 7, 0][..], None));
    }
    assert_eq!(
        idec.commit_yuva_rows(94, 2, &[8, 9, 10], &[], &[], &[]),
        VP8StatusCode::VP8_STATUS_OK
    );
    let (y, last_y, u, v, _, _, stride, uv_stride) = WebPIDecGetYUV(&idec).unwrap();
    assert_eq!((y.len() as u32, u.len() as u32, v.len() as u32), (2 * stride, uv_stride, uv_stride));
    assert_eq!(last_y, 2);
}

#[test]
fn test_failures_are_final() {
    let mut bad = sample();
    bad[8] = b'w';
    let mut idec = WebPINewDecoder(None).unwrap();
    assert_eq!(idec.append(&bad[..11]), VP8StatusCode::VP8_STATUS_SUSPENDED);
    assert_eq!(idec.append(&bad[11..]), VP8StatusCode::VP8_STATUS_BITSTREAM_ERROR);
    assert_eq!(idec.state(), DecoderState::Failed(VP8StatusCode::VP8_STATUS_BITSTREAM_ERROR));
    assert_eq!(idec.append(&sample()), VP8StatusCode::VP8_STATUS_BITSTREAM_ERROR);
    assert_eq!(idec.update(&sample()), VP8StatusCode::VP8_STATUS_BITSTREAM_ERROR);
    assert_eq!(idec.commit_rgb_rows(0, 0, &[]), VP8StatusCode::VP8_STATUS_BITSTREAM_ERROR);

    let mut idec = WebPINewDecoder(None).unwrap();
    assert_eq!(idec.append(&sample()), VP8StatusCode::VP8_STATUS_SUSPENDED);
    for no_failure in [
        VP8StatusCode::VP8_STATUS_OK,
        VP8StatusCode::VP8_STATUS_SUSPENDED,
        VP8StatusCode::VP8_STATUS_NOT_ENOUGH_DATA,
    ] {
        assert_eq!(idec.fail(no_failure), VP8StatusCode::VP8_STATUS_INVALID_PARAM);
        assert_eq!(idec.state(), DecoderState::PartiallyDecoded(0));
    }
    assert_eq!(idec.commit_rgb_rows(30, 1, &[1; 9]), VP8StatusCode::VP8_STATUS_SUSPENDED);
    assert_eq!(
        idec.fail(VP8StatusCode::VP8_STATUS_OUT_OF_MEMORY),
        VP8StatusCode::VP8_STATUS_OUT_OF_MEMORY
    );
    assert_eq!(idec.state(), DecoderState::Failed(VP8StatusCode::VP8_STATUS_OUT_OF_MEMORY));
    assert_eq!(idec.last_row(), 1);
    assert_eq!(
        idec.fail(VP8StatusCode::VP8_STATUS_USER_ABORT),
        VP8StatusCode::VP8_STATUS_OUT_OF_MEMORY
    );
    assert_eq!(idec.commit_rgb_rows(94, 2, &[1; 9]), VP8StatusCode::VP8_STATUS_OUT_OF_MEMORY);
    assert_eq!(WebPIDecGetRGB(&idec).unwrap().1, 1);
}

#[test]
fn test_animation_is_not_decoded() {
    let mut data = b"RIFF".to_vec();
    data.extend_from_slice(&22u32.to_le_bytes());
    data.extend_from_slice(b"WEBPVP8X");
    data.extend_from_slice(&10u32.to_le_bytes());
    data.extend_from_slice(&[0x02, 0, 0, 0, 9, 0, 0, 4, 0, 0]);
    let mut idec = WebPINewDecoder(None).unwrap();
    assert_eq!(idec.append(&data), VP8StatusCode::VP8_STATUS_UNSUPPORTED_FEATURE);
    assert_eq!(idec.state(), DecoderState::Failed(VP8StatusCode::VP8_STATUS_UNSUPPORTED_FEATURE));
}

#[test]
fn test_incremental_decode_yuva() {
    let data = large_file(5, 3, 10);
    let mut idec = WebPINewYUVA(None, 0, None, 0, None, 0, None, 0).unwrap();
    assert_eq!(idec.output().colorspace(), WEBP_CSP_MODE::MODE_YUVA);
    assert_eq!(idec.append(&data), VP8StatusCode::VP8_STATUS_SUSPENDED);
    assert!(WebPIDecGetRGB(&idec).is_err());
    assert_eq!(
        idec.commit_rgb_rows(data.len(), 3, &[0; 45]),
        VP8StatusCode::VP8_STATUS_INVALID_PARAM
    );
    assert_eq!(
        idec.commit_yuva_rows(20, 1, &[1; 5], &[2; 3], &[3; 3], &[4; 5]),
        VP8StatusCode::VP8_STATUS_SUSPENDED
    );
    {
        let (y, last_y, u, v, a, width, height, stride, uv_stride, a_stride) =
            WebPIDecGetYUVA(&idec).unwrap();
        assert_eq!((last_y, width, height, stride, uv_stride, a_stride), (1, 5, 3, 5, 3, 5));
        assert_eq!((y, u, v, a), (&[1u8; 5][..], &[2u8; 3][..], &[3u8; 3][..], Some(&[4u8; 5][..])));
    }
    assert_eq!(
        idec.commit_yuva_rows(20, 2, &[5; 5], &[6; 3], &[7; 3], &[8; 5]),
        VP8StatusCode::VP8_STATUS_INVALID_PARAM
    );
    assert_eq!(
        idec.commit_yuva_rows(20, 2, &[5; 5], &[], &[], &[8; 5]),
        VP8StatusCode::VP8_STATUS_SUSPENDED
    );
    assert_eq!(
        idec.commit_yuva_rows(data.len(), 3, &[9; 5], &[6; 3], &[7; 3], &[10; 5]),
        VP8StatusCode::VP8_STATUS_OK
    );
    let (y, last_y, u, v, width, height, stride, uv_stride) = WebPIDecGetYUV(&idec).unwrap();
    assert_eq!((last_y, width, height, stride, uv_stride), (3, 5, 3, 5, 3));
    assert_eq!(y, [[1u8; 5], [5; 5], [9; 5]].concat());
    assert_eq!(u, [[2u8; 3], [6; 3]].concat());
    assert_eq!(v, [[3u8; 3], [7; 3]].concat());
    let (out, left, top, width, rows) = WebPIDecodedArea(&idec).unwrap();
    assert_eq!((left, top, width, rows), (0, 0, 5, 3));
    assert_eq!(out.a_plane(), (&[[4u8; 5], [8; 5], [10; 5]].concat()[..], 5));
}

#[test]
fn test_incremental_decode_into_caller_planes() {
    let luma = Some(vec![0xEE; 8]);
    let chroma = || Some(vec![0xEE; 2]);
    assert!(WebPINewYUV(luma.clone(), 4, None, 2, chroma(), 2).is_err());
    assert!(WebPINewYUV(luma.clone(), 4, chroma(), 2, None, 2).is_err());
    assert!(WebPINewYUV(luma.clone(), 0, chroma(), 2, chroma(), 2).is_err());
    assert!(WebPINewYUV(luma.clone(), 4, chroma(), 2, Some(vec![]), 2).is_err());
    assert!(WebPINewYUVA(luma.clone(), 4, chroma(), 2, chroma(), 2, Some(vec![1]), 0).is_err());
    assert!(WebPINewYUV(None, 4, None, 0, Some(vec![]), 0).is_ok());
    let with_alpha =
        WebPINewYUVA(luma.clone(), 4, chroma(), 2, chroma(), 2, Some(vec![0; 6]), 3).unwrap();
    assert_eq!(with_alpha.output().colorspace(), WEBP_CSP_MODE::MODE_YUVA);

    let mut idec = WebPINewYUV(luma, 4, chroma(), 1, chroma(), 2).unwrap();
    assert_eq!(idec.output().colorspace(), WEBP_CSP_MODE::MODE_YUV);
    assert!(idec.output().is_external_memory());
    assert_eq!(idec.append(&sample()), VP8StatusCode::VP8_STATUS_INVALID_PARAM);

    let mut idec = WebPINewYUV(Some(vec![0xEE; 8]), 4, chroma(), 2, chroma(), 2).unwrap();
    assert_eq!(idec.append(&sample()), VP8StatusCode::VP8_STATUS_SUSPENDED);
    assert_eq!(
        idec.commit_yuva_rows(94, 2, &[1, 2, 3, 4, 5, 6], &[7, 8], &[9, 10], &[]),
        VP8StatusCode::VP8_STATUS_OK
    );
    assert_eq!(WebPIDecGetYUVA(&idec).unwrap().4, None);
    assert_eq!(WebPIDecGetYUVA(&idec).unwrap().9, 0);
    let (y, u, v, a) = idec.into_output().into_yuva();
    assert_eq!(y, vec![1, 2, 3, 0xEE, 4, 5, 6, 0xEE]);
    assert_eq!((u, v, a), (vec![7, 8], vec![9, 10], vec![]));
}

#[test]
fn test_dec_buffer_settings() {
    let mut buf: WebPDecBuffer = WebPInitDecBuffer().unwrap();
    assert_eq!(buf.colorspace(), WEBP_CSP_MODE::MODE_RGB);
    assert_eq!((buf.width(), buf.height()), (0, 0));
    assert!(!buf.is_external_memory() && !buf.is_slow_memory() && !buf.has_private_memory());
    buf.set_slow_memory(true);
    assert!(!buf.is_slow_memory());
    assert!(buf.can_set_colorspace(WEBP_CSP_MODE::MODE_YUVA));
    buf.set_colorspace(WEBP_CSP_MODE::MODE_YUVA);
    buf.set_rgba_buffer(vec![1, 2, 3], 3);
    assert_eq!(buf.colorspace(), WEBP_CSP_MODE::MODE_RGB);
    assert!(buf.is_external_memory());
    assert_eq!(buf.rgba(), (&[1u8, 2, 3][..], 3));
    for mode in [WEBP_CSP_MODE::MODE_YUV, WEBP_CSP_MODE::MODE_YUVA, WEBP_CSP_MODE::MODE_BGRA] {
        assert_eq!(buf.can_set_colorspace(mode), WebPIsRGBMode(mode));
    }
    buf.set_colorspace(WEBP_CSP_MODE::MODE_BGRA);
    buf.set_slow_memory(true);
    assert!(buf.is_slow_memory() && buf.is_external_memory());
    buf.set_rgba_buffer(vec![4], 1);
    assert_eq!(buf.colorspace(), WEBP_CSP_MODE::MODE_BGRA);
    assert!(buf.is_slow_memory());
    buf.set_slow_memory(false);
    assert!(!buf.is_slow_memory() && buf.is_external_memory());
    buf.set_yuva_buffer(vec![1], vec![2], vec![3], vec![4], 5, 6, 7, 8);
    assert_eq!(buf.colorspace(), WEBP_CSP_MODE::MODE_YUV);
    assert_eq!(buf.y_plane(), (&[1u8][..], 5));
    assert_eq!(buf.u_plane(), (&[2u8][..], 6));
    assert_eq!(buf.v_plane(), (&[3u8][..], 7));
    assert_eq!(buf.a_plane(), (&[4u8][..], 8));
    buf.set_to_internal();
    assert!(!buf.is_external_memory());
    assert!(buf.can_set_colorspace(WEBP_CSP_MODE::MODE_RGB));
    let buf = buf.with_rgba_buffer(vec![9, 9], 2).into_internal();
    assert!(!buf.is_external_memory());
    assert_eq!(buf.colorspace(), WEBP_CSP_MODE::MODE_RGB);
    let buf = buf.with_yuva_buffer(vec![1], vec![1], vec![1], vec![], 1, 1, 1, 0);
    assert!(buf.is_external_memory());
    assert_eq!(buf.colorspace(), WEBP_CSP_MODE::MODE_YUV);
}

#[test]
fn test_dec_buffer_set_size() {
    let mut buf = WebPInitDecBuffer().unwrap();
    buf.set_colorspace(WEBP_CSP_MODE::MODE_RGB_565);
    buf.set_rgba_buffer(vec![1; 30], 10);
    assert_eq!(buf.set_size(5, 3), VP8StatusCode::VP8_STATUS_OK);
    assert_eq!((buf.width(), buf.height()), (5, 3));
    assert_eq!(buf.set_size(6, 3), VP8StatusCode::VP8_STATUS_INVALID_PARAM);
    assert_eq!(buf.set_size(5, 2), VP8StatusCode::VP8_STATUS_INVALID_PARAM);
    assert_eq!((buf.width(), buf.height()), (5, 3));
    buf.put_rgb_rows(1, 2, &[7; 20]);
    assert_eq!(buf.rgba().0, [[1u8; 10], [7; 10], [7; 10]].concat());
    buf.set_to_internal();
    assert_eq!(buf.set_size(2, 2), VP8StatusCode::VP8_STATUS_OK);
    assert_eq!(buf.rgba(), (&[0u8; 8][..], 4));
    assert!(buf.has_private_memory());

    let mut last = WebPInitDecBuffer().unwrap();
    last.set_colorspace(WEBP_CSP_MODE::MODE_LAST);
    assert_eq!(last.set_size(1, 1), VP8StatusCode::VP8_STATUS_INVALID_PARAM);

    let mut planar = WebPInitDecBuffer().unwrap();
    planar.set_colorspace(WEBP_CSP_MODE::MODE_YUV);
    assert_eq!(planar.set_size(5, 3), VP8StatusCode::VP8_STATUS_OK);
    assert_eq!(planar.y_plane(), (&[0u8; 15][..], 5));
    assert_eq!(planar.u_plane(), (&[0u8; 6][..], 3));
    assert_eq!(planar.v_plane(), (&[0u8; 6][..], 3));
    assert_eq!(planar.a_plane(), (&[][..], 0));
    planar.put_yuva_rows(1, 2, &[1; 10], &[2; 3], &[3; 3], &[]);
    assert_eq!(planar.y_plane().0, [[0u8; 5], [1; 5], [1; 5]].concat());
    assert_eq!(planar.u_plane().0, [[0u8; 3], [2; 3]].concat());
}
