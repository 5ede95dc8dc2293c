use libwebp::chunk::{
    TAG_ALPH, TAG_ANIM, TAG_ANMF, TAG_EXIF, TAG_ICCP, TAG_RIFF, TAG_VP8, TAG_VP8L,
    TAG_VP8X, TAG_WEBP, TAG_XMP,
};
use libwebp::{
    assemble, fourcc, DemuxStream, get_bitstream_info, BitstreamInfo, Chunk, ChunkReader, ContainerModel,
    WebPChunkId, WebPDemux, WebPDemuxGetChunk, WebPDemuxGetFrame, WebPDemuxGetI,
    WebPDemuxNextChunk, WebPDemuxNextFrame, WebPDemuxPartial, WebPDemuxPrevChunk,
    WebPDemuxPrevFrame, WebPDemuxState, WebPFormatFeature, WebPMux, WebPMuxAnimBlend,
    WebPMuxAnimDispose, WebPMuxAnimParams, WebPMuxCreate, WebPMuxFrameInfo, WebPMuxNew,
    WebpError,
};

fn sample() -> Vec<u8> {
    let data: &[u8] = b"\
        RIFFV\x00\x00\x00WEBPVP8\x20\
        J\x00\x00\x00\xD0\x01\x00\x9D\x01*\x03\x00\x02\x00\x02\x00\
        4%\xA8\x02t\x01\x0E\xFE\x03\x8E\x00\x00\xFE\xAD\xFF\xF1\
        \x5C\xB4\xF8\xED\xFF\xF0\xC0\xBA\xBF\x93\x05\xEA\x0C\x9F\x93?\
        \xE8\xC0\xBF?\xFF\xA9\xBF\xFF${\xCB\xFFF\x05\xF9\xFF\
        \xFDM\xFE0\xE5\x86\xAA\x071#o\x00\x00\x00";
    data.to_vec()
}

fn lossy_payload() -> Vec<u8> {
    sample()[20..].to_vec()
}

fn lossless_payload(width: u32, height: u32, alpha: bool, tail: &[u8]) -> Vec<u8> {
    let bits: u32 = (width - 1) | ((height - 1) << 14) | ((alpha as u32) << 28);
    let mut payload = vec![0x2f];
    payload.extend_from_slice(&bits.to_le_bytes());
    payload.extend_from_slice(tail);
    payload
}

fn frame(bitstream: Vec<u8>, x: u32, y: u32, duration: u32) -> WebPMuxFrameInfo {
    WebPMuxFrameInfo {
        bitstream,
        alpha: None,
        x_offset: x,
        y_offset: y,
        duration,
        id: WebPChunkId::WEBP_CHUNK_ANMF,
        dispose_method: WebPMuxAnimDispose::WEBP_MUX_DISPOSE_NONE,
        blend_method: WebPMuxAnimBlend::WEBP_MUX_BLEND,
    }
}

fn animation() -> WebPMux {
    let mut mux = WebPMuxNew();
    mux.set_animation_params(WebPMuxAnimParams { bgcolor: 0x1122_3344, loop_count: 7 });
    mux.push_frame(frame(lossy_payload(), 0, 0, 100));
    let mut second = frame(lossless_payload(4, 3, true, &[1, 2, 3]), 2, 4, 0x01_0203);
    second.alpha = Some(vec![9, 8, 7]);
    second.dispose_method = WebPMuxAnimDispose::WEBP_MUX_DISPOSE_BACKGROUND;
    second.blend_method = WebPMuxAnimBlend::WEBP_MUX_NO_BLEND;
    mux.push_frame(second);
    mux.set_chunk(TAG_XMP, b"<x/>").unwrap();
    mux.set_chunk(fourcc(b'a', b'b', b'c', b'd'), &[5]).unwrap();
    mux
}

#[test]
fn test_fourcc_tags() {
    assert_eq!(fourcc(b'R', b'I', b'F', b'F'), TAG_RIFF);
    assert_eq!(fourcc(b'W', b'E', b'B', b'P'), TAG_WEBP);
    assert_eq!(fourcc(b'V', b'P', b'8', b' '), TAG_VP8);
    assert_eq!(fourcc(b'V', b'P', b'8', b'L'), TAG_VP8L);
    assert_eq!(fourcc(b'V', b'P', b'8', b'X'), TAG_VP8X);
    assert_eq!(fourcc(b'A', b'L', b'P', b'H'), TAG_ALPH);
    assert_eq!(fourcc(b'A', b'N', b'I', b'M'), TAG_ANIM);
    assert_eq!(fourcc(b'A', b'N', b'M', b'F'), TAG_ANMF);
    assert_eq!(fourcc(b'I', b'C', b'C', b'P'), TAG_ICCP);
    assert_eq!(fourcc(b'E', b'X', b'I', b'F'), TAG_EXIF);
    assert_eq!(fourcc(b'X', b'M', b'P', b' '), TAG_XMP);
    assert_eq!(fourcc(1, 2, 3, 4), 0x0403_0201);
    assert_ne!(fourcc(b'e', b'x', b'i', b'f'), TAG_EXIF);
}

#[test]
fn test_chunk_write_pads_odd_payload_with_zero() {
    assert_eq!(
        libwebp::chunk::write(TAG_EXIF, &[1, 2, 3]).unwrap(),
        vec![b'E', b'X', b'I', b'F', 3, 0, 0, 0, 1, 2, 3, 0]
    );
    assert_eq!(libwebp::chunk::write(TAG_XMP, &[1, 2]).unwrap(), vec![b'X', b'M', b'P', b' ', 2, 0, 0, 0, 1, 2]);
    assert_eq!(libwebp::chunk::write(TAG_ICCP, &[]).unwrap(), vec![b'I', b'C', b'C', b'P', 0, 0, 0, 0]);
    let long = vec![0xAB; 0x1_0203];
    let bytes = libwebp::chunk::write(TAG_ICCP, &long).unwrap();
    assert_eq!(&bytes[4..8], &[0x03, 0x02, 0x01, 0x00]);
    assert_eq!(bytes.len(), 8 + 0x1_0203 + 1);
}

#[test]
fn test_chunk_read_next_walks_and_stops() {
    let mut buf = libwebp::chunk::write(TAG_EXIF, &[1, 2, 3]).unwrap();
    buf[11] = 0x77;
    buf.extend_from_slice(&libwebp::chunk::write(fourcc(b'q', b'q', b'q', b'q'), &[4, 5]).unwrap());
    let mut reader = ChunkReader::new();
    assert_eq!(reader.read_next(&buf), Ok(Some(Chunk { tag: TAG_EXIF, payload: vec![1, 2, 3] })));
    assert_eq!(reader.cursor, 12);
    assert_eq!(
        reader.read_next(&buf),
        Ok(Some(Chunk { tag: fourcc(b'q', b'q', b'q', b'q'), payload: vec![4, 5] }))
    );
    assert_eq!(reader.cursor, 22);
    assert_eq!(reader.read_next(&buf), Ok(None));
    assert_eq!(reader.cursor, 22);
    assert_eq!(ChunkReader::at(100).read_next(&buf), Ok(None));
}

#[test]
fn test_chunk_read_next_truncated() {
    let buf = libwebp::chunk::write(TAG_EXIF, &[1, 2, 3]).unwrap();
    for k in 1..buf.len() {
        let mut reader = ChunkReader::new();
        assert_eq!(reader.read_next(&buf[..k]), Err(WebpError::TruncatedChunk));
        assert_eq!(reader.cursor, 0);
    }
    let mut reader = ChunkReader::new();
    assert!(reader.read_next(&buf).is_ok());
}

#[test]
fn test_bitstream_info() {
    assert_eq!(
        get_bitstream_info(&lossy_payload()),
        Some(BitstreamInfo { width: 3, height: 2, has_alpha: false, lossless: false })
    );
    assert_eq!(
        get_bitstream_info(&lossless_payload(16384, 7, true, &[])),
        Some(BitstreamInfo { width: 16384, height: 7, has_alpha: true, lossless: true })
    );
    assert_eq!(get_bitstream_info(&lossy_payload()[..9]), None);
    let mut not_key = lossy_payload();
    not_key[0] |= 1;
    assert_eq!(get_bitstream_info(&not_key), None);
    let mut hidden = lossy_payload();
    hidden[0] &= !0x10;
    assert_eq!(get_bitstream_info(&hidden), None);
    let mut code = lossy_payload();
    code[3] = 0x9c;
    assert_eq!(get_bitstream_info(&code), None);
    let mut long_partition = lossy_payload();
    long_partition[1] = 0x10;
    assert_eq!(get_bitstream_info(&long_partition), None);
    let mut zero_width = lossy_payload();
    zero_width[6] = 0;
    assert_eq!(get_bitstream_info(&zero_width), None);
    let mut version = lossless_payload(1, 1, false, &[]);
    version[4] |= 0x40;
    assert_eq!(get_bitstream_info(&version), None);
}

#[test]
fn test_assemble_simple_file() {
    let mut mux = WebPMuxNew();
    mux.set_image(&lossy_payload());
    assert_eq!(mux.assemble().unwrap(), sample());
    assert_eq!(mux.get_canvas_size(), Ok((3, 2)));
    assert_eq!(mux.get_features(), Ok(0));
}

#[test]
fn test_assemble_twice_gives_same_bytes() {
    let mux = animation();
    let first = mux.assemble().unwrap();
    let second = mux.assemble().unwrap();
    assert_eq!(first, second);
    assert_eq!(assemble(&mux.model).unwrap(), first);
}

#[test]
fn test_assemble_extended_still_exact_bytes() {
    let mut mux = WebPMuxNew();
    mux.set_image(&lossless_payload(1, 1, false, &[]));
    mux.set_chunk(TAG_EXIF, &[0xE1]).unwrap();
    let expected: Vec<u8> = [
        &b"RIFF"[..], &[46, 0, 0, 0], b"WEBP",
        b"VP8X", &[10, 0, 0, 0], &[0x08, 0, 0, 0, 0, 0, 0, 0, 0, 0],
        b"VP8L", &[5, 0, 0, 0], &[0x2f, 0, 0, 0, 0, 0],
        b"EXIF", &[1, 0, 0, 0], &[0xE1, 0],
    ]
    .concat();
    assert_eq!(mux.assemble().unwrap(), expected);
}

#[test]
fn test_assemble_animation_exact_bytes() {
    let mut mux = WebPMuxNew();
    mux.set_canvas(300, 260);
    mux.set_animation_params(WebPMuxAnimParams { bgcolor: 0x0403_0201, loop_count: 0x0605 });
    let mut f = frame(lossless_payload(2, 1, false, &[]), 6, 258, 0x03_0201);
    f.dispose_method = WebPMuxAnimDispose::WEBP_MUX_DISPOSE_BACKGROUND;
    f.blend_method = WebPMuxAnimBlend::WEBP_MUX_NO_BLEND;
    mux.push_frame(f);
    let expected: Vec<u8> = [
        &b"RIFF"[..], &[74, 0, 0, 0], b"WEBP",
        b"VP8X", &[10, 0, 0, 0], &[0x02, 0, 0, 0, 0x2b, 0x01, 0, 0x03, 0x01, 0],
        b"ANIM", &[6, 0, 0, 0], &[1, 2, 3, 4, 5, 6],
        b"ANMF", &[30, 0, 0, 0],
        &[3, 0, 0, 129, 0, 0, 1, 0, 0, 0, 0, 0, 1, 2, 3, 3],
        b"VP8L", &[5, 0, 0, 0], &[0x2f, 1, 0, 0, 0, 0],
    ]
    .concat();
    assert_eq!(mux.assemble().unwrap(), expected);
}

#[test]
fn test_demux_of_assembled_simple() {
    let mut mux = WebPMuxNew();
    mux.set_image(&lossy_payload());
    let bytes = mux.assemble().unwrap();
    let dmux = WebPDemux(&bytes).unwrap();
    assert_eq!(dmux.state, WebPDemuxState::WEBP_DEMUX_DONE);
    assert_eq!(dmux.flags, 0);
    let mut expected = ContainerModel { ..mux.model.clone() };
    expected.canvas_width = 3;
    expected.canvas_height = 2;
    assert_eq!(dmux.model, expected);
    assert_eq!(assemble(&dmux.model).unwrap(), bytes);
}

#[test]
fn test_demux_of_assembled_still_with_everything() {
    let mut mux = WebPMuxNew();
    mux.push_frame(WebPMuxFrameInfo {
        alpha: Some(vec![1, 2, 3, 4, 5]),
        id: WebPChunkId::WEBP_CHUNK_IMAGE,
        ..frame(lossy_payload(), 0, 0, 0)
    });
    mux.set_animation_params(WebPMuxAnimParams { bgcolor: 1, loop_count: 2 });
    mux.set_chunk(TAG_ICCP, b"profile").unwrap();
    mux.set_chunk(TAG_EXIF, b"exif").unwrap();
    mux.set_chunk(TAG_XMP, b"xmp").unwrap();
    mux.set_chunk(fourcc(b'u', b'n', b'k', b'1'), b"one").unwrap();
    mux.set_chunk(fourcc(b'u', b'n', b'k', b'2'), b"").unwrap();
    assert_eq!(mux.get_features(), Ok(0x04 | 0x08 | 0x10 | 0x20));
    let bytes = mux.assemble().unwrap();
    let dmux = WebPDemux(&bytes).unwrap();
    let mut expected = mux.model.clone();
    expected.canvas_width = 3;
    expected.canvas_height = 2;
    expected.anim = None;
    assert_eq!(dmux.model, expected);
    assert_eq!(dmux.flags, 0x3c);
    assert_eq!(assemble(&dmux.model).unwrap(), bytes);
}

#[test]
fn test_demux_of_assembled_animation() {
    let mux = animation();
    let bytes = mux.assemble().unwrap();
    let dmux = WebPDemux(&bytes).unwrap();
    let mut expected = mux.model.clone();
    expected.canvas_width = 6;
    expected.canvas_height = 7;
    assert_eq!(dmux.model, expected);
    assert_eq!(dmux.flags, 0x02 | 0x04 | 0x10);
    assert_eq!(dmux.model.frames.len(), 2);
    assert_eq!(dmux.model.frames[1].x_offset, 2);
    assert_eq!(dmux.model.frames[1].y_offset, 4);
    assert_eq!(dmux.model.frames[1].duration, 0x01_0203);
    assert_eq!(assemble(&dmux.model).unwrap(), bytes);
    let again = WebPMuxCreate(&bytes).unwrap();
    assert_eq!(again.assemble().unwrap(), bytes);
}

#[test]
fn test_demux_truncated_header_is_not_malformed() {
    let data = sample();
    assert_eq!(WebPDemux(&data[..16]).err(), Some(WebpError::TruncatedChunk));
    let (dmux, state) = WebPDemuxPartial(&data[..16]);
    assert!(dmux.is_none());
    assert_eq!(state, WebPDemuxState::WEBP_DEMUX_PARSING_HEADER);
    assert_eq!(WebPMuxCreate(&data[..16]).err(), Some(WebpError::TruncatedChunk));
}

#[test]
fn test_streaming_is_monotonic_on_every_prefix() {
    let bytes = animation().assemble().unwrap();
    let rank = |state: WebPDemuxState| match state {
        WebPDemuxState::WEBP_DEMUX_PARSE_ERROR => -1,
        WebPDemuxState::WEBP_DEMUX_PARSING_HEADER => 0,
        WebPDemuxState::WEBP_DEMUX_PARSED_HEADER => 1,
        WebPDemuxState::WEBP_DEMUX_DONE => 2,
    };
    let mut frames_before = Vec::new();
    let mut state_before = WebPDemuxState::WEBP_DEMUX_PARSING_HEADER;
    let mut seen_header = false;
    for k in 0..=bytes.len() {
        let (dmux, state) = WebPDemuxPartial(&bytes[..k]);
        assert_ne!(state, WebPDemuxState::WEBP_DEMUX_PARSE_ERROR);
        assert_eq!(state == WebPDemuxState::WEBP_DEMUX_DONE, k == bytes.len());
        if k < 30 {
            assert_eq!(state, WebPDemuxState::WEBP_DEMUX_PARSING_HEADER);
        }
        assert!(rank(state) >= rank(state_before));
        state_before = state;
        let frames = dmux.map_or(Vec::new(), |d| {
            seen_header = true;
            assert_eq!(WebPDemuxGetI(&d, WebPFormatFeature::WEBP_FF_CANVAS_WIDTH), 6);
            d.model.frames
        });
        assert!(frames.len() >= frames_before.len());
        assert_eq!(&frames[..frames_before.len()], &frames_before[..]);
        frames_before = frames;
        if k < bytes.len() {
            assert_eq!(WebPDemux(&bytes[..k]).err(), Some(WebpError::TruncatedChunk));
        }
    }
    assert!(seen_header);
    assert_eq!(frames_before.len(), 2);
}

#[test]
fn test_demux_ignores_bytes_behind_the_file() {
    let mut bytes = sample();
    bytes.extend_from_slice(&[1, 2, 3]);
    let dmux = WebPDemux(&bytes).unwrap();
    assert_eq!(dmux.model.frames.len(), 1);
}

#[test]
fn test_demux_malformed_files() {
    let malformed = |bytes: &[u8]| {
        assert_eq!(WebPDemux(bytes).err(), Some(WebpError::MalformedContainer));
        assert_eq!(WebPDemuxPartial(bytes).1, WebPDemuxState::WEBP_DEMUX_PARSE_ERROR);
    };
    let mut bad_magic = sample();
    bad_magic[3] = b'X';
    malformed(&bad_magic);
    let mut bad_form = sample();
    bad_form[11] = b'Q';
    malformed(&bad_form);
    let mut short_size = sample();
    short_size[4] = 0x54;
    malformed(&short_size);
    let mut tiny_size = sample();
    tiny_size[4] = 3;
    malformed(&tiny_size);
    let mut bad_image = sample();
    bad_image[23] = 0;
    malformed(&bad_image);
    let mut unknown_first = sample();
    unknown_first[12] = b'Z';
    malformed(&unknown_first);

    let file = |chunks: &[&[u8]]| {
        let body: Vec<u8> = chunks.concat();
        let mut bytes = b"RIFF".to_vec();
        bytes.extend_from_slice(&(4 + body.len() as u32).to_le_bytes());
        bytes.extend_from_slice(b"WEBP");
        bytes.extend_from_slice(&body);
        bytes
    };
    let vp8x = |flags: u8| libwebp::chunk::write(TAG_VP8X, &[flags, 0, 0, 0, 9, 0, 0, 9, 0, 0]).unwrap();
    let image = libwebp::chunk::write(TAG_VP8, &lossy_payload()).unwrap();
    let anim = libwebp::chunk::write(TAG_ANIM, &[0; 6]).unwrap();
    let mut anmf_payload = vec![0, 0, 0, 0, 0, 0, 2, 0, 0, 1, 0, 0, 0, 0, 0, 0];
    anmf_payload.extend_from_slice(&image);
    let anmf = libwebp::chunk::write(TAG_ANMF, &anmf_payload).unwrap();
    let exif = libwebp::chunk::write(TAG_EXIF, &[1]).unwrap();

    assert!(WebPDemux(&file(&[&vp8x(0), &image])).is_ok());
    assert!(WebPDemux(&file(&[&vp8x(2), &anim, &anmf, &anmf])).is_ok());
    malformed(&file(&[&vp8x(0)]));
    malformed(&file(&[&image, &exif]));
    malformed(&file(&[&vp8x(0), &vp8x(0), &image]));
    malformed(&file(&[&vp8x(0), &image, &image]));
    malformed(&file(&[&vp8x(0), &exif, &exif, &image]));
    malformed(&file(&[&vp8x(2), &anmf]));
    malformed(&file(&[&vp8x(2), &anim, &anim, &anmf]));
    malformed(&file(&[&vp8x(0), &anim, &anmf]));
    malformed(&file(&[&vp8x(2), &image]));
    malformed(&file(&[&vp8x(2), &anim, &anmf, &image]));
    malformed(&file(&[&vp8x(0), &libwebp::chunk::write(TAG_ALPH, &[1]).unwrap()]));
    malformed(&file(&[&libwebp::chunk::write(TAG_VP8X, &[0; 9]).unwrap(), &image]));
    malformed(&file(&[&libwebp::chunk::write(TAG_VP8X, &[0, 0, 0, 0, 1, 0, 0, 9, 0, 0]).unwrap(), &image]));
    let mut wrong_size = anmf_payload.clone();
    wrong_size[6] = 3;
    malformed(&file(&[&vp8x(2), &anim, &libwebp::chunk::write(TAG_ANMF, &wrong_size).unwrap()]));
    let mut off_canvas = anmf_payload.clone();
    off_canvas[0] = 4;
    malformed(&file(&[&vp8x(2), &anim, &libwebp::chunk::write(TAG_ANMF, &off_canvas).unwrap()]));
    let mut trailing = anmf_payload.clone();
    trailing.extend_from_slice(&[0; 3]);
    malformed(&file(&[&vp8x(2), &anim, &libwebp::chunk::write(TAG_ANMF, &trailing).unwrap()]));
}

#[test]
fn test_assemble_refuses_unsound_models() {
    let refused = |mux: &WebPMux| {
        assert_eq!(mux.assemble(), Err(WebpError::InvalidArgument));
    };
    refused(&WebPMuxNew());

    let mut mixed = WebPMuxNew();
    mixed.set_image(&lossy_payload());
    mixed.push_frame(frame(lossy_payload(), 0, 0, 1));
    refused(&mixed);

    let mut two_stills = WebPMuxNew();
    two_stills.set_image(&lossy_payload());
    let still = two_stills.get_frame(1).unwrap().clone();
    two_stills.push_frame(still);
    refused(&two_stills);

    let mut fragment = WebPMuxNew();
    fragment.push_frame(WebPMuxFrameInfo {
        id: WebPChunkId::WEBP_CHUNK_FRGM,
        ..frame(lossy_payload(), 0, 0, 0)
    });
    refused(&fragment);

    let mut bad_payload = WebPMuxNew();
    bad_payload.set_image(&[1, 2, 3]);
    refused(&bad_payload);

    let mut no_params = WebPMuxNew();
    no_params.push_frame(frame(lossy_payload(), 0, 0, 1));
    refused(&no_params);
    no_params.set_animation_params(WebPMuxAnimParams { bgcolor: 0, loop_count: 0x1_0000 });
    refused(&no_params);
    no_params.set_animation_params(WebPMuxAnimParams { bgcolor: 0, loop_count: 0xffff });
    assert!(no_params.assemble().is_ok());

    let mut odd = animation();
    odd.push_frame(frame(lossy_payload(), 1, 0, 1));
    refused(&odd);

    let mut long = animation();
    long.push_frame(frame(lossy_payload(), 0, 0, 0x100_0000));
    refused(&long);

    let mut off_canvas = animation();
    off_canvas.set_canvas(6, 6);
    refused(&off_canvas);
    off_canvas.set_canvas(6, 7);
    assert!(off_canvas.assemble().is_ok());
    off_canvas.set_canvas(6, 0);
    refused(&off_canvas);
    off_canvas.set_canvas(0x100_0001, 7);
    refused(&off_canvas);

    let mut moved_still = WebPMuxNew();
    moved_still.push_frame(WebPMuxFrameInfo {
        id: WebPChunkId::WEBP_CHUNK_IMAGE,
        ..frame(lossy_payload(), 0, 0, 5)
    });
    refused(&moved_still);

    let mut reserved = WebPMuxNew();
    reserved.set_image(&lossy_payload());
    reserved.model.unknown.push(Chunk { tag: TAG_ANMF, payload: vec![] });
    refused(&reserved);
}

#[test]
fn test_still_on_larger_canvas_gets_extended_header() {
    let mut mux = WebPMuxNew();
    mux.set_image(&lossy_payload());
    mux.set_canvas(3, 2);
    assert_eq!(mux.assemble().unwrap(), sample());
    mux.set_canvas(8, 8);
    let bytes = mux.assemble().unwrap();
    assert_eq!(&bytes[12..30], &[b'V', b'P', b'8', b'X', 10, 0, 0, 0, 0, 0, 0, 0, 7, 0, 0, 7, 0, 0]);
    assert_eq!(&bytes[30..], &sample()[12..]);
    let dmux = WebPDemux(&bytes).unwrap();
    assert_eq!((dmux.model.canvas_width, dmux.model.canvas_height), (8, 8));
    assert_eq!(dmux.model.frames, mux.model.frames);
    assert_eq!(libwebp::WebPGetInfo(&bytes), Ok((3, 2)));
    mux.set_canvas(2, 2);
    assert_eq!(mux.assemble(), Err(WebpError::InvalidArgument));
}

#[test]
fn test_mux_chunks_by_tag() {
    let mut mux = WebPMuxNew();
    let tag = fourcc(b't', b'e', b's', b't');
    let other = fourcc(b'T', b'E', b'S', b'T');
    assert_eq!(mux.get_chunk(TAG_EXIF), Err(WebpError::NotFound));
    assert_eq!(mux.get_chunk(tag), Err(WebpError::NotFound));
    assert_eq!(mux.delete_chunk(TAG_ICCP), Err(WebpError::NotFound));
    assert_eq!(mux.delete_chunk(tag), Err(WebpError::NotFound));
    for reserved in [TAG_VP8X, TAG_VP8, TAG_VP8L, TAG_ALPH, TAG_ANIM, TAG_ANMF] {
        assert_eq!(mux.set_chunk(reserved, &[1]), Err(WebpError::InvalidArgument));
        assert_eq!(mux.get_chunk(reserved), Err(WebpError::NotFound));
        assert_eq!(mux.delete_chunk(reserved), Err(WebpError::NotFound));
    }
    assert_eq!(mux.set_chunk(TAG_EXIF, &[1, 2]), Ok(()));
    assert_eq!(mux.set_chunk(tag, &[3]), Ok(()));
    assert_eq!(mux.set_chunk(other, &[4]), Ok(()));
    assert_eq!(mux.set_chunk(tag, &[5, 6]), Ok(()));
    assert_eq!(mux.get_chunk(TAG_EXIF), Ok(&[1u8, 2][..]));
    assert_eq!(mux.get_chunk(tag), Ok(&[5u8, 6][..]));
    assert_eq!(mux.get_chunk(other), Ok(&[4u8][..]));
    assert_eq!(mux.model.unknown.len(), 2);
    assert_eq!(mux.model.unknown[0], Chunk { tag, payload: vec![5, 6] });
    assert_eq!(mux.delete_chunk(tag), Ok(()));
    assert_eq!(mux.get_chunk(tag), Err(WebpError::NotFound));
    assert_eq!(mux.get_chunk(other), Ok(&[4u8][..]));
    assert_eq!(mux.delete_chunk(TAG_EXIF), Ok(()));
    assert_eq!(mux.get_chunk(TAG_EXIF), Err(WebpError::NotFound));
}

#[test]
fn test_mux_frames_are_counted_from_one() {
    let mut mux = animation();
    assert_eq!(mux.num_frames(), 2);
    assert_eq!(mux.get_frame(0).err(), Some(WebpError::NotFound));
    assert_eq!(mux.get_frame(3).err(), Some(WebpError::NotFound));
    assert_eq!(mux.get_frame(1).unwrap().duration, 100);
    assert_eq!(mux.get_frame(2).unwrap().duration, 0x01_0203);
    assert_eq!(mux.delete_frame(0), Err(WebpError::NotFound));
    assert_eq!(mux.delete_frame(3), Err(WebpError::NotFound));
    assert_eq!(mux.delete_frame(1), Ok(()));
    assert_eq!(mux.num_frames(), 1);
    assert_eq!(mux.get_frame(1).unwrap().duration, 0x01_0203);
    assert_eq!(
        mux.get_animation_params(),
        Ok(WebPMuxAnimParams { bgcolor: 0x1122_3344, loop_count: 7 })
    );
    assert_eq!(WebPMuxNew().get_animation_params(), Err(WebpError::NotFound));
}

#[test]
fn test_demux_features() {
    let dmux = WebPDemux(&animation().assemble().unwrap()).unwrap();
    assert_eq!(WebPDemuxGetI(&dmux, WebPFormatFeature::WEBP_FF_FORMAT_FLAGS), 0x16);
    assert_eq!(WebPDemuxGetI(&dmux, WebPFormatFeature::WEBP_FF_CANVAS_WIDTH), 6);
    assert_eq!(WebPDemuxGetI(&dmux, WebPFormatFeature::WEBP_FF_CANVAS_HEIGHT), 7);
    assert_eq!(WebPDemuxGetI(&dmux, WebPFormatFeature::WEBP_FF_LOOP_COUNT), 7);
    assert_eq!(WebPDemuxGetI(&dmux, WebPFormatFeature::WEBP_FF_BACKGROUND_COLOR), 0x1122_3344);
    assert_eq!(WebPDemuxGetI(&dmux, WebPFormatFeature::WEBP_FF_FRAME_COUNT), 2);
    let still = WebPDemux(&sample()).unwrap();
    assert_eq!(WebPDemuxGetI(&still, WebPFormatFeature::WEBP_FF_FORMAT_FLAGS), 0);
    assert_eq!(WebPDemuxGetI(&still, WebPFormatFeature::WEBP_FF_LOOP_COUNT), 1);
    assert_eq!(WebPDemuxGetI(&still, WebPFormatFeature::WEBP_FF_BACKGROUND_COLOR), 0xffff_ffff);
    assert_eq!(WebPDemuxGetI(&still, WebPFormatFeature::WEBP_FF_FRAME_COUNT), 1);
}

#[test]
fn test_demux_frame_cursor() {
    let dmux = WebPDemux(&animation().assemble().unwrap()).unwrap();
    assert_eq!(WebPDemuxGetFrame(&dmux, 0).err(), Some(WebpError::NotFound));
    assert_eq!(WebPDemuxGetFrame(&dmux, 3).err(), Some(WebpError::NotFound));
    let mut iter = WebPDemuxGetFrame(&dmux, 1).unwrap();
    assert_eq!((iter.frame_num, iter.num_frames), (1, 2));
    assert_eq!((iter.width, iter.height, iter.duration), (3, 2, 100));
    assert!(iter.complete && !iter.has_alpha);
    assert_eq!(iter.fragment, lossy_payload());
    assert!(!WebPDemuxPrevFrame(&dmux, &mut iter));
    assert_eq!(iter.frame_num, 1);
    assert!(WebPDemuxNextFrame(&dmux, &mut iter));
    assert_eq!(iter.frame_num, 2);
    assert_eq!((iter.x_offset, iter.y_offset, iter.width, iter.height), (2, 4, 4, 3));
    assert!(iter.has_alpha);
    assert_eq!(iter.dispose_method, WebPMuxAnimDispose::WEBP_MUX_DISPOSE_BACKGROUND);
    assert_eq!(iter.blend_method, WebPMuxAnimBlend::WEBP_MUX_NO_BLEND);
    let at_two = iter.clone();
    assert!(!WebPDemuxNextFrame(&dmux, &mut iter));
    assert_eq!(iter, at_two);
    assert!(WebPDemuxPrevFrame(&dmux, &mut iter));
    assert_eq!(iter, WebPDemuxGetFrame(&dmux, 1).unwrap());
}

#[test]
fn test_demux_chunk_cursor() {
    let tag = fourcc(b'm', b'a', b'n', b'y');
    let mut mux = animation();
    mux.model.unknown.push(Chunk { tag, payload: vec![1] });
    mux.model.unknown.push(Chunk { tag: fourcc(b'e', b'l', b's', b'e'), payload: vec![2] });
    mux.model.unknown.push(Chunk { tag, payload: vec![3] });
    let dmux = WebPDemux(&mux.assemble().unwrap()).unwrap();
    assert_eq!(WebPDemuxGetChunk(&dmux, TAG_EXIF, 1).err(), Some(WebpError::NotFound));
    assert_eq!(WebPDemuxGetChunk(&dmux, TAG_XMP, 0).err(), Some(WebpError::NotFound));
    assert_eq!(WebPDemuxGetChunk(&dmux, TAG_XMP, 2).err(), Some(WebpError::NotFound));
    let xmp = WebPDemuxGetChunk(&dmux, TAG_XMP, 1).unwrap();
    assert_eq!((xmp.chunk_num, xmp.num_chunks, &xmp.chunk[..]), (1, 1, &b"<x/>"[..]));
    assert_eq!(WebPDemuxGetChunk(&dmux, tag, 3).err(), Some(WebpError::NotFound));
    let mut iter = WebPDemuxGetChunk(&dmux, tag, 1).unwrap();
    assert_eq!((iter.chunk_num, iter.num_chunks, &iter.chunk[..]), (1, 2, &[1u8][..]));
    assert!(!WebPDemuxPrevChunk(&dmux, tag, &mut iter));
    assert!(WebPDemuxNextChunk(&dmux, tag, &mut iter));
    assert_eq!((iter.chunk_num, iter.num_chunks, &iter.chunk[..]), (2, 2, &[3u8][..]));
    assert!(!WebPDemuxNextChunk(&dmux, tag, &mut iter));
    assert_eq!(iter.chunk_num, 2);
    assert!(WebPDemuxPrevChunk(&dmux, tag, &mut iter));
    assert_eq!(&iter.chunk[..], &[1u8][..]);
}

#[test]
fn test_demux_stream_agrees_with_parsing_anew() {
    for bytes in [animation().assemble().unwrap(), sample()] {
        for step in [1, 7, 64] {
            let mut stream = DemuxStream::new();
            assert_eq!(stream.state(), WebPDemuxState::WEBP_DEMUX_PARSING_HEADER);
            let mut k = 0;
            loop {
                let state = stream.feed(&bytes[..k]);
                let (anew, expected) = WebPDemuxPartial(&bytes[..k]);
                assert_eq!(state, expected);
                assert_eq!(stream.state(), expected);
                match anew {
                    Some(d) => assert_eq!(stream.model(), &d.model),
                    None => assert!(stream.model().frames.is_empty()),
                }
                if k == bytes.len() {
                    break;
                }
                k = (k + step).min(bytes.len());
            }
            assert_eq!(stream.state(), WebPDemuxState::WEBP_DEMUX_DONE);
            let mut longer = bytes.clone();
            longer.push(0);
            assert_eq!(stream.feed(&longer), WebPDemuxState::WEBP_DEMUX_DONE);
            let dmux = stream.into_demuxer();
            assert_eq!(dmux.model, WebPDemux(&bytes).unwrap().model);
            assert_eq!(dmux.flags, WebPDemux(&bytes).unwrap().flags);
        }
    }
}

#[test]
fn test_demux_stream_malformed_stays_malformed() {
    let mut bytes = animation().assemble().unwrap();
    bytes[50] = b'X';
    bytes[51] = b'X';
    let mut stream = DemuxStream::new();
    let mut failed_at = None;
    for k in 0..=bytes.len() {
        let state = stream.feed(&bytes[..k]);
        assert_eq!(state, WebPDemuxPartial(&bytes[..k]).1);
        if state == WebPDemuxState::WEBP_DEMUX_PARSE_ERROR && failed_at.is_none() {
            failed_at = Some(k);
        }
        if failed_at.is_some() {
            assert_eq!(state, WebPDemuxState::WEBP_DEMUX_PARSE_ERROR);
            assert!(stream.model().frames.is_empty());
        }
    }
    assert!(failed_at.is_some());
}

#[test]
fn test_chunks_come_back_from_a_written_file() {
    let tag = fourcc(b'n', b'o', b't', b'e');
    let mut mux = WebPMuxNew();
    mux.set_image(&lossy_payload());
    mux.set_chunk(TAG_ICCP, b"profile").unwrap();
    mux.set_chunk(tag, b"hello").unwrap();
    let bytes = mux.assemble().unwrap();
    let mut again = WebPMuxCreate(&bytes).unwrap();
    assert_eq!(again.get_chunk(TAG_ICCP), Ok(&b"profile"[..]));
    assert_eq!(again.get_chunk(tag), Ok(&b"hello"[..]));
    for absent in [
        TAG_EXIF, TAG_XMP, TAG_ANIM, TAG_ANMF, TAG_ALPH, TAG_VP8, TAG_VP8L, TAG_VP8X,
        fourcc(b'N', b'O', b'T', b'E'),
    ] {
        assert_eq!(again.get_chunk(absent), Err(WebpError::NotFound));
        assert_eq!(again.delete_chunk(absent), Err(WebpError::NotFound));
    }
    assert_eq!(again.assemble().unwrap(), bytes);
    let animated = WebPMuxCreate(&animation().assemble().unwrap()).unwrap();
    assert_eq!(animated.get_chunk(TAG_ANIM), Err(WebpError::NotFound));
    assert!(animated.get_animation_params().is_ok());
}
