//! A WebP container toolkit: a RIFF chunk reader and writer, a muxer and a
//! demuxer for the WebP file layout, and the bookkeeping of pixel decoding,
//! one-shot and incremental. Entropy coding of pixels is left to a pixel
//! codec outside this crate; everything here works on bytes and plain
//! values, and takes what the codec produced as an argument.

pub mod bitstream;
pub mod boxed;
pub mod buffer;
pub mod bytes;
pub mod checks;
pub mod chunk;
pub mod container;
pub mod convert;
pub mod decode;
pub mod demux;
pub mod demuxer;
pub mod encode;
pub mod error;
pub mod idec;
pub mod laws;
pub mod mux;
pub mod muxer;
pub mod rows;
pub mod simple;

pub use bitstream::{get_bitstream_info, BitstreamInfo};
pub use boxed::{WebpBox, WebpYuvBox};
pub use buffer::{WebPDecBuffer, WebPInitDecBuffer};
pub use checks::{check_int, check_stride};
pub use chunk::{fourcc, Chunk, ChunkReader};
pub use container::{
    ContainerModel, WebPChunkId, WebPMuxAnimBlend, WebPMuxAnimDispose, WebPMuxAnimParams,
    WebPMuxFrameInfo,
};
pub use convert::{PolyfillTryFrom, PolyfillTryInto};
pub use decode::{
    VP8StatusCode, WebPBitstreamFeatures, WebPBitstreamFormat, WebPGetFeatures, WebPGetInfo,
    WebPIsAlphaMode, WebPIsPremultipliedMode, WebPIsRGBMode, WEBP_CSP_MODE,
};
pub use demux::WebPDemuxState;
pub use demuxer::{
    DemuxStream, WebPChunkIterator, WebPDemux, WebPDemuxGetChunk, WebPDemuxGetFrame, WebPDemuxGetI,
    WebPDemuxNextChunk, WebPDemuxNextFrame, WebPDemuxPartial, WebPDemuxPrevChunk,
    WebPDemuxPrevFrame, WebPDemuxer, WebPFormatFeature, WebPIterator,
};
pub use encode::{
    WebPEncodeLosslessBGR, WebPEncodeLosslessBGRA, WebPEncodeLosslessRGB, WebPEncodeLosslessRGBA,
};
pub use error::{TryFromIntError, WebpError, WebpUnknownError};
pub use idec::{
    DecoderState, WebPIAppend, WebPIDecGetRGB, WebPIDecGetYUV, WebPIDecGetYUVA, WebPIDecodedArea,
    WebPIDecoder, WebPINewDecoder, WebPINewRGB, WebPINewYUV, WebPINewYUVA, WebPIUpdate,
};
pub use mux::assemble;
pub use muxer::{WebPMux, WebPMuxCreate, WebPMuxNew};
pub use simple::{
    WebPDecodeARGB, WebPDecodeARGBInto, WebPDecodeBGR, WebPDecodeBGRA, WebPDecodeBGRAInto,
    WebPDecodeBGRInto, WebPDecodeRGB, WebPDecodeRGBA, WebPDecodeRGBAInto, WebPDecodeRGBInto,
    WebPDecodeYUV, WebPDecodeYUVInto,
};
