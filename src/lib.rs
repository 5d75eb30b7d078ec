//! Typed compression codecs for columnar pages.
//!
//! A column of fixed-width numbers is turned into big-endian bytes, handed to
//! a byte compressor, and appended to an output buffer; decompression runs
//! the same path backwards.

mod backend;
pub mod bytes;
pub mod codec;
pub mod error;
pub mod hadoop;
pub mod values;

pub use codec::{
    create_codec, lemma_hadoop_fallback, lemma_qcom_rejects_bytes, lemma_round_trip, BrotliCodec,
    Codec, CodecInstance, CodecOptions, CodecOptionsBuilder, CodecType, GZipCodec, LZ4Codec,
    LZ4HadoopCodec, LZ4RawCodec, QcomCodec, SnappyCodec, ZSTDCodec,
};
pub use error::CodecError;
pub use hadoop::{
    compress_hadoop_frame, decompress_hadoop_frames, lemma_frame_exact,
    lemma_frame_output_too_small, lemma_frame_truncated,
};
pub use values::{
    decode_bytes, from_bytes, lemma_marshal_inverse, spec_width, to_bytes, TypeTag, Values,
    ValuesView,
};
