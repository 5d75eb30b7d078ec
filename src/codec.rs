//! The codec contract, its implementations, and the factory that builds them.

use crate::backend::{
    brotli_compress, brotli_compressed, brotli_decompress, brotli_decompressed, gzip_compress,
    gzip_compressed, gzip_decompress, gzip_decompressed, lz4_block_compress, lz4_block_compressed,
    lz4_block_decompress, lz4_block_decompressed, lz4_frame_compress, lz4_frame_compressed,
    lz4_frame_decompress, lz4_frame_decompressed, qcom_compress_i16, qcom_compress_i32,
    qcom_compress_i64, qcom_compress_u16, qcom_compress_u32, qcom_compress_u64, qcom_compressed_i16,
    qcom_compressed_i32, qcom_compressed_i64, qcom_compressed_u16, qcom_compressed_u32,
    qcom_compressed_u64, qcom_decompress_i16, qcom_decompress_i32, qcom_decompress_i64,
    qcom_decompress_u16, qcom_decompress_u32, qcom_decompress_u64, qcom_decompressed_i16,
    qcom_decompressed_i32, qcom_decompressed_i64, qcom_decompressed_u16, qcom_decompressed_u32,
    qcom_decompressed_u64, snappy_compress, snappy_compressed, snappy_decompress,
    snappy_decompressed, zstd_compress, zstd_compressed, zstd_decompress, zstd_decompressed,
};
use crate::error::CodecError;
use crate::hadoop::{
    bytes_result, compress_hadoop_frame, decompress_hadoop_frames, frame_header, hadoop_decoded,
    hadoop_frames,
    hadoop_framed, lemma_frame_exact, PREFIX_LEN,
};
use crate::values::{
    decode_bytes, from_bytes, lemma_marshal_inverse, spec_width, to_bytes, TypeTag, Values, ValuesView,
};
use vstd::arithmetic::div_mod::lemma_mod_multiples_basic;
use vstd::prelude::*;

verus! {

/// What a byte compressor's failure means to a caller.
pub open spec fn backend_result(d: Option<Seq<u8>>) -> Result<Seq<u8>, CodecError> {
    match d {
        Some(b) => Ok(b),
        None => Err(CodecError::BackendFailure),
    }
}

/// The column of type `tag` read from the bytes a decompressor produced.
pub open spec fn column_of(d: Result<Seq<u8>, CodecError>, tag: TypeTag) -> Result<ValuesView, CodecError> {
    match d {
        Err(e) => Err(e),
        Ok(b) => if b.len() % spec_width(tag) == 0 {
            Ok(decode_bytes(tag, b))
        } else {
            Err(CodecError::LengthMismatch)
        },
    }
}

/// A compression algorithm for typed columns.
///
/// `compress` and `decompress` append to the buffer they are given and never
/// touch what it held before.
pub trait Codec: Sized {
    /// Whether the codec takes columns of type `tag`.
    spec fn handles(&self, tag: TypeTag) -> bool;

    /// The compressed form of `v`, or `None` where the compressor fails.
    spec fn encoded(&self, v: ValuesView) -> Option<Seq<u8>>;

    /// The column of type `tag` that `b` decompresses to, given the expected
    /// decompressed byte length `size`.
    spec fn decoded(&self, b: Seq<u8>, tag: TypeTag, size: Option<usize>) -> Result<ValuesView, CodecError>;

    /// Whether the codec takes columns of type `tag`.
    fn allowed(&mut self, tag: TypeTag) -> (r: bool)
        ensures
            r == old(self).handles(tag),
            *final(self) == *old(self),
    ;

    /// Compresses `input` and appends the result to `output`.
    fn compress(&mut self, input: &Values, output: &mut Vec<u8>) -> (r: Result<(), CodecError>)
        ensures
            *final(self) == *old(self),
            !old(self).handles(input@.tag()) ==> r == Err::<(), CodecError>(CodecError::UnsupportedType)
                && final(output)@ == old(output)@,
            old(self).handles(input@.tag()) ==> match old(self).encoded(input@) {
                Some(c) => r is Ok && final(output)@ == old(output)@ + c,
                None => r == Err::<(), CodecError>(CodecError::BackendFailure) && final(output)@ == old(
                    output,
                )@,
            },
    ;

    /// Decompresses `input` as a column of the type of `output`, appends it to
    /// `output`, and returns the number of elements appended.
    ///
    /// `uncompress_size` is the decompressed length in bytes, where known.
    fn decompress(&mut self, input: &[u8], output: &mut Values, uncompress_size: Option<usize>) -> (r:
        Result<usize, CodecError>)
        ensures
            *final(self) == *old(self),
            !old(self).handles(old(output)@.tag()) ==> r == Err::<usize, CodecError>(
                CodecError::UnsupportedType,
            ) && final(output)@ == old(output)@,
            old(self).handles(old(output)@.tag()) ==> match old(self).decoded(
                input@,
                old(output)@.tag(),
                uncompress_size,
            ) {
                Ok(v) => r == Ok::<usize, CodecError>(v.len() as usize) && final(output)@ == old(
                    output,
                )@.concat(v),
                Err(e) => r == Err::<usize, CodecError>(e) && final(output)@ == old(output)@,
            },
    ;
}

/// Appends what a byte compressor produced to `output`.
fn append_compressed(c: Option<Vec<u8>>, output: &mut Vec<u8>) -> (r: Result<(), CodecError>)
    ensures
        match c {
            Some(v) => r is Ok && final(output)@ == old(output)@ + v@,
            None => r == Err::<(), CodecError>(CodecError::BackendFailure) && final(output)@ == old(
                output,
            )@,
        },
{
    match c {
        Some(v) => {
            crate::bytes::push_all(output, v.as_slice());
            Ok(())
        },
        None => Err(CodecError::BackendFailure),
    }
}

/// Reads the bytes a decompressor produced as a column of the type of
/// `output`, appends it, and returns the number of elements appended.
pub fn append_decompressed(d: Result<Vec<u8>, CodecError>, output: &mut Values) -> (r: Result<usize, CodecError>)
    ensures
        match column_of(bytes_result(d), old(output)@.tag()) {
            Ok(v) => r == Ok::<usize, CodecError>(v.len() as usize) && final(output)@ == old(output)@.concat(v),
            Err(e) => r == Err::<usize, CodecError>(e) && final(output)@ == old(output)@,
        },
{
    match d {
        Err(e) => Err(e),
        Ok(bytes) => {
            let tag = output.tag();
            match from_bytes(tag, bytes.as_slice()) {
                Err(e) => Err(e),
                Ok(values) => {
                    let n = values.len();
                    output.append(values);
                    Ok(n)
                },
            }
        },
    }
}

/// The byte result of a decompressor call, with its failure mapped.
fn from_backend(d: Option<Vec<u8>>) -> (r: Result<Vec<u8>, CodecError>)
    ensures
        bytes_result(r) == backend_result(
            match d {
                Some(v) => Some(v@),
                None => None,
            },
        ),
{
    match d {
        Some(v) => Ok(v),
        None => Err(CodecError::BackendFailure),
    }
}

/// Buffer size handed to the Brotli compressor and decompressor.
pub const BROTLI_BUFFER_SIZE: usize = 4096;

/// Brotli quality: fast, on a scale up to 11.
pub const BROTLI_QUALITY: u32 = 1;

/// Base-2 logarithm of the Brotli window.
pub const BROTLI_LG_WINDOW: u32 = 22;

/// Zstandard level: fast, on a scale up to 21.
pub const ZSTD_LEVEL: i32 = 1;

/// q_compress level: the crate's default.
pub const QCOM_LEVEL: usize = 8;

/// What a raw LZ4 block decodes to, given the exact decompressed length.
pub open spec fn raw_decoded(b: Seq<u8>, size: Option<usize>) -> Result<Seq<u8>, CodecError> {
    match size {
        None => Err(CodecError::MissingExpectedLength),
        Some(n) => if n > i32::MAX {
            Err(CodecError::BackendFailure)
        } else {
            match lz4_block_decompressed(b, n as nat) {
                None => Err(CodecError::BackendFailure),
                Some(d) => if d.len() != n {
                    Err(CodecError::SizeMismatch)
                } else {
                    Ok(d)
                },
            }
        },
    }
}

fn decompress_raw(input: &[u8], size: Option<usize>) -> (r: Result<Vec<u8>, CodecError>)
    ensures
        bytes_result(r) == raw_decoded(input@, size),
{
    match size {
        None => Err(CodecError::MissingExpectedLength),
        Some(n) => {
            if n > i32::MAX as usize {
                return Err(CodecError::BackendFailure);
            }
            match lz4_block_decompress(input, n) {
                None => Err(CodecError::BackendFailure),
                Some(d) => {
                    if d.len() != n {
                        Err(CodecError::SizeMismatch)
                    } else {
                        Ok(d)
                    }
                },
            }
        },
    }
}

/// What a Hadoop LZ4 stream decodes to: the frames, which must fill the
/// expected length exactly; where they fail and `fallback` is set, an LZ4
/// frame, and then a raw LZ4 block of the expected length.
pub open spec fn hadoop_codec_decoded(b: Seq<u8>, size: Option<usize>, fallback: bool) -> Result<Seq<u8>, CodecError> {
    match size {
        None => Err(CodecError::MissingExpectedLength),
        Some(n) => match hadoop_decoded(b, n as nat) {
            Ok(d) => if d.len() != n {
                Err(CodecError::SizeMismatch)
            } else {
                Ok(d)
            },
            Err(e) => if !fallback {
                Err(e)
            } else {
                match lz4_frame_decompressed(b) {
                    Some(d) => Ok(d),
                    None => raw_decoded(b, size),
                }
            },
        },
    }
}

/// The Snappy codec.
#[derive(Debug, PartialEq, Eq, Structural)]
pub struct SnappyCodec {}

impl SnappyCodec {
    pub fn new() -> (r: Self)
        ensures
            r == (SnappyCodec {  }),
    {
        SnappyCodec {  }
    }
}

impl Codec for SnappyCodec {
    open spec fn handles(&self, tag: TypeTag) -> bool {
        true
    }

    open spec fn encoded(&self, v: ValuesView) -> Option<Seq<u8>> {
        snappy_compressed(v.bytes())
    }

    open spec fn decoded(&self, b: Seq<u8>, tag: TypeTag, size: Option<usize>) -> Result<ValuesView, CodecError> {
        column_of(backend_result(snappy_decompressed(b)), tag)
    }

    fn allowed(&mut self, _tag: TypeTag) -> (r: bool) {
        true
    }

    fn compress(&mut self, input: &Values, output: &mut Vec<u8>) -> (r: Result<(), CodecError>) {
        let bytes = to_bytes(input);
        append_compressed(snappy_compress(bytes.as_slice()), output)
    }

    fn decompress(&mut self, input: &[u8], output: &mut Values, _uncompress_size: Option<usize>) -> (r:
        Result<usize, CodecError>) {
        append_decompressed(from_backend(snappy_decompress(input)), output)
    }
}

/// The GZIP codec.
#[derive(Debug, PartialEq, Eq, Structural)]
pub struct GZipCodec {}

impl GZipCodec {
    pub fn new() -> (r: Self)
        ensures
            r == (GZipCodec {  }),
    {
        GZipCodec {  }
    }
}

impl Codec for GZipCodec {
    open spec fn handles(&self, tag: TypeTag) -> bool {
        true
    }

    open spec fn encoded(&self, v: ValuesView) -> Option<Seq<u8>> {
        gzip_compressed(v.bytes())
    }

    open spec fn decoded(&self, b: Seq<u8>, tag: TypeTag, size: Option<usize>) -> Result<ValuesView, CodecError> {
        column_of(backend_result(gzip_decompressed(b)), tag)
    }

    fn allowed(&mut self, _tag: TypeTag) -> (r: bool) {
        true
    }

    fn compress(&mut self, input: &Values, output: &mut Vec<u8>) -> (r: Result<(), CodecError>) {
        let bytes = to_bytes(input);
        append_compressed(gzip_compress(bytes.as_slice()), output)
    }

    fn decompress(&mut self, input: &[u8], output: &mut Values, _uncompress_size: Option<usize>) -> (r:
        Result<usize, CodecError>) {
        append_decompressed(from_backend(gzip_decompress(input)), output)
    }
}

/// The Brotli codec.
#[derive(Debug, PartialEq, Eq, Structural)]
pub struct BrotliCodec {}

impl BrotliCodec {
    pub fn new() -> (r: Self)
        ensures
            r == (BrotliCodec {  }),
    {
        BrotliCodec {  }
    }
}

impl Codec for BrotliCodec {
    open spec fn handles(&self, tag: TypeTag) -> bool {
        true
    }

    open spec fn encoded(&self, v: ValuesView) -> Option<Seq<u8>> {
        brotli_compressed(v.bytes(), BROTLI_BUFFER_SIZE as nat, BROTLI_QUALITY as nat, BROTLI_LG_WINDOW as nat)
    }

    open spec fn decoded(&self, b: Seq<u8>, tag: TypeTag, size: Option<usize>) -> Result<ValuesView, CodecError> {
        column_of(backend_result(brotli_decompressed(b, BROTLI_BUFFER_SIZE as nat)), tag)
    }

    fn allowed(&mut self, _tag: TypeTag) -> (r: bool) {
        true
    }

    fn compress(&mut self, input: &Values, output: &mut Vec<u8>) -> (r: Result<(), CodecError>) {
        let bytes = to_bytes(input);
        append_compressed(brotli_compress(bytes.as_slice(), BROTLI_BUFFER_SIZE, BROTLI_QUALITY, BROTLI_LG_WINDOW), output)
    }

    fn decompress(&mut self, input: &[u8], output: &mut Values, _uncompress_size: Option<usize>) -> (r:
        Result<usize, CodecError>) {
        append_decompressed(from_backend(brotli_decompress(input, BROTLI_BUFFER_SIZE)), output)
    }
}

/// The LZ4 frame codec.
#[derive(Debug, PartialEq, Eq, Structural)]
pub struct LZ4Codec {}

impl LZ4Codec {
    pub fn new() -> (r: Self)
        ensures
            r == (LZ4Codec {  }),
    {
        LZ4Codec {  }
    }
}

impl Codec for LZ4Codec {
    open spec fn handles(&self, tag: TypeTag) -> bool {
        true
    }

    open spec fn encoded(&self, v: ValuesView) -> Option<Seq<u8>> {
        lz4_frame_compressed(v.bytes())
    }

    open spec fn decoded(&self, b: Seq<u8>, tag: TypeTag, size: Option<usize>) -> Result<ValuesView, CodecError> {
        column_of(backend_result(lz4_frame_decompressed(b)), tag)
    }

    fn allowed(&mut self, _tag: TypeTag) -> (r: bool) {
        true
    }

    fn compress(&mut self, input: &Values, output: &mut Vec<u8>) -> (r: Result<(), CodecError>) {
        let bytes = to_bytes(input);
        append_compressed(lz4_frame_compress(bytes.as_slice()), output)
    }

    fn decompress(&mut self, input: &[u8], output: &mut Values, _uncompress_size: Option<usize>) -> (r:
        Result<usize, CodecError>) {
        append_decompressed(from_backend(lz4_frame_decompress(input)), output)
    }
}

/// The Zstandard codec.
#[derive(Debug, PartialEq, Eq, Structural)]
pub struct ZSTDCodec {}

impl ZSTDCodec {
    pub fn new() -> (r: Self)
        ensures
            r == (ZSTDCodec {  }),
    {
        ZSTDCodec {  }
    }
}

impl Codec for ZSTDCodec {
    open spec fn handles(&self, tag: TypeTag) -> bool {
        true
    }

    open spec fn encoded(&self, v: ValuesView) -> Option<Seq<u8>> {
        zstd_compressed(v.bytes(), ZSTD_LEVEL as int)
    }

    open spec fn decoded(&self, b: Seq<u8>, tag: TypeTag, size: Option<usize>) -> Result<ValuesView, CodecError> {
        column_of(backend_result(zstd_decompressed(b)), tag)
    }

    fn allowed(&mut self, _tag: TypeTag) -> (r: bool) {
        true
    }

    fn compress(&mut self, input: &Values, output: &mut Vec<u8>) -> (r: Result<(), CodecError>) {
        let bytes = to_bytes(input);
        append_compressed(zstd_compress(bytes.as_slice(), ZSTD_LEVEL), output)
    }

    fn decompress(&mut self, input: &[u8], output: &mut Values, _uncompress_size: Option<usize>) -> (r:
        Result<usize, CodecError>) {
        append_decompressed(from_backend(zstd_decompress(input)), output)
    }
}

/// The raw LZ4 block codec. Decompression needs the exact decompressed length.
#[derive(Debug, PartialEq, Eq, Structural)]
pub struct LZ4RawCodec {}

impl LZ4RawCodec {
    pub fn new() -> (r: Self)
        ensures
            r == (LZ4RawCodec {  }),
    {
        LZ4RawCodec {  }
    }
}

impl Codec for LZ4RawCodec {
    open spec fn handles(&self, tag: TypeTag) -> bool {
        true
    }

    open spec fn encoded(&self, v: ValuesView) -> Option<Seq<u8>> {
        lz4_block_compressed(v.bytes())
    }

    open spec fn decoded(&self, b: Seq<u8>, tag: TypeTag, size: Option<usize>) -> Result<ValuesView, CodecError> {
        column_of(raw_decoded(b, size), tag)
    }

    fn allowed(&mut self, _tag: TypeTag) -> (r: bool) {
        true
    }

    fn compress(&mut self, input: &Values, output: &mut Vec<u8>) -> (r: Result<(), CodecError>) {
        let bytes = to_bytes(input);
        append_compressed(lz4_block_compress(bytes.as_slice()), output)
    }

    fn decompress(&mut self, input: &[u8], output: &mut Values, uncompress_size: Option<usize>) -> (r:
        Result<usize, CodecError>) {
        append_decompressed(decompress_raw(input, uncompress_size), output)
    }
}

/// The Hadoop LZ4 codec: LZ4 blocks in Hadoop frames. Decompression needs the
/// exact decompressed length.
#[derive(Debug, PartialEq, Eq, Structural)]
pub struct LZ4HadoopCodec {
    /// Whether to retry as an LZ4 frame, then as a raw LZ4 block, where the
    /// Hadoop frames do not parse.
    pub backward_compatible_lz4: bool,
}

impl LZ4HadoopCodec {
    pub fn new(backward_compatible_lz4: bool) -> (r: Self)
        ensures
            r == (LZ4HadoopCodec { backward_compatible_lz4 }),
    {
        LZ4HadoopCodec { backward_compatible_lz4 }
    }
}

/// The first of the Hadoop frames, an LZ4 frame, and a raw LZ4 block that
/// decodes `input`, as `hadoop_codec_decoded` orders them.
fn decompress_hadoop(input: &[u8], size: Option<usize>, fallback: bool) -> (r: Result<Vec<u8>, CodecError>)
    ensures
        bytes_result(r) == hadoop_codec_decoded(input@, size, fallback),
{
    let n = match size {
        None => {
            return Err(CodecError::MissingExpectedLength);
        },
        Some(n) => n,
    };
    match decompress_hadoop_frames(input, n) {
        Ok(d) => {
            if d.len() != n {
                Err(CodecError::SizeMismatch)
            } else {
                Ok(d)
            }
        },
        Err(e) => {
            if !fallback {
                return Err(e);
            }
            match lz4_frame_decompress(input) {
                Some(d) => Ok(d),
                None => decompress_raw(input, size),
            }
        },
    }
}

impl Codec for LZ4HadoopCodec {
    open spec fn handles(&self, tag: TypeTag) -> bool {
        true
    }

    open spec fn encoded(&self, v: ValuesView) -> Option<Seq<u8>> {
        hadoop_framed(v.bytes())
    }

    open spec fn decoded(&self, b: Seq<u8>, tag: TypeTag, size: Option<usize>) -> Result<ValuesView, CodecError> {
        column_of(hadoop_codec_decoded(b, size, self.backward_compatible_lz4), tag)
    }

    fn allowed(&mut self, _tag: TypeTag) -> (r: bool) {
        true
    }

    fn compress(&mut self, input: &Values, output: &mut Vec<u8>) -> (r: Result<(), CodecError>) {
        let bytes = to_bytes(input);
        append_compressed(compress_hadoop_frame(bytes.as_slice()), output)
    }

    fn decompress(&mut self, input: &[u8], output: &mut Values, uncompress_size: Option<usize>) -> (r:
        Result<usize, CodecError>) {
        append_decompressed(
            decompress_hadoop(input, uncompress_size, self.backward_compatible_lz4),
            output,
        )
    }
}

/// The q_compress codec for numeric columns of 16 bits and more.
///
/// Floating-point columns are compressed as their bit patterns, that is as
/// q_compress streams of `u32` or `u64`. q_compress records the number type
/// in its header, so these streams are not the float streams that
/// `auto_compress::<f32>` or `auto_compress::<f64>` write: a float stream of
/// that kind fails here with `BackendFailure`, and a stream written here is
/// refused by a float decoder.
#[derive(Debug, PartialEq, Eq, Structural)]
pub struct QcomCodec {}

impl QcomCodec {
    pub fn new() -> (r: Self)
        ensures
            r == (QcomCodec {  }),
    {
        QcomCodec {  }
    }
}

/// The q_compress stream of a column, `None` for byte columns.
pub open spec fn qcom_encoded(v: ValuesView) -> Option<Seq<u8>> {
    match v {
        ValuesView::U16(s) => Some(qcom_compressed_u16(s, QCOM_LEVEL as nat)),
        ValuesView::U32(s) => Some(qcom_compressed_u32(s, QCOM_LEVEL as nat)),
        ValuesView::U64(s) => Some(qcom_compressed_u64(s, QCOM_LEVEL as nat)),
        ValuesView::I16(s) => Some(qcom_compressed_i16(s, QCOM_LEVEL as nat)),
        ValuesView::I32(s) => Some(qcom_compressed_i32(s, QCOM_LEVEL as nat)),
        ValuesView::I64(s) => Some(qcom_compressed_i64(s, QCOM_LEVEL as nat)),
        ValuesView::F32(s) => Some(qcom_compressed_u32(s, QCOM_LEVEL as nat)),
        ValuesView::F64(s) => Some(qcom_compressed_u64(s, QCOM_LEVEL as nat)),
        _ => None,
    }
}

/// The column of type `tag` in the q_compress stream `b`.
pub open spec fn qcom_decoded(b: Seq<u8>, tag: TypeTag) -> Result<ValuesView, CodecError> {
    match tag {
        TypeTag::U16 => match qcom_decompressed_u16(b) {
            Some(s) => Ok(ValuesView::U16(s)),
            None => Err(CodecError::BackendFailure),
        },
        TypeTag::U32 => match qcom_decompressed_u32(b) {
            Some(s) => Ok(ValuesView::U32(s)),
            None => Err(CodecError::BackendFailure),
        },
        TypeTag::U64 => match qcom_decompressed_u64(b) {
            Some(s) => Ok(ValuesView::U64(s)),
            None => Err(CodecError::BackendFailure),
        },
        TypeTag::I16 => match qcom_decompressed_i16(b) {
            Some(s) => Ok(ValuesView::I16(s)),
            None => Err(CodecError::BackendFailure),
        },
        TypeTag::I32 => match qcom_decompressed_i32(b) {
            Some(s) => Ok(ValuesView::I32(s)),
            None => Err(CodecError::BackendFailure),
        },
        TypeTag::I64 => match qcom_decompressed_i64(b) {
            Some(s) => Ok(ValuesView::I64(s)),
            None => Err(CodecError::BackendFailure),
        },
        TypeTag::F32 => match qcom_decompressed_u32(b) {
            Some(s) => Ok(ValuesView::F32(s)),
            None => Err(CodecError::BackendFailure),
        },
        TypeTag::F64 => match qcom_decompressed_u64(b) {
            Some(s) => Ok(ValuesView::F64(s)),
            None => Err(CodecError::BackendFailure),
        },
        _ => Err(CodecError::UnsupportedType),
    }
}

impl Codec for QcomCodec {
    open spec fn handles(&self, tag: TypeTag) -> bool {
        tag != TypeTag::U8 && tag != TypeTag::I8
    }

    open spec fn encoded(&self, v: ValuesView) -> Option<Seq<u8>> {
        qcom_encoded(v)
    }

    open spec fn decoded(&self, b: Seq<u8>, tag: TypeTag, size: Option<usize>) -> Result<ValuesView, CodecError> {
        qcom_decoded(b, tag)
    }

    fn allowed(&mut self, tag: TypeTag) -> (r: bool) {
        match tag {
            TypeTag::U8 | TypeTag::I8 => false,
            _ => true,
        }
    }

    fn compress(&mut self, input: &Values, output: &mut Vec<u8>) -> (r: Result<(), CodecError>) {
        let c = match input {
            Values::U16(s) => qcom_compress_u16(s.as_slice(), QCOM_LEVEL),
            Values::U32(s) => qcom_compress_u32(s.as_slice(), QCOM_LEVEL),
            Values::U64(s) => qcom_compress_u64(s.as_slice(), QCOM_LEVEL),
            Values::I16(s) => qcom_compress_i16(s.as_slice(), QCOM_LEVEL),
            Values::I32(s) => qcom_compress_i32(s.as_slice(), QCOM_LEVEL),
            Values::I64(s) => qcom_compress_i64(s.as_slice(), QCOM_LEVEL),
            Values::F32(s) => qcom_compress_u32(s.as_slice(), QCOM_LEVEL),
            Values::F64(s) => qcom_compress_u64(s.as_slice(), QCOM_LEVEL),
            _ => {
                return Err(CodecError::UnsupportedType);
            },
        };
        append_compressed(Some(c), output)
    }

    fn decompress(&mut self, input: &[u8], output: &mut Values, _uncompress_size: Option<usize>) -> (r:
        Result<usize, CodecError>) {
        match output {
            Values::U16(o) => match qcom_decompress_u16(input) {
                Some(mut v) => {
                    let n = v.len();
                    o.append(&mut v);
                    Ok(n)
                },
                None => Err(CodecError::BackendFailure),
            },
            Values::U32(o) => match qcom_decompress_u32(input) {
                Some(mut v) => {
                    let n = v.len();
                    o.append(&mut v);
                    Ok(n)
                },
                None => Err(CodecError::BackendFailure),
            },
            Values::U64(o) => match qcom_decompress_u64(input) {
                Some(mut v) => {
                    let n = v.len();
                    o.append(&mut v);
                    Ok(n)
                },
                None => Err(CodecError::BackendFailure),
            },
            Values::I16(o) => match qcom_decompress_i16(input) {
                Some(mut v) => {
                    let n = v.len();
                    o.append(&mut v);
                    Ok(n)
                },
                None => Err(CodecError::BackendFailure),
            },
            Values::I32(o) => match qcom_decompress_i32(input) {
                Some(mut v) => {
                    let n = v.len();
                    o.append(&mut v);
                    Ok(n)
                },
                None => Err(CodecError::BackendFailure),
            },
            Values::I64(o) => match qcom_decompress_i64(input) {
                Some(mut v) => {
                    let n = v.len();
                    o.append(&mut v);
                    Ok(n)
                },
                None => Err(CodecError::BackendFailure),
            },
            Values::F32(o) => match qcom_decompress_u32(input) {
                Some(mut v) => {
                    let n = v.len();
                    o.append(&mut v);
                    Ok(n)
                },
                None => Err(CodecError::BackendFailure),
            },
            Values::F64(o) => match qcom_decompress_u64(input) {
                Some(mut v) => {
                    let n = v.len();
                    o.append(&mut v);
                    Ok(n)
                },
                None => Err(CodecError::BackendFailure),
            },
            _ => Err(CodecError::UnsupportedType),
        }
    }
}

/// The compression algorithm of a page.
#[allow(non_camel_case_types)]
#[derive(Clone, Copy, Debug, PartialEq, Eq, Structural)]
pub enum CodecType {
    UNCOMPRESSED,
    SNAPPY,
    GZIP,
    LZO,
    BROTLI,
    LZ4,
    ZSTD,
    LZ4_RAW,
    LZ4_FRAME,
    QCOM,
}

/// Options fixed when a codec is built.
#[derive(Debug, PartialEq, Eq, Structural)]
pub struct CodecOptions {
    /// Whether the Hadoop LZ4 codec falls back to the older LZ4 formats where
    /// its frames do not parse.
    backward_compatible_lz4: bool,
}

impl CodecOptions {
    pub closed spec fn spec_backward_compatible_lz4(&self) -> bool {
        self.backward_compatible_lz4
    }

    /// Whether the Hadoop LZ4 codec falls back to the older LZ4 formats.
    pub fn backward_compatible_lz4(&self) -> (r: bool)
        ensures
            r == self.spec_backward_compatible_lz4(),
    {
        self.backward_compatible_lz4
    }
}

impl Default for CodecOptions {
    /// The options of `CodecOptionsBuilder::default`: fallback on.
    fn default() -> (r: Self)
        ensures
            r.spec_backward_compatible_lz4(),
    {
        CodecOptionsBuilder::default().build()
    }
}

/// Builds `CodecOptions`.
pub struct CodecOptionsBuilder {
    /// Whether the Hadoop LZ4 codec falls back to the older LZ4 formats where
    /// its frames do not parse.
    backward_compatible_lz4: bool,
}

impl Default for CodecOptionsBuilder {
    /// A builder with the fallback on.
    fn default() -> (r: Self)
        ensures
            r.spec_backward_compatible_lz4(),
    {
        CodecOptionsBuilder { backward_compatible_lz4: true }
    }
}

impl CodecOptionsBuilder {
    pub closed spec fn spec_backward_compatible_lz4(&self) -> bool {
        self.backward_compatible_lz4
    }

    /// Turns the Hadoop LZ4 fallback on or off.
    ///
    /// With it on, a Hadoop LZ4 stream whose frames do not parse is read
    /// again as an LZ4 frame, as older writers of this library produced, and
    /// then as a raw LZ4 block, as older C++ writers produced. With it off,
    /// the frame error is returned.
    pub fn set_backward_compatible_lz4(self, value: bool) -> (r: CodecOptionsBuilder)
        ensures
            r.spec_backward_compatible_lz4() == value,
    {
        let mut b = self;
        b.backward_compatible_lz4 = value;
        b
    }

    /// The options set so far.
    pub fn build(self) -> (r: CodecOptions)
        ensures
            r.spec_backward_compatible_lz4() == self.spec_backward_compatible_lz4(),
    {
        CodecOptions { backward_compatible_lz4: self.backward_compatible_lz4 }
    }
}

/// A codec of any of the supported algorithms.
#[derive(Debug, PartialEq, Eq, Structural)]
pub enum CodecInstance {
    Snappy(SnappyCodec),
    GZip(GZipCodec),
    Brotli(BrotliCodec),
    LZ4Hadoop(LZ4HadoopCodec),
    ZSTD(ZSTDCodec),
    LZ4Raw(LZ4RawCodec),
    LZ4Frame(LZ4Codec),
    Qcom(QcomCodec),
}

impl CodecInstance {
    /// The algorithm of the codec.
    pub open spec fn spec_codec_type(&self) -> CodecType {
        match self {
            CodecInstance::Snappy(_) => CodecType::SNAPPY,
            CodecInstance::GZip(_) => CodecType::GZIP,
            CodecInstance::Brotli(_) => CodecType::BROTLI,
            CodecInstance::LZ4Hadoop(_) => CodecType::LZ4,
            CodecInstance::ZSTD(_) => CodecType::ZSTD,
            CodecInstance::LZ4Raw(_) => CodecType::LZ4_RAW,
            CodecInstance::LZ4Frame(_) => CodecType::LZ4_FRAME,
            CodecInstance::Qcom(_) => CodecType::QCOM,
        }
    }

    /// The algorithm of the codec.
    pub fn codec_type(&self) -> (r: CodecType)
        ensures
            r == self.spec_codec_type(),
    {
        match self {
            CodecInstance::Snappy(_) => CodecType::SNAPPY,
            CodecInstance::GZip(_) => CodecType::GZIP,
            CodecInstance::Brotli(_) => CodecType::BROTLI,
            CodecInstance::LZ4Hadoop(_) => CodecType::LZ4,
            CodecInstance::ZSTD(_) => CodecType::ZSTD,
            CodecInstance::LZ4Raw(_) => CodecType::LZ4_RAW,
            CodecInstance::LZ4Frame(_) => CodecType::LZ4_FRAME,
            CodecInstance::Qcom(_) => CodecType::QCOM,
        }
    }
}

impl Codec for CodecInstance {
    open spec fn handles(&self, tag: TypeTag) -> bool {
        match self {
            CodecInstance::Snappy(c) => c.handles(tag),
            CodecInstance::GZip(c) => c.handles(tag),
            CodecInstance::Brotli(c) => c.handles(tag),
            CodecInstance::LZ4Hadoop(c) => c.handles(tag),
            CodecInstance::ZSTD(c) => c.handles(tag),
            CodecInstance::LZ4Raw(c) => c.handles(tag),
            CodecInstance::LZ4Frame(c) => c.handles(tag),
            CodecInstance::Qcom(c) => c.handles(tag),
        }
    }

    open spec fn encoded(&self, v: ValuesView) -> Option<Seq<u8>> {
        match self {
            CodecInstance::Snappy(c) => c.encoded(v),
            CodecInstance::GZip(c) => c.encoded(v),
            CodecInstance::Brotli(c) => c.encoded(v),
            CodecInstance::LZ4Hadoop(c) => c.encoded(v),
            CodecInstance::ZSTD(c) => c.encoded(v),
            CodecInstance::LZ4Raw(c) => c.encoded(v),
            CodecInstance::LZ4Frame(c) => c.encoded(v),
            CodecInstance::Qcom(c) => c.encoded(v),
        }
    }

    open spec fn decoded(&self, b: Seq<u8>, tag: TypeTag, size: Option<usize>) -> Result<ValuesView, CodecError> {
        match self {
            CodecInstance::Snappy(c) => c.decoded(b, tag, size),
            CodecInstance::GZip(c) => c.decoded(b, tag, size),
            CodecInstance::Brotli(c) => c.decoded(b, tag, size),
            CodecInstance::LZ4Hadoop(c) => c.decoded(b, tag, size),
            CodecInstance::ZSTD(c) => c.decoded(b, tag, size),
            CodecInstance::LZ4Raw(c) => c.decoded(b, tag, size),
            CodecInstance::LZ4Frame(c) => c.decoded(b, tag, size),
            CodecInstance::Qcom(c) => c.decoded(b, tag, size),
        }
    }

    fn allowed(&mut self, tag: TypeTag) -> (r: bool) {
        match self {
            CodecInstance::Snappy(c) => c.allowed(tag),
            CodecInstance::GZip(c) => c.allowed(tag),
            CodecInstance::Brotli(c) => c.allowed(tag),
            CodecInstance::LZ4Hadoop(c) => c.allowed(tag),
            CodecInstance::ZSTD(c) => c.allowed(tag),
            CodecInstance::LZ4Raw(c) => c.allowed(tag),
            CodecInstance::LZ4Frame(c) => c.allowed(tag),
            CodecInstance::Qcom(c) => c.allowed(tag),
        }
    }

    fn compress(&mut self, input: &Values, output: &mut Vec<u8>) -> (r: Result<(), CodecError>) {
        match self {
            CodecInstance::Snappy(c) => c.compress(input, output),
            CodecInstance::GZip(c) => c.compress(input, output),
            CodecInstance::Brotli(c) => c.compress(input, output),
            CodecInstance::LZ4Hadoop(c) => c.compress(input, output),
            CodecInstance::ZSTD(c) => c.compress(input, output),
            CodecInstance::LZ4Raw(c) => c.compress(input, output),
            CodecInstance::LZ4Frame(c) => c.compress(input, output),
            CodecInstance::Qcom(c) => c.compress(input, output),
        }
    }

    fn decompress(&mut self, input: &[u8], output: &mut Values, uncompress_size: Option<usize>) -> (r:
        Result<usize, CodecError>) {
        match self {
            CodecInstance::Snappy(c) => c.decompress(input, output, uncompress_size),
            CodecInstance::GZip(c) => c.decompress(input, output, uncompress_size),
            CodecInstance::Brotli(c) => c.decompress(input, output, uncompress_size),
            CodecInstance::LZ4Hadoop(c) => c.decompress(input, output, uncompress_size),
            CodecInstance::ZSTD(c) => c.decompress(input, output, uncompress_size),
            CodecInstance::LZ4Raw(c) => c.decompress(input, output, uncompress_size),
            CodecInstance::LZ4Frame(c) => c.decompress(input, output, uncompress_size),
            CodecInstance::Qcom(c) => c.decompress(input, output, uncompress_size),
        }
    }
}

/// The codec that `create_codec` builds for `codec`, where there is one.
pub open spec fn codec_for(codec: CodecType, backward_compatible_lz4: bool) -> Option<CodecInstance> {
    match codec {
        CodecType::SNAPPY => Some(CodecInstance::Snappy(SnappyCodec {  })),
        CodecType::GZIP => Some(CodecInstance::GZip(GZipCodec {  })),
        CodecType::BROTLI => Some(CodecInstance::Brotli(BrotliCodec {  })),
        CodecType::LZ4 => Some(CodecInstance::LZ4Hadoop(LZ4HadoopCodec { backward_compatible_lz4 })),
        CodecType::ZSTD => Some(CodecInstance::ZSTD(ZSTDCodec {  })),
        CodecType::LZ4_RAW => Some(CodecInstance::LZ4Raw(LZ4RawCodec {  })),
        CodecType::LZ4_FRAME => Some(CodecInstance::LZ4Frame(LZ4Codec {  })),
        CodecType::QCOM => Some(CodecInstance::Qcom(QcomCodec {  })),
        _ => None,
    }
}

/// Builds the codec for `codec`: `None` for uncompressed pages, which pass
/// through as they are, and `UnsupportedAlgorithm` for an algorithm this
/// library does not implement.
pub fn create_codec(codec: CodecType, options: &CodecOptions) -> (r: Result<Option<CodecInstance>, CodecError>)
    ensures
        codec == CodecType::UNCOMPRESSED ==> r == Ok::<Option<CodecInstance>, CodecError>(None),
        codec != CodecType::UNCOMPRESSED && codec_for(codec, options.spec_backward_compatible_lz4()) is None
            ==> r == Err::<Option<CodecInstance>, CodecError>(CodecError::UnsupportedAlgorithm),
        codec_for(codec, options.spec_backward_compatible_lz4()) is Some ==> r
            == Ok::<Option<CodecInstance>, CodecError>(
            codec_for(codec, options.spec_backward_compatible_lz4()),
        ),
{
    match codec {
        CodecType::UNCOMPRESSED => Ok(None),
        CodecType::SNAPPY => Ok(Some(CodecInstance::Snappy(SnappyCodec::new()))),
        CodecType::GZIP => Ok(Some(CodecInstance::GZip(GZipCodec::new()))),
        CodecType::BROTLI => Ok(Some(CodecInstance::Brotli(BrotliCodec::new()))),
        CodecType::LZ4 => Ok(
            Some(CodecInstance::LZ4Hadoop(LZ4HadoopCodec::new(options.backward_compatible_lz4))),
        ),
        CodecType::ZSTD => Ok(Some(CodecInstance::ZSTD(ZSTDCodec::new()))),
        CodecType::LZ4_RAW => Ok(Some(CodecInstance::LZ4Raw(LZ4RawCodec::new()))),
        CodecType::LZ4_FRAME => Ok(Some(CodecInstance::LZ4Frame(LZ4Codec::new()))),
        CodecType::QCOM => Ok(Some(CodecInstance::Qcom(QcomCodec::new()))),
        CodecType::LZO => Err(CodecError::UnsupportedAlgorithm),
    }
}

impl CodecInstance {
    /// Whether the byte compressor behind this codec, run backwards on `comp`
    /// with the expected length `size`, gives back what the column `v` was
    /// compressed from.
    pub open spec fn restores(&self, comp: Seq<u8>, size: Option<usize>, v: ValuesView) -> bool {
        let b = v.bytes();
        match self {
            CodecInstance::Snappy(_) => snappy_decompressed(comp) == Some(b),
            CodecInstance::GZip(_) => gzip_decompressed(comp) == Some(b),
            CodecInstance::Brotli(_) => brotli_decompressed(comp, BROTLI_BUFFER_SIZE as nat) == Some(b),
            CodecInstance::LZ4Frame(_) => lz4_frame_decompressed(comp) == Some(b),
            CodecInstance::ZSTD(_) => zstd_decompressed(comp) == Some(b),
            CodecInstance::LZ4Raw(_) => size == Some(b.len() as usize) && b.len() <= i32::MAX
                && lz4_block_decompressed(comp, b.len()) == Some(b),
            CodecInstance::LZ4Hadoop(_) => size == Some(b.len() as usize) && b.len() <= i32::MAX
                && lz4_block_decompressed(comp.skip(PREFIX_LEN as int), b.len()) == Some(b),
            CodecInstance::Qcom(_) => qcom_decoded(comp, v.tag()) == Ok::<ValuesView, CodecError>(v),
        }
    }
}

/// Round trip: where the byte compressor behind a codec gives back what it
/// compressed, decompressing the compressed form of a column gives back the
/// column, element for element.
pub proof fn lemma_round_trip(c: CodecInstance, v: ValuesView, comp: Seq<u8>, size: Option<usize>)
    requires
        c.handles(v.tag()),
        c.encoded(v) == Some(comp),
        c.restores(comp, size, v),
    ensures
        c.decoded(comp, v.tag(), size) == Ok::<ValuesView, CodecError>(v),
{
    lemma_marshal_inverse(v);
    let b = v.bytes();
    lemma_mod_multiples_basic(v.len() as int, spec_width(v.tag()) as int);
    match c {
        CodecInstance::LZ4Hadoop(h) => {
            let cc = lz4_block_compressed(b)->0;
            let n = b.len();
            let header = frame_header(n as u32, cc.len() as u32);
            assert(comp == header + cc);
            assert(comp.skip(PREFIX_LEN as int) =~= cc);
            assert(header + cc + Seq::<u8>::empty() =~= comp);
            lemma_frame_exact(n as u32, cc.len() as u32, cc, b, Seq::empty(), n);
            assert(b + Seq::<u8>::empty() =~= b);
            assert(hadoop_frames(Seq::<u8>::empty(), 0) == Ok::<Seq<u8>, CodecError>(Seq::empty()));
            assert(hadoop_frames(comp, n) == Ok::<Seq<u8>, CodecError>(b));
            assert(hadoop_decoded(comp, n) == Ok::<Seq<u8>, CodecError>(b));
            assert(hadoop_codec_decoded(comp, size, h.backward_compatible_lz4) == Ok::<
                Seq<u8>,
                CodecError,
            >(b));
        },
        _ => {},
    }
}

/// Fallback: a stream whose Hadoop frames do not parse, that is no LZ4
/// frame, and that is a raw LZ4 block of the expected length decodes as that
/// block with the fallback on, and fails with the frame error with it off.
pub proof fn lemma_hadoop_fallback(b: Seq<u8>, n: usize, d: Seq<u8>, e: CodecError, tag: TypeTag)
    requires
        hadoop_decoded(b, n as nat) == Err::<Seq<u8>, CodecError>(e),
        lz4_frame_decompressed(b) is None,
        n <= i32::MAX,
        lz4_block_decompressed(b, n as nat) == Some(d),
        d.len() == n,
    ensures
        (LZ4HadoopCodec { backward_compatible_lz4: true }).decoded(b, tag, Some(n)) == column_of(
            Ok(d),
            tag,
        ),
        (LZ4HadoopCodec { backward_compatible_lz4: false }).decoded(b, tag, Some(n)) == Err::<
            ValuesView,
            CodecError,
        >(e),
{
}

/// The numeric compressor takes every type but the two 8-bit ones; on those
/// its `compress` and `decompress` fail with `UnsupportedType`.
pub proof fn lemma_qcom_rejects_bytes(c: QcomCodec, tag: TypeTag)
    ensures
        c.handles(tag) <==> (tag != TypeTag::U8 && tag != TypeTag::I8),
{
}

} // verus!
