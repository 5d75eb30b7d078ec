//! The byte compressors this library drives.
//!
//! Each function here makes one call into an outside compression crate.
//! What a compressor makes of its input is a function of the input and of
//! the settings passed along; the names below stand for those results, with
//! `None` where the compressor reports a failure.

use std::io::{Read, Write};
use vstd::prelude::*;

verus! {

/// The Snappy block snap makes of `b`.
pub uninterp spec fn snappy_compressed(b: Seq<u8>) -> Option<Seq<u8>>;
/// The bytes snap reads from the Snappy block `b`.
pub uninterp spec fn snappy_decompressed(b: Seq<u8>) -> Option<Seq<u8>>;
/// The gzip stream flate2 makes of `b` at the default level.
pub uninterp spec fn gzip_compressed(b: Seq<u8>) -> Option<Seq<u8>>;
/// The bytes flate2 reads from the gzip stream `b`.
pub uninterp spec fn gzip_decompressed(b: Seq<u8>) -> Option<Seq<u8>>;
/// The Brotli stream brotli makes of `b` with these settings.
pub uninterp spec fn brotli_compressed(b: Seq<u8>, buffer_size: nat, quality: nat, lg_window: nat) -> Option<Seq<u8>>;
/// The bytes brotli reads from the Brotli stream `b`.
pub uninterp spec fn brotli_decompressed(b: Seq<u8>, buffer_size: nat) -> Option<Seq<u8>>;
/// The LZ4 frame lz4 makes of `b` with its default settings.
pub uninterp spec fn lz4_frame_compressed(b: Seq<u8>) -> Option<Seq<u8>>;
/// The bytes lz4 reads from the LZ4 frame `b`.
pub uninterp spec fn lz4_frame_decompressed(b: Seq<u8>) -> Option<Seq<u8>>;
/// The raw LZ4 block lz4 makes of `b`.
pub uninterp spec fn lz4_block_compressed(b: Seq<u8>) -> Option<Seq<u8>>;
/// The bytes lz4 reads from the raw LZ4 block `b` into room for `capacity` bytes.
pub uninterp spec fn lz4_block_decompressed(b: Seq<u8>, capacity: nat) -> Option<Seq<u8>>;
/// The Zstandard frame zstd makes of `b` at `level`.
pub uninterp spec fn zstd_compressed(b: Seq<u8>, level: int) -> Option<Seq<u8>>;
/// The bytes zstd reads from the Zstandard frames `b`.
pub uninterp spec fn zstd_decompressed(b: Seq<u8>) -> Option<Seq<u8>>;
/// The q_compress stream of `v` at `level`.
pub uninterp spec fn qcom_compressed_u16(v: Seq<u16>, level: nat) -> Seq<u8>;
/// The numbers q_compress reads from the stream `b`.
pub uninterp spec fn qcom_decompressed_u16(b: Seq<u8>) -> Option<Seq<u16>>;
/// The q_compress stream of `v` at `level`.
pub uninterp spec fn qcom_compressed_u32(v: Seq<u32>, level: nat) -> Seq<u8>;
/// The numbers q_compress reads from the stream `b`.
pub uninterp spec fn qcom_decompressed_u32(b: Seq<u8>) -> Option<Seq<u32>>;
/// The q_compress stream of `v` at `level`.
pub uninterp spec fn qcom_compressed_u64(v: Seq<u64>, level: nat) -> Seq<u8>;
/// The numbers q_compress reads from the stream `b`.
pub uninterp spec fn qcom_decompressed_u64(b: Seq<u8>) -> Option<Seq<u64>>;
/// The q_compress stream of `v` at `level`.
pub uninterp spec fn qcom_compressed_i16(v: Seq<i16>, level: nat) -> Seq<u8>;
/// The numbers q_compress reads from the stream `b`.
pub uninterp spec fn qcom_decompressed_i16(b: Seq<u8>) -> Option<Seq<i16>>;
/// The q_compress stream of `v` at `level`.
pub uninterp spec fn qcom_compressed_i32(v: Seq<i32>, level: nat) -> Seq<u8>;
/// The numbers q_compress reads from the stream `b`.
pub uninterp spec fn qcom_decompressed_i32(b: Seq<u8>) -> Option<Seq<i32>>;
/// The q_compress stream of `v` at `level`.
pub uninterp spec fn qcom_compressed_i64(v: Seq<i64>, level: nat) -> Seq<u8>;
/// The numbers q_compress reads from the stream `b`.
pub uninterp spec fn qcom_decompressed_i64(b: Seq<u8>) -> Option<Seq<i64>>;

/// Relies on snap's `raw::Encoder::compress_vec`: the Snappy block of `b`.
#[verifier::external_body]
pub(crate) fn snappy_compress(b: &[u8]) -> (r: Option<Vec<u8>>)
    ensures
        r.is_some() == snappy_compressed(b@).is_some(),
        r matches Some(v) ==> snappy_compressed(b@) == Some(v@),
{
    snap::raw::Encoder::new().compress_vec(b).ok()
}

/// Relies on snap's `raw::Decoder::decompress_vec`: the bytes of the Snappy
/// block `b`.
#[verifier::external_body]
pub(crate) fn snappy_decompress(b: &[u8]) -> (r: Option<Vec<u8>>)
    ensures
        r.is_some() == snappy_decompressed(b@).is_some(),
        r matches Some(v) ==> snappy_decompressed(b@) == Some(v@),
{
    snap::raw::Decoder::new().decompress_vec(b).ok()
}

/// Relies on flate2's `read::GzEncoder` at the default level: the gzip
/// stream of `b`.
#[verifier::external_body]
pub(crate) fn gzip_compress(b: &[u8]) -> (r: Option<Vec<u8>>)
    ensures
        r.is_some() == gzip_compressed(b@).is_some(),
        r matches Some(v) ==> gzip_compressed(b@) == Some(v@),
{
    let mut out = Vec::new();
    let mut e = flate2::read::GzEncoder::new(b, flate2::Compression::default());
    e.read_to_end(&mut out).ok()?;
    Some(out)
}

/// Relies on flate2's `read::GzDecoder`: the bytes of the gzip stream `b`.
#[verifier::external_body]
pub(crate) fn gzip_decompress(b: &[u8]) -> (r: Option<Vec<u8>>)
    ensures
        r.is_some() == gzip_decompressed(b@).is_some(),
        r matches Some(v) ==> gzip_decompressed(b@) == Some(v@),
{
    let mut out = Vec::new();
    flate2::read::GzDecoder::new(b).read_to_end(&mut out).ok()?;
    Some(out)
}

/// Relies on brotli's `CompressorReader` with the given buffer size, quality
/// and window: the Brotli stream of `b`.
#[verifier::external_body]
pub(crate) fn brotli_compress(b: &[u8], buffer_size: usize, quality: u32, lg_window: u32) -> (r: Option<Vec<u8>>)
    requires
        quality <= 11,
        10 <= lg_window <= 24,
    ensures
        r.is_some() == brotli_compressed(b@, buffer_size as nat, quality as nat, lg_window as nat).is_some(),
        r matches Some(v) ==> brotli_compressed(b@, buffer_size as nat, quality as nat, lg_window as nat) == Some(v@),
{
    let mut out = Vec::new();
    let mut e = brotli::CompressorReader::new(b, buffer_size, quality, lg_window);
    e.read_to_end(&mut out).ok()?;
    Some(out)
}

/// Relies on brotli's `Decompressor` with the given buffer size: the bytes of
/// the Brotli stream `b`.
#[verifier::external_body]
pub(crate) fn brotli_decompress(b: &[u8], buffer_size: usize) -> (r: Option<Vec<u8>>)
    ensures
        r.is_some() == brotli_decompressed(b@, buffer_size as nat).is_some(),
        r matches Some(v) ==> brotli_decompressed(b@, buffer_size as nat) == Some(v@),
{
    let mut out = Vec::new();
    let mut d = brotli::Decompressor::new(b, buffer_size);
    d.read_to_end(&mut out).ok()?;
    Some(out)
}

/// Relies on lz4's `EncoderBuilder` with its default settings, then
/// `Encoder::finish`: the LZ4 frame of `b`.
#[verifier::external_body]
pub(crate) fn lz4_frame_compress(b: &[u8]) -> (r: Option<Vec<u8>>)
    ensures
        r.is_some() == lz4_frame_compressed(b@).is_some(),
        r matches Some(v) ==> lz4_frame_compressed(b@) == Some(v@),
{
    let mut e = lz4::EncoderBuilder::new().build(Vec::new()).ok()?;
    e.write_all(b).ok()?;
    let (out, res) = e.finish();
    res.ok()?;
    Some(out)
}

/// Relies on lz4's `Decoder`, then `Decoder::finish`, which reports a frame
/// cut off before its end: the bytes of the LZ4 frame `b`.
#[verifier::external_body]
pub(crate) fn lz4_frame_decompress(b: &[u8]) -> (r: Option<Vec<u8>>)
    ensures
        r.is_some() == lz4_frame_decompressed(b@).is_some(),
        r matches Some(v) ==> lz4_frame_decompressed(b@) == Some(v@),
{
    let mut out = Vec::new();
    let mut d = lz4::Decoder::new(b).ok()?;
    d.read_to_end(&mut out).ok()?;
    d.finish().1.ok()?;
    Some(out)
}

/// Relies on lz4's `block::compress` in the default mode, with no size
/// prefix: the raw LZ4 block of `b`.
#[verifier::external_body]
pub(crate) fn lz4_block_compress(b: &[u8]) -> (r: Option<Vec<u8>>)
    ensures
        r.is_some() == lz4_block_compressed(b@).is_some(),
        r matches Some(v) ==> lz4_block_compressed(b@) == Some(v@),
{
    lz4::block::compress(b, None, false).ok()
}

/// Relies on lz4's `block::decompress`: the bytes of the raw LZ4 block `b`,
/// decoded into room for `capacity` bytes.
#[verifier::external_body]
pub(crate) fn lz4_block_decompress(b: &[u8], capacity: usize) -> (r: Option<Vec<u8>>)
    requires
        capacity <= i32::MAX,
    ensures
        r.is_some() == lz4_block_decompressed(b@, capacity as nat).is_some(),
        r matches Some(v) ==> lz4_block_decompressed(b@, capacity as nat) == Some(v@),
{
    lz4::block::decompress(b, Some(capacity as i32)).ok()
}

/// Relies on zstd's `stream::encode_all` at the given level: the Zstandard
/// frame of `b`.
#[verifier::external_body]
pub(crate) fn zstd_compress(b: &[u8], level: i32) -> (r: Option<Vec<u8>>)
    ensures
        r.is_some() == zstd_compressed(b@, level as int).is_some(),
        r matches Some(v) ==> zstd_compressed(b@, level as int) == Some(v@),
{
    zstd::stream::encode_all(b, level).ok()
}

/// Relies on zstd's `stream::decode_all`: the bytes of the Zstandard
/// frames `b`.
#[verifier::external_body]
pub(crate) fn zstd_decompress(b: &[u8]) -> (r: Option<Vec<u8>>)
    ensures
        r.is_some() == zstd_decompressed(b@).is_some(),
        r matches Some(v) ==> zstd_decompressed(b@) == Some(v@),
{
    zstd::stream::decode_all(b).ok()
}

/// Relies on q_compress's `auto_compress::<u16>` at the given level: the
/// q_compress stream of `v`. Levels above 12 make it panic.
#[verifier::external_body]
pub(crate) fn qcom_compress_u16(v: &[u16], level: usize) -> (r: Vec<u8>)
    requires
        level <= 12,
    ensures
        r@ == qcom_compressed_u16(v@, level as nat),
{
    q_compress::auto_compress::<u16>(v, level)
}

/// Relies on q_compress's `auto_decompress::<u16>`: the numbers of the
/// q_compress stream `b`.
#[verifier::external_body]
pub(crate) fn qcom_decompress_u16(b: &[u8]) -> (r: Option<Vec<u16>>)
    ensures
        r.is_some() == qcom_decompressed_u16(b@).is_some(),
        r matches Some(v) ==> qcom_decompressed_u16(b@) == Some(v@),
{
    q_compress::auto_decompress::<u16>(b).ok()
}

/// Relies on q_compress's `auto_compress::<u32>` at the given level: the
/// q_compress stream of `v`. Levels above 12 make it panic.
#[verifier::external_body]
pub(crate) fn qcom_compress_u32(v: &[u32], level: usize) -> (r: Vec<u8>)
    requires
        level <= 12,
    ensures
        r@ == qcom_compressed_u32(v@, level as nat),
{
    q_compress::auto_compress::<u32>(v, level)
}

/// Relies on q_compress's `auto_decompress::<u32>`: the numbers of the
/// q_compress stream `b`.
#[verifier::external_body]
pub(crate) fn qcom_decompress_u32(b: &[u8]) -> (r: Option<Vec<u32>>)
    ensures
        r.is_some() == qcom_decompressed_u32(b@).is_some(),
        r matches Some(v) ==> qcom_decompressed_u32(b@) == Some(v@),
{
    q_compress::auto_decompress::<u32>(b).ok()
}

/// Relies on q_compress's `auto_compress::<u64>` at the given level: the
/// q_compress stream of `v`. Levels above 12 make it panic.
#[verifier::external_body]
pub(crate) fn qcom_compress_u64(v: &[u64], level: usize) -> (r: Vec<u8>)
    requires
        level <= 12,
    ensures
        r@ == qcom_compressed_u64(v@, level as nat),
{
    q_compress::auto_compress::<u64>(v, level)
}

/// Relies on q_compress's `auto_decompress::<u64>`: the numbers of the
/// q_compress stream `b`.
#[verifier::external_body]
pub(crate) fn qcom_decompress_u64(b: &[u8]) -> (r: Option<Vec<u64>>)
    ensures
        r.is_some() == qcom_decompressed_u64(b@).is_some(),
        r matches Some(v) ==> qcom_decompressed_u64(b@) == Some(v@),
{
    q_compress::auto_decompress::<u64>(b).ok()
}

/// Relies on q_compress's `auto_compress::<i16>` at the given level: the
/// q_compress stream of `v`. Levels above 12 make it panic.
#[verifier::external_body]
pub(crate) fn qcom_compress_i16(v: &[i16], level: usize) -> (r: Vec<u8>)
    requires
        level <= 12,
    ensures
        r@ == qcom_compressed_i16(v@, level as nat),
{
    q_compress::auto_compress::<i16>(v, level)
}

/// Relies on q_compress's `auto_decompress::<i16>`: the numbers of the
/// q_compress stream `b`.
#[verifier::external_body]
pub(crate) fn qcom_decompress_i16(b: &[u8]) -> (r: Option<Vec<i16>>)
    ensures
        r.is_some() == qcom_decompressed_i16(b@).is_some(),
        r matches Some(v) ==> qcom_decompressed_i16(b@) == Some(v@),
{
    q_compress::auto_decompress::<i16>(b).ok()
}

/// Relies on q_compress's `auto_compress::<i32>` at the given level: the
/// q_compress stream of `v`. Levels above 12 make it panic.
#[verifier::external_body]
pub(crate) fn qcom_compress_i32(v: &[i32], level: usize) -> (r: Vec<u8>)
    requires
        level <= 12,
    ensures
        r@ == qcom_compressed_i32(v@, level as nat),
{
    q_compress::auto_compress::<i32>(v, level)
}

/// Relies on q_compress's `auto_decompress::<i32>`: the numbers of the
/// q_compress stream `b`.
#[verifier::external_body]
pub(crate) fn qcom_decompress_i32(b: &[u8]) -> (r: Option<Vec<i32>>)
    ensures
        r.is_some() == qcom_decompressed_i32(b@).is_some(),
        r matches Some(v) ==> qcom_decompressed_i32(b@) == Some(v@),
{
    q_compress::auto_decompress::<i32>(b).ok()
}

/// Relies on q_compress's `auto_compress::<i64>` at the given level: the
/// q_compress stream of `v`. Levels above 12 make it panic.
#[verifier::external_body]
pub(crate) fn qcom_compress_i64(v: &[i64], level: usize) -> (r: Vec<u8>)
    requires
        level <= 12,
    ensures
        r@ == qcom_compressed_i64(v@, level as nat),
{
    q_compress::auto_compress::<i64>(v, level)
}

/// Relies on q_compress's `auto_decompress::<i64>`: the numbers of the
/// q_compress stream `b`.
#[verifier::external_body]
pub(crate) fn qcom_decompress_i64(b: &[u8]) -> (r: Option<Vec<i64>>)
    ensures
        r.is_some() == qcom_decompressed_i64(b@).is_some(),
        r matches Some(v) ==> qcom_decompressed_i64(b@) == Some(v@),
{
    q_compress::auto_decompress::<i64>(b).ok()
}

} // verus!
