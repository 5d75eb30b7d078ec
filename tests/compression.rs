use parquet_codec::{
    create_codec, from_bytes, to_bytes, Codec, CodecError, CodecInstance, CodecOptionsBuilder,
    CodecType, TypeTag, Values,
};

/// A small linear congruential generator, so that every run sees the same data.
struct Lcg(u64);

impl Lcg {
    fn next(&mut self) -> u64 {
        self.0 = self.0.wrapping_mul(6364136223846793005).wrapping_add(1442695040888963407);
        self.0 >> 11
    }
}

fn random_bytes(n: usize) -> Vec<u8> {
    let mut rng = Lcg(n as u64 + 17);
    (0..n).map(|_| (rng.next() % 255) as u8).collect()
}

fn random_u64s(n: usize) -> Vec<u64> {
    let mut rng = Lcg(n as u64 + 29);
    (0..n).map(|_| rng.next() ^ (rng.next() << 40)).collect()
}

fn create_test_codec(codec: CodecType) -> CodecInstance {
    let codec_options = CodecOptionsBuilder::default()
        .set_backward_compatible_lz4(false)
        .build();
    match create_codec(codec, &codec_options) {
        Ok(Some(codec)) => codec,
        _ => panic!(),
    }
}

fn same_values(lhs: &Values, rhs: &Values) -> bool {
    lhs.tag() == rhs.tag() && to_bytes(lhs) == to_bytes(rhs)
}

/// Compresses with one codec, decompresses with another, both ways, then
/// checks that neither call touches what the output buffers held before.
fn byte_roundtrip(c: CodecType, data: &[u8], uncompress_size: Option<usize>) {
    let mut c1 = create_test_codec(c);
    let mut c2 = create_test_codec(c);
    let input = Values::U8(data.to_vec());

    let mut compressed = Vec::new();
    let mut decompressed = Values::empty(TypeTag::U8);
    c1.compress(&input, &mut compressed).expect("Error when compressing");
    let decompressed_size = c2
        .decompress(&compressed, &mut decompressed, uncompress_size)
        .expect("Error when decompressing");
    assert_eq!(data.len(), decompressed_size);
    assert!(same_values(&input, &decompressed));

    let mut compressed = Vec::new();
    let mut decompressed = Values::empty(TypeTag::U8);
    c2.compress(&input, &mut compressed).expect("Error when compressing");
    let decompressed_size = c1
        .decompress(&compressed, &mut decompressed, uncompress_size)
        .expect("Error when decompressing");
    assert_eq!(data.len(), decompressed_size);
    assert!(same_values(&input, &decompressed));

    let prefix = vec![0xDEu8, 0xAD, 0xBE, 0xEF];
    let mut compressed = prefix.clone();
    let mut decompressed = Values::U8(prefix.clone());
    c2.compress(&input, &mut compressed).expect("Error when compressing");
    assert_eq!(&compressed[..4], &prefix[..]);
    let decompressed_size = c2
        .decompress(&compressed[4..], &mut decompressed, uncompress_size)
        .expect("Error when decompressing");
    assert_eq!(data.len(), decompressed_size);
    let out = to_bytes(&decompressed);
    assert_eq!(&out[..4], &prefix[..]);
    assert_eq!(&out[4..], data);
}

fn codec_with_size(c: CodecType) {
    for size in [100usize, 10000, 100000] {
        let data = random_bytes(size);
        byte_roundtrip(c, &data, Some(data.len()));
    }
}

fn codec_without_size(c: CodecType) {
    for size in [100usize, 10000, 100000] {
        let data = random_bytes(size);
        byte_roundtrip(c, &data, None);
    }
}

#[test]
fn test_codec_snappy() {
    codec_with_size(CodecType::SNAPPY);
    codec_without_size(CodecType::SNAPPY);
}

#[test]
fn test_codec_gzip() {
    codec_with_size(CodecType::GZIP);
    codec_without_size(CodecType::GZIP);
}

#[test]
fn test_codec_brotli() {
    codec_with_size(CodecType::BROTLI);
    codec_without_size(CodecType::BROTLI);
}

#[test]
fn test_codec_lz4() {
    codec_with_size(CodecType::LZ4);
}

#[test]
fn test_codec_zstd() {
    codec_with_size(CodecType::ZSTD);
    codec_without_size(CodecType::ZSTD);
}

#[test]
fn test_codec_lz4_raw() {
    codec_with_size(CodecType::LZ4_RAW);
}
