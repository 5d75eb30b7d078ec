use parquet_codec::{
    create_codec, to_bytes, Codec, CodecInstance, CodecOptionsBuilder, CodecType, TypeTag, Values,
};

struct Lcg(u64);

impl Lcg {
    fn next(&mut self) -> u64 {
        self.0 = self.0.wrapping_mul(6364136223846793005).wrapping_add(1442695040888963407);
        self.0 >> 7
    }
}

fn create_test_codec(codec: CodecType) -> CodecInstance {
    let codec_options = CodecOptionsBuilder::default()
        .set_backward_compatible_lz4(false)
        .build();
    match create_codec(codec, &codec_options) {
        Ok(Some(codec)) => codec,
        _ => panic!(),
    }
}

fn compare_values(lhs: &Values, rhs: &Values) -> bool {
    lhs.tag() == rhs.tag() && to_bytes(lhs) == to_bytes(rhs)
}

/// Test data of the given type: `size` pseudo-random elements.
fn generate_test_data(tag: TypeTag, size: usize) -> Values {
    let mut rng = Lcg(size as u64 * 31 + 7);
    let mut raw: Vec<u64> = Vec::new();
    for _ in 0..size {
        raw.push(rng.next() ^ (rng.next() << 32));
    }
    match tag {
        TypeTag::U8 => Values::U8(raw.iter().map(|x| *x as u8).collect()),
        TypeTag::U16 => Values::U16(raw.iter().map(|x| *x as u16).collect()),
        TypeTag::U32 => Values::U32(raw.iter().map(|x| *x as u32).collect()),
        TypeTag::U64 => Values::U64(raw.clone()),
        TypeTag::I8 => Values::I8(raw.iter().map(|x| *x as i8).collect()),
        TypeTag::I16 => Values::I16(raw.iter().map(|x| *x as i16).collect()),
        TypeTag::I32 => Values::I32(raw.iter().map(|x| *x as i32).collect()),
        TypeTag::I64 => Values::I64(raw.iter().map(|x| *x as i64).collect()),
        TypeTag::F32 => {
            Values::F32(raw.iter().map(|x| ((*x % 100000) as f32 / 7.0).to_bits()).collect())
        }
        TypeTag::F64 => {
            Values::F64(raw.iter().map(|x| ((*x % 100000) as f64 / 3.0).to_bits()).collect())
        }
    }
}

fn test_roundtrip(c: CodecType, data: &Values, uncompress_size: Option<usize>) {
    let mut c1 = create_test_codec(c);
    let mut c2 = create_test_codec(c);

    let mut compressed = Vec::new();
    let mut decompressed = Values::empty(data.tag());
    c1.compress(data, &mut compressed).expect("compress failed");
    c2.decompress(&compressed, &mut decompressed, uncompress_size)
        .expect("Error when decompressing");
    assert_eq!(data.len(), decompressed.len());
    assert!(compare_values(data, &decompressed));

    let mut compressed = Vec::new();
    let mut decompressed = Values::empty(data.tag());
    c2.compress(data, &mut compressed).expect("Error when compressing");
    c1.decompress(&compressed, &mut decompressed, uncompress_size)
        .expect("Error when decompressing");
    assert_eq!(data.len(), decompressed.len());
    assert!(compare_values(data, &decompressed));
}

fn test_codec_with_size(tag: TypeTag, c: CodecType) {
    for size in [10usize] {
        let data = generate_test_data(tag, size);
        let bytes = data.len() * tag.width();
        test_roundtrip(c, &data, Some(bytes));
    }
}

fn do_qcom_compress(tag: TypeTag) {
    let mut c1 = create_test_codec(CodecType::QCOM);
    let data = generate_test_data(tag, 100);
    let mut compressed = Vec::new();
    let mut decompressed = Values::empty(tag);
    c1.compress(&data, &mut compressed).expect("Error when qcom compressing");
    c1.decompress(&compressed, &mut decompressed, None)
        .expect("Error when qcom decompressing");
    assert!(compare_values(&decompressed, &data));
}

#[test]
fn test_codec_snappy_u8() {
    test_codec_with_size(TypeTag::U8, CodecType::SNAPPY);
}

#[test]
fn test_codec_snappy_u64() {
    test_codec_with_size(TypeTag::U64, CodecType::SNAPPY);
}

#[test]
fn test_codec_gzip_u8() {
    test_codec_with_size(TypeTag::U8, CodecType::GZIP);
}

#[test]
fn test_codec_gzip_u64() {
    test_codec_with_size(TypeTag::U64, CodecType::GZIP);
}

#[test]
fn test_codec_brotli_u8() {
    test_codec_with_size(TypeTag::U8, CodecType::BROTLI);
}

#[test]
fn test_codec_brotli_u64() {
    test_codec_with_size(TypeTag::U64, CodecType::BROTLI);
}

#[test]
fn test_codec_lz4_u8() {
    test_codec_with_size(TypeTag::U8, CodecType::LZ4);
}

#[test]
fn test_codec_lz4_u64() {
    test_codec_with_size(TypeTag::U64, CodecType::LZ4);
}

#[test]
fn test_codec_zstd_u8() {
    test_codec_with_size(TypeTag::U8, CodecType::ZSTD);
}

#[test]
fn test_codec_zstd_u64() {
    test_codec_with_size(TypeTag::U64, CodecType::ZSTD);
}

#[test]
fn test_codec_lz4_frame_u8() {
    test_codec_with_size(TypeTag::U8, CodecType::LZ4_FRAME);
}

#[test]
fn test_codec_lz4_frame_u64() {
    test_codec_with_size(TypeTag::U64, CodecType::LZ4_FRAME);
}

#[test]
fn test_codec_lz4_raw_u8() {
    test_codec_with_size(TypeTag::U8, CodecType::LZ4_RAW);
}

#[test]
fn test_codec_lz4_raw_64() {
    test_codec_with_size(TypeTag::U64, CodecType::LZ4_RAW);
}

#[test]
fn test_codec_qcom_u16() {
    do_qcom_compress(TypeTag::U16);
}

#[test]
fn test_codec_qcom_u32() {
    do_qcom_compress(TypeTag::U32);
}

#[test]
fn test_codec_qcom_u64() {
    do_qcom_compress(TypeTag::U64);
}

#[test]
fn test_codec_qcom_i16() {
    do_qcom_compress(TypeTag::I16);
}

#[test]
fn test_codec_qcom_i32() {
    do_qcom_compress(TypeTag::I32);
}

#[test]
fn test_codec_qcom_i64() {
    do_qcom_compress(TypeTag::I64);
}

#[test]
fn test_codec_qcom_f32() {
    do_qcom_compress(TypeTag::F32);
}

#[test]
fn test_codec_qcom_f64() {
    do_qcom_compress(TypeTag::F64);
}
