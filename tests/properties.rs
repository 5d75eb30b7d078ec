use parquet_codec::{
    create_codec, from_bytes, to_bytes, Codec, CodecError, CodecOptions, CodecOptionsBuilder,
    CodecType, LZ4Codec, LZ4HadoopCodec, LZ4RawCodec, QcomCodec, SnappyCodec, TypeTag, Values,
    ZSTDCodec, GZipCodec, BrotliCodec,
};

fn pseudo_random(n: usize, seed: u64) -> Vec<u8> {
    let mut s = seed;
    let mut out = Vec::new();
    for _ in 0..n {
        s = s.wrapping_mul(6364136223846793005).wrapping_add(1442695040888963407);
        out.push((s >> 33) as u8);
    }
    out
}

fn frame(d: u32, c: u32, payload: &[u8]) -> Vec<u8> {
    let mut out = Vec::new();
    out.extend_from_slice(&d.to_be_bytes());
    out.extend_from_slice(&c.to_be_bytes());
    out.extend_from_slice(payload);
    out
}

fn u8s(v: &Values) -> Vec<u8> {
    match v {
        Values::U8(x) => x.clone(),
        _ => panic!("not a byte column"),
    }
}

#[test]
fn marshal_big_endian_layout() {
    assert_eq!(to_bytes(&Values::U16(vec![0x0102, 0xA0B0])), vec![1, 2, 0xA0, 0xB0]);
    assert_eq!(to_bytes(&Values::U32(vec![0x01020304])), vec![1, 2, 3, 4]);
    assert_eq!(
        to_bytes(&Values::U64(vec![0x0102030405060708])),
        vec![1, 2, 3, 4, 5, 6, 7, 8]
    );
    assert_eq!(to_bytes(&Values::I16(vec![-2])), vec![0xFF, 0xFE]);
    assert_eq!(to_bytes(&Values::I32(vec![-1, 1])), vec![0xFF, 0xFF, 0xFF, 0xFF, 0, 0, 0, 1]);
    assert_eq!(to_bytes(&Values::I64(vec![i64::MIN])), vec![0x80, 0, 0, 0, 0, 0, 0, 0]);
    assert_eq!(to_bytes(&Values::I8(vec![-1, 5])), vec![0xFF, 5]);
    assert_eq!(to_bytes(&Values::U8(vec![9, 8])), vec![9, 8]);
    assert_eq!(to_bytes(&Values::F32(vec![1.5f32.to_bits()])), vec![0x3F, 0xC0, 0, 0]);
    assert_eq!(
        to_bytes(&Values::F64(vec![(-2.0f64).to_bits()])),
        vec![0xC0, 0, 0, 0, 0, 0, 0, 0]
    );
}

#[test]
fn marshal_reads_big_endian() {
    assert_eq!(from_bytes(TypeTag::U16, &[1, 2, 3, 4]), Ok(Values::U16(vec![0x0102, 0x0304])));
    assert_eq!(from_bytes(TypeTag::I16, &[0xFF, 0xFE]), Ok(Values::I16(vec![-2])));
    assert_eq!(from_bytes(TypeTag::U64, &[0, 0, 0, 0, 0, 0, 1, 0]), Ok(Values::U64(vec![256])));
    assert_eq!(from_bytes(TypeTag::I8, &[0x80]), Ok(Values::I8(vec![-128])));
    assert_eq!(from_bytes(TypeTag::U8, &[]), Ok(Values::U8(vec![])));
}

#[test]
fn marshal_rejects_partial_elements() {
    assert_eq!(from_bytes(TypeTag::U32, &[1, 2, 3, 4, 5]), Err(CodecError::LengthMismatch));
    assert_eq!(from_bytes(TypeTag::F64, &[0; 7]), Err(CodecError::LengthMismatch));
    assert_eq!(from_bytes(TypeTag::I16, &[0; 3]), Err(CodecError::LengthMismatch));
}

#[test]
fn marshal_inverse_on_every_type() {
    let cols = vec![
        Values::U8(vec![0, 1, 255]),
        Values::U16(vec![0, 65535, 258]),
        Values::U32(vec![0, u32::MAX, 7]),
        Values::U64(vec![0, u64::MAX, 1 << 40]),
        Values::I8(vec![i8::MIN, -1, 0, i8::MAX]),
        Values::I16(vec![i16::MIN, -1, i16::MAX]),
        Values::I32(vec![i32::MIN, -1, i32::MAX]),
        Values::I64(vec![i64::MIN, -1, i64::MAX]),
        Values::F32(vec![(-0.25f32).to_bits(), f32::MAX.to_bits()]),
        Values::F64(vec![3.5f64.to_bits(), f64::MIN.to_bits()]),
    ];
    for v in cols {
        let b = to_bytes(&v);
        assert_eq!(b.len(), v.len() * v.tag().width());
        assert_eq!(from_bytes(v.tag(), &b), Ok(v.clone()));
    }
}

#[test]
fn empty_column_round_trips() {
    for c in [CodecType::SNAPPY, CodecType::GZIP, CodecType::BROTLI, CodecType::ZSTD, CodecType::LZ4_FRAME] {
        let mut codec = create_codec(c, &CodecOptions::default()).unwrap().unwrap();
        let mut compressed = Vec::new();
        codec.compress(&Values::U32(vec![]), &mut compressed).unwrap();
        let mut out = Values::empty(TypeTag::U32);
        assert_eq!(codec.decompress(&compressed, &mut out, None), Ok(0));
        assert_eq!(out, Values::U32(vec![]));
    }
    let mut raw = LZ4RawCodec::new();
    let mut compressed = Vec::new();
    raw.compress(&Values::U8(vec![]), &mut compressed).unwrap();
    let mut out = Values::empty(TypeTag::U8);
    assert_eq!(raw.decompress(&compressed, &mut out, Some(0)), Ok(0));
}

#[test]
fn single_element_round_trips() {
    let mut codec = LZ4HadoopCodec::new(false);
    let mut compressed = Vec::new();
    codec.compress(&Values::I64(vec![-5]), &mut compressed).unwrap();
    let mut out = Values::empty(TypeTag::I64);
    assert_eq!(codec.decompress(&compressed, &mut out, Some(8)), Ok(1));
    assert_eq!(out, Values::I64(vec![-5]));
}

#[test]
fn snappy_keeps_existing_output() {
    let data = pseudo_random(100, 3);
    let prefix = vec![0xDEu8, 0xAD, 0xBE, 0xEF];
    let mut codec = SnappyCodec::new();
    let mut compressed = prefix.clone();
    codec.compress(&Values::U8(data.clone()), &mut compressed).unwrap();
    assert_eq!(&compressed[..4], &prefix[..]);
    assert!(compressed.len() > 4);
    let mut out = Values::U8(prefix.clone());
    assert_eq!(codec.decompress(&compressed[4..], &mut out, None), Ok(100));
    let out = u8s(&out);
    assert_eq!(&out[..4], &prefix[..]);
    assert_eq!(&out[4..], &data[..]);
}

#[test]
fn failed_decompress_keeps_output() {
    let mut codec = SnappyCodec::new();
    let mut out = Values::U8(vec![1, 2, 3]);
    assert_eq!(codec.decompress(&[0xFF, 0xFF, 0xFF], &mut out, None), Err(CodecError::BackendFailure));
    assert_eq!(out, Values::U8(vec![1, 2, 3]));
}

#[test]
fn decompressed_bytes_must_fill_whole_elements() {
    let mut codec = ZSTDCodec::new();
    let mut compressed = Vec::new();
    codec.compress(&Values::U8(vec![1, 2, 3]), &mut compressed).unwrap();
    let mut out = Values::empty(TypeTag::U16);
    assert_eq!(codec.decompress(&compressed, &mut out, None), Err(CodecError::LengthMismatch));
    assert_eq!(out.len(), 0);
}

#[test]
fn hadoop_two_frames_decode_to_sixteen_bytes() {
    let a: Vec<u8> = (1..=8).collect();
    let b: Vec<u8> = (11..=18).collect();
    let pa = lz4::block::compress(&a, None, false).unwrap();
    let pb = lz4::block::compress(&b, None, false).unwrap();
    let mut input = frame(8, pa.len() as u32, &pa);
    input.extend(frame(8, pb.len() as u32, &pb));
    let mut codec = LZ4HadoopCodec::new(false);
    let mut out = Values::empty(TypeTag::U8);
    assert_eq!(codec.decompress(&input, &mut out, Some(16)), Ok(16));
    let mut expected = a.clone();
    expected.extend(&b);
    assert_eq!(u8s(&out), expected);
}

#[test]
fn hadoop_compressed_size_past_input_is_truncated() {
    let a: Vec<u8> = (1..=8).collect();
    let pa = lz4::block::compress(&a, None, false).unwrap();
    let mut codec = LZ4HadoopCodec::new(false);

    let first = frame(8, pa.len() as u32 + 100, &pa);
    let mut out = Values::empty(TypeTag::U8);
    assert_eq!(codec.decompress(&first, &mut out, Some(8)), Err(CodecError::TruncatedFrame));

    let mut second = frame(8, pa.len() as u32, &pa);
    second.extend(frame(8, pa.len() as u32 + 1, &pa));
    let mut out = Values::empty(TypeTag::U8);
    assert_eq!(codec.decompress(&second, &mut out, Some(16)), Err(CodecError::TruncatedFrame));
    assert_eq!(out.len(), 0);
}

#[test]
fn hadoop_decompressed_size_past_room_is_output_too_small() {
    let a: Vec<u8> = (1..=8).collect();
    let pa = lz4::block::compress(&a, None, false).unwrap();
    let mut input = frame(8, pa.len() as u32, &pa);
    input.extend(frame(9, pa.len() as u32, &pa));
    let mut codec = LZ4HadoopCodec::new(false);
    let mut out = Values::empty(TypeTag::U8);
    assert_eq!(codec.decompress(&input, &mut out, Some(16)), Err(CodecError::OutputTooSmall));
}

#[test]
fn hadoop_frame_errors() {
    let a: Vec<u8> = (1..=8).collect();
    let pa = lz4::block::compress(&a, None, false).unwrap();
    let mut codec = LZ4HadoopCodec::new(false);

    let mut out = Values::empty(TypeTag::U8);
    assert_eq!(codec.decompress(&[0, 0, 1], &mut out, Some(8)), Err(CodecError::TruncatedFrame));

    let mut leftover = frame(8, pa.len() as u32, &pa);
    leftover.extend([0, 0, 0]);
    assert_eq!(codec.decompress(&leftover, &mut out, Some(8)), Err(CodecError::UnconsumedInput));

    let announced_more = frame(9, pa.len() as u32, &pa);
    assert_eq!(codec.decompress(&announced_more, &mut out, Some(9)), Err(CodecError::SizeMismatch));

    let announced_less = frame(7, pa.len() as u32, &pa);
    assert_eq!(codec.decompress(&announced_less, &mut out, Some(8)), Err(CodecError::BackendFailure));

    let short_total = frame(8, pa.len() as u32, &pa);
    assert_eq!(codec.decompress(&short_total, &mut out, Some(9)), Err(CodecError::SizeMismatch));

    assert_eq!(codec.decompress(&short_total, &mut out, None), Err(CodecError::MissingExpectedLength));
    assert_eq!(out.len(), 0);
}

#[test]
fn hadoop_compress_writes_one_frame() {
    let data: Vec<u8> = (0..40).map(|i| (i % 4) as u8).collect();
    let mut codec = LZ4HadoopCodec::new(true);
    let mut compressed = vec![7u8];
    codec.compress(&Values::U8(data.clone()), &mut compressed).unwrap();
    assert_eq!(compressed[0], 7);
    let body = &compressed[1..];
    assert_eq!(&body[0..4], &40u32.to_be_bytes());
    let c = u32::from_be_bytes([body[4], body[5], body[6], body[7]]) as usize;
    assert_eq!(c, body.len() - 8);
    assert!(c < 40);
    assert_eq!(lz4::block::decompress(&body[8..], Some(40)).unwrap(), data);
}

#[test]
fn hadoop_falls_back_to_raw_block() {
    let mut data = vec![1u8, 2, 0xFF, 0xFF, 0xFF, 0xFF];
    data.extend(pseudo_random(94, 5));
    let raw = lz4::block::compress(&data, None, false).unwrap();

    let mut on = LZ4HadoopCodec::new(true);
    let mut out = Values::empty(TypeTag::U8);
    assert_eq!(on.decompress(&raw, &mut out, Some(100)), Ok(100));
    assert_eq!(u8s(&out), data);

    let mut off = LZ4HadoopCodec::new(false);
    let mut out = Values::empty(TypeTag::U8);
    assert_eq!(off.decompress(&raw, &mut out, Some(100)), Err(CodecError::TruncatedFrame));
    assert_eq!(out.len(), 0);
}

#[test]
fn hadoop_falls_back_to_lz4_frame() {
    let data = pseudo_random(300, 9);
    let mut frame_codec = LZ4Codec::new();
    let mut compressed = Vec::new();
    frame_codec.compress(&Values::U8(data.clone()), &mut compressed).unwrap();

    let mut on = LZ4HadoopCodec::new(true);
    let mut out = Values::empty(TypeTag::U8);
    assert_eq!(on.decompress(&compressed, &mut out, Some(300)), Ok(300));
    assert_eq!(u8s(&out), data);
}

#[test]
fn qcom_rejects_byte_columns() {
    let mut codec = QcomCodec::new();
    assert!(!codec.allowed(TypeTag::U8));
    assert!(!codec.allowed(TypeTag::I8));
    for tag in [TypeTag::U16, TypeTag::U32, TypeTag::U64, TypeTag::I16, TypeTag::I32, TypeTag::I64, TypeTag::F32, TypeTag::F64] {
        assert!(codec.allowed(tag));
    }
    let mut compressed = vec![1u8];
    assert_eq!(codec.compress(&Values::U8(vec![1, 2]), &mut compressed), Err(CodecError::UnsupportedType));
    assert_eq!(codec.compress(&Values::I8(vec![1, 2]), &mut compressed), Err(CodecError::UnsupportedType));
    assert_eq!(compressed, vec![1u8]);
    let mut out = Values::empty(TypeTag::I8);
    assert_eq!(codec.decompress(&[1, 2, 3], &mut out, None), Err(CodecError::UnsupportedType));
}

#[test]
fn byte_codecs_allow_every_type() {
    let mut codec = create_codec(CodecType::GZIP, &CodecOptions::default()).unwrap().unwrap();
    for tag in [TypeTag::U8, TypeTag::I8, TypeTag::U64, TypeTag::F32] {
        assert!(codec.allowed(tag));
    }
}

#[test]
fn factory_selects_codecs() {
    let options = CodecOptions::default();
    assert!(options.backward_compatible_lz4());
    assert_eq!(create_codec(CodecType::UNCOMPRESSED, &options), Ok(None));
    assert_eq!(create_codec(CodecType::LZO, &options), Err(CodecError::UnsupportedAlgorithm));
    for c in [
        CodecType::SNAPPY,
        CodecType::GZIP,
        CodecType::BROTLI,
        CodecType::LZ4,
        CodecType::ZSTD,
        CodecType::LZ4_RAW,
        CodecType::LZ4_FRAME,
        CodecType::QCOM,
    ] {
        assert_eq!(create_codec(c, &options).unwrap().unwrap().codec_type(), c);
    }
}

#[test]
fn options_builder_sets_fallback() {
    let off = CodecOptionsBuilder::default().set_backward_compatible_lz4(false).build();
    assert!(!off.backward_compatible_lz4());
    let on = CodecOptionsBuilder::default().build();
    assert!(on.backward_compatible_lz4());
    assert_eq!(on, CodecOptions::default());
    match create_codec(CodecType::LZ4, &off) {
        Ok(Some(parquet_codec::CodecInstance::LZ4Hadoop(c))) => assert!(!c.backward_compatible_lz4),
        _ => panic!(),
    }
}

#[test]
fn lz4_raw_needs_expected_length() {
    let mut codec = LZ4RawCodec::new();
    let mut compressed = Vec::new();
    codec.compress(&Values::U8(vec![1, 2, 3]), &mut compressed).unwrap();
    let mut out = Values::empty(TypeTag::U8);
    assert_eq!(codec.decompress(&compressed, &mut out, None), Err(CodecError::MissingExpectedLength));
    assert_eq!(codec.decompress(&compressed, &mut out, Some(4)), Err(CodecError::SizeMismatch));
    assert_eq!(codec.decompress(&compressed, &mut out, Some(3)), Ok(3));
}

#[test]
fn compressors_transform_their_input() {
    let zeros = Values::U8(vec![0u8; 10000]);
    let mut out = Vec::new();
    SnappyCodec::new().compress(&zeros, &mut out).unwrap();
    assert!(out.len() < 1000);
    assert_eq!(&out[..2], &[0x90, 0x4E]);

    let mut out = Vec::new();
    GZipCodec::new().compress(&zeros, &mut out).unwrap();
    assert_eq!(&out[..2], &[0x1F, 0x8B]);
    assert!(out.len() < 1000);

    let mut out = Vec::new();
    BrotliCodec::new().compress(&zeros, &mut out).unwrap();
    assert!(out.len() < 1000);

    let mut out = Vec::new();
    LZ4Codec::new().compress(&zeros, &mut out).unwrap();
    assert_eq!(&out[..4], &[0x04, 0x22, 0x4D, 0x18]);
    assert!(out.len() < 1000);

    let mut out = Vec::new();
    ZSTDCodec::new().compress(&zeros, &mut out).unwrap();
    assert_eq!(&out[..4], &[0x28, 0xB5, 0x2F, 0xFD]);
    assert!(out.len() < 1000);

    let mut out = Vec::new();
    LZ4RawCodec::new().compress(&zeros, &mut out).unwrap();
    assert!(out.len() < 1000);

    let mut out = Vec::new();
    QcomCodec::new().compress(&Values::U32(vec![7u32; 10000]), &mut out).unwrap();
    assert!(out.len() < 4000);
}

#[test]
fn typed_round_trip_with_prefix() {
    let data = Values::I32(vec![-7, 0, 1 << 30, i32::MIN]);
    for c in [CodecType::SNAPPY, CodecType::GZIP, CodecType::BROTLI, CodecType::ZSTD, CodecType::LZ4_FRAME, CodecType::LZ4, CodecType::LZ4_RAW, CodecType::QCOM] {
        let mut codec = create_codec(c, &CodecOptions::default()).unwrap().unwrap();
        let mut compressed = vec![0xAA];
        codec.compress(&data, &mut compressed).unwrap();
        assert_eq!(compressed[0], 0xAA);
        let mut out = Values::I32(vec![42]);
        assert_eq!(codec.decompress(&compressed[1..], &mut out, Some(16)), Ok(4));
        assert_eq!(out, Values::I32(vec![42, -7, 0, 1 << 30, i32::MIN]));
    }
}

#[test]
fn truncated_lz4_frame_fails() {
    let data = pseudo_random(300, 11);
    let mut codec = LZ4Codec::new();
    let mut compressed = Vec::new();
    codec.compress(&Values::U8(data), &mut compressed).unwrap();
    let cut = &compressed[..compressed.len() - 10];
    let mut out = Values::U8(vec![5]);
    assert_eq!(codec.decompress(cut, &mut out, None), Err(CodecError::BackendFailure));
    assert_eq!(out, Values::U8(vec![5]));
}
