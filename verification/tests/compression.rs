use value_log::CompressionType;

#[test]
fn compression_tags() {
    assert_eq!(u8::from(CompressionType::Uncompressed), 0);
    assert_eq!(u8::from(CompressionType::Lz4), 1);
    assert_eq!(u8::from(CompressionType::Miniz), 2);
}

#[test]
fn compression_from_tag() {
    assert_eq!(CompressionType::try_from(0u8), Ok(CompressionType::Uncompressed));
    assert_eq!(CompressionType::try_from(1u8), Ok(CompressionType::Lz4));
    assert_eq!(CompressionType::try_from(2u8), Ok(CompressionType::Miniz));
    assert_eq!(CompressionType::try_from(3u8), Err(()));
    assert_eq!(CompressionType::try_from(255u8), Err(()));
}

#[test]
fn compression_tag_round_trip() {
    for compression in [
        CompressionType::Uncompressed,
        CompressionType::Lz4,
        CompressionType::Miniz,
    ] {
        assert_eq!(CompressionType::try_from(u8::from(compression)), Ok(compression));
    }
}

#[test]
fn compression_names() {
    assert_eq!(CompressionType::Uncompressed.to_string(), "no compression");
    assert_eq!(CompressionType::Lz4.to_string(), "lz4");
    assert_eq!(CompressionType::Miniz.to_string(), "miniz");
}
