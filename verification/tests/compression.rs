use secinfra::compression_util::{
    compress_bytes, zstd_outcome, CompressionError, CompressionType,
};

#[test]
fn compressed_bytes_can_be_read_back() {
    let bytes: Vec<u8> = (0..10_000u32).map(|i| (i % 7) as u8).collect();
    for level in [0, 1, 19] {
        let compressed = compress_bytes(CompressionType::Zstd, level, &bytes).unwrap();
        assert!(compressed.len() < bytes.len() / 10);
        assert_ne!(compressed, bytes);
        assert_eq!(zstd::bulk::decompress(&compressed, bytes.len()).unwrap(), bytes);
        assert_eq!(compress_bytes(CompressionType::Zstd, level, &bytes).unwrap(), compressed);
    }
}

#[test]
fn nothing_is_compressed_to_a_frame() {
    let compressed = compress_bytes(CompressionType::Zstd, 3, b"").unwrap();
    assert!(!compressed.is_empty());
    assert_eq!(zstd::bulk::decompress(&compressed, 0).unwrap(), b"");
}

#[test]
fn outcomes_are_passed_on() {
    assert_eq!(zstd_outcome(Ok(vec![1, 2])).unwrap(), [1, 2]);
    let error = std::io::Error::new(std::io::ErrorKind::Other, "no memory");
    match zstd_outcome(Err(error)) {
        Err(CompressionError::Zstd(error)) => assert_eq!(error.to_string(), "no memory"),
        Ok(_) => panic!("an error"),
    }
}
