use performance_utils::compress::FastCompressor;

#[test]
fn test_compressor() {
    let compressor = FastCompressor::new(6);
    let test_data = b"Hello, Mayu & Jack Studio! This is test data for compression.";

    let compressed = compressor.compress(test_data).unwrap();
    let decompressed = compressor.decompress(&compressed).unwrap();

    assert_eq!(test_data.to_vec(), decompressed);
    // 61 bytes of prose plus the 4-byte size prefix cannot shrink under lz4;
    // the output must still be a genuine encoding, not the input handed back
    assert_ne!(compressed, test_data.to_vec());
    assert!(!compressed.is_empty());
}

#[test]
fn round_trip_empty() {
    let compressor = FastCompressor::new(1);
    let compressed = compressor.compress(b"").unwrap();
    let decompressed = compressor.decompress(&compressed).unwrap();
    assert_eq!(decompressed, Vec::<u8>::new());
}

#[test]
fn round_trip_repetitive() {
    let compressor = FastCompressor::new(9);
    let data = vec![42u8; 10_000];
    let compressed = compressor.compress(&data).unwrap();
    assert!(compressed.len() < data.len());
    assert_eq!(compressor.decompress(&compressed).unwrap(), data);
}

#[test]
fn decompress_rejects_garbage() {
    let compressor = FastCompressor::new(6);
    assert!(compressor.decompress(&[1, 2, 3]).is_err());
}
