use retroarch_fast_indexer::crc32::{
    calculate_crc32, calculate_crc32_from_bytes, checksum_of_member, CrcStream, ZipFailure,
};

#[test]
fn test_crc32_calculation() {
    let chunks = vec![b"Hello, World!".to_vec()];
    let crc = calculate_crc32(&chunks).unwrap();
    assert_eq!(crc, 0xEC4AC3D0);
}

#[test]
fn test_crc32_from_bytes() {
    let data = b"Hello, World!";
    let crc = calculate_crc32_from_bytes(data);
    assert_eq!(crc, 0xEC4AC3D0);
}

#[test]
fn test_empty_file() {
    let chunks: Vec<Vec<u8>> = Vec::new();
    let crc = calculate_crc32(&chunks).unwrap();
    assert_eq!(crc, 0);
}

#[test]
fn checksum_of_no_bytes_is_zero() {
    assert_eq!(calculate_crc32_from_bytes(b""), 0);
}

#[test]
fn checksum_matches_standard_vectors() {
    assert_eq!(calculate_crc32_from_bytes(b"123456789"), 0xCBF43926);
    assert_eq!(calculate_crc32_from_bytes(b"a"), 0xE8B7BE43);
    assert_eq!(
        calculate_crc32_from_bytes(b"The quick brown fox jumps over the lazy dog"),
        0x414FA339
    );
}

#[test]
fn checksum_is_the_same_each_time() {
    let data = b"same bytes, same checksum";
    assert_eq!(calculate_crc32_from_bytes(data), calculate_crc32_from_bytes(data));
}

#[test]
fn chunks_hash_like_their_concatenation() {
    let chunks = vec![b"Hello".to_vec(), b", ".to_vec(), Vec::new(), b"World!".to_vec()];
    assert_eq!(calculate_crc32(&chunks), Some(calculate_crc32_from_bytes(b"Hello, World!")));
}

#[test]
fn stream_takes_chunks_one_by_one() {
    let mut stream = CrcStream::new();
    assert!(stream.update(b"1234"));
    assert!(stream.update(b"56789"));
    assert_eq!(stream.finalize(), 0xCBF43926);
    assert_eq!(CrcStream::new().finalize(), 0);
}

#[test]
fn member_checksum_keeps_the_failure() {
    assert_eq!(checksum_of_member(Ok(b"123456789".to_vec())), Ok(0xCBF43926));
    assert_eq!(checksum_of_member(Err(ZipFailure::Read)), Err(ZipFailure::Read));
    assert_eq!(checksum_of_member(Err(ZipFailure::Open)), Err(ZipFailure::Open));
}
