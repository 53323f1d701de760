use brotli_cli::{decompress, DecompressError, Rebox};

/// A brotli stream (window of 2^16) that holds "hello" in one uncompressed
/// meta-block, followed by an empty last meta-block.
fn stored_hello() -> Vec<u8> {
    vec![0x40, 0x00, 0x10, b'h', b'e', b'l', b'l', b'o', 0x03]
}

#[test]
fn decompress_empty_stream() {
    let r = decompress(&[0x06], 4096, Rebox::default());
    assert_eq!(r.status, Ok(()));
    assert!(r.output.is_empty());
}

#[test]
fn decompress_stored_block() {
    for buffer_size in [1usize, 2, 3, 65536] {
        let r = decompress(&stored_hello(), buffer_size, Rebox::default());
        assert_eq!(r.status, Ok(()));
        assert_eq!(r.output, b"hello".to_vec());
    }
}

#[test]
fn decompress_with_custom_dictionary() {
    let r = decompress(&stored_hello(), 16, Rebox::from(b"dictionary".to_vec()));
    assert_eq!(r.status, Ok(()));
    assert_eq!(r.output, b"hello".to_vec());
}

#[test]
fn truncated_stream_is_unexpected_eof() {
    let whole = stored_hello();
    let r = decompress(&whole[..6], 4096, Rebox::default());
    assert_eq!(r.status, Err(DecompressError::UnexpectedEof));
    assert_eq!(DecompressError::UnexpectedEof.message(), "Unexpected EOF");
    let r = decompress(&[], 4096, Rebox::default());
    assert_eq!(r.status, Err(DecompressError::UnexpectedEof));
}

#[test]
fn invalid_stream_fails() {
    let r = decompress(&[0xff; 32], 64, Rebox::default());
    assert_eq!(r.status, Err(DecompressError::UnexpectedEof));
}
