//! Base64 text of export payloads.

use memory_stream::ms_io::{base64_decode, base64_encode};

#[test]
fn encodes_full_and_partial_chunks() {
    assert_eq!(base64_encode(b""), "");
    assert_eq!(base64_encode(b"f"), "Zg==");
    assert_eq!(base64_encode(b"fo"), "Zm8=");
    assert_eq!(base64_encode(b"foo"), "Zm9v");
    assert_eq!(base64_encode(b"Hello"), "SGVsbG8=");
    assert_eq!(base64_encode(&[0xFB, 0xFF]), "+/8=");
}

#[test]
fn decoding_gives_back_what_was_encoded() {
    let samples: Vec<Vec<u8>> = vec![
        vec![],
        vec![0],
        vec![255, 254],
        vec![0x89, 0x50, 0x4E, 0x47],
        (0u8..=255).collect(),
    ];
    for s in samples {
        assert_eq!(base64_decode(&base64_encode(&s)), s);
    }
}
