use aterm::codec::{decode_chunk, encode_chunk, round_trip_chunk, round_trip_stream};
use aterm::session::event_channel;
use base64::Engine;

#[test]
fn encode_matches_standard_base64() {
    assert_eq!(encode_chunk(b"Hello"), "SGVsbG8=");
    assert_eq!(encode_chunk(b""), "");
    let all: Vec<u8> = (0u8..=255).collect();
    let expected = base64::engine::general_purpose::STANDARD.encode(&all);
    assert_eq!(encode_chunk(&all), expected);
}

#[test]
fn decode_inverts_encode() {
    let decoded = decode_chunk("SGVsbG8=").expect("valid payload");
    assert_eq!(decoded, b"Hello");
    assert!(decode_chunk("!!!not base64!!!").is_err());
}

#[test]
fn chunk_round_trip_is_identity() {
    let all: Vec<u8> = (0u8..=255).collect();
    assert_eq!(round_trip_chunk(&all), all);
    assert_eq!(round_trip_chunk(b""), Vec::<u8>::new());
}

#[test]
fn stream_round_trip_preserves_chunks_and_concatenation() {
    let chunks: Vec<Vec<u8>> = vec![
        b"first".to_vec(),
        Vec::new(),
        vec![0, 159, 146, 150],
        b"\r\nlast".to_vec(),
    ];
    let back = round_trip_stream(&chunks);
    assert_eq!(back, chunks);
    let flat: Vec<u8> = back.iter().flatten().copied().collect();
    let flat_in: Vec<u8> = chunks.iter().flatten().copied().collect();
    assert_eq!(flat, flat_in);
}

#[test]
fn event_channel_is_scoped_by_id() {
    assert_eq!(event_channel("abc"), "pty-output-abc");
    assert_eq!(event_channel(""), "pty-output-");
}
