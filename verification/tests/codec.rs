use session_auth::codec::{decode, encode, DecodeError, SessionPayload};

fn full_payload() -> SessionPayload {
    SessionPayload {
        csrf_token: Some(b"T1".to_vec()),
        next_url: Some(b"/admin".to_vec()),
        user_id: Some(b"42".to_vec()),
    }
}

#[test]
fn encode_writes_the_documented_format() {
    let bytes = encode(&full_payload());
    let mut expected: Vec<u8> = vec![1]; // version
    expected.extend_from_slice(&[1, 2, 0, 0, 0]); // csrf entry header
    expected.extend_from_slice(b"T1");
    expected.extend_from_slice(&[2, 6, 0, 0, 0]); // next entry header
    expected.extend_from_slice(b"/admin");
    expected.extend_from_slice(&[3, 2, 0, 0, 0]); // user entry header
    expected.extend_from_slice(b"42");
    assert_eq!(bytes, expected);
}

#[test]
fn round_trip_returns_the_payload() {
    let p = full_payload();
    let decoded = decode(encode(&p).as_slice()).unwrap();
    assert_eq!(decoded, full_payload());
}

#[test]
fn round_trip_of_empty_payload() {
    let p = SessionPayload::empty();
    let bytes = encode(&p);
    assert_eq!(bytes, vec![1]);
    let decoded = decode(bytes.as_slice()).unwrap();
    assert_eq!(decoded.csrf_token, None);
    assert_eq!(decoded.next_url, None);
    assert_eq!(decoded.user_id, None);
}

#[test]
fn unknown_entries_are_ignored() {
    let mut bytes: Vec<u8> = vec![1];
    bytes.extend_from_slice(&[9, 1, 0, 0, 0, 42]); // unknown tag 9
    bytes.extend_from_slice(&[1, 2, 0, 0, 0]);
    bytes.extend_from_slice(b"T1");
    let decoded = decode(bytes.as_slice()).unwrap();
    assert_eq!(decoded.csrf_token, Some(b"T1".to_vec()));
    assert_eq!(decoded.next_url, None);
    assert_eq!(decoded.user_id, None);
}

#[test]
fn repeated_entry_last_one_wins() {
    let mut bytes: Vec<u8> = vec![1];
    bytes.extend_from_slice(&[1, 2, 0, 0, 0]);
    bytes.extend_from_slice(b"T1");
    bytes.extend_from_slice(&[1, 2, 0, 0, 0]);
    bytes.extend_from_slice(b"T2");
    let decoded = decode(bytes.as_slice()).unwrap();
    assert_eq!(decoded.csrf_token, Some(b"T2".to_vec()));
}

#[test]
fn truncated_entry_is_corrupt() {
    // Header promises five bytes of value; only one follows.
    let bytes: Vec<u8> = vec![1, 1, 5, 0, 0, 0, 7];
    assert_eq!(decode(bytes.as_slice()), Err(DecodeError::Corrupt));
    // Entry header itself cut short.
    let bytes: Vec<u8> = vec![1, 1, 2, 0];
    assert_eq!(decode(bytes.as_slice()), Err(DecodeError::Corrupt));
}

#[test]
fn wrong_version_is_corrupt() {
    assert_eq!(decode(&[2]), Err(DecodeError::Corrupt));
    assert_eq!(decode(&[]), Err(DecodeError::Corrupt));
    assert_eq!(decode(&[0, 1, 0, 0, 0, 0]), Err(DecodeError::Corrupt));
}
