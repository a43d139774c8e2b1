use session_auth::csrf::verify;

#[test]
fn verify_same_token_is_true() {
    assert!(verify(b"T1", b"T1"));
    assert!(verify(b"a-much-longer-token-value-0123456789", b"a-much-longer-token-value-0123456789"));
}

#[test]
fn verify_different_tokens_is_false() {
    assert!(!verify(b"T1", b"T2"));
    assert!(!verify(b"abcdef", b"abcdeg"));
}

#[test]
fn verify_length_mismatch_is_false() {
    assert!(!verify(b"T1", b"T1T1"));
    assert!(!verify(b"T1T1", b"T1"));
    assert!(!verify(b"", b"x"));
}

#[test]
fn verify_empty_tokens_are_equal() {
    assert!(verify(b"", b""));
}
