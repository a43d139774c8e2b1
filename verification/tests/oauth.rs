use session_auth::oauth::{pct_encode, ProviderConfig};

fn config(endpoint: &[u8], client_id: &[u8]) -> ProviderConfig {
    ProviderConfig { authorize_endpoint: endpoint.to_vec(), client_id: client_id.to_vec() }
}

#[test]
fn authorize_url_is_assembled_exactly() {
    let cfg = config(b"https://provider.example/authorize", b"abc");
    let url = cfg.authorize_url(b"T1");
    assert_eq!(
        url,
        b"https://provider.example/authorize?response_type=code&client_id=abc&state=T1".to_vec()
    );
}

#[test]
fn authorize_url_percent_encodes_reserved_bytes() {
    let cfg = config(b"https://provider.example/authorize", b"a b/c");
    let url = cfg.authorize_url(b"t+u=v");
    assert_eq!(
        url,
        b"https://provider.example/authorize?response_type=code&client_id=a%20b%2Fc&state=t%2Bu%3Dv"
            .to_vec()
    );
}

#[test]
fn unreserved_bytes_stay_plain() {
    let input = b"AZaz09-._~";
    assert_eq!(pct_encode(input), input.to_vec());
}

#[test]
fn every_other_byte_is_escaped_as_uppercase_hex() {
    assert_eq!(pct_encode(&[0x00]), b"%00".to_vec());
    assert_eq!(pct_encode(&[0xFF]), b"%FF".to_vec());
    assert_eq!(pct_encode(&[0x1A, b'%']), b"%1A%25".to_vec());
}
