use algotrade_core::sign::{build_auth_headers, build_sign_payload, sign, RECV_WINDOW_MS};

#[test]
fn canonical_string_is_timestamp_key_window_params() {
    let payload = build_sign_payload(1_700_000_000_000, "demo-key", 5000, "accountType=UNIFIED");
    assert_eq!(payload, "1700000000000demo-key5000accountType=UNIFIED");
}

#[test]
fn signature_matches_known_answer() {
    let sig = sign("demo-secret", "demo-key", 1_700_000_000_000, 5000, "accountType=UNIFIED");
    assert_eq!(sig, "886f479385068e8da2a001c5c2711f31a5f010d64a0d4f13b31e0b08bdb4701e");

    let sig2 = sign("demo-secret", "demo-key", 1_700_000_000_000, 5000, "");
    assert_eq!(sig2, "1bf583c8ddba787052e320bca863df0902756dd63823b051dc102badc459e849");
}

#[test]
fn signing_is_deterministic() {
    let a = sign("s3cr3t", "key", 1_600_000_000_123, RECV_WINDOW_MS, "category=linear");
    let b = sign("s3cr3t", "key", 1_600_000_000_123, RECV_WINDOW_MS, "category=linear");
    assert_eq!(a, b);
    // A different input changes the signature.
    let c = sign("s3cr3t", "key", 1_600_000_000_124, RECV_WINDOW_MS, "category=linear");
    assert_ne!(a, c);
}

#[test]
fn auth_headers_carry_the_signature() {
    let h = build_auth_headers("demo-key", "demo-secret", 1_700_000_000_000, "accountType=UNIFIED");
    assert_eq!(h.api_key, "demo-key");
    assert_eq!(h.timestamp, "1700000000000");
    assert_eq!(h.recv_window, "5000");
    assert_eq!(h.signature, "886f479385068e8da2a001c5c2711f31a5f010d64a0d4f13b31e0b08bdb4701e");
}
