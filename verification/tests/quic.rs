use wispers_connect::quic::derive_psk;

#[test]
fn test_psk_derivation_deterministic() {
    let shared_secret = [42u8; 32];
    let psk1 = derive_psk(&shared_secret);
    let psk2 = derive_psk(&shared_secret);
    assert_eq!(psk1, psk2);
}

#[test]
fn test_psk_derivation_different_secrets() {
    let psk1 = derive_psk(&[1u8; 32]);
    let psk2 = derive_psk(&[2u8; 32]);
    assert_ne!(psk1, psk2);
}

#[test]
fn test_psk_length() {
    let psk = derive_psk(&[0u8; 32]);
    assert_eq!(psk.len(), 32);
}

#[test]
fn test_psk_not_all_zeros() {
    let psk = derive_psk(&[0u8; 32]);
    assert!(psk.iter().any(|&b| b != 0));
}
