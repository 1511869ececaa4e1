use windowcast::transport::{fingerprint_copy_result, local_fingerprint_text, DtlsFingerprint};

#[test]
fn fingerprint_text_names_the_algorithm() {
    let fps = vec![
        DtlsFingerprint { algorithm: "sha-256".to_string(), value: "AB:CD".to_string() },
        DtlsFingerprint { algorithm: "sha-1".to_string(), value: "EF".to_string() },
    ];
    assert_eq!(local_fingerprint_text(&fps).unwrap(), "sha-256 AB:CD");
    assert!(local_fingerprint_text(&Vec::new()).is_none());
}

#[test]
fn copy_result_is_length_or_minus_one() {
    assert_eq!(fingerprint_copy_result(10, 9), -1);
    assert_eq!(fingerprint_copy_result(10, 10), 10);
    assert_eq!(fingerprint_copy_result(0, 0), 0);
}
