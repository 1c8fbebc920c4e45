use idcheck::luhn;
use idcheck::ssn_format;

#[test]
fn test_luhn_valid() {
    // Valid test card numbers
    assert!(luhn("4111111111111111")); // Visa test
    assert!(luhn("5500000000000004")); // Mastercard test
    assert!(luhn("4111-1111-1111-1111")); // With dashes
}

#[test]
fn test_luhn_invalid() {
    assert!(!luhn("4111111111111112")); // Wrong check digit
    assert!(!luhn("1234567890")); // Too short
    assert!(!luhn("abcd")); // Not numbers
}

#[test]
fn test_ssn_valid() {
    assert!(ssn_format("123-45-6789"));
    assert!(ssn_format("123456789"));
}

#[test]
fn test_ssn_invalid() {
    assert!(!ssn_format("000-45-6789")); // Invalid area
    assert!(!ssn_format("666-45-6789")); // Invalid area
    assert!(!ssn_format("900-45-6789")); // Invalid area
    assert!(!ssn_format("123-00-6789")); // Invalid group
    assert!(!ssn_format("123-45-0000")); // Invalid serial
    assert!(!ssn_format("12345678")); // Too short
}

#[test]
fn test_totality_on_degenerate_inputs() {
    // Empty, punctuation-only and non-ASCII inputs all yield a plain false.
    assert!(!luhn(""));
    assert!(!luhn("---- ----"));
    assert!(!luhn("caf\u{e9} \u{2603} \u{4e16}\u{754c}"));
    assert!(!ssn_format(""));
    assert!(!ssn_format("---- ----"));
    assert!(!ssn_format("caf\u{e9} \u{2603} \u{4e16}\u{754c}"));
}

#[test]
fn test_idempotence() {
    // A second call on the same input returns the same verdict.
    assert_eq!(luhn("4111111111111111"), luhn("4111111111111111"));
    assert_eq!(luhn("4111111111111112"), luhn("4111111111111112"));
    assert_eq!(ssn_format("123-45-6789"), ssn_format("123-45-6789"));
    assert_eq!(ssn_format("12345678"), ssn_format("12345678"));
}

#[test]
fn test_punctuation_invariance() {
    // Interleaving separators never changes the verdict.
    assert_eq!(luhn("4111111111111111"), luhn("4111-1111-1111-1111"));
    assert_eq!(luhn("4111111111111111"), luhn("4111 1111 1111 1111"));
    assert_eq!(luhn("4111111111111112"), luhn("4111 1111 1111 1112"));
    assert_eq!(ssn_format("123456789"), ssn_format("123-45-6789"));
    assert_eq!(ssn_format("123456789"), ssn_format("1 2 3 4 5 6 7 8 9"));
    assert_eq!(ssn_format("666456789"), ssn_format("666-45-6789"));
}

#[test]
fn test_luhn_length_boundaries() {
    // 12 and 20 digits fail even with a checksum divisible by 10.
    assert!(!luhn("422222222222"));
    assert!(!luhn("42222222222222222228"));
    assert!(!luhn("000000000000"));
    assert!(!luhn("00000000000000000000"));
    // 13 and 19 digits are decided by the checksum, not the length gate.
    assert!(luhn("4222222222222"));
    assert!(luhn("4222222222222222224"));
    assert!(luhn("0000000000000"));
    assert!(!luhn("4222222222223"));
    assert!(!luhn("4222222222222222225"));
}

#[test]
fn test_ssn_area_edges() {
    // The valid area partition 1-665 and 667-899, probed at its edges.
    assert!(ssn_format("001-01-0001"));
    assert!(ssn_format("665-01-0001"));
    assert!(ssn_format("667-01-0001"));
    assert!(ssn_format("899-01-0001"));
    assert!(!ssn_format("000-01-0001"));
    assert!(!ssn_format("666-01-0001"));
    assert!(!ssn_format("900-01-0001"));
    assert!(!ssn_format("999-01-0001"));
}

#[test]
fn test_ssn_length_gate() {
    assert!(!ssn_format("1234567890")); // 10 digits, not 9
    assert!(!ssn_format("123-45-67890"));
}
