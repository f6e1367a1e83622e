use rauthp::otp::{generate_from_base32, generate_from_base32_at, OtpGenerator};
use rauthp::{DEFAULT_DIGITS, DEFAULT_INTERVAL};

const RFC_KEY: &[u8] = b"12345678901234567890";

#[test]
fn rfc6238_vector_time_59() {
    let generator = OtpGenerator::new(RFC_KEY, 30, 8);
    let code = generator.generate_at(59);
    assert_eq!(code.value(), 94287082);
    assert_eq!(code.nr_digits(), 8);
    assert_eq!(code.validity_sec(), 1);
    assert_eq!(code.display_string(), "94287082 (Validity: 1s)");
}

#[test]
fn rfc6238_vector_time_1111111109() {
    let generator = OtpGenerator::new(RFC_KEY, 30, 8);
    let code = generator.generate_at(1111111109);
    assert_eq!(code.value(), 7081804);
    assert_eq!(code.code_string(), "07081804");
}

#[test]
fn rfc6238_vector_time_1111111111() {
    let generator = OtpGenerator::new(RFC_KEY, 30, 8);
    assert_eq!(generator.generate_at(1111111111).value(), 14050471);
}

#[test]
fn rfc6238_vector_time_1234567890() {
    let generator = OtpGenerator::new(RFC_KEY, 30, 8);
    assert_eq!(generator.generate_at(1234567890).value(), 89005924);
}

#[test]
fn rfc6238_vector_time_2000000000() {
    let generator = OtpGenerator::new(RFC_KEY, 30, 8);
    assert_eq!(generator.generate_at(2000000000).value(), 69279037);
}

#[test]
fn rfc6238_vector_time_20000000000() {
    let generator = OtpGenerator::new(RFC_KEY, 30, 8);
    assert_eq!(generator.generate_at(20000000000).value(), 65353130);
}

#[test]
fn rfc6238_vector_through_base32_secret() {
    // The 32-character Base32 text decodes to the 20-byte RFC 6238 key.
    let code = generate_from_base32_at("GEZDGNBVGY3TQOJQGEZDGNBVGY3TQOJQ", 30, 8, 59).unwrap();
    assert_eq!(code.value(), 94287082);
    // The 16-character prefix is a different (10-byte) key and must not
    // produce the same code.
    let short = generate_from_base32_at("GEZDGNBVGY3TQOJQ", 30, 8, 59).unwrap();
    assert_ne!(short.value(), 94287082);
}

#[test]
fn undecodable_secret_is_rejected() {
    assert!(generate_from_base32_at("!!!!!!!!", 30, 6, 59).is_err());
    assert!(generate_from_base32_at("my======", 30, 6, 59).is_err());
}

#[test]
fn every_digit_count_pads_to_exact_width() {
    for digits in 1u8..=8 {
        let generator = OtpGenerator::new(RFC_KEY, 30, digits);
        let code = generator.generate_at(59);
        assert_eq!(code.nr_digits(), digits);
        assert!(u64::from(code.value()) < 10u64.pow(u32::from(digits)));
        assert_eq!(code.code_string().len(), usize::from(digits));
    }
}

#[test]
fn short_digit_count_keeps_leading_zeros() {
    // 94287082 reduced to 4 digits is 7082; to 2 digits it is 82,
    // displayed as "82" only because the width is 2.
    let generator = OtpGenerator::new(RFC_KEY, 30, 4);
    let code = generator.generate_at(59);
    assert_eq!(code.code_string(), "7082");
    let generator = OtpGenerator::new(RFC_KEY, 30, 6);
    let code = generator.generate_at(1111111109);
    assert_eq!(code.code_string(), "081804");
}

#[test]
fn same_time_step_yields_same_value() {
    let generator = OtpGenerator::new(RFC_KEY, 30, 6);
    let first = generator.generate_at(60);
    let second = generator.generate_at(89);
    assert_eq!(first.value(), second.value());
    assert_eq!(first.validity_sec(), 30);
    assert_eq!(second.validity_sec(), 1);
}

#[test]
fn validity_stays_within_the_interval() {
    let generator = OtpGenerator::new(RFC_KEY, 45, 6);
    for t in 0u64..200 {
        let v = generator.generate_at(t).validity_sec();
        assert!((1..=45).contains(&v));
    }
}

#[test]
fn generate_with_the_clock_succeeds() {
    let generator = OtpGenerator::new(RFC_KEY, DEFAULT_INTERVAL, DEFAULT_DIGITS);
    let code = generator.generate().unwrap();
    assert_eq!(code.nr_digits(), DEFAULT_DIGITS);
    assert!((1..=DEFAULT_INTERVAL).contains(&code.validity_sec()));
    assert!(code.value() < 1_000_000);
    let window = generator.time_to_next_generation();
    assert!((1..=DEFAULT_INTERVAL).contains(&window));
}

#[test]
fn generate_from_base32_with_the_clock() {
    let code = generate_from_base32("GEZDGNBVGY3TQOJQ", DEFAULT_INTERVAL, DEFAULT_DIGITS).unwrap();
    assert_eq!(code.nr_digits(), DEFAULT_DIGITS);
    assert!((1..=DEFAULT_INTERVAL).contains(&code.validity_sec()));
}
