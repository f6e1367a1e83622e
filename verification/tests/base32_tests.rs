use rauthp::base32::check_base_32_string;

#[test]
fn five_data_chars_and_three_pads_is_valid() {
    assert!(check_base_32_string("MZXW6==="));
}

#[test]
fn two_data_chars_and_six_pads_is_valid() {
    assert!(check_base_32_string("MY======"));
}

#[test]
fn length_not_a_multiple_of_eight_is_invalid() {
    assert!(!check_base_32_string("AAAA"));
}

#[test]
fn empty_string_is_invalid() {
    assert!(!check_base_32_string(""));
}

#[test]
fn unpadded_full_quanta_are_valid() {
    assert!(check_base_32_string("AAAAAAAA"));
    assert!(check_base_32_string("GEZDGNBVGY3TQOJQ"));
}

#[test]
fn disallowed_data_counts_are_invalid() {
    // 1, 3 and 6 data characters in the final quantum are not decodable.
    assert!(!check_base_32_string("A======="));
    assert!(!check_base_32_string("AAA====="));
    assert!(!check_base_32_string("AAAAAA=="));
}

#[test]
fn allowed_data_counts_are_valid() {
    assert!(check_base_32_string("AB======"));
    assert!(check_base_32_string("ABCD===="));
    assert!(check_base_32_string("ABCDE==="));
    assert!(check_base_32_string("ABCDEFG="));
}

#[test]
fn lower_case_is_invalid() {
    assert!(!check_base_32_string("my======"));
}

#[test]
fn characters_outside_the_alphabet_are_invalid() {
    assert!(!check_base_32_string("01======"));
    assert!(!check_base_32_string("A B====="));
}

#[test]
fn data_after_padding_is_invalid() {
    assert!(!check_base_32_string("MY======MY======"));
}

#[test]
fn padding_beyond_the_final_quantum_is_invalid() {
    assert!(!check_base_32_string("AB=============="));
}
