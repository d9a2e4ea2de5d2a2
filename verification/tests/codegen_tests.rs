use clockit::codegen::generate;

#[test]
fn generated_code_has_the_requested_length() {
    let code = generate(6);
    assert_eq!(code.chars().count(), 6);
}

#[test]
fn generated_code_is_all_decimal_digits() {
    let code = generate(6);
    assert!(code.chars().all(|c| c.is_ascii_digit()));
}

#[test]
fn zero_length_code_is_empty() {
    let code = generate(0);
    assert_eq!(code, "");
}

#[test]
fn longer_codes_are_possible() {
    let code = generate(12);
    assert_eq!(code.chars().count(), 12);
    assert!(code.chars().all(|c| c.is_ascii_digit()));
}
