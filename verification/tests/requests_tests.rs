use clockit::requests::{
    classify_login_identifier, code_submission_complete, normalize_identity,
    validate_login_input, validate_password_reset, validate_registration, LoginInputError,
    LoginTarget, RegisterData, RegisterError, ResetError,
};

fn registration(
    name: &str,
    surname: &str,
    email: &str,
    password: &str,
    confirm: &str,
    role: &str,
) -> RegisterData {
    RegisterData {
        name: name.to_string(),
        surname: surname.to_string(),
        email: email.to_string(),
        password: password.to_string(),
        confirm_password: confirm.to_string(),
        role: role.to_string(),
    }
}

#[test]
fn complete_registration_passes() {
    let data = registration(
        "Ada", "Lovelace", "ada@example.com", "secret1", "secret1", "student",
    );
    assert_eq!(validate_registration(&data), None);
}

#[test]
fn blank_name_is_rejected_first() {
    let data = registration("   ", "", "", "x", "y", "none");
    assert_eq!(
        validate_registration(&data),
        Some(RegisterError::NameRequired)
    );
}

#[test]
fn blank_surname_is_rejected() {
    let data = registration("Ada", " \t ", "ada@example.com", "secret1", "secret1", "student");
    assert_eq!(
        validate_registration(&data),
        Some(RegisterError::SurnameRequired)
    );
}

#[test]
fn blank_email_is_rejected() {
    let data = registration("Ada", "Lovelace", "", "secret1", "secret1", "student");
    assert_eq!(
        validate_registration(&data),
        Some(RegisterError::EmailRequired)
    );
}

#[test]
fn short_password_is_rejected() {
    let data = registration("Ada", "Lovelace", "ada@example.com", "five5", "five5", "student");
    assert_eq!(
        validate_registration(&data),
        Some(RegisterError::PasswordTooShort)
    );
}

#[test]
fn six_byte_password_is_accepted() {
    let data = registration("Ada", "Lovelace", "ada@example.com", "sixsix", "sixsix", "tutor");
    assert_eq!(validate_registration(&data), None);
}

#[test]
fn differing_passwords_are_rejected() {
    let data = registration(
        "Ada", "Lovelace", "ada@example.com", "secret1", "secret2", "student",
    );
    assert_eq!(
        validate_registration(&data),
        Some(RegisterError::PasswordMismatch)
    );
}

#[test]
fn unknown_role_is_rejected() {
    let data = registration(
        "Ada", "Lovelace", "ada@example.com", "secret1", "secret1", "admin",
    );
    assert_eq!(
        validate_registration(&data),
        Some(RegisterError::InvalidRole)
    );
}

#[test]
fn each_known_role_is_accepted() {
    for role in ["lecturer", "tutor", "student"] {
        let data = registration("Ada", "Lovelace", "ada@example.com", "secret1", "secret1", role);
        assert_eq!(validate_registration(&data), None);
    }
}

#[test]
fn identity_normalization_trims_and_lowercases() {
    assert_eq!(normalize_identity("  Ada@Example.COM \n"), "ada@example.com");
}

#[test]
fn login_input_requires_an_email() {
    assert_eq!(
        validate_login_input("   ", "password"),
        Some(LoginInputError::EmailRequired)
    );
}

#[test]
fn login_input_requires_a_password() {
    assert_eq!(
        validate_login_input("ada@example.com", " \t"),
        Some(LoginInputError::PasswordRequired)
    );
}

#[test]
fn complete_login_input_passes() {
    assert_eq!(validate_login_input("ada@example.com", "secret1"), None);
}

#[test]
fn identifier_with_at_sign_is_an_email_in_lower_case() {
    assert_eq!(
        classify_login_identifier(" Ada@Example.COM "),
        LoginTarget::Email("ada@example.com".to_string())
    );
}

#[test]
fn plain_digits_are_a_student_number() {
    assert_eq!(
        classify_login_identifier("  12345 "),
        LoginTarget::StudentId(12345)
    );
}

#[test]
fn digits_are_extracted_from_mixed_text() {
    assert_eq!(
        classify_login_identifier("u21-44-77"),
        LoginTarget::StudentId(214477)
    );
}

#[test]
fn identifier_without_digits_is_unrecognized() {
    assert_eq!(classify_login_identifier("abc"), LoginTarget::Unrecognized);
}

#[test]
fn overlong_digit_run_is_malformed() {
    assert_eq!(
        classify_login_identifier("99999999999999999999"),
        LoginTarget::MalformedStudentId
    );
}

#[test]
fn largest_student_number_still_parses() {
    assert_eq!(
        classify_login_identifier("9223372036854775807"),
        LoginTarget::StudentId(i64::MAX)
    );
    assert_eq!(
        classify_login_identifier("9223372036854775808"),
        LoginTarget::MalformedStudentId
    );
}

#[test]
fn leading_zeros_do_not_change_the_number() {
    assert_eq!(
        classify_login_identifier("000042"),
        LoginTarget::StudentId(42)
    );
}

#[test]
fn reset_requires_an_email() {
    assert_eq!(
        validate_password_reset("  ", "secret1", "secret1"),
        Some(ResetError::EmailRequired)
    );
}

#[test]
fn reset_rejects_a_short_password() {
    assert_eq!(
        validate_password_reset("ada@example.com", "five5", "five5"),
        Some(ResetError::PasswordTooShort)
    );
}

#[test]
fn reset_rejects_differing_passwords() {
    assert_eq!(
        validate_password_reset("ada@example.com", "secret1", "secret2"),
        Some(ResetError::PasswordMismatch)
    );
}

#[test]
fn complete_reset_passes() {
    assert_eq!(validate_password_reset("ada@example.com", "secret1", "secret1"), None);
}

#[test]
fn code_submission_needs_both_fields() {
    assert!(code_submission_complete("ada@example.com", "123456"));
    assert!(!code_submission_complete("  ", "123456"));
    assert!(!code_submission_complete("ada@example.com", ""));
}
