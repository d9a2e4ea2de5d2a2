use clockit::reset_flow::{advance, validate_submission, ResetFlowError, ResetStep};

#[test]
fn email_step_demands_an_address() {
    assert_eq!(
        validate_submission(ResetStep::EnterEmail, "  ", "", "", ""),
        Some(ResetFlowError::EmailMissing)
    );
    assert_eq!(
        validate_submission(ResetStep::EnterEmail, "ada@example.com", "", "", ""),
        None
    );
}

#[test]
fn code_step_demands_six_digits() {
    assert_eq!(
        validate_submission(ResetStep::EnterCode, "ada@example.com", "12345", "", ""),
        Some(ResetFlowError::CodeLengthWrong)
    );
    assert_eq!(
        validate_submission(ResetStep::EnterCode, "ada@example.com", "1234567", "", ""),
        Some(ResetFlowError::CodeLengthWrong)
    );
    assert_eq!(
        validate_submission(ResetStep::EnterCode, "ada@example.com", "123456", "", ""),
        None
    );
}

#[test]
fn password_step_demands_a_matching_long_password() {
    assert_eq!(
        validate_submission(ResetStep::EnterNewPassword, "a@b.c", "123456", "five5", "five5"),
        Some(ResetFlowError::PasswordTooShort)
    );
    assert_eq!(
        validate_submission(ResetStep::EnterNewPassword, "a@b.c", "123456", "secret1", "secret2"),
        Some(ResetFlowError::PasswordMismatch)
    );
    assert_eq!(
        validate_submission(ResetStep::EnterNewPassword, "a@b.c", "123456", "secret1", "secret1"),
        None
    );
}

#[test]
fn finished_wizard_has_nothing_to_check() {
    assert_eq!(validate_submission(ResetStep::Done, "", "", "", ""), None);
}

#[test]
fn success_walks_the_steps_in_order() {
    let mut step = ResetStep::EnterEmail;
    step = advance(step, true);
    assert_eq!(step, ResetStep::EnterCode);
    step = advance(step, true);
    assert_eq!(step, ResetStep::EnterNewPassword);
    step = advance(step, true);
    assert_eq!(step, ResetStep::Done);
    step = advance(step, true);
    assert_eq!(step, ResetStep::Done);
}

#[test]
fn failure_keeps_the_wizard_where_it_stands() {
    assert_eq!(advance(ResetStep::EnterEmail, false), ResetStep::EnterEmail);
    assert_eq!(advance(ResetStep::EnterCode, false), ResetStep::EnterCode);
    assert_eq!(
        advance(ResetStep::EnterNewPassword, false),
        ResetStep::EnterNewPassword
    );
}

#[test]
fn the_wizard_cannot_skip_the_code_step() {
    // From the first two steps no single answer reaches the end.
    for success in [false, true] {
        assert_ne!(advance(ResetStep::EnterEmail, success), ResetStep::Done);
        assert_ne!(advance(ResetStep::EnterCode, success), ResetStep::Done);
    }
}
