//! The password-reset wizard's decisions: which input each step demands
//! before anything is dispatched, and which step follows each answer. The
//! surrounding page runs the loop — it dispatches the requests and hands the
//! answers back — so completing the reset is possible only after the
//! verification code was accepted.

use vstd::prelude::*;
use vstd::utf8::encode_utf8;
use crate::requests::{is_blank, password_too_short};
use crate::store::CODE_LENGTH;
use crate::text::trimmed;

verus! {

/// Where the wizard stands.
#[derive(Clone, Copy, Debug, PartialEq, Eq, Structural)]
pub enum ResetStep {
    /// Asking for the account's email address.
    EnterEmail,
    /// Asking for the verification code that was delivered.
    EnterCode,
    /// Asking for the new password, twice.
    EnterNewPassword,
    /// The credential was replaced.
    Done,
}

/// What stops a step's input from being submitted.
#[derive(Clone, Copy, Debug, PartialEq, Eq, Structural)]
pub enum ResetFlowError {
    EmailMissing,
    CodeLengthWrong,
    PasswordTooShort,
    PasswordMismatch,
}

/// Whether a presented code has exactly the issued length, counted in bytes.
pub open spec fn has_code_length(code: Seq<char>) -> bool {
    (encode_utf8(code).len() as usize) == CODE_LENGTH
}

/// The complaint a step must raise on the given inputs, or nothing when the
/// step's request may be dispatched. The finished step has nothing left to
/// check.
pub open spec fn submission_error(
    step: ResetStep,
    email: Seq<char>,
    code: Seq<char>,
    new_password: Seq<char>,
    confirm: Seq<char>,
) -> Option<ResetFlowError> {
    match step {
        ResetStep::EnterEmail => if is_blank(email) {
            Some(ResetFlowError::EmailMissing)
        } else {
            None
        },
        ResetStep::EnterCode => if !has_code_length(code) {
            Some(ResetFlowError::CodeLengthWrong)
        } else {
            None
        },
        ResetStep::EnterNewPassword => if password_too_short(new_password) {
            Some(ResetFlowError::PasswordTooShort)
        } else if new_password != confirm {
            Some(ResetFlowError::PasswordMismatch)
        } else {
            None
        },
        ResetStep::Done => None,
    }
}

/// Check the current step's inputs; `None` means its request may go out.
pub fn validate_submission(
    step: ResetStep,
    email: &str,
    code: &str,
    new_password: &str,
    confirm: &str,
) -> (r: Option<ResetFlowError>)
    ensures
        r == submission_error(step, email@, code@, new_password@, confirm@),
{
    match step {
        ResetStep::EnterEmail => {
            if trimmed(email).is_empty() {
                Some(ResetFlowError::EmailMissing)
            } else {
                None
            }
        },
        ResetStep::EnterCode => {
            if code.len() != CODE_LENGTH {
                Some(ResetFlowError::CodeLengthWrong)
            } else {
                None
            }
        },
        ResetStep::EnterNewPassword => {
            if new_password.len() < crate::requests::MIN_PASSWORD_BYTES {
                Some(ResetFlowError::PasswordTooShort)
            } else if !crate::text::str_eq(new_password, confirm) {
                Some(ResetFlowError::PasswordMismatch)
            } else {
                None
            }
        },
        ResetStep::Done => None,
    }
}

/// The step that follows when the pending request is answered: success moves
/// the wizard forward one step, failure leaves it where it was, and the
/// finished wizard no longer moves.
pub open spec fn step_after(step: ResetStep, success: bool) -> ResetStep {
    if success {
        match step {
            ResetStep::EnterEmail => ResetStep::EnterCode,
            ResetStep::EnterCode => ResetStep::EnterNewPassword,
            ResetStep::EnterNewPassword => ResetStep::Done,
            ResetStep::Done => ResetStep::Done,
        }
    } else {
        step
    }
}

/// Advance the wizard on a request's answer.
pub fn advance(step: ResetStep, success: bool) -> (next: ResetStep)
    ensures
        next == step_after(step, success),
{
    if success {
        match step {
            ResetStep::EnterEmail => ResetStep::EnterCode,
            ResetStep::EnterCode => ResetStep::EnterNewPassword,
            ResetStep::EnterNewPassword => ResetStep::Done,
            ResetStep::Done => ResetStep::Done,
        }
    } else {
        step
    }
}

/// The wizard finishes only by a successful final step: reaching `Done` from
/// an unfinished step takes a success on the new-password step, which the
/// wizard only reaches through a success on the code step. The reset cannot
/// complete without the code having been accepted first.
pub proof fn done_needs_each_step(step: ResetStep, success: bool)
    requires
        step != ResetStep::Done,
    ensures
        step_after(step, success) == ResetStep::Done ==> step == ResetStep::EnterNewPassword
            && success,
        step_after(step, success) == ResetStep::EnterNewPassword ==> (step == ResetStep::EnterCode
            && success) || step == ResetStep::EnterNewPassword,
        step_after(step, success) == ResetStep::EnterCode ==> (step == ResetStep::EnterEmail
            && success) || step == ResetStep::EnterCode,
{
}

} // verus!
