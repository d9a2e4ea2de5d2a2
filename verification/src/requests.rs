//! Validation and normalization rules for the account-facing requests:
//! registration, login, password reset, and code submission. Each check is
//! stated and applied in the order the endpoints apply them, so the first
//! failing rule decides the answer.

use vstd::prelude::*;
use vstd::utf8::encode_utf8;
use crate::codegen::is_code_digit;
use crate::text::{lower_of, lowercased, str_eq, trim_of, trimmed};

verus! {

/// Fewest bytes a password must have.
pub const MIN_PASSWORD_BYTES: usize = 6;

/// The fields a registration request carries.
pub struct RegisterData {
    pub name: String,
    pub surname: String,
    pub email: String,
    pub password: String,
    pub confirm_password: String,
    pub role: String,
}

/// The first rule a registration request breaks.
#[derive(Clone, Copy, Debug, PartialEq, Eq, Structural)]
pub enum RegisterError {
    NameRequired,
    SurnameRequired,
    EmailRequired,
    PasswordTooShort,
    PasswordMismatch,
    InvalidRole,
}

/// A role under which an account may be created.
pub open spec fn is_valid_role(role: Seq<char>) -> bool {
    role == "lecturer"@ || role == "tutor"@ || role == "student"@
}

/// A text field counts as blank when nothing is left of it after trimming.
pub open spec fn is_blank(s: Seq<char>) -> bool {
    trim_of(s).len() == 0
}

/// A password of fewer than [`MIN_PASSWORD_BYTES`] bytes in its UTF-8 form
/// is rejected.
pub open spec fn password_too_short(p: Seq<char>) -> bool {
    (encode_utf8(p).len() as usize) < MIN_PASSWORD_BYTES
}

/// The answer registration validation must give: the first broken rule, in
/// the order the endpoint checks them, or nothing when all hold.
pub open spec fn register_outcome(
    name: Seq<char>,
    surname: Seq<char>,
    email: Seq<char>,
    password: Seq<char>,
    confirm: Seq<char>,
    role: Seq<char>,
) -> Option<RegisterError> {
    if is_blank(name) {
        Some(RegisterError::NameRequired)
    } else if is_blank(surname) {
        Some(RegisterError::SurnameRequired)
    } else if is_blank(email) {
        Some(RegisterError::EmailRequired)
    } else if password_too_short(password) {
        Some(RegisterError::PasswordTooShort)
    } else if password != confirm {
        Some(RegisterError::PasswordMismatch)
    } else if !is_valid_role(role) {
        Some(RegisterError::InvalidRole)
    } else {
        None
    }
}

/// Check a registration request; `None` means it may proceed.
pub fn validate_registration(data: &RegisterData) -> (r: Option<RegisterError>)
    ensures
        r == register_outcome(
            data.name@,
            data.surname@,
            data.email@,
            data.password@,
            data.confirm_password@,
            data.role@,
        ),
{
    if trimmed(data.name.as_str()).is_empty() {
        Some(RegisterError::NameRequired)
    } else if trimmed(data.surname.as_str()).is_empty() {
        Some(RegisterError::SurnameRequired)
    } else if trimmed(data.email.as_str()).is_empty() {
        Some(RegisterError::EmailRequired)
    } else if data.password.as_str().len() < MIN_PASSWORD_BYTES {
        Some(RegisterError::PasswordTooShort)
    } else if !str_eq(data.password.as_str(), data.confirm_password.as_str()) {
        Some(RegisterError::PasswordMismatch)
    } else if !(str_eq(data.role.as_str(), "lecturer") || str_eq(data.role.as_str(), "tutor")
        || str_eq(data.role.as_str(), "student")) {
        Some(RegisterError::InvalidRole)
    } else {
        None
    }
}

/// Normalize an identity string the way every account endpoint does before
/// acting on it: trim, then lower-case.
pub fn normalize_identity(s: &str) -> (r: String)
    ensures
        r@ == lower_of(trim_of(s@)),
{
    lowercased(trimmed(s))
}

/// The first rule a login request breaks before the identifier is even
/// looked at.
#[derive(Clone, Copy, Debug, PartialEq, Eq, Structural)]
pub enum LoginInputError {
    EmailRequired,
    PasswordRequired,
}

/// The answer login input validation must give.
pub open spec fn login_input_outcome(
    email: Seq<char>,
    password: Seq<char>,
) -> Option<LoginInputError> {
    if is_blank(email) {
        Some(LoginInputError::EmailRequired)
    } else if is_blank(password) {
        Some(LoginInputError::PasswordRequired)
    } else {
        None
    }
}

/// Check the raw login fields; `None` means the identifier may be classified.
pub fn validate_login_input(email: &str, password: &str) -> (r: Option<LoginInputError>)
    ensures
        r == login_input_outcome(email@, password@),
{
    if trimmed(email).is_empty() {
        Some(LoginInputError::EmailRequired)
    } else if trimmed(password).is_empty() {
        Some(LoginInputError::PasswordRequired)
    } else {
        None
    }
}

/// What a login identifier turns out to be.
#[derive(Debug, PartialEq, Eq)]
pub enum LoginTarget {
    /// It held an `'@'`: an email address, normalized to lower case.
    Email(String),
    /// No `'@'`: the digits it held, read as a student number.
    StudentId(i64),
    /// No `'@'` and no digit at all.
    Unrecognized,
    /// No `'@'`, but more digits than a student number can hold.
    MalformedStudentId,
}

/// The digit characters of `s`, in order, as their numeric values.
pub open spec fn digit_seq(s: Seq<char>) -> Seq<u8>
    decreases s.len(),
{
    if s.len() == 0 {
        Seq::empty()
    } else {
        let p = digit_seq(s.drop_last());
        if is_code_digit(s.last()) {
            p.push((s.last() as u32 - 48) as u8)
        } else {
            p
        }
    }
}

/// The number a digit sequence denotes in base ten.
pub open spec fn digits_value(ds: Seq<u8>) -> int
    decreases ds.len(),
{
    if ds.len() == 0 {
        0
    } else {
        10 * digits_value(ds.drop_last()) + ds.last()
    }
}

proof fn lemma_digits_value_nonneg(ds: Seq<u8>)
    ensures
        digits_value(ds) >= 0,
    decreases ds.len(),
{
    if ds.len() > 0 {
        lemma_digits_value_nonneg(ds.drop_last());
    }
}

/// Classify a login identifier as the login endpoint does: trim it; an `'@'`
/// anywhere makes it an email address, taken in lower case; otherwise its
/// digits, read in order, give the student number, rejected when there are
/// none or when they exceed the representable range.
pub fn classify_login_identifier(email: &str) -> (r: LoginTarget)
    ensures
        ({
            let t = trim_of(email@);
            match r {
                LoginTarget::Email(e) => t.contains('@') && e@ == lower_of(t),
                LoginTarget::StudentId(id) => !t.contains('@') && digit_seq(t).len() > 0
                    && digits_value(digit_seq(t)) == id,
                LoginTarget::Unrecognized => !t.contains('@') && digit_seq(t).len() == 0,
                LoginTarget::MalformedStudentId => !t.contains('@') && digit_seq(t).len() > 0
                    && digits_value(digit_seq(t)) > i64::MAX,
            }
        }),
{
    let t = trimmed(email);
    let n = t.unicode_len();
    let mut i: usize = 0;
    while i < n
        invariant
            t@ == trim_of(email@),
            i <= n,
            n == t@.len(),
            forall|j: int| 0 <= j < i ==> t@[j] != '@',
        decreases n - i,
    {
        if t.get_char(i) == '@' {
            proof {
                assert(0 <= i < t@.len());
                assert(t@[i as int] == '@');
                assert(t@.contains('@'));
            }
            return LoginTarget::Email(lowercased(t));
        }
        i += 1;
    }
    proof {
        if t@.contains('@') {
            let j = choose|j: int| 0 <= j < t@.len() && t@[j] == '@';
            assert(t@[j] != '@');
        }
    }
    let mut count: usize = 0;
    let mut acc: i64 = 0;
    let mut overflowed = false;
    let mut k: usize = 0;
    while k < n
        invariant
            k <= n,
            n == t@.len(),
            count == digit_seq(t@.take(k as int)).len(),
            count <= k,
            acc >= 0,
            !overflowed ==> acc == digits_value(digit_seq(t@.take(k as int))),
            overflowed ==> digits_value(digit_seq(t@.take(k as int))) > i64::MAX,
        decreases n - k,
    {
        let ghost prefix = t@.take(k as int);
        let c = t.get_char(k);
        let u = c as u32;
        proof {
            let longer = t@.take(k + 1 as int);
            assert(longer.drop_last() =~= prefix);
            assert(longer.last() == t@[k as int]);
        }
        if 48 <= u && u <= 57 {
            let d: i64 = (u - 48) as i64;
            proof {
                let db = (c as u32 - 48) as u8;
                let pd = digit_seq(prefix);
                let ld = digit_seq(t@.take(k + 1 as int));
                assert(ld == pd.push(db));
                assert(ld.drop_last() =~= pd);
                assert(ld.last() == db);
                assert(digits_value(ld) == 10 * digits_value(pd) + db);
                assert(db as int == d as int);
                lemma_digits_value_nonneg(pd);
            }
            if !overflowed {
                if acc <= (i64::MAX - d) / 10 {
                    proof {
                        assert(10 * ((i64::MAX - d) / 10) <= i64::MAX - d) by (nonlinear_arith)
                            requires
                                0 <= d <= 9,
                        ;
                        assert(acc * 10 <= ((i64::MAX - d) / 10) * 10) by (nonlinear_arith)
                            requires
                                acc <= (i64::MAX - d) / 10,
                                acc >= 0,
                        ;
                    }
                    acc = acc * 10 + d;
                } else {
                    proof {
                        assert(10 * acc + d > i64::MAX) by (nonlinear_arith)
                            requires
                                acc > (i64::MAX - d) / 10,
                                0 <= d <= 9,
                                acc >= 0,
                        ;
                    }
                    overflowed = true;
                }
            } else {
                proof {
                    lemma_digits_value_nonneg(digit_seq(prefix));
                }
            }
            count = count + 1;
        } else {
            proof {
                assert(digit_seq(t@.take(k + 1 as int)) == digit_seq(prefix));
            }
        }
        k += 1;
    }
    proof {
        assert(t@.take(n as int) =~= t@);
    }
    if count == 0 {
        LoginTarget::Unrecognized
    } else if overflowed {
        LoginTarget::MalformedStudentId
    } else {
        LoginTarget::StudentId(acc)
    }
}

/// The first rule a password-reset completion breaks.
#[derive(Clone, Copy, Debug, PartialEq, Eq, Structural)]
pub enum ResetError {
    EmailRequired,
    PasswordTooShort,
    PasswordMismatch,
}

/// The answer password-reset validation must give.
pub open spec fn reset_outcome(
    email: Seq<char>,
    new_password: Seq<char>,
    confirm: Seq<char>,
) -> Option<ResetError> {
    if is_blank(email) {
        Some(ResetError::EmailRequired)
    } else if password_too_short(new_password) {
        Some(ResetError::PasswordTooShort)
    } else if new_password != confirm {
        Some(ResetError::PasswordMismatch)
    } else {
        None
    }
}

/// Check a password-reset completion; `None` means the new credential may be
/// persisted.
pub fn validate_password_reset(email: &str, new_password: &str, confirm: &str) -> (r: Option<
    ResetError,
>)
    ensures
        r == reset_outcome(email@, new_password@, confirm@),
{
    if trimmed(email).is_empty() {
        Some(ResetError::EmailRequired)
    } else if new_password.len() < MIN_PASSWORD_BYTES {
        Some(ResetError::PasswordTooShort)
    } else if !str_eq(new_password, confirm) {
        Some(ResetError::PasswordMismatch)
    } else {
        None
    }
}

/// Whether a code submission carries both of its fields: verification is
/// attempted only when neither the identity nor the presented code is blank.
pub fn code_submission_complete(email: &str, code: &str) -> (r: bool)
    ensures
        r == (!is_blank(email@) && !is_blank(code@)),
{
    !trimmed(email).is_empty() && !trimmed(code).is_empty()
}

} // verus!
