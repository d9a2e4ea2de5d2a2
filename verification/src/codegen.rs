//! Code generator: produces a fixed-length numeric code, each digit drawn
//! independently from a uniform random source.

use vstd::prelude::*;
use rand::Rng;
use crate::text::ascii_bytes_to_string;

verus! {

/// A decimal digit character, `'0'` through `'9'`.
pub open spec fn is_code_digit(c: char) -> bool {
    48 <= c as u32 <= 57
}

/// A fixed-length string of decimal digit characters.
pub open spec fn is_code_string(s: Seq<char>, len: int) -> bool {
    s.len() == len && forall|i: int| 0 <= i < s.len() ==> is_code_digit(#[trigger] s[i])
}

/// Relies on `rand::Rng::gen_range` over the thread-local generator: a sample
/// from the non-empty range `0..10` lies below 10.
#[verifier::external_body]
fn random_digit() -> (d: u8)
    ensures
        d < 10,
{
    rand::thread_rng().gen_range(0..10)
}

/// Produce a random numeric code of exactly `length` digit characters.
pub fn generate(length: usize) -> (code: String)
    ensures
        is_code_string(code@, length as int),
{
    let mut bytes: Vec<u8> = Vec::new();
    let mut i: usize = 0;
    while i < length
        invariant
            i <= length,
            bytes@.len() == i,
            forall|j: int| 0 <= j < i ==> 48 <= #[trigger] bytes@[j] < 58,
        decreases length - i,
    {
        let d = random_digit();
        bytes.push(48 + d);
        i += 1;
    }
    let code = ascii_bytes_to_string(bytes);
    proof {
        assert(forall|i: int|
            0 <= i < code@.len() ==> is_code_digit(#[trigger] code@[i]));
    }
    code
}

} // verus!
