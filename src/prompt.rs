use vstd::prelude::*;

use crate::semver::{all_digits, leading_value};

verus! {

/// `s` without one leading `+`.
pub open spec fn unsigned_digits(s: Seq<char>) -> Seq<char> {
    if s.len() > 0 && s[0] == '+' {
        s.drop_first()
    } else {
        s
    }
}

/// Whether `s` is the decimal text of a `u64`: an optional `+` and one or
/// more digits whose value fits.
pub open spec fn is_u64_text(s: Seq<char>) -> bool {
    let d = unsigned_digits(s);
    d.len() > 0 && all_digits(d) && leading_value(d) <= u64::MAX
}

/// Relies on `str::parse::<u64>`: it accepts an optional `+` followed by
/// decimal digits whose value fits in a `u64`, and nothing else.
#[verifier::external_body]
fn parse_u64(s: &str) -> (r: Option<u64>)
    ensures
        r is Some <==> is_u64_text(s@),
        r matches Some(v) ==> v as int == leading_value(unsigned_digits(s@)),
{
    s.parse::<u64>().ok()
}

/// Whether a prompt answer is a valid number.
pub fn validate_u64_input(input: &str) -> (r: bool)
    ensures
        r == is_u64_text(input@),
{
    parse_u64(input).is_some()
}

/// How an answer is shown once given: the blank message for an empty one.
pub fn format_answer_if_blank(input: &str, blank_message: &str) -> (r: String)
    ensures
        r@ == if input@.len() == 0 {
            blank_message@
        } else {
            input@
        },
{
    if input.unicode_len() == 0 {
        blank_message.to_string()
    } else {
        input.to_string()
    }
}

} // verus!
