//! Names of HTTP statuses.

use vstd::prelude::*;

use crate::text::{chars_of, decimal, to_decimal};

verus! {

/// The name of a status, for codes of three digits.
pub uninterp spec fn status_line(code: u16) -> Seq<char>;

/// The `Display` form of `reqwest::StatusCode`: the code and its reason
/// phrase. The contract names it; codes outside three digits have no form.
#[verifier::external_body]
fn status_display(code: u16) -> (r: String)
    requires
        100 <= code <= 999,
    ensures
        r@ == status_line(code),
{
    reqwest::StatusCode::from_u16(code).unwrap().to_string()
}

/// A status as messages show it.
pub open spec fn status_name(code: u16) -> Seq<char> {
    if 100 <= code <= 999 {
        status_line(code)
    } else {
        decimal(code as nat)
    }
}

/// A status as messages show it.
pub fn status_text(code: u16) -> (r: Vec<char>)
    ensures
        r@ == status_name(code),
{
    if 100 <= code && code <= 999 {
        chars_of(&status_display(code))
    } else {
        to_decimal(code as u64)
    }
}

} // verus!
