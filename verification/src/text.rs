//! Small executable helpers for building and comparing text.

use vstd::prelude::*;

verus! {

/// Relies on `String::push` from std: it appends the given character at the
/// end of the string.
#[verifier::external_body]
pub(crate) fn push_char(s: &mut String, c: char)
    ensures
        final(s)@ == old(s)@.push(c),
{
    s.push(c);
}

/// Whether a string equals a given literal, at the level of views.
pub(crate) fn eq_lit(s: &String, lit: &str) -> (r: bool)
    ensures
        r == (s@ == lit@),
{
    let other: String = String::from_str(lit);
    *s == other
}

} // verus!
