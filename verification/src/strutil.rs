//! Small string helpers used when building token texts and error messages.

use vstd::prelude::*;
use vstd::string::*;

verus! {

/// Relies on `String::push`: appends exactly the one character `c`.
#[verifier::external_body]
pub fn push_char(s: &mut String, c: char)
    ensures
        final(s)@ == old(s)@.push(c),
{
    s.push(c);
}

/// Content equality of two string slices.
pub fn str_content_eq(a: &str, b: &str) -> (r: bool)
    ensures
        r == (a@ == b@),
{
    let aa = a.to_owned();
    let bb = b.to_owned();
    aa.eq(&bb)
}

} // verus!
