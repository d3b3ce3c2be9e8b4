//! Reading of on/off settings from their text.
use vstd::prelude::*;
use crate::text::{chars_of, str_equals};

verus! {

broadcast use vstd::string::group_string_axioms;

/// Texts that switch a setting on.
pub open spec fn is_on_text(v: Seq<char>) -> bool {
    v == "1"@ || v == "true"@ || v == "yes"@ || v == "on"@
}

/// Whether a setting's text switches it on: exactly "1", "true", "yes" or "on".
pub fn parse_flag(v: &str) -> (r: bool)
    ensures
        r == is_on_text(v@),
{
    str_equals(v, "1") || str_equals(v, "true") || str_equals(v, "yes") || str_equals(v, "on")
}

/// Code point of a character with ASCII capitals lowered.
pub open spec fn ascii_lower_code(c: char) -> u32 {
    if 'A' <= c <= 'Z' {
        ((c as u32) + 32) as u32
    } else {
        c as u32
    }
}

/// Equality ignoring ASCII case, as std's `str::eq_ignore_ascii_case`.
pub open spec fn eq_ignore_ascii_case(a: Seq<char>, b: Seq<char>) -> bool {
    a.len() == b.len() && forall|i: int|
        0 <= i < a.len() ==> ascii_lower_code(a[i]) == ascii_lower_code(b[i])
}

fn lower_code(c: char) -> (r: u32)
    ensures
        r == ascii_lower_code(c),
{
    if 'A' <= c && c <= 'Z' {
        (c as u32) + 32
    } else {
        c as u32
    }
}

/// Whether a headless-mode setting is on: "1", or "true" in any ASCII case.
pub fn is_headless_text(v: &str) -> (r: bool)
    ensures
        r == (v@ == "1"@ || eq_ignore_ascii_case(v@, "true"@)),
{
    if str_equals(v, "1") {
        return true;
    }
    let a = chars_of(v);
    let b = chars_of("true");
    if a.len() != b.len() {
        return false;
    }
    let mut i: usize = 0;
    while i < a.len()
        invariant
            i <= a@.len(),
            a@.len() == b@.len(),
            a@ == v@,
            b@ == "true"@,
            v@ != "1"@,
            forall|j: int| 0 <= j < i ==> ascii_lower_code(a@[j]) == ascii_lower_code(b@[j]),
        decreases a@.len() - i,
    {
        if lower_code(a[i]) != lower_code(b[i]) {
            return false;
        }
        i = i + 1;
    }
    true
}

} // verus!
