//! The business rules a registration candidate must meet, checked in a fixed
//! order so that the first failing rule decides the reported error.

use crate::error::CredentialError;
use vstd::prelude::*;

verus! {

/// The shortest username and the shortest password that are accepted.
pub const MIN_LENGTH: usize = 5;

/// An ASCII letter or decimal digit.
pub open spec fn is_ascii_alnum(c: char) -> bool {
    ('a' <= c && c <= 'z') || ('A' <= c && c <= 'Z') || ('0' <= c && c <= '9')
}

/// An ASCII character that is neither a letter nor a decimal digit.
pub open spec fn is_ascii_other(c: char) -> bool {
    (c as u32) < 128 && !is_ascii_alnum(c)
}

/// Every character of `s` is an ASCII letter or digit.
pub open spec fn all_ascii_alnum(s: Seq<char>) -> bool {
    forall|i: int| 0 <= i < s.len() ==> is_ascii_alnum(#[trigger] s[i])
}

/// Some character of `s` is ASCII but neither a letter nor a digit.
pub open spec fn has_ascii_other(s: Seq<char>) -> bool {
    exists|i: int| 0 <= i < s.len() && is_ascii_other(#[trigger] s[i])
}

/// Whether `c` is alphanumeric in the Unicode sense (alphabetic or numeric).
pub uninterp spec fn alphanumeric(c: char) -> bool;

/// Relies on `char::is_alphanumeric`: true exactly for characters that are
/// alphabetic or numeric; among ASCII characters those are the letters and
/// the decimal digits.
#[verifier::external_body]
fn char_is_alphanumeric(c: char) -> (r: bool)
    ensures
        r == alphanumeric(c),
        is_ascii_alnum(c) ==> r,
        is_ascii_other(c) ==> !r,
{
    c.is_alphanumeric()
}

/// Every character of `s` is alphanumeric.
pub open spec fn all_alphanumeric(s: Seq<char>) -> bool {
    forall|i: int| 0 <= i < s.len() ==> alphanumeric(#[trigger] s[i])
}

/// The rules in their fixed order, given whether every character of the
/// username is alphanumeric.
pub open spec fn rules_outcome(
    username: Seq<char>,
    password: Seq<char>,
    username_alphanumeric: bool,
    taken: Seq<Seq<char>>,
) -> Result<(), CredentialError> {
    if username.len() == 0 || password.len() == 0 {
        Err(CredentialError::EmptyFields)
    } else if !username_alphanumeric {
        Err(CredentialError::InvalidCharacter)
    } else if username.len() < MIN_LENGTH || password.len() < MIN_LENGTH {
        Err(CredentialError::InvalidLength)
    } else if taken.contains(username) {
        Err(CredentialError::UsernameTaken)
    } else {
        Ok(())
    }
}

/// The outcome of validating a candidate against the usernames already taken.
pub open spec fn validation_outcome(
    username: Seq<char>,
    password: Seq<char>,
    taken: Seq<Seq<char>>,
) -> Result<(), CredentialError> {
    rules_outcome(username, password, all_alphanumeric(username), taken)
}

/// The views of a list of names.
pub open spec fn views_of(names: Seq<String>) -> Seq<Seq<char>> {
    names.map_values(|s: String| s@)
}

/// Whether every character of `s` is alphanumeric.
pub fn is_all_alphanumeric(s: &str) -> (r: bool)
    ensures
        r == all_alphanumeric(s@),
        all_ascii_alnum(s@) ==> r,
        has_ascii_other(s@) ==> !r,
{
    let n = s.unicode_len();
    let mut i: usize = 0;
    while i < n
        invariant
            n == s@.len(),
            i <= n,
            forall|k: int| 0 <= k < i ==> alphanumeric(#[trigger] s@[k]),
            forall|k: int| 0 <= k < i ==> !is_ascii_other(#[trigger] s@[k]),
        decreases n - i,
    {
        let c = s.get_char(i);
        if !char_is_alphanumeric(c) {
            assert(!is_ascii_alnum(s@[i as int]));
            return false;
        }
        i = i + 1;
    }
    true
}

/// Whether `name` is one of `names` (exact, case-sensitive match).
pub fn contains_name(names: &Vec<String>, name: &str) -> (r: bool)
    ensures
        r == views_of(names@).contains(name@),
{
    let wanted: String = name.to_owned();
    let mut i: usize = 0;
    while i < names.len()
        invariant
            wanted@ == name@,
            i <= names@.len(),
            forall|k: int| 0 <= k < i ==> names@[k]@ != name@,
        decreases names@.len() - i,
    {
        if names[i].eq(&wanted) {
            proof {
                assert(views_of(names@)[i as int] == name@);
            }
            return true;
        }
        i = i + 1;
    }
    proof {
        if views_of(names@).contains(name@) {
            let k = choose|k: int| 0 <= k < views_of(names@).len() && views_of(names@)[k] == name@;
            assert(names@[k]@ == name@);
        }
    }
    false
}

/// Applies the rules in order once the character class of the username is
/// known.
pub fn check_rules(
    username: &str,
    password: &str,
    username_alphanumeric: bool,
    taken: &Vec<String>,
) -> (r: Result<(), CredentialError>)
    ensures
        r == rules_outcome(username@, password@, username_alphanumeric, views_of(taken@)),
{
    let ulen = username.unicode_len();
    let plen = password.unicode_len();
    if ulen == 0 || plen == 0 {
        return Err(CredentialError::EmptyFields);
    }
    if !username_alphanumeric {
        return Err(CredentialError::InvalidCharacter);
    }
    if ulen < MIN_LENGTH || plen < MIN_LENGTH {
        return Err(CredentialError::InvalidLength);
    }
    if contains_name(taken, username) {
        return Err(CredentialError::UsernameTaken);
    }
    Ok(())
}

/// Checks a registration candidate: empty fields first, then the character
/// class of the username, then the minimum lengths, then whether the username
/// is already taken.
pub fn validate(username: &str, password: &str, taken: &Vec<String>) -> (r: Result<
    (),
    CredentialError,
>)
    ensures
        r == validation_outcome(username@, password@, views_of(taken@)),
        all_ascii_alnum(username@) ==> r == rules_outcome(username@, password@, true, views_of(taken@)),
        has_ascii_other(username@) ==> r == rules_outcome(username@, password@, false, views_of(taken@)),
{
    let alphanumeric = is_all_alphanumeric(username);
    check_rules(username, password, alphanumeric, taken)
}

} // verus!
