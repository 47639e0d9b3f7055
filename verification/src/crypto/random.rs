//! Random alphanumeric strings.
use vstd::prelude::*;
use crate::text::string_from_chars;
use crate::crypto::openssl_calls::random_bytes;

verus! {

/// An ASCII letter or digit.
pub open spec fn is_alphanumeric(c: char) -> bool {
    ('A' <= c && c <= 'Z') || ('a' <= c && c <= 'z') || ('0' <= c && c <= '9')
}

/// Every character is an ASCII letter or digit.
pub open spec fn alphanumeric_text(s: Seq<char>) -> bool {
    forall|i: int| 0 <= i < s.len() ==> is_alphanumeric(#[trigger] s[i])
}

/// The letter or digit that a random byte selects (`A`-`Z`, `a`-`z`, `0`-`9`).
fn alphanumeric_of(b: u8) -> (c: char)
    ensures
        is_alphanumeric(c),
{
    let i: u8 = b % 62;
    if i < 26 {
        ((65 + i) as char)
    } else if i < 52 {
        ((97 + (i - 26)) as char)
    } else {
        ((48 + (i - 52)) as char)
    }
}

/// A random string of `len` ASCII letters and digits.
///
/// # Errors
/// When the random generator fails.
pub fn generate_string(len: usize) -> (res: Result<String, String>)
    requires
        len <= i32::MAX,
    ensures
        res matches Ok(s) ==> s@.len() == len && alphanumeric_text(s@),
{
    let bytes = random_bytes(len)?;
    let mut chars: Vec<char> = Vec::new();
    for i in 0..bytes.len()
        invariant
            chars@.len() == i,
            alphanumeric_text(chars@),
    {
        chars.push(alphanumeric_of(bytes[i]));
    }
    Ok(string_from_chars(chars.as_slice()))
}

} // verus!
