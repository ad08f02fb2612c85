//! The account-identifier grammar.
//!
//! Every principal this orchestrator talks about (participants, external
//! services, the root operator) is named by an account identifier: 2 to 64
//! characters, lowercase letters and digits, where the separators `.`, `-`
//! and `_` may each stand only between two name characters. A strategy
//! record whose service identity breaks this grammar cannot be resolved and
//! its chains are skipped.

use vstd::prelude::*;

verus! {

/// A name character: a lowercase ASCII letter or a digit.
pub open spec fn is_name_char(c: char) -> bool {
    (97 <= c as u32 && c as u32 <= 122) || (48 <= c as u32 && c as u32 <= 57)
}

/// A separator: allowed only between two name characters.
pub open spec fn is_separator_char(c: char) -> bool {
    c == '.' || c == '-' || c == '_'
}

/// The grammar of a well-formed account identifier.
pub open spec fn valid_account_id(s: Seq<char>) -> bool {
    &&& 2 <= s.len() <= 64
    &&& forall|i: int|
        0 <= i < s.len() ==> is_name_char(#[trigger] s[i]) || is_separator_char(s[i])
    &&& is_name_char(s[0])
    &&& is_name_char(s[s.len() - 1])
    &&& forall|i: int|
        0 < i < s.len() ==> !(is_separator_char(#[trigger] s[i]) && is_separator_char(s[i - 1]))
}

/// A lowercase hexadecimal digit.
pub open spec fn is_hex_char(c: char) -> bool {
    (97 <= c as u32 && c as u32 <= 102) || (48 <= c as u32 && c as u32 <= 57)
}

/// A raw 64-character lowercase hexadecimal name.
pub open spec fn is_hex_name(s: Seq<char>) -> bool {
    s.len() == 64 && forall|i: int| 0 <= i < s.len() ==> is_hex_char(#[trigger] s[i])
}

fn name_char(c: char) -> (b: bool)
    ensures
        b == is_name_char(c),
{
    let u = c as u32;
    (97 <= u && u <= 122) || (48 <= u && u <= 57)
}

fn separator_char(c: char) -> (b: bool)
    ensures
        b == is_separator_char(c),
{
    c == '.' || c == '-' || c == '_'
}

fn hex_char(c: char) -> (b: bool)
    ensures
        b == is_hex_char(c),
{
    let u = c as u32;
    (97 <= u && u <= 102) || (48 <= u && u <= 57)
}

/// Whether `s` is a well-formed account identifier.
pub fn is_valid_account_id(s: &str) -> (b: bool)
    ensures
        b == valid_account_id(s@),
{
    let n = s.unicode_len();
    if n < 2 || n > 64 {
        return false;
    }
    let mut i: usize = 0;
    let mut prev_sep = false;
    while i < n
        invariant
            0 <= i <= n,
            n == s@.len(),
            2 <= n <= 64,
            forall|j: int|
                0 <= j < i ==> is_name_char(#[trigger] s@[j]) || is_separator_char(s@[j]),
            forall|j: int|
                0 < j < i ==> !(is_separator_char(#[trigger] s@[j]) && is_separator_char(s@[j - 1])),
            i > 0 ==> is_name_char(s@[0]),
            prev_sep == (i > 0 && is_separator_char(s@[i - 1])),
        decreases n - i,
    {
        let c = s.get_char(i);
        let name = name_char(c);
        let sep = separator_char(c);
        if !name && !sep {
            return false;
        }
        if i == 0 && !name {
            return false;
        }
        if sep && prev_sep {
            return false;
        }
        prev_sep = sep;
        i += 1;
    }
    !prev_sep
}

/// Whether `s` is a raw 64-character lowercase hexadecimal name.
pub fn is_hex_account_name(s: &str) -> (b: bool)
    ensures
        b == is_hex_name(s@),
{
    let n = s.unicode_len();
    if n != 64 {
        return false;
    }
    let mut i: usize = 0;
    while i < n
        invariant
            0 <= i <= n,
            n == s@.len(),
            n == 64,
            forall|j: int| 0 <= j < i ==> is_hex_char(#[trigger] s@[j]),
        decreases n - i,
    {
        let c = s.get_char(i);
        if !hex_char(c) {
            return false;
        }
        i += 1;
    }
    true
}

} // verus!
