//! Validation and decoding of Base32-encoded secrets (RFC 4648).

use vstd::prelude::*;
use vstd::string::StrSliceExecFns;

verus! {

/// A character of the RFC 4648 Base32 alphabet, before any padding.
pub open spec fn is_base32_data_char(c: char) -> bool {
    ('A' <= c && c <= 'Z') || ('2' <= c && c <= '7')
}

/// Length of the leading run of Base32 alphabet characters.
pub open spec fn spec_data_len(s: Seq<char>) -> int
    decreases s.len(),
{
    if s.len() == 0 {
        0
    } else if !is_base32_data_char(s[0]) {
        0
    } else {
        1 + spec_data_len(s.skip(1))
    }
}

/// A well-formed Base32 encoding of a secret: one or more alphabet
/// characters followed only by `=` padding, a total length that is a
/// positive multiple of 8, and, when padding is present, a final quantum
/// whose count of data characters is one of 2, 4, 5 or 7.
pub open spec fn spec_valid_base32(s: Seq<char>) -> bool {
    let n = s.len() as int;
    let d = spec_data_len(s);
    &&& n > 0
    &&& n % 8 == 0
    &&& d > 0
    &&& (forall|i: int| d <= i < n ==> s[i] == '=')
    &&& (d == n || (n - d <= 6 && (d % 8 == 2 || d % 8 == 4 || d % 8 == 5 || d % 8 == 7)))
}

/// The length of the alphabet-character prefix is exactly the index of the
/// first character outside the alphabet.
proof fn lemma_data_len_at_first_break(s: Seq<char>, d: int)
    requires
        0 <= d <= s.len(),
        forall|i: int| 0 <= i < d ==> is_base32_data_char(s[i]),
        d < s.len() ==> !is_base32_data_char(s[d]),
    ensures
        spec_data_len(s) == d,
    decreases s.len(),
{
    if s.len() == 0 {
    } else if d == 0 {
    } else {
        let t = s.skip(1);
        assert forall|i: int| 0 <= i < d - 1 implies is_base32_data_char(t[i]) by {
            assert(t[i] == s[i + 1]);
        }
        if d - 1 < t.len() {
            assert(t[d - 1] == s[d]);
        }
        lemma_data_len_at_first_break(t, d - 1);
    }
}

fn is_data_char_at(input: &str, i: usize) -> (r: bool)
    requires
        i < input@.len(),
    ensures
        r == is_base32_data_char(input@[i as int]),
{
    let c = input.get_char(i);
    ('A' <= c && c <= 'Z') || ('2' <= c && c <= '7')
}

/// Decides whether `input` is a well-formed Base32 encoding, as
/// `spec_valid_base32` states it.
pub fn check_base_32_string(input: &str) -> (r: bool)
    ensures
        r == spec_valid_base32(input@),
{
    let n = input.unicode_len();
    if n == 0 || n % 8 != 0 {
        return false;
    }
    let mut d: usize = 0;
    while d < n && is_data_char_at(input, d)
        invariant
            d <= n,
            n == input@.len(),
            forall|i: int| 0 <= i < d ==> is_base32_data_char(input@[i]),
        decreases n - d,
    {
        d += 1;
    }
    proof {
        lemma_data_len_at_first_break(input@, d as int);
    }
    if d == 0 {
        return false;
    }
    let mut j: usize = d;
    while j < n
        invariant
            d <= j <= n,
            n == input@.len(),
            spec_data_len(input@) == d,
            forall|i: int| d <= i < j ==> input@[i] == '=',
        decreases n - j,
    {
        let c = input.get_char(j);
        if c != '=' {
            return false;
        }
        j += 1;
    }
    if d == n {
        return true;
    }
    n - d <= 6 && (d % 8 == 2 || d % 8 == 4 || d % 8 == 5 || d % 8 == 7)
}

/// What `Base32Upper::decode_vec` makes of a string: the decoded bytes, or
/// nothing when the string is not decodable Base32.
pub uninterp spec fn base32_decoding(s: Seq<char>) -> Option<Seq<u8>>;

/// Relies on base32ct's `Base32Upper::decode_vec`: decoding of padded
/// upper-case RFC 4648 Base32 text, a function of the input characters alone.
#[verifier::external_body]
pub(crate) fn decode_base32(input: &str) -> (r: Option<Vec<u8>>)
    ensures
        match r {
            Some(v) => base32_decoding(input@) == Some(v@),
            None => base32_decoding(input@) is None,
        },
{
    match <base32ct::Base32Upper as base32ct::Encoding>::decode_vec(input) {
        Ok(v) => Some(v),
        Err(_) => None,
    }
}

} // verus!
