//! Identifier validation through the `uuid` crate.

use vstd::prelude::*;

verus! {

/// A hexadecimal digit, either case.
pub open spec fn is_hex_char(c: char) -> bool {
    let u = c as u32;
    (48 <= u && u <= 57) || (65 <= u && u <= 70) || (97 <= u && u <= 102)
}

/// The simple form: 32 hexadecimal digits.
pub open spec fn is_simple_uuid(s: Seq<char>) -> bool {
    s.len() == 32 && (forall|i: int| 0 <= i < 32 ==> is_hex_char(#[trigger] s[i]))
}

/// The hyphenated form: five hexadecimal groups with hyphens after the 8th,
/// 13th, 18th and 23rd position.
pub open spec fn is_hyphenated_uuid(s: Seq<char>) -> bool {
    &&& s.len() == 36
    &&& s[8] == '-' && s[13] == '-' && s[18] == '-' && s[23] == '-'
    &&& (forall|i: int|
        0 <= i < 36 && i != 8 && i != 13 && i != 18 && i != 23 ==> is_hex_char(#[trigger] s[i]))
}

/// The braced form: a hyphenated UUID in curly braces.
pub open spec fn is_braced_uuid(s: Seq<char>) -> bool {
    s.len() == 38 && s[0] == '{' && s[37] == '}' && is_hyphenated_uuid(s.subrange(1, 37))
}

/// One character of the URN prefix, case-insensitively.
pub open spec fn urn_prefix_char(c: char, lower: char, upper: char) -> bool {
    c == lower || c == upper
}

/// The URN form: a case-insensitive `urn:uuid:` prefix, then a hyphenated
/// UUID.
pub open spec fn is_urn_uuid(s: Seq<char>) -> bool {
    &&& s.len() == 45
    &&& urn_prefix_char(s[0], 'u', 'U')
    &&& urn_prefix_char(s[1], 'r', 'R')
    &&& urn_prefix_char(s[2], 'n', 'N')
    &&& s[3] == ':'
    &&& urn_prefix_char(s[4], 'u', 'U')
    &&& urn_prefix_char(s[5], 'u', 'U')
    &&& urn_prefix_char(s[6], 'i', 'I')
    &&& urn_prefix_char(s[7], 'd', 'D')
    &&& s[8] == ':'
    &&& is_hyphenated_uuid(s.subrange(9, 45))
}

/// Well-formed UUID text: any of the four accepted forms.
pub open spec fn uuid_text_ok(s: Seq<char>) -> bool {
    is_simple_uuid(s) || is_hyphenated_uuid(s) || is_braced_uuid(s) || is_urn_uuid(s)
}

/// Relies on uuid::Uuid::parse_str: it accepts exactly the simple,
/// hyphenated, braced and URN forms with case-insensitive hexadecimal digits,
/// returns an error on anything else, and never panics. The parser works on
/// the UTF-8 bytes, but every accepted input is pure ASCII — each byte of a
/// multi-byte character lies outside the hexadecimal and punctuation sets —
/// so acceptance coincides with the character-level grammar above.
#[verifier::external_body]
pub(crate) fn is_uuid_text(s: &str) -> (r: bool)
    ensures
        r == uuid_text_ok(s@),
{
    uuid::Uuid::parse_str(s).is_ok()
}

} // verus!
