//! Identifiers that no other has.
use vstd::prelude::*;

verus! {

/// Whether a character is a hexadecimal digit in lower case.
pub open spec fn hex_digit(c: char) -> bool {
    '0' <= c <= '9' || 'a' <= c <= 'f'
}

/// Whether a text has the form of a random identifier: hexadecimal digits in groups of eight,
/// four, four, four and twelve, with a hyphen between, a four before the third group's other
/// digits, and one of `8`, `9`, `a` and `b` before those of the fourth.
pub open spec fn id_text(s: Seq<char>) -> bool {
    &&& s.len() == 36
    &&& s[8] == '-' && s[13] == '-' && s[18] == '-' && s[23] == '-'
    &&& forall|i: int|
        0 <= i < 36 && i != 8 && i != 13 && i != 18 && i != 23 ==> hex_digit(#[trigger] s[i])
    &&& s[14] == '4'
    &&& s[19] == '8' || s[19] == '9' || s[19] == 'a' || s[19] == 'b'
}

/// A random identifier, by `uuid::Uuid::new_v4` and its `to_string`. Nothing is claimed of it
/// but its form: which one it is depends on chance.
#[verifier::external_body]
pub(crate) fn fresh_id() -> (out: String)
    ensures
        id_text(out@),
{
    uuid::Uuid::new_v4().to_string()
}

/// A random identifier for a transfer that is part of a folder's.
pub fn transfer_id() -> (out: String)
    ensures
        id_text(out@),
{
    fresh_id()
}

} // verus!
