//! Record identifiers, drawn by `uuid`.

use vstd::prelude::*;

verus! {

/// A lower-case hexadecimal digit.
pub open spec fn is_lower_hex(c: char) -> bool {
    ('0' <= c <= '9') || ('a' <= c <= 'f')
}

/// The hyphenated text form of a UUID: 36 characters, a hyphen at each of the
/// positions 8, 13, 18 and 23, lower-case hexadecimal digits elsewhere.
pub open spec fn is_hyphenated_uuid(s: Seq<char>) -> bool {
    &&& s.len() == 36
    &&& forall|i: int|
        0 <= i < 36 ==> if i == 8 || i == 13 || i == 18 || i == 23 {
            #[trigger] s[i] == '-'
        } else {
            is_lower_hex(s[i])
        }
}

/// Calls `uuid::Uuid::new_v4` and turns the identifier into text with its
/// `Display` form.
///
/// Not proved: that the text is in hyphenated form. Which identifier comes out
/// is left open: the call draws it at random, and it stops the program where
/// the operating system has no random bytes to give.
#[verifier::external_body]
pub(crate) fn fresh_uuid() -> (uuid: String)
    ensures
        is_hyphenated_uuid(uuid@),
{
    uuid::Uuid::new_v4().to_string()
}

} // verus!
