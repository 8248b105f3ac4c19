//! Identifiers for new groups and commands.

use vstd::prelude::*;

verus! {

/// A digit or one of the letters `a` to `f`.
pub open spec fn is_lower_hex(c: char) -> bool {
    ('0' <= c && c <= '9') || ('a' <= c && c <= 'f')
}

/// The hyphenated form of a UUID in lower case: 36 characters, a hyphen after
/// the 8th, 12th, 16th and 20th hexadecimal digit.
pub open spec fn is_uuid_text(text: Seq<char>) -> bool {
    &&& text.len() == 36
    &&& forall|i: int|
        0 <= i < 36 ==> if i == 8 || i == 13 || i == 18 || i == 23 {
            #[trigger] text[i] == '-'
        } else {
            is_lower_hex(text[i])
        }
}

/// Calls `uuid::Uuid::new_v4` and formats what it returns with the crate's
/// `Display`, which writes the hyphenated lower-case form.
///
/// Trusted: the shape of the text. The value is random, so two calls are not
/// assumed to agree, nor to differ. The call panics when the operating system
/// gives no random bytes.
#[verifier::external_body]
pub(crate) fn fresh_id() -> (id: String)
    ensures
        is_uuid_text(id@),
{
    uuid::Uuid::new_v4().to_string()
}

} // verus!
