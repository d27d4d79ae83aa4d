//! Identifiers of chats.

use vstd::prelude::*;

verus! {

/// Whether `c` is a digit or one of the letters `a` to `f`.
pub open spec fn lower_hex(c: char) -> bool {
    ('0' <= c && c <= '9') || ('a' <= c && c <= 'f')
}

/// Whether `id` has the shape of a chat id: 36 characters, of which those
/// at the places 8, 13, 18 and 23 are hyphens and all others digits of base
/// sixteen in lower case.
pub open spec fn chat_id_shaped(id: Seq<char>) -> bool {
    &&& id.len() == 36
    &&& forall|i: int|
        0 <= i < 36 ==> if i == 8 || i == 13 || i == 18 || i == 23 {
            #[trigger] id[i] == '-'
        } else {
            lower_hex(id[i])
        }
}

/// A fresh chat id: `uuid::Uuid::new_v4`, displayed. The id is random, so
/// two calls may give any two ids; whatever comes back is in the
/// hyphenated lower-case form that `Uuid` displays. The call needs the
/// operating system's source of randomness and panics where there is none.
#[verifier::external_body]
pub(crate) fn fresh_chat_id() -> (id: String)
    ensures
        chat_id_shaped(id@),
{
    uuid::Uuid::new_v4().to_string()
}

} // verus!
