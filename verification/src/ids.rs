use vstd::prelude::*;
use crate::hashing::is_lower_hex;

verus! {

/// Whether a text has the hyphenated form of a version 4 UUID: 36
/// characters, hyphens at positions 8, 13, 18 and 23, lower-case hex digits
/// elsewhere, and the version digit `4` at position 14.
pub open spec fn is_hyphenated_uuid_v4(s: Seq<char>) -> bool {
    &&& s.len() == 36
    &&& forall|i: int| 0 <= i < 36 ==> (if i == 8 || i == 13 || i == 18 || i == 23 {
        s[i] == '-'
    } else {
        is_lower_hex(#[trigger] s[i])
    })
    &&& s[14] == '4'
}

/// A fresh random identifier in the hyphenated form of a version 4 UUID.
///
/// Calls `uuid::Uuid::new_v4` and formats it with `to_string`, whose
/// `Display` writes the hyphenated lower-case form; `new_v4` sets the
/// version nibble to 4. Which random digits come out is not promised.
#[verifier::external_body]
pub(crate) fn new_uuid_v4() -> (id: String)
    ensures
        is_hyphenated_uuid_v4(id@),
{
    uuid::Uuid::new_v4().to_string()
}

} // verus!
