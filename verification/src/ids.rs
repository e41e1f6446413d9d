use vstd::prelude::*;

verus! {

pub open spec fn is_lower_hex(c: char) -> bool {
    ('0' <= c && c <= '9') || ('a' <= c && c <= 'f')
}

/// The hyphenated lower-case text form of a UUID: 8-4-4-4-12 hexadecimal digits.
pub open spec fn is_hyphenated_uuid(s: Seq<char>) -> bool {
    &&& s.len() == 36
    &&& forall|i: int| 0 <= i < 36 ==> if i == 8 || i == 13 || i == 18 || i == 23 {
        #[trigger] s[i] == '-'
    } else {
        is_lower_hex(s[i])
    }
}

/// `uuid::Uuid::new_v4().to_string()`: a fresh random identifier. The uuid
/// crate's `Display` for `Uuid` writes the hyphenated lower-case form; which
/// identifier comes out is left open (it is random), so two calls may differ
/// or not as far as this contract goes.
#[verifier::external_body]
pub(crate) fn new_v4_string() -> (r: String)
    ensures
        is_hyphenated_uuid(r@),
{
    uuid::Uuid::new_v4().to_string()
}

/// A fresh identifier for a scan, a group or an operation: a random UUID in
/// its hyphenated lower-case text form.
pub fn new_identifier() -> (r: String)
    ensures
        is_hyphenated_uuid(r@),
{
    new_v4_string()
}

} // verus!
