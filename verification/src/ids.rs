//! Random item identifiers: a prefix such as `msg_` followed by the 32
//! lowercase hex digits of a random UUID.
use vstd::prelude::*;
use crate::json::concat;

verus! {

pub open spec fn is_lower_hex(c: char) -> bool {
    ('0' <= c && c <= '9') || ('a' <= c && c <= 'f')
}

/// `id` is `prefix` followed by 32 lowercase hex digits.
pub open spec fn is_id(id: Seq<char>, prefix: Seq<char>) -> bool {
    &&& id.len() == prefix.len() + 32
    &&& id.take(prefix.len() as int) == prefix
    &&& forall|i: int| prefix.len() <= i < id.len() ==> is_lower_hex(#[trigger] id[i])
}

/// `Uuid::new_v4().simple().to_string()`: the 32 lowercase hex digits of a
/// random version-4 UUID. Which digits is left open.
#[verifier::external_body]
fn random_uuid_hex() -> (r: String)
    ensures
        r@.len() == 32,
        forall|i: int| 0 <= i < 32 ==> is_lower_hex(#[trigger] r@[i]),
{
    uuid::Uuid::new_v4().simple().to_string()
}

/// A fresh identifier with the given prefix.
pub fn new_id(prefix: &str) -> (r: String)
    ensures
        is_id(r@, prefix@),
{
    let u = random_uuid_hex();
    let r = concat(prefix, u.as_str());
    assert(r@.take(prefix@.len() as int) =~= prefix@);
    assert forall|i: int| prefix@.len() <= i < r@.len() implies is_lower_hex(#[trigger] r@[i]) by {
        assert(r@[i] == u@[i - prefix@.len()]);
    }
    r
}

} // verus!
