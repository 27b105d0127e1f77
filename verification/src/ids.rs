//! Link identifiers and the short paths that write them.

use vstd::prelude::*;

use crate::codec::{
    base62_decode, base62_encode, is_canonical, lemma_decode_encode, lemma_encode_canonical,
    lemma_encode_len,
    lemma_encode_decode, spec_decode, spec_encode,
};
use crate::web::Url;

verus! {

/// A 128-bit identifier, read as one big-endian number.
#[derive(Debug, Clone, Copy, PartialEq, Eq, Hash, Structural)]
pub struct Uuid {
    pub value: u128,
}

impl Uuid {
    /// The identifier with the given 128 bits.
    pub fn from_u128(value: u128) -> (r: Uuid)
        ensures
            r.value == value,
    {
        Uuid { value }
    }

    /// The identifier's 128 bits.
    pub fn as_u128(&self) -> (r: u128)
        ensures
            r == self.value,
    {
        self.value
    }
}

/// The 12-byte identifier of a stored record.
#[derive(Debug, Clone, Copy, PartialEq, Eq, Hash)]
pub struct ObjectId {
    pub bytes: [u8; 12],
}

/// Calls `bson::oid::ObjectId::new` and hands back its bytes. The bytes
/// depend on the clock, the process and a counter, so nothing is stated of them.
#[verifier::external_body]
pub(crate) fn fresh_object_id() -> (r: ObjectId) {
    ObjectId { bytes: bson::oid::ObjectId::new().bytes() }
}

/// The namespace for identifiers named by URLs, as in RFC 4122
/// (`6ba7b811-9dad-11d1-80b4-00c04fd430c8`).
pub const NAMESPACE_URL: u128 = 0x6ba7b811_9dad_11d1_80b4_00c04fd430c8u128;

/// What `uuid::Uuid::new_v5` gives for a namespace and a name (the name
/// taken as the UTF-8 bytes of the text), read as a 128-bit number.
pub uninterp spec fn uuid_v5(namespace: u128, name: Seq<char>) -> u128;

/// Whether a 128-bit identifier carries the marks of a name-based SHA-1
/// UUID: version 5 in the high nibble of byte 6, and the RFC 4122 variant
/// (`10`) in the two high bits of byte 8, bytes counted big-endian.
pub open spec fn is_v5(value: u128) -> bool {
    (value >> 76u128) & 0xfu128 == 5 && (value >> 62u128) & 0x3u128 == 2
}

/// Calls `uuid::Uuid::new_v5` on the namespace and the UTF-8 bytes of the
/// name. Trusted: the result is `uuid_v5` of the two, which makes it a
/// function of its arguments alone, and it carries the version 5 and RFC 4122
/// variant bits that `Builder::from_sha1_bytes` sets.
#[verifier::external_body]
fn new_v5(namespace: u128, name: &str) -> (r: u128)
    ensures
        r == uuid_v5(namespace, name@),
        is_v5(r),
{
    uuid::Uuid::new_v5(&uuid::Uuid::from_u128(namespace), name.as_bytes()).as_u128()
}

/// The identifier that a short path writes, if it writes one.
pub open spec fn spec_path_to_uuid(path: Seq<char>) -> Option<Uuid> {
    match spec_decode(path) {
        Some(v) => Some(Uuid { value: v }),
        None => None,
    }
}

/// The identifier that a short path writes in base62; `None` when the path is
/// empty, holds a character outside `0-9A-Za-z`, or writes a number of more
/// than 128 bits.
pub fn path_to_uuid(path: &str) -> (r: Option<Uuid>)
    ensures
        r == spec_path_to_uuid(path@),
{
    match base62_decode(path) {
        Ok(id) => Some(Uuid::from_u128(id)),
        Err(_) => None,
    }
}

/// The short path of an identifier: its number in base62.
pub fn uuid_to_path(uuid: Uuid) -> (r: String)
    ensures
        r@ == spec_encode(uuid.value),
        r@.len() <= 22,
{
    proof {
        lemma_encode_len(uuid.value);
    }
    base62_encode(uuid.as_u128())
}

/// The identifier of an address: the name-based (version 5) UUID of its
/// serialization in the URL namespace, so equal addresses get equal identifiers.
pub fn url_to_uuid(url: &Url) -> (r: Uuid)
    ensures
        r.value == uuid_v5(NAMESPACE_URL, url.text()),
        is_v5(r.value),
{
    Uuid::from_u128(new_v5(NAMESPACE_URL, url.as_str()))
}


/// The short path of a name-based identifier has 14 to 22 characters: the
/// version bits make the identifier at least 2^78, above 62^13.
pub proof fn lemma_v5_path_length(id: Uuid)
    requires
        is_v5(id.value),
    ensures
        14 <= spec_encode(id.value).len() <= 22,
{
    let v = id.value;
    assert((v >> 76u128) & 0xfu128 == 5 ==> v >= 0x4000_0000_0000_0000_0000u128) by (bit_vector);
    lemma_encode_len(v);
}

/// Every identifier's short path writes that identifier back, and is in
/// canonical form.
pub proof fn lemma_path_of_uuid(id: Uuid)
    ensures
        spec_path_to_uuid(spec_encode(id.value)) == Some(id),
        is_canonical(spec_encode(id.value)),
{
    lemma_decode_encode(id.value);
    lemma_encode_canonical(id.value);
}

/// A canonical path is the short path of the identifier it writes: short
/// paths in canonical form and identifiers correspond one to one.
pub proof fn lemma_uuid_of_path(path: Seq<char>)
    requires
        is_canonical(path),
        spec_path_to_uuid(path) is Some,
    ensures
        spec_encode(spec_path_to_uuid(path)->0.value) == path,
{
    lemma_encode_decode(path);
}

} // verus!
