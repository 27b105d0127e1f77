//! Following a short path to its address.

use vstd::prelude::*;

use crate::codec::lemma_decode_encode;
use crate::error::URLError;
use crate::ids::{path_to_uuid, spec_path_to_uuid, ObjectId, Uuid};
use crate::models::ShortenedURL;
use crate::shorten::{is_link_of, ShortLink};

verus! {

/// The HTTP status of a redirect: 307, Temporary Redirect.
pub const TEMPORARY_REDIRECT: u16 = 307;

/// How a request for a short path is answered when its record is known:
/// the status, the address to send the client to, and the record whose
/// visit is to be counted.
#[derive(Debug)]
pub struct Redirect {
    pub status: u16,
    pub location: String,
    pub visit: ObjectId,
}

/// The redirect that a stored record is followed with.
pub open spec fn redirect_of(record: ShortenedURL) -> Redirect {
    Redirect { status: TEMPORARY_REDIRECT, location: record.long_url, visit: record._id }
}

/// The identifier under which a short path's record is looked up; a path
/// that writes no identifier is answered as an unknown path.
pub fn redirect_key(path: &str) -> (r: Result<Uuid, URLError>)
    ensures
        r is Ok <==> spec_path_to_uuid(path@) is Some,
        r matches Ok(id) ==> spec_path_to_uuid(path@) == Some(id),
        r matches Err(e) ==> e == URLError::IncorrectPath,
{
    match path_to_uuid(path) {
        Some(id) => Ok(id),
        None => Err(URLError::IncorrectPath),
    }
}

/// The redirect to a record's address.
pub fn redirect_to(record: &ShortenedURL) -> (r: Redirect)
    ensures
        r == redirect_of(*record),
        r.status == 307,
        r.location@ == record.long_url@,
        r.visit == record._id,
{
    Redirect { status: TEMPORARY_REDIRECT, location: record.long_url.clone(), visit: record._id }
}

/// Follows what the store holds under a path: a record is followed (and
/// handed back to be cached), no record means an unknown path.
pub fn redirect_from_store(found: Option<ShortenedURL>) -> (r: Result<
    (Redirect, ShortenedURL),
    URLError,
>)
    ensures
        found matches Some(record) ==> r == Ok::<(Redirect, ShortenedURL), URLError>(
            (redirect_of(record), record),
        ),
        found is None ==> r == Err::<(Redirect, ShortenedURL), URLError>(URLError::IncorrectPath),
        found matches Some(record) ==> (r matches Ok((redirect, cached)) && cached == record
            && redirect.status == 307 && redirect.location@ == record.long_url@ && redirect.visit
            == record._id),
{
    match found {
        Some(record) => {
            let redirect = redirect_to(&record);
            Ok((redirect, record))
        },
        None => Err(URLError::IncorrectPath),
    }
}

/// Following a record sends the client to the record's address with a
/// temporary redirect and counts a visit of that very record.
pub proof fn lemma_redirect_counts_its_record(record: ShortenedURL)
    ensures
        redirect_of(record).status == 307,
        redirect_of(record).location@ == record.long_url@,
        redirect_of(record).visit == record._id,
        redirect_of(record).visit.bytes@ == record._id.bytes@,
{
}

/// Shortening an address and then following the short path leads back to
/// the address: the path of the record created for a link names the record's
/// identifier, and following the record redirects to the address.
pub proof fn lemma_shortened_path_leads_back(input: Seq<char>, link: ShortLink, record: ShortenedURL)
    requires
        is_link_of(link, input),
        record.idx == link.id,
        record.long_url@ == link.url.text(),
        record.shortened_url@ == link.path@,
    ensures
        spec_path_to_uuid(record.shortened_url@) == Some(record.idx),
        redirect_of(record).status == TEMPORARY_REDIRECT,
        redirect_of(record).location@ == link.url.text(),
{
    lemma_decode_encode(link.id.value);
}

} // verus!
