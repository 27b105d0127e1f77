//! Shortening an address.

use vstd::prelude::*;

use crate::codec::spec_encode;
use crate::error::URLError;
use crate::ids::{
    fresh_object_id, is_v5, ObjectId, lemma_v5_path_length, url_to_uuid, uuid_to_path, uuid_v5, Uuid,
    NAMESPACE_URL,
};
use crate::models::ShortenedURL;
use crate::web::{is_web_scheme, url_parse, Url};

verus! {

/// Whether a text is accepted for shortening: it parses as an address
/// whose scheme is `http` or `https`.
pub open spec fn is_shortenable(input: Seq<char>) -> bool {
    url_parse(input) matches Some((_, scheme)) && is_web_scheme(scheme)
}

/// An address accepted for shortening, with the identifier and the short
/// path that it gets.
pub struct ShortLink {
    pub url: Url,
    pub id: Uuid,
    pub path: String,
}

/// The link that shortening `input` makes, before the store is consulted.
pub open spec fn is_link_of(link: ShortLink, input: Seq<char>) -> bool {
    &&& url_parse(input) == Some((link.url.text(), link.url.scheme_text()))
    &&& link.id.value == uuid_v5(NAMESPACE_URL, link.url.text())
    &&& link.path@ == spec_encode(link.id.value)
}

/// The link that an address gets: its identifier and short path. Only
/// `http` and `https` addresses are shortened; any other scheme is malformed.
pub fn shorten_link(url: Url) -> (r: Result<ShortLink, URLError>)
    ensures
        r is Ok <==> is_web_scheme(url.scheme_text()),
        r is Ok <==> (url.scheme_text() == "http"@ || url.scheme_text() == "https"@),
        r matches Ok(link) ==> {
            &&& link.url.text() == url.text()
            &&& link.url.scheme_text() == url.scheme_text()
            &&& link.id.value == uuid_v5(NAMESPACE_URL, url.text())
            &&& is_v5(link.id.value)
            &&& link.path@ == spec_encode(link.id.value)
            &&& 14 <= link.path@.len() <= 22
        },
        r matches Err(e) ==> e == URLError::MalformedURL,
{
    if !url.is_web() {
        return Err(URLError::MalformedURL);
    }
    let id = url_to_uuid(&url);
    let path = uuid_to_path(id);
    proof {
        lemma_v5_path_length(id);
    }
    Ok(ShortLink { url, id, path })
}

/// Reads the address to shorten and works out its identifier and short path;
/// a text that is not an `http` or `https` address is malformed.
pub fn plan_shorten(input: &str) -> (r: Result<ShortLink, URLError>)
    ensures
        r is Ok <==> is_shortenable(input@),
        r is Ok <==> (url_parse(input@) matches Some((_, scheme)) && (scheme == "http"@ || scheme
            == "https"@)),
        r matches Ok(link) ==> is_link_of(link, input@) && 14 <= link.path@.len() <= 22,
        r matches Err(e) ==> e == URLError::MalformedURL,
{
    match Url::parse(input) {
        Ok(url) => shorten_link(url),
        Err(e) => Err(e),
    }
}

/// What a shortening request is answered with: the short path, and the new
/// record to cache and to store when the address was not stored yet.
pub struct ShortenReply {
    pub url: String,
    pub created: Option<ShortenedURL>,
}

/// The record the store holds under a link's identifier and path, as far as
/// the lookup tells: a failed lookup (the store is down) is taken as no
/// record, so that new links are still accepted while the store is away.
pub open spec fn known_record(lookup: Result<Option<ShortenedURL>, URLError>) -> Option<
    ShortenedURL,
> {
    match lookup {
        Ok(found) => found,
        Err(_) => None,
    }
}

/// The short path that a shortening request is answered with, given the
/// link's address and path and the record known under them; `None` for a
/// collision with another address.
pub open spec fn answered_path(
    text: Seq<char>,
    path: Seq<char>,
    known: Option<ShortenedURL>,
) -> Option<Seq<char>> {
    match known {
        Some(e) => if e.long_url@ == text {
            Some(e.shortened_url@)
        } else {
            None
        },
        None => Some(path),
    }
}

/// The record that a new link gets, under the record identifier `id`.
pub open spec fn is_new_record(record: ShortenedURL, link: ShortLink, id: ObjectId) -> bool {
    &&& record._id == id
    &&& record.idx == link.id
    &&& record.long_url@ == link.url.text()
    &&& record.shortened_url@ == link.path@
}

/// Settles a shortening request under a given identifier for a new record,
/// once the lookup of the link's identifier and path has answered: the same
/// address gets its stored path back, another address under that path is a
/// collision, and an unused path (or a failed lookup) gets a new record
/// with identifier `id`, to be cached and queued for storing.
pub fn settle_shorten_with(
    link: ShortLink,
    lookup: Result<Option<ShortenedURL>, URLError>,
    id: ObjectId,
) -> (r: Result<ShortenReply, URLError>)
    ensures
        r is Ok <==> answered_path(link.url.text(), link.path@, known_record(lookup)) is Some,
        r matches Ok(reply) ==> Some(reply.url@) == answered_path(
            link.url.text(),
            link.path@,
            known_record(lookup),
        ),
        known_record(lookup) matches Some(e) ==> (e.long_url@ == link.url.text() ==> r == Ok::<
            ShortenReply,
            URLError,
        >(ShortenReply { url: e.shortened_url, created: None })),
        known_record(lookup) matches Some(e) ==> (e.long_url@ != link.url.text() ==> r == Err::<
            ShortenReply,
            URLError,
        >(URLError::CollidedURL)),
        known_record(lookup) is None ==> (r matches Ok(reply) && reply.url@ == link.path@ && (
        reply.created matches Some(record) && is_new_record(record, link, id))),
{
    let known = match lookup {
        Ok(found) => found,
        Err(_) => None,
    };
    match known {
        Some(e) => {
            if link.url.is_written_as(&e.long_url) {
                Ok(ShortenReply { url: e.shortened_url, created: None })
            } else {
                Err(URLError::CollidedURL)
            }
        },
        None => {
            let record = ShortenedURL {
                _id: id,
                idx: link.id,
                long_url: link.url.to_text(),
                shortened_url: link.path.clone(),
            };
            Ok(ShortenReply { url: link.path, created: Some(record) })
        },
    }
}

/// Settles a shortening request as `settle_shorten_with` does, drawing a
/// fresh record identifier for a new record.
pub fn settle_shorten(link: ShortLink, lookup: Result<Option<ShortenedURL>, URLError>) -> (r:
    Result<ShortenReply, URLError>)
    ensures
        r is Ok <==> answered_path(link.url.text(), link.path@, known_record(lookup)) is Some,
        r matches Ok(reply) ==> Some(reply.url@) == answered_path(
            link.url.text(),
            link.path@,
            known_record(lookup),
        ),
        known_record(lookup) matches Some(e) ==> (e.long_url@ == link.url.text() ==> r == Ok::<
            ShortenReply,
            URLError,
        >(ShortenReply { url: e.shortened_url, created: None })),
        known_record(lookup) matches Some(e) ==> (e.long_url@ != link.url.text() ==> r == Err::<
            ShortenReply,
            URLError,
        >(URLError::CollidedURL)),
        known_record(lookup) is None ==> (r matches Ok(reply) && reply.url@ == link.path@ && (
        reply.created matches Some(record) && record.idx == link.id && record.long_url@
            == link.url.text() && record.shortened_url@ == link.path@)),
{
    let id = fresh_object_id();
    settle_shorten_with(link, lookup, id)
}

/// Equal addresses share one short path: once a link was shortened and its
/// new record made, shortening an address written the same way again is
/// answered with the same path, whether the store does not hold the record
/// yet (or cannot be reached) or holds it.
pub proof fn lemma_equal_addresses_share_path(
    first: ShortLink,
    second: ShortLink,
    input_first: Seq<char>,
    input_second: Seq<char>,
    record: ShortenedURL,
    id: ObjectId,
    known: Option<ShortenedURL>,
)
    requires
        is_link_of(first, input_first),
        is_link_of(second, input_second),
        first.url.text() == second.url.text(),
        is_new_record(record, first, id),
        known is None || known == Some(record),
    ensures
        answered_path(first.url.text(), first.path@, None) == Some(first.path@),
        answered_path(second.url.text(), second.path@, known) == Some(first.path@),
{
}

/// Only `http` and `https` addresses are shortened: a text is accepted
/// exactly when it parses as an address whose scheme is literally `http` or
/// `https`.
pub proof fn lemma_only_web_addresses(input: Seq<char>)
    ensures
        is_shortenable(input) <==> (url_parse(input) matches Some((_, scheme)) && (scheme
            == "http"@ || scheme == "https"@)),
{
}

/// Shortening is deterministic: two links made from the same text have the
/// same address, identifier and short path.
pub proof fn lemma_same_input_same_link(input: Seq<char>, a: ShortLink, b: ShortLink)
    requires
        is_link_of(a, input),
        is_link_of(b, input),
    ensures
        a.url.text() == b.url.text(),
        a.id == b.id,
        a.path@ == b.path@,
{
}

} // verus!
