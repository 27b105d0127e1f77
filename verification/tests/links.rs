use url_shortener::error::URLError;
use url_shortener::ids::{path_to_uuid, url_to_uuid, uuid_to_path, ObjectId, Uuid, NAMESPACE_URL};
use url_shortener::redirect::{redirect_from_store, redirect_key, redirect_to, TEMPORARY_REDIRECT};
use url_shortener::shorten::{plan_shorten, settle_shorten};
use url_shortener::models::ShortenedURL;
use url_shortener::web::Url;

#[test]
fn uuid_encode_decode_roundtrip() {
    let original = url_to_uuid(&Url::parse("https://example.com").unwrap());
    let encoded = uuid_to_path(original);
    let decoded = path_to_uuid(&encoded).unwrap();
    assert_eq!(original, decoded);
}

#[test]
fn url_to_uuid_determinism() {
    let url1 = Url::parse("https://example.com").unwrap();
    let url2 = Url::parse("https://example.com").unwrap();
    assert_eq!(url_to_uuid(&url1), url_to_uuid(&url2));
}

#[test]
fn shorten_url_valid() {
    let link = plan_shorten("https://example.com").unwrap();
    let reply = settle_shorten(link, Ok(None)).unwrap();
    assert!(reply.url.len() > 0);
    assert!(reply.created.is_some());
}

#[test]
fn shorten_url_invalid() {
    let err = plan_shorten("/invalid").err().unwrap();
    assert_eq!(err, URLError::MalformedURL);
    assert_eq!(err.status_code(), 400);
}

#[test]
fn redirect_existing_path() {
    let link = plan_shorten("https://example.com/test-redirect").unwrap();
    let reply = settle_shorten(link, Ok(None)).unwrap();
    let record = reply.created.unwrap();
    let path = reply.url;

    let key = redirect_key(&path).unwrap();
    assert_eq!(key, record.idx);
    let (redirect, cached) = redirect_from_store(Some(record)).unwrap();
    assert_eq!(redirect.status, TEMPORARY_REDIRECT);
    assert_eq!(redirect.location, "https://example.com/test-redirect");
    assert_eq!(cached.shortened_url, path);
}

#[test]
fn redirect_invalid_path() {
    assert!(redirect_key("invalidpath").is_ok());
    let err = redirect_from_store(None).err().unwrap();
    assert_eq!(err, URLError::IncorrectPath);
    assert_eq!(err.status_code(), 404);
}

#[test]
fn short_paths_of_known_numbers() {
    assert_eq!(uuid_to_path(Uuid::from_u128(0)), "0");
    assert_eq!(uuid_to_path(Uuid::from_u128(61)), "z");
    assert_eq!(uuid_to_path(Uuid::from_u128(62)), "10");
    assert_eq!(uuid_to_path(Uuid::from_u128(1337)), "LZ");
    assert_eq!(uuid_to_path(Uuid::from_u128(u128::MAX)), "7n42DGM5Tflk9n8mt7Fhc7");
}

#[test]
fn paths_read_as_numbers() {
    assert_eq!(path_to_uuid("LZ"), Some(Uuid::from_u128(1337)));
    assert_eq!(path_to_uuid("00LZ"), Some(Uuid::from_u128(1337)));
    assert_eq!(path_to_uuid("rustlang"), Some(Uuid::from_u128(189876682536016)));
    assert_eq!(path_to_uuid("7n42DGM5Tflk9n8mt7Fhc7"), Some(Uuid::from_u128(u128::MAX)));
    assert_eq!(path_to_uuid("7n42DGM5Tflk9n8mt7Fhc8"), None);
    assert_eq!(path_to_uuid("10000000000000000000000"), None);
    assert_eq!(path_to_uuid(""), None);
    assert_eq!(path_to_uuid("ab-c"), None);
    assert_eq!(path_to_uuid("é"), None);
}

#[test]
fn path_roundtrip_of_extremes() {
    for value in [0u128, 1, 61, 62, 3843, 3844, u64::MAX as u128, u128::MAX - 1, u128::MAX] {
        let id = Uuid::from_u128(value);
        assert_eq!(path_to_uuid(&uuid_to_path(id)), Some(id));
    }
}

#[test]
fn link_identifier_is_the_name_based_uuid() {
    assert_eq!(NAMESPACE_URL, uuid::Uuid::NAMESPACE_URL.as_u128());
    let url = Url::parse("https://example.com").unwrap();
    let expected = uuid::Uuid::new_v5(&uuid::Uuid::NAMESPACE_URL, b"https://example.com/");
    assert_eq!(url_to_uuid(&url).as_u128(), expected.as_u128());
    assert_eq!(expected.get_version_num(), 5);
}

#[test]
fn addresses_are_normalized_by_parsing() {
    let url = Url::parse("HTTPS://Example.COM").unwrap();
    assert_eq!(url.as_str(), "https://example.com/");
    assert_eq!(url.scheme(), "https");
    assert_eq!(Url::parse("not an address").err(), Some(URLError::MalformedURL));
}

#[test]
fn equal_addresses_share_a_path() {
    let a = plan_shorten("https://example.com").unwrap();
    let b = plan_shorten("HTTPS://EXAMPLE.com/").unwrap();
    assert_eq!(a.id, b.id);
    assert_eq!(a.path, b.path);
    let c = plan_shorten("https://example.org").unwrap();
    assert_ne!(a.path, c.path);
}

#[test]
fn only_web_addresses_are_shortened() {
    assert!(plan_shorten("http://example.com/a?b=c").is_ok());
    assert_eq!(plan_shorten("ftp://example.com").err(), Some(URLError::MalformedURL));
    assert_eq!(plan_shorten("mailto:someone@example.com").err(), Some(URLError::MalformedURL));
    assert_eq!(plan_shorten("").err(), Some(URLError::MalformedURL));
}

#[test]
fn stored_address_gets_its_stored_path() {
    let link = plan_shorten("https://example.com").unwrap();
    let existing = ShortenedURL {
        _id: ObjectId { bytes: [7; 12] },
        idx: link.id,
        long_url: "https://example.com/".to_string(),
        shortened_url: "stored".to_string(),
    };
    let reply = settle_shorten(link, Ok(Some(existing))).unwrap();
    assert_eq!(reply.url, "stored");
    assert!(reply.created.is_none());
}

#[test]
fn other_address_under_the_path_collides() {
    let link = plan_shorten("https://example.com").unwrap();
    let existing = ShortenedURL {
        _id: ObjectId { bytes: [7; 12] },
        idx: link.id,
        long_url: "https://example.org/".to_string(),
        shortened_url: link.path.clone(),
    };
    let err = settle_shorten(link, Ok(Some(existing))).err().unwrap();
    assert_eq!(err, URLError::CollidedURL);
    assert_eq!(err.status_code(), 500);
}

#[test]
fn new_record_carries_the_link() {
    let link = plan_shorten("https://example.com/x").unwrap();
    let id = link.id;
    let path = link.path.clone();
    let reply = settle_shorten(link, Ok(None)).unwrap();
    let record = reply.created.unwrap();
    assert_eq!(record.idx, id);
    assert_eq!(record.long_url, "https://example.com/x");
    assert_eq!(record.shortened_url, path);
    assert_eq!(reply.url, path);
}

#[test]
fn redirect_points_to_the_record() {
    let record = ShortenedURL {
        _id: ObjectId { bytes: [1, 2, 3, 4, 5, 6, 7, 8, 9, 10, 11, 12] },
        idx: Uuid::from_u128(5),
        long_url: "https://example.com/page".to_string(),
        shortened_url: "5".to_string(),
    };
    let redirect = redirect_to(&record);
    assert_eq!(redirect.status, 307);
    assert_eq!(redirect.location, "https://example.com/page");
    assert_eq!(redirect.visit, record._id);
}

#[test]
fn errors_are_answered_with_their_status() {
    assert_eq!(URLError::MalformedURL.status_code(), 400);
    assert_eq!(URLError::Database.status_code(), 500);
    assert_eq!(URLError::IncorrectPath.status_code(), 404);
    assert_eq!(URLError::CollidedURL.status_code(), 500);
    assert_eq!(URLError::MalformedURL.message().unwrap(), "URL provided was malformed");
    assert!(URLError::Database.message().is_none());
    assert!(URLError::IncorrectPath.message().is_none());
    assert!(URLError::CollidedURL.message().is_none());
}

#[test]
fn parsed_addresses_get_their_link() {
    let url = Url::parse("https://example.com/page").unwrap();
    let expected = url_to_uuid(&url);
    let link = url_shortener::shorten::shorten_link(url).unwrap();
    assert_eq!(link.url.as_str(), "https://example.com/page");
    assert_eq!(link.id, expected);
    assert_eq!(link.path, uuid_to_path(expected));
    let ftp = Url::parse("ftp://example.com/").unwrap();
    assert_eq!(url_shortener::shorten::shorten_link(ftp).err(), Some(URLError::MalformedURL));
}

#[test]
fn link_paths_have_fourteen_to_twenty_two_characters() {
    for input in ["https://example.com", "http://a.b/c", "https://example.org/a/very/long/path?q=1"] {
        let link = plan_shorten(input).unwrap();
        let id = link.id.as_u128();
        assert_eq!((id >> 76) & 0xf, 5);
        assert_eq!((id >> 62) & 0x3, 2);
        assert!(link.path.len() >= 14 && link.path.len() <= 22);
    }
}

#[test]
fn new_record_gets_the_drawn_identifier() {
    let link = plan_shorten("https://example.com/drawn").unwrap();
    let id = ObjectId { bytes: [9, 8, 7, 6, 5, 4, 3, 2, 1, 0, 1, 2] };
    let reply = url_shortener::shorten::settle_shorten_with(link, Ok(None), id).unwrap();
    assert_eq!(reply.created.unwrap()._id, id);
}

#[test]
fn failed_lookup_still_accepts_the_link() {
    let link = plan_shorten("https://example.com/while-down").unwrap();
    let path = link.path.clone();
    let reply = settle_shorten(link, Err(URLError::Database)).unwrap();
    assert_eq!(reply.url, path);
    let record = reply.created.unwrap();
    assert_eq!(record.shortened_url, path);
    assert_eq!(record.long_url, "https://example.com/while-down");
}

#[test]
fn equal_addresses_answer_one_path_before_and_after_storing() {
    let first = plan_shorten("https://example.com").unwrap();
    let first_reply = settle_shorten(first, Ok(None)).unwrap();
    let record = first_reply.created.unwrap();
    let again = plan_shorten("https://example.com/").unwrap();
    let not_stored_yet = settle_shorten(again, Ok(None)).unwrap();
    assert_eq!(not_stored_yet.url, first_reply.url);
    let again = plan_shorten("https://example.com/").unwrap();
    let stored = settle_shorten(again, Ok(Some(record))).unwrap();
    assert_eq!(stored.url, first_reply.url);
    assert!(stored.created.is_none());
}
