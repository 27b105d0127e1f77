//! Parsed web addresses.

use vstd::prelude::*;

use crate::error::URLError;

verus! {

/// What `url::Url::parse` makes of a text: the parsed address's
/// serialization and its scheme, or `None` where the text is not an address.
pub uninterp spec fn url_parse(input: Seq<char>) -> Option<(Seq<char>, Seq<char>)>;

/// The error that `url::Url::parse` reports.
#[verifier::external_type_specification]
#[verifier::external_body]
pub struct ExParseError(url::ParseError);

/// Calls `url::Url::parse` and hands back the parsed address as its
/// serialization (`as_str`) and its scheme (`scheme`). Trusted: the result is
/// `url_parse` of the input, and parsing fails exactly where that is `None`.
#[verifier::external_body]
fn parse_address(input: &str) -> (r: Result<(String, String), url::ParseError>)
    ensures
        r is Ok <==> url_parse(input@) is Some,
        r matches Ok((text, scheme)) ==> url_parse(input@) == Some((text@, scheme@)),
{
    match url::Url::parse(input) {
        Ok(u) => Ok((u.as_str().to_string(), u.scheme().to_string())),
        Err(e) => Err(e),
    }
}

/// The schemes of the web: `http` and `https`.
pub open spec fn is_web_scheme(scheme: Seq<char>) -> bool {
    scheme == "http"@ || scheme == "https"@
}

/// A parsed absolute address.
pub struct Url {
    serialization: String,
    scheme: String,
}

impl Url {
    /// The address written out in full.
    pub closed spec fn text(&self) -> Seq<char> {
        self.serialization@
    }

    /// The address's scheme, such as `https`.
    pub closed spec fn scheme_text(&self) -> Seq<char> {
        self.scheme@
    }

    /// Parses an address; a text that is not one is a malformed address.
    pub fn parse(input: &str) -> (r: Result<Url, URLError>)
        ensures
            r is Ok <==> url_parse(input@) is Some,
            r matches Ok(u) ==> url_parse(input@) == Some((u.text(), u.scheme_text())),
            r matches Err(e) ==> e == URLError::MalformedURL,
    {
        match parse_address(input) {
            Ok((serialization, scheme)) => Ok(Url { serialization, scheme }),
            Err(_) => Err(URLError::MalformedURL),
        }
    }

    /// The address written out in full.
    pub fn as_str(&self) -> (r: &str)
        ensures
            r@ == self.text(),
    {
        self.serialization.as_str()
    }

    /// Whether the address is written exactly as `text`.
    pub fn is_written_as(&self, text: &String) -> (r: bool)
        ensures
            r == (self.text() == text@),
    {
        self.serialization == *text
    }

    /// Whether the address uses the web schemes `http` or `https`.
    pub fn is_web(&self) -> (r: bool)
        ensures
            r == is_web_scheme(self.scheme_text()),
            r <==> (self.scheme_text() == "http"@ || self.scheme_text() == "https"@),
    {
        self.scheme == String::from_str("http") || self.scheme == String::from_str("https")
    }

    /// The address written out in full, as an owned text.
    pub fn to_text(&self) -> (r: String)
        ensures
            r@ == self.text(),
    {
        self.serialization.clone()
    }

    /// The address's scheme.
    pub fn scheme(&self) -> (r: &str)
        ensures
            r@ == self.scheme_text(),
    {
        self.scheme.as_str()
    }
}

} // verus!
