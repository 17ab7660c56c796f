//! The URL shortener ("wormhole") interface: hands a canonical URL in,
//! takes a permashort citation back.

use vstd::prelude::*;

use crate::permashort_link::PermashortCitation;

verus! {

/// A failure of the URL shortener service.
#[derive(Debug)]
pub struct WormholeClientError {
    pub message: String,
}

/// A client of the URL shortener: given a canonical URL, returns the short
/// citation used when truncating post text. What the service answers is its
/// own business; a failure aborts the publish that asked.
pub trait WormholeClient {
    fn put_uri(&mut self, uri: &str) -> Result<PermashortCitation, WormholeClientError>;
}

/// The percent-encoding of a string; a function of the string alone.
pub uninterp spec fn url_encoded(s: Seq<char>) -> Seq<char>;

/// Relies on urlencoding::encode: percent-encodes every byte except
/// alphanumerics and `-`, `_`, `.`, `~`; the result depends on the input
/// alone, and an empty input stays empty.
#[verifier::external_body]
fn url_encode(s: &str) -> (r: String)
    ensures
        r@ == url_encoded(s@),
        s@.len() == 0 ==> r@.len() == 0,
{
    urlencoding::encode(s).into_owned()
}

/// The URL that asks the shortener to store `uri`: the service's base
/// address, the `/u/` route, and the percent-encoded URL.
pub fn shorten_request_url(base_uri: &str, uri: &str) -> (r: String)
    ensures
        r@ == base_uri@ + "/u/"@ + url_encoded(uri@),
{
    let mut r = String::from_str(base_uri);
    r.append("/u/");
    let encoded = url_encode(uri);
    r.append(encoded.as_str());
    r
}

} // verus!
