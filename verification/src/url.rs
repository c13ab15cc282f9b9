//! Validation of the address that a request goes to.

use vstd::prelude::*;
use crate::error::ClientError;
use crate::error::ErrorView;

verus! {

/// Why the URL parser refuses `raw` as an absolute URL, in the parser's own
/// words, or `None` where it accepts it.
pub uninterp spec fn url_parse_error(raw: Seq<char>) -> Option<Seq<char>>;

/// Parses `raw` as a `reqwest::Url`, through `str::parse`, and hands out the
/// verdict alone: `None` where the text is an absolute URL, else the
/// `Display` text of the parser's error.
///
/// Trusted: the verdict is taken to depend on the characters of `raw` alone,
/// and `url_parse_error` is the name of that dependency. Of the parser's
/// grammar one fact is taken over: an absolute URL opens with a scheme that
/// a `:` ends, so a text without `:` is refused.
#[verifier::external_body]
fn url_verdict(raw: &str) -> (verdict: Option<String>)
    ensures
        match verdict {
            Some(reason) => url_parse_error(raw@) == Some(reason@),
            None => url_parse_error(raw@) is None,
        },
        !raw@.contains(':') ==> verdict is Some,
{
    match raw.parse::<reqwest::Url>() {
        Ok(_) => None,
        Err(e) => Some(e.to_string()),
    }
}

/// Turns the parser's verdict on `url` into the validator's answer: the
/// address itself where there was no objection, else the objection.
pub fn gate_url(url: &str, verdict: Option<String>) -> (r: Result<String, ClientError>)
    ensures
        match verdict {
            None => r is Ok && r->Ok_0@ == url@,
            Some(reason) => r is Err && r->Err_0@ == ErrorView::InvalidUrl(reason@),
        },
{
    match verdict {
        None => Ok(String::from_str(url)),
        Some(reason) => Err(ClientError::InvalidUrl { reason }),
    }
}

/// Checks that `url` is an absolute URL.
///
/// An accepted address is handed back as it was given, character for
/// character: validation is a gate and normalises nothing.
///
/// An address without a scheme, such as a bare host name, is always
/// refused.
pub fn parse_url(url: &str) -> (r: Result<String, ClientError>)
    ensures
        match url_parse_error(url@) {
            None => r is Ok && r->Ok_0@ == url@,
            Some(reason) => r is Err && r->Err_0@ == ErrorView::InvalidUrl(reason),
        },
        !url@.contains(':') ==> r is Err,
{
    gate_url(url, url_verdict(url))
}

} // verus!
