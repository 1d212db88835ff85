//! Absolute URLs, validated and normalised by the `url` crate behind one
//! trusted boundary. The library works with the normal form as text.

use vstd::prelude::*;
use vstd::string::*;
use crate::errors::{to_domain_error, DomeneshopError};

verus! {

/// Whether this text parses as an absolute URL. The answer depends on the
/// text alone.
pub uninterp spec fn url_ok(s: Seq<char>) -> bool;

/// The normal form of a URL text that parses: the serialization of the
/// parsed URL. It depends on the text alone.
pub uninterp spec fn url_norm(s: Seq<char>) -> Seq<char>;

/// The display text of the parse error a URL text fails with. It depends on
/// the text alone.
pub uninterp spec fn url_err_text(s: Seq<char>) -> Seq<char>;

/// A text that is the normal form of some parsable URL — what every URL
/// value the library hands out looks like.
pub open spec fn is_normal_url(s: Seq<char>) -> bool {
    exists|u: Seq<char>| url_ok(u) && s == url_norm(u)
}

/// Relies on `url::Url::parse` and `url::Url::as_str`: parsing either
/// succeeds or fails as a fixed function of the input text; on success the
/// serialization of the parsed URL is its normal form, itself a parsable
/// text whose normal form is itself (WHATWG URL serialization round-trips);
/// on failure the error value carries the parse error's display text, again
/// a function of the input alone.
#[verifier::external_body]
fn parse_url_text(s: &str) -> (r: Result<String, String>)
    ensures
        r is Ok <==> url_ok(s@),
        r matches Ok(t) ==> t@ == url_norm(s@) && url_ok(t@) && url_norm(t@) == t@,
        r matches Err(t) ==> t@ == url_err_text(s@),
{
    match url::Url::parse(s) {
        Ok(u) => Ok(u.as_str().to_owned()),
        Err(e) => Err(e.to_string()),
    }
}

/// A parsed absolute URL, kept in its normal form.
#[derive(Debug)]
pub struct WebUrl {
    text: String,
}

impl View for WebUrl {
    type V = Seq<char>;

    closed spec fn view(&self) -> Seq<char> {
        self.text@
    }
}

impl WebUrl {
    /// A well-formed URL value: its text parses and is its own normal form.
    pub closed spec fn wf(&self) -> bool {
        url_ok(self@) && url_norm(self@) == self@
    }

    /// A well-formed URL value's text is the normal form of a parsable URL.
    pub proof fn lemma_wf_normal(&self)
        requires
            self.wf(),
        ensures
            is_normal_url(self@),
    {
        assert(url_ok(self@) && self@ == url_norm(self@));
    }

    /// Parses an absolute URL. Fails, classified `"InfrastructureError"`
    /// and carrying the parse error's display text, exactly when the text
    /// does not parse.
    pub fn parse(s: &str) -> (r: Result<WebUrl, DomeneshopError>)
        ensures
            r is Ok <==> url_ok(s@),
            r matches Ok(u) ==> u@ == url_norm(s@) && u.wf(),
            r matches Err(e) ==> e@.code == "InfrastructureError"@ && e@.help == url_err_text(s@),
    {
        match parse_url_text(s) {
            Ok(text) => Ok(WebUrl { text }),
            Err(cause) => Err(to_domain_error(cause)),
        }
    }

    /// The URL text, in normal form.
    pub fn as_str(&self) -> (r: &str)
        ensures
            r@ == self@,
    {
        self.text.as_str()
    }

    /// Hands out the URL text, in normal form.
    pub fn into_string(self) -> (r: String)
        ensures
            r@ == self@,
    {
        self.text
    }

    /// A copy of this URL.
    pub fn dup(&self) -> (r: WebUrl)
        ensures
            r@ == self@,
            self.wf() ==> r.wf(),
    {
        WebUrl { text: self.text.clone() }
    }
}

} // verus!
