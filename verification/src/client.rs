//! The client: construction from credentials and configuration, URL
//! composition, credential and identification header injection, and the two
//! dispatch variants (validating and non-validating).

use vstd::prelude::*;
use vstd::string::*;
use vstd::utf8::encode_utf8;
use base64::Engine;

use crate::codec::JsonPayload;
use crate::errors::DomeneshopError;
use crate::http::{
    carries_standard_headers, header_count, header_lookup, keep_headers, HttpClient, Method,
    Request, Response,
};
use crate::interpret::{
    decode_body, decode_body_list, handle_response_error, spec_decode_body, spec_decode_body_list,
};
use crate::query::{params_view, query_string, query_text};
use crate::text::{
    chars_to_string, lower_chars, strip_leading_slash, strip_leading_slash_spec,
    strip_trailing_slash, strip_trailing_slash_spec,
};
use crate::weburl::{url_norm, url_ok, WebUrl};

verus! {

/// The path segment naming the API version the client speaks.
pub const API_VERSION: &'static str = "v0";

/// The base64 encoding of a byte string by the standard alphabet without
/// padding. The encoding depends on the bytes alone.
pub uninterp spec fn base64_no_pad(bytes: Seq<u8>) -> Seq<char>;

/// Relies on base64's `STANDARD_NO_PAD` engine: encoding with the standard
/// alphabet and no padding characters — no `=` ever occurs in the result —
/// a function of the input bytes alone.
#[verifier::external_body]
fn base64_encode_no_pad(bytes: &Vec<u8>) -> (r: String)
    ensures
        r@ == base64_no_pad(bytes@),
        forall|k: int| 0 <= k < r@.len() ==> r@[k] != '=',
{
    base64::engine::general_purpose::STANDARD_NO_PAD.encode(bytes)
}

/// The Basic authentication header value for a token and secret:
/// `Basic base64(token:secret)`, base64 without padding.
pub open spec fn basic_auth_header_text(token: Seq<char>, secret: Seq<char>) -> Seq<char> {
    seq!['B', 'a', 's', 'i', 'c', ' '] + base64_no_pad(encode_utf8(token + seq![':'] + secret))
}

/// Builds the Basic authentication header value sent on every request:
/// the credentials joined by `:`, base64-encoded without padding, behind
/// the `Basic ` marker.
pub fn create_basic_auth_header(token: String, secret: String) -> (r: String)
    ensures
        r@ == basic_auth_header_text(token@, secret@),
{
    let ghost token_view: Seq<char> = token@;
    let mut combined = token;
    combined.append(":");
    combined.append(secret.as_str());
    proof {
        reveal_strlit(":");
        assert(combined@ =~= token_view + seq![':'] + secret@);
    }
    let bytes = combined.as_str().as_bytes_vec();
    let encoded = base64_encode_no_pad(&bytes);
    let mut r = String::from_str("Basic ");
    r.append(encoded.as_str());
    proof {
        reveal_strlit("Basic ");
        assert(r@ =~= basic_auth_header_text(token_view, secret@));
    }
    r
}

/// Configuration of the created client. Every field is optional but the
/// transport; what is absent falls back to the library's defaults.
pub struct DomeneshopClientConfiguration<C: HttpClient> {
    /// Overrides the default identification header value if set.
    pub user_agent: Option<String>,
    /// Overrides the default base address if set; used for testing or
    /// proxying.
    pub base_url: Option<String>,
    /// The transport that physically performs the requests.
    pub underlying_client: C,
}

/// The base address the configuration resolves to.
pub open spec fn config_base<C: HttpClient>(c: DomeneshopClientConfiguration<C>) -> Seq<char> {
    match c.base_url {
        Some(b) => b@,
        None => "https://api.domeneshop.no/"@,
    }
}

/// The identification header value the configuration resolves to.
pub open spec fn config_user_agent<C: HttpClient>(
    c: DomeneshopClientConfiguration<C>,
) -> Seq<char> {
    match c.user_agent {
        Some(ua) => ua@,
        None => "domeneshop_client 0.1.0"@,
    }
}

/// The client used to interact with the API: a transport, a fully resolved
/// base URL (base address and API version, trailing slash normalised away),
/// a precomputed authentication header value, and a resolved identification
/// string. Constructed once and never mutated.
pub struct DomeneshopClient<C: HttpClient> {
    client: C,
    base_url: String,
    auth_header: String,
    user_agent: String,
}

/// The composed text handed to the URL parser: the resolved base URL, one
/// slash, and the relative path with its leading slash normalised away.
pub open spec fn composed_url_text(base_url: Seq<char>, path: Seq<char>) -> Seq<char> {
    base_url + seq!['/'] + strip_leading_slash_spec(path)
}

/// The composed text with query parameters: the query string and its `?`
/// appear exactly when the parameter list is not empty.
pub open spec fn composed_url_with_query_text(
    base_url: Seq<char>,
    path: Seq<char>,
    params: Seq<(Seq<char>, Seq<char>)>,
) -> Seq<char> {
    if params.len() == 0 {
        composed_url_text(base_url, path)
    } else {
        composed_url_text(base_url, path) + seq!['?'] + query_text(params)
    }
}

impl<C: HttpClient> DomeneshopClient<C> {
    /// The resolved base URL: base address without trailing slash, then the
    /// API version segment.
    pub closed spec fn base_url_spec(&self) -> Seq<char> {
        self.base_url@
    }

    /// The precomputed authentication header value.
    pub closed spec fn auth_header_spec(&self) -> Seq<char> {
        self.auth_header@
    }

    /// The resolved identification header value.
    pub closed spec fn user_agent_spec(&self) -> Seq<char> {
        self.user_agent@
    }

    /// Creates a new client from credentials and configuration. Construction
    /// always succeeds: the base URL is the configured (or default) base
    /// address with one trailing slash stripped, a slash, and the version
    /// segment; the authentication header is precomputed from the
    /// credentials, never re-derived per call.
    pub fn new(
        token: String,
        secret: String,
        configuration: DomeneshopClientConfiguration<C>,
    ) -> (r: Result<DomeneshopClient<C>, DomeneshopError>)
        ensures
            r matches Ok(c) ==> {
                &&& c.base_url_spec() == strip_trailing_slash_spec(config_base(configuration))
                    + seq!['/', 'v', '0']
                &&& c.auth_header_spec() == basic_auth_header_text(token@, secret@)
                &&& c.user_agent_spec() == config_user_agent(configuration)
            },
            r is Ok,
    {
        let user_agent = match configuration.user_agent {
            Some(ua) => ua,
            None => String::from_str("domeneshop_client 0.1.0"),
        };
        let base = match configuration.base_url {
            Some(b) => b,
            None => String::from_str("https://api.domeneshop.no/"),
        };
        let mut base_url = strip_trailing_slash(base.as_str());
        base_url.append("/");
        base_url.append(API_VERSION);
        proof {
            reveal_strlit("/");
            reveal_strlit("v0");
            assert(base_url@ =~= strip_trailing_slash_spec(base@) + seq!['/', 'v', '0']);
        }
        let header = create_basic_auth_header(token, secret);
        Ok(
            DomeneshopClient {
                client: configuration.underlying_client,
                base_url,
                auth_header: header,
                user_agent,
            },
        )
    }

    /// Composes the absolute URL for a relative resource path:
    /// `{base}/{version}/{path}`, the path's leading slash normalised away
    /// so that no double slash arises. Fails, classified
    /// `"InfrastructureError"`, exactly when the composed text does not
    /// parse as a URL.
    pub fn create_url(&self, relative_url: &str) -> (r: Result<WebUrl, DomeneshopError>)
        ensures
            r is Ok <==> url_ok(composed_url_text(self.base_url_spec(), relative_url@)),
            r matches Ok(u) ==> u@ == url_norm(
                composed_url_text(self.base_url_spec(), relative_url@),
            ) && u.wf(),
            r matches Err(e) ==> e@.code == "InfrastructureError"@ && e@.help
                == crate::weburl::url_err_text(
                composed_url_text(self.base_url_spec(), relative_url@),
            ),
    {
        let mut url = self.base_url.clone();
        url.append("/");
        let stripped = strip_leading_slash(relative_url);
        url.append(stripped.as_str());
        proof {
            reveal_strlit("/");
            assert(url@ =~= composed_url_text(self.base_url_spec(), relative_url@));
        }
        WebUrl::parse(url.as_str())
    }

    /// Composes the absolute URL for a relative resource path and an ordered
    /// list of query parameters. The parameters appear in caller order; an
    /// empty list leaves the URL without any query marker. Fails, classified
    /// `"InfrastructureError"`, exactly when the composed text does not
    /// parse as a URL.
    pub fn create_url_with_parameters(
        &self,
        relative_url: &str,
        query_parameters: &Vec<(String, String)>,
    ) -> (r: Result<WebUrl, DomeneshopError>)
        ensures
            r is Ok <==> url_ok(
                composed_url_with_query_text(
                    self.base_url_spec(),
                    relative_url@,
                    params_view(query_parameters@),
                ),
            ),
            r matches Ok(u) ==> u@ == url_norm(
                composed_url_with_query_text(
                    self.base_url_spec(),
                    relative_url@,
                    params_view(query_parameters@),
                ),
            ) && u.wf(),
            r matches Err(e) ==> e@.code == "InfrastructureError"@ && e@.help
                == crate::weburl::url_err_text(
                composed_url_with_query_text(
                    self.base_url_spec(),
                    relative_url@,
                    params_view(query_parameters@),
                ),
            ),
    {
        let mut url = self.base_url.clone();
        url.append("/");
        let stripped = strip_leading_slash(relative_url);
        url.append(stripped.as_str());
        proof {
            reveal_strlit("/");
            assert(url@ =~= composed_url_text(self.base_url_spec(), relative_url@));
        }
        if query_parameters.len() > 0 {
            let q = query_string(query_parameters);
            let q_text = chars_to_string(&q);
            url.append("?");
            url.append(q_text.as_str());
            proof {
                reveal_strlit("?");
                assert(url@ =~= composed_url_with_query_text(
                    self.base_url_spec(),
                    relative_url@,
                    params_view(query_parameters@),
                ));
            }
        }
        WebUrl::parse(url.as_str())
    }

    /// Returns the request with the two standard headers set: exactly one
    /// authorization header carrying the precomputed credentials and exactly
    /// one identification header carrying the resolved identification
    /// string, each overriding whatever the caller had set under those
    /// names; every other header, and the method, URL and body, stay as they
    /// were.
    pub fn with_standard_headers(&self, req: Request) -> (r: Request)
        ensures
            carries_standard_headers(r),
            r.headers_spec() == keep_headers(
                keep_headers(req.headers_spec(), "Authorization"@),
                "User-Agent"@,
            ).push(("Authorization"@, self.auth_header_spec())).push(
                ("User-Agent"@, self.user_agent_spec()),
            ),
            header_lookup(r.headers_spec(), "Authorization"@) == Some(self.auth_header_spec()),
            header_lookup(r.headers_spec(), "User-Agent"@) == Some(self.user_agent_spec()),
            r.method == req.method,
            r.url == req.url,
            r.body == req.body,
    {
        let ghost h0: Seq<(Seq<char>, Seq<char>)> = req.headers_spec();
        let mut req = req;
        req.insert_header("Authorization", self.auth_header.as_str());
        let ghost h1: Seq<(Seq<char>, Seq<char>)> = req.headers_spec();
        req.insert_header("User-Agent", self.user_agent.as_str());
        proof {
            reveal_strlit("Authorization");
            reveal_strlit("User-Agent");
            let auth: Seq<char> = "Authorization"@;
            let ua: Seq<char> = "User-Agent"@;
            assert(lower_chars(auth).len() == 13);
            assert(lower_chars(ua).len() == 10);
            let auth_entry: (Seq<char>, Seq<char>) = (auth, self.auth_header_spec());
            let ua_entry: (Seq<char>, Seq<char>) = (ua, self.user_agent_spec());
            // the freshly set authorization entry survives the removal of
            // identification entries, because the two names differ
            reveal(Seq::filter);
            assert(h1 == keep_headers(h0, auth).push(auth_entry));
            assert(h1.drop_last() =~= keep_headers(h0, auth));
            assert(keep_headers(h1, ua) =~= keep_headers(keep_headers(h0, auth), ua).push(
                auth_entry,
            ));
            assert(req.headers_spec() == keep_headers(keep_headers(h0, auth), ua).push(
                auth_entry,
            ).push(ua_entry));
            // exactly one of each standard header
            assert(lower_chars(auth) != lower_chars(ua));
            crate::http::lemma_keep_headers_count(h0, auth, auth);
            crate::http::lemma_keep_headers_count(keep_headers(h0, auth), auth, ua);
            crate::http::lemma_keep_headers_count(keep_headers(h0, auth), ua, ua);
            let base: Seq<(Seq<char>, Seq<char>)> = keep_headers(keep_headers(h0, auth), ua);
            assert(header_count(base, auth) == 0);
            assert(header_count(base, ua) == 0);
            let s1 = base.push(auth_entry);
            let s2 = s1.push(ua_entry);
            assert(s1.last() == auth_entry);
            assert(s1.drop_last() =~= base);
            assert(s2.last() == ua_entry);
            assert(s2.drop_last() =~= s1);
            assert(crate::http::header_matches(auth_entry, auth));
            assert(!crate::http::header_matches(auth_entry, ua));
            assert(!crate::http::header_matches(ua_entry, auth));
            assert(crate::http::header_matches(ua_entry, ua));
            assert(header_count(s1, auth) == header_count(base, auth) + 1);
            assert(header_count(s2, auth) == header_count(s1, auth));
            assert(header_count(s1, ua) == header_count(base, ua));
            assert(header_count(s2, ua) == header_count(s1, ua) + 1);
            assert(req.headers_spec() == s2);
            assert(header_count(req.headers_spec(), auth) == 1);
            assert(header_count(req.headers_spec(), ua) == 1);
            // the lookups see the two new entries
            crate::http::lemma_header_lookup_push(base, auth_entry, auth);
            crate::http::lemma_header_lookup_push(base.push(auth_entry), ua_entry, auth);
            crate::http::lemma_header_lookup_push(base.push(auth_entry), ua_entry, ua);
        }
        req
    }

    /// For every base address, with or without a trailing slash, and every
    /// relative path, with or without a leading slash, the composed URL
    /// text is exactly the stripped base, one slash, the version segment,
    /// one slash, and the stripped path: a single slash at each joint,
    /// never two, never none. Stripping an already-clean string is a no-op,
    /// the empty string stays empty, and a lone slash becomes empty.
    pub proof fn lemma_composed_url_shape(&self, base: Seq<char>, path: Seq<char>)
        requires
            self.base_url_spec() == strip_trailing_slash_spec(base) + seq!['/', 'v', '0'],
        ensures
            composed_url_text(self.base_url_spec(), path) == strip_trailing_slash_spec(base)
                + seq!['/'] + seq!['v', '0'] + seq!['/'] + strip_leading_slash_spec(path),
            base.len() == 0 || base.last() != '/' ==> strip_trailing_slash_spec(base) == base,
            path.len() == 0 || path.first() != '/' ==> strip_leading_slash_spec(path) == path,
            base =~= seq!['/'] ==> strip_trailing_slash_spec(base) =~= Seq::<char>::empty(),
            path =~= seq!['/'] ==> strip_leading_slash_spec(path) =~= Seq::<char>::empty(),
    {
        crate::text::lemma_strip_slash_clean(base);
        crate::text::lemma_strip_slash_clean(path);
        assert((strip_trailing_slash_spec(base) + seq!['/', 'v', '0']) + seq!['/']
            + strip_leading_slash_spec(path) =~= strip_trailing_slash_spec(base) + seq!['/']
            + seq!['v', '0'] + seq!['/'] + strip_leading_slash_spec(path));
    }

    /// Dispatches a request through the transport after setting the two
    /// standard headers, handing back whatever the transport answers: the
    /// response whatever its status, or the transport's failure. Callers
    /// branch on the status themselves.
    pub fn send_no_validation(&self, req: Request) -> Result<Response, DomeneshopError> {
        let prepared = self.with_standard_headers(req);
        self.client.execute_request(prepared)
    }

    /// Fetches one resource: a validated GET of the URL, its body decoded
    /// as the payload shape. A returned value is always the decoding of
    /// some response body — never invented.
    pub(crate) fn get_response<T: JsonPayload>(&self, url: WebUrl) -> (r: Result<
        T,
        DomeneshopError,
    >)
        ensures
            r matches Ok(t) ==> exists|body: Seq<char>| spec_decode_body::<T>(body) == Some(t@),
    {
        let request = Request::new(Method::Get, url.into_string());
        let response = self.send(request)?;
        decode_body::<T>(&response)
    }

    /// Fetches a resource list: a validated GET of the URL, its body
    /// decoded as an array of the payload shape. A returned list is always
    /// the decoding of some response body — never invented.
    pub(crate) fn get_response_list<T: JsonPayload>(&self, url: WebUrl) -> (r: Result<
        Vec<T>,
        DomeneshopError,
    >)
        ensures
            r matches Ok(ts) ==> exists|body: Seq<char>|
                spec_decode_body_list::<T>(body) == Some(ts@.map_values(|t: T| t@)),
    {
        let request = Request::new(Method::Get, url.into_string());
        let response = self.send(request)?;
        decode_body_list::<T>(&response)
    }

    /// Dispatches a request through the transport after setting the two
    /// standard headers, and validates the outcome: a response is handed
    /// back only when its status lies in the success range; any other
    /// status is turned into the Domain Error its body describes.
    pub fn send(&self, req: Request) -> (r: Result<Response, DomeneshopError>)
        ensures
            r matches Ok(resp) ==> 200 <= resp.status <= 299,
    {
        match self.send_no_validation(req) {
            Err(e) => Err(e),
            Ok(response) => {
                if 200 <= response.status && response.status <= 299 {
                    Ok(response)
                } else {
                    Err(handle_response_error(&response))
                }
            },
        }
    }
}

} // verus!
