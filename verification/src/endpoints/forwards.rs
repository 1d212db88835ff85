//! HTTP forwards ("WWW forwarding"): the forward shape, its JSON codec, and
//! the operations that list, find, create, update and delete forwards.

use vstd::prelude::*;
use vstd::string::*;

use crate::client::{composed_url_text, DomeneshopClient};
use crate::codec::{lookup_bool, lookup_str, JsonEncode, JsonPayload};
use crate::endpoints::dns::DomainId;
use crate::errors::DomeneshopError;
use crate::http::{HttpClient, Method, Request};
use crate::interpret::{decode_optional, ensure_status, spec_decode_body_list};
use crate::json::{lemma_obj_view, obj_view, JsonVal, JsonValue};
use crate::parse::spec_parse_json;
use crate::text::i32_to_string;
use crate::weburl::{is_normal_url, url_norm, url_ok, WebUrl};

verus! {

/// An HTTP forward: a subdomain sent on to a URL.
#[derive(Debug)]
pub struct HttpForward {
    /// The subdomain this forward applies to, without the domain part:
    /// `www` in the context of `example.com` forwards `www.example.com`.
    pub host: String,
    /// Whether to forward inside a frame embed; discouraged.
    pub frame: bool,
    /// The URL to forward to, scheme included.
    pub url: WebUrl,
}

/// The mathematical content of an HTTP forward.
pub struct HttpForwardView {
    /// The subdomain the forward applies to.
    pub host: Seq<char>,
    /// Whether to forward inside a frame embed.
    pub frame: bool,
    /// The text of the URL forwarded to, in normal form.
    pub url: Seq<char>,
}

impl View for HttpForward {
    type V = HttpForwardView;

    open spec fn view(&self) -> HttpForwardView {
        HttpForwardView { host: self.host@, frame: self.frame, url: self.url@ }
    }
}

impl JsonPayload for HttpForward {
    /// A forward is read from an object carrying a `host` string, a `frame`
    /// boolean and a `url` string that parses as a URL, which is kept in
    /// normal form.
    open spec fn spec_decode(v: JsonVal) -> Option<HttpForwardView> {
        match v {
            JsonVal::Obj(fields) => match (lookup_str(fields, "host"@), lookup_bool(
                fields,
                "frame"@,
            ), lookup_str(fields, "url"@)) {
                (Some(host), Some(frame), Some(u)) => if url_ok(u) {
                    Some(HttpForwardView { host, frame, url: url_norm(u) })
                } else {
                    None
                },
                _ => None,
            },
            _ => None,
        }
    }

    fn decode_json(v: &JsonValue) -> (r: Option<Self>) {
        match v {
            JsonValue::Obj(fields) => {
                let host = match crate::codec::get_string(fields, "host") {
                    Some(h) => h,
                    None => {
                        return None;
                    },
                };
                let frame = match crate::codec::get_bool(fields, "frame") {
                    Some(f) => f,
                    None => {
                        return None;
                    },
                };
                let url_text = match crate::codec::get_string(fields, "url") {
                    Some(u) => u,
                    None => {
                        return None;
                    },
                };
                match WebUrl::parse(url_text.as_str()) {
                    Ok(url) => Some(HttpForward { host, frame, url }),
                    Err(_) => None,
                }
            },
            _ => None,
        }
    }
}

/// The canonical JSON content of a forward: `host`, `frame`, `url`.
pub open spec fn forward_json(v: HttpForwardView) -> JsonVal {
    JsonVal::Obj(
        seq![
            ("host"@, JsonVal::Str(v.host)),
            ("frame"@, JsonVal::Bool(v.frame)),
            ("url"@, JsonVal::Str(v.url)),
        ],
    )
}

impl JsonEncode for HttpForward {
    /// A forward is written as the object `forward_json` describes, the URL
    /// in its normal form.
    open spec fn spec_encode(v: HttpForwardView) -> JsonVal {
        forward_json(v)
    }

    fn encode_json(&self) -> (r: JsonValue) {
        let mut fields: Vec<(String, JsonValue)> = Vec::new();
        fields.push((String::from_str("host"), JsonValue::Str(self.host.clone())));
        fields.push((String::from_str("frame"), JsonValue::Bool(self.frame)));
        fields.push((String::from_str("url"), JsonValue::Str(self.url.dup().into_string())));
        proof {
            lemma_obj_view(fields@);
            assert(obj_view(fields@) =~= forward_json(self@)->Obj_0);
        }
        JsonValue::Obj(fields)
    }
}

/// Forward contents whose URL text is a parsed URL in its normal form —
/// true of the content of every executable forward value.
pub open spec fn forward_view_wf(v: HttpForwardView) -> bool {
    url_ok(v.url) && url_norm(v.url) == v.url
}

/// The wire names of the forward fields are pairwise distinct.
proof fn lemma_forward_names_distinct()
    ensures
        "host"@ != "frame"@ && "host"@ != "url"@ && "frame"@ != "url"@,
{
    reveal_strlit("host");
    reveal_strlit("frame");
    reveal_strlit("url");
    assert("host"@.len() == 4);
    assert("frame"@.len() == 5);
    assert("url"@.len() == 3);
}

/// Writing a forward as JSON and reading it back yields the same forward
/// contents: decoding inverts encoding on every forward whose URL is in its
/// normal form.
pub proof fn lemma_forward_value_round_trip(v: HttpForwardView)
    requires
        forward_view_wf(v),
    ensures
        <HttpForward as JsonPayload>::spec_decode(forward_json(v)) == Some(v),
{
    lemma_forward_names_distinct();
    reveal_with_fuel(crate::codec::obj_lookup, 4);
    let fields = forward_json(v)->Obj_0;
    let f1 = ("frame"@, JsonVal::Bool(v.frame));
    let f2 = ("url"@, JsonVal::Str(v.url));
    assert(fields.drop_first() =~= seq![f1, f2]);
    assert(seq![f1, f2].drop_first() =~= seq![f2]);
    assert(lookup_str(fields, "host"@) == Some(v.host));
    assert(lookup_bool(fields, "frame"@) == Some(v.frame));
    assert(lookup_str(fields, "url"@) == Some(v.url));
}

/// Writing a forward as its JSON text and decoding that text back yields
/// the same forward contents: the full round trip through the wire format.
pub proof fn lemma_forward_text_round_trip(v: HttpForwardView)
    requires
        forward_view_wf(v),
    ensures
        crate::interpret::spec_decode_body::<HttpForward>(
            crate::json::json_text(forward_json(v)),
        ) == Some(v),
{
    let doc = forward_json(v);
    let fields = doc->Obj_0;
    assert(crate::parse::flat_fields(fields)) by {
        assert forall|k: int| 0 <= k < fields.len() implies crate::parse::scalar_json(
            #[trigger] fields[k].1,
        ) by {}
    }
    crate::parse::lemma_flat_fields_wf(fields);
    assert(crate::parse::wf_json(doc));
    crate::parse::lemma_parse_json_of_text(doc);
    lemma_forward_value_round_trip(v);
}

/// A forward that decodes carries a URL text in normal form.
pub proof fn lemma_forward_decode_normal(v: JsonVal, fv: HttpForwardView)
    requires
        <HttpForward as JsonPayload>::spec_decode(v) == Some(fv),
    ensures
        is_normal_url(fv.url),
{
    match v {
        JsonVal::Obj(fields) => {
            match (lookup_str(fields, "host"@), lookup_bool(fields, "frame"@), lookup_str(
                fields,
                "url"@,
            )) {
                (Some(host), Some(frame), Some(u)) => {
                    assert(url_ok(u));
                    assert(fv.url == url_norm(u));
                },
                _ => {
                    assert(false);
                },
            }
        },
        _ => {
            assert(false);
        },
    }
}

/// The resource path of a domain's forward collection.
pub open spec fn forwards_path(id: int) -> Seq<char> {
    "/domains/"@ + crate::text::int_text(id) + "/forwards"@
}

/// The resource path of one forward of a domain, named by its host.
pub open spec fn forward_path(id: int, host: Seq<char>) -> Seq<char> {
    forwards_path(id) + seq!['/'] + host
}

/// Renders the forward-collection path of a domain.
fn forwards_path_text(id: DomainId) -> (r: String)
    ensures
        r@ == forwards_path(id as int),
{
    let mut path = String::from_str("/domains/");
    path.append(i32_to_string(id).as_str());
    path.append("/forwards");
    proof {
        assert(path@ =~= forwards_path(id as int));
    }
    path
}

/// Renders the path of one forward of a domain.
fn forward_path_text(id: DomainId, host: &str) -> (r: String)
    ensures
        r@ == forward_path(id as int, host@),
{
    let mut path = String::from_str("/domains/");
    path.append(i32_to_string(id).as_str());
    path.append("/forwards/");
    proof {
        reveal_strlit("/forwards");
        reveal_strlit("/forwards/");
        assert("/forwards/"@ =~= "/forwards"@ + seq!['/']);
    }
    path.append(host);
    proof {
        assert(path@ =~= forward_path(id as int, host@));
    }
    path
}

impl<C: HttpClient> DomeneshopClient<C> {
    /// Lists all forwards of the given domain: a GET of the forward
    /// collection path. Every forward handed back carries a URL text in
    /// normal form. Fails before anything is sent, classified
    /// `"InfrastructureError"`, when the composed URL does not parse.
    pub fn list_forwards(&self, id: DomainId) -> (r: Result<Vec<HttpForward>, DomeneshopError>)
        ensures
            !url_ok(composed_url_text(self.base_url_spec(), forwards_path(id as int))) ==> (
            r matches Err(e) && e@.code == "InfrastructureError"@),
            r matches Ok(fs) ==> forall|k: int|
                0 <= k < fs@.len() ==> is_normal_url(#[trigger] fs@[k]@.url),
    {
        let path = forwards_path_text(id);
        let url = self.create_url(path.as_str())?;
        let result = self.get_response_list::<HttpForward>(url);
        proof {
            match &result {
                Ok(fs) => {
                    lemma_forward_list_normal(fs@.map_values(|f: HttpForward| f@));
                    assert forall|k: int| 0 <= k < fs@.len() implies is_normal_url(
                        #[trigger] fs@[k]@.url,
                    ) by {
                        assert(fs@.map_values(|f: HttpForward| f@)[k] == fs@[k]@);
                    }
                },
                Err(_) => {},
            }
        }
        result
    }

    /// Deletes a forward by its host — the subdomain of the forward, `@`
    /// for the root domain: a DELETE of the forward's path. Any success
    /// status counts as done; a `404` is an error. Fails before anything is
    /// sent, classified `"InfrastructureError"`, when the composed URL does
    /// not parse.
    pub fn delete_forward(&self, domain_id: DomainId, host: String) -> (r: Result<
        (),
        DomeneshopError,
    >)
        ensures
            !url_ok(composed_url_text(self.base_url_spec(), forward_path(domain_id as int, host@)))
                ==> (r matches Err(e) && e@.code == "InfrastructureError"@),
    {
        let path = forward_path_text(domain_id, host.as_str());
        let url = self.create_url(path.as_str())?;
        let request = Request::new(Method::Delete, url.into_string());
        let response = self.send(request);
        match response {
            Ok(_) => Ok(()),
            Err(e) => Err(e),
        }
    }

    /// Looks for a forward by its host — the subdomain of the forward, `@`
    /// for the root domain: a GET of the forward's path, interpreted
    /// without validation so that a `404` answer means no such forward and
    /// is not an error. A forward handed back carries a URL text in normal
    /// form. Fails before anything is sent, classified
    /// `"InfrastructureError"`, when the composed URL does not parse.
    pub fn find_forward_by_host(&self, id: DomainId, host: String) -> (r: Result<
        Option<HttpForward>,
        DomeneshopError,
    >)
        ensures
            !url_ok(composed_url_text(self.base_url_spec(), forward_path(id as int, host@))) ==> (
            r matches Err(e) && e@.code == "InfrastructureError"@),
            r matches Ok(o) ==> (o matches Some(f) ==> is_normal_url(f@.url)),
    {
        let path = forward_path_text(id, host.as_str());
        let url = self.create_url(path.as_str())?;
        let request = Request::new(Method::Get, url.into_string());
        let response = self.send_no_validation(request)?;
        let result = decode_optional::<HttpForward>(&response);
        proof {
            match &result {
                Ok(o) => match o {
                    Some(f) => {
                        match spec_parse_json(response.body@) {
                            Some(v) => {
                                lemma_forward_decode_normal(v, f@);
                            },
                            None => {
                                assert(false);
                            },
                        }
                    },
                    None => {},
                },
                Err(_) => {},
            }
        }
        result
    }

    /// Creates a forward for the given domain: a POST of the forward's
    /// canonical JSON text to the forward-collection path. The forward must
    /// not collide with an existing forward or DNS record; the API answers
    /// a bare `201`, and any other status fails. Fails before anything is
    /// sent, classified `"InfrastructureError"`, when the composed URL does
    /// not parse.
    pub fn add_forward(&self, id: DomainId, forward: HttpForward) -> (r: Result<
        (),
        DomeneshopError,
    >)
        ensures
            !url_ok(composed_url_text(self.base_url_spec(), forwards_path(id as int))) ==> (
            r matches Err(e) && e@.code == "InfrastructureError"@),
    {
        let path = forwards_path_text(id);
        let url = self.create_url(path.as_str())?;
        let mut request = Request::new(Method::Post, url.into_string());
        request.set_body(crate::json::write_json(&forward.encode_json()));
        let response = self.send(request)?;
        ensure_status(&response, 201)
    }

    /// Replaces the forward for a host of the given domain: a PUT of the
    /// forward's canonical JSON text to the path named by `forward.host`,
    /// which must not change. The API answers `200`, and any other status
    /// fails. Fails before anything is sent, classified
    /// `"InfrastructureError"`, when the composed URL does not parse.
    pub fn update_forward(&self, id: DomainId, forward: HttpForward) -> (r: Result<
        (),
        DomeneshopError,
    >)
        ensures
            !url_ok(
                composed_url_text(self.base_url_spec(), forward_path(id as int, forward.host@)),
            ) ==> (r matches Err(e) && e@.code == "InfrastructureError"@),
    {
        let path = forward_path_text(id, forward.host.as_str());
        let url = self.create_url(path.as_str())?;
        let mut request = Request::new(Method::Put, url.into_string());
        request.set_body(crate::json::write_json(&forward.encode_json()));
        let response = self.send(request)?;
        ensure_status(&response, 200)
    }
}

/// Every forward of a decoded list carries a URL text in normal form.
proof fn lemma_forward_list_normal(fvs: Seq<HttpForwardView>)
    requires
        exists|body: Seq<char>| spec_decode_body_list::<HttpForward>(body) == Some(fvs),
    ensures
        forall|k: int| 0 <= k < fvs.len() ==> is_normal_url(#[trigger] fvs[k].url),
{
    let body = choose|body: Seq<char>| spec_decode_body_list::<HttpForward>(body) == Some(fvs);
    match spec_parse_json(body) {
        Some(JsonVal::Arr(elems)) => {
            crate::codec::lemma_decode_list_each::<HttpForward>(elems, fvs);
            assert forall|k: int| 0 <= k < fvs.len() implies is_normal_url(
                #[trigger] fvs[k].url,
            ) by {
                lemma_forward_decode_normal(elems[k], fvs[k]);
            }
        },
        _ => {
            assert(false);
        },
    }
}

} // verus!
