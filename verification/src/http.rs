//! The HTTP vocabulary of the pipeline: request and response values, the
//! header algebra (case-insensitive names, insertion that overrides), and
//! the transport capability the client dispatches through.

use vstd::prelude::*;
use vstd::string::*;
use crate::errors::DomeneshopError;
use crate::text::{eq_ignore_ascii_case, lower_chars};

verus! {

/// The request methods the API speaks: exactly the four verbs its
/// operations use, so no request can carry an unsupported method and no
/// invalid-method failure can arise in this library.
#[derive(Clone, Copy, PartialEq, Eq, Structural, Debug)]
pub enum Method {
    /// Reads a resource.
    Get,
    /// Creates a resource.
    Post,
    /// Replaces a resource.
    Put,
    /// Removes a resource.
    Delete,
}

/// The mathematical content of a header list: names and values as
/// character sequences, in insertion order.
pub open spec fn headers_view(h: Seq<(String, String)>) -> Seq<(Seq<char>, Seq<char>)> {
    h.map_values(|e: (String, String)| (e.0@, e.1@))
}

/// Whether a header entry carries this name, compared without ASCII case.
pub open spec fn header_matches(e: (Seq<char>, Seq<char>), name: Seq<char>) -> bool {
    lower_chars(e.0) == lower_chars(name)
}

/// The header list without every entry named `name`.
pub open spec fn keep_headers(
    h: Seq<(Seq<char>, Seq<char>)>,
    name: Seq<char>,
) -> Seq<(Seq<char>, Seq<char>)> {
    h.filter(|e: (Seq<char>, Seq<char>)| !header_matches(e, name))
}

/// How many entries of the header list carry this name.
pub open spec fn header_count(h: Seq<(Seq<char>, Seq<char>)>, name: Seq<char>) -> nat {
    h.filter(|e: (Seq<char>, Seq<char>)| header_matches(e, name)).len()
}

/// The value of the last entry named `name`, if any — the value a reader of
/// the header list observes.
pub open spec fn header_lookup(h: Seq<(Seq<char>, Seq<char>)>, name: Seq<char>) -> Option<
    Seq<char>,
>
    decreases h.len(),
{
    if h.len() == 0 {
        None
    } else if header_matches(h.last(), name) {
        Some(h.last().1)
    } else {
        header_lookup(h.drop_last(), name)
    }
}

/// Removing entries of one name does not add entries of another: the count
/// of `n1` never grows, and stays exact when the two names differ.
pub proof fn lemma_keep_headers_count(h: Seq<(Seq<char>, Seq<char>)>, n1: Seq<char>, n2: Seq<char>)
    ensures
        header_count(keep_headers(h, n2), n1) <= header_count(h, n1),
        lower_chars(n1) != lower_chars(n2) ==> header_count(keep_headers(h, n2), n1)
            == header_count(h, n1),
        header_count(keep_headers(h, n1), n1) == 0,
    decreases h.len(),
{
    reveal(Seq::filter);
    if h.len() > 0 {
        lemma_keep_headers_count(h.drop_last(), n1, n2);
        lemma_keep_headers_count(h.drop_last(), n1, n1);
        let keep2 = |e: (Seq<char>, Seq<char>)| !header_matches(e, n2);
        let keep1 = |e: (Seq<char>, Seq<char>)| !header_matches(e, n1);
        let m1 = |e: (Seq<char>, Seq<char>)| header_matches(e, n1);
        assert(h.drop_last().push(h.last()) =~= h);
        if keep2(h.last()) {
            assert(keep_headers(h, n2) == keep_headers(h.drop_last(), n2).push(h.last()));
            assert(keep_headers(h, n2).drop_last() =~= keep_headers(h.drop_last(), n2));
        } else {
            assert(keep_headers(h, n2) == keep_headers(h.drop_last(), n2));
        }
        if keep1(h.last()) {
            assert(keep_headers(h, n1).drop_last() =~= keep_headers(h.drop_last(), n1));
        }
    }
}

/// A lookup after a push: the pushed entry answers when its name matches,
/// the rest of the list answers otherwise.
pub proof fn lemma_header_lookup_push(
    h: Seq<(Seq<char>, Seq<char>)>,
    e: (Seq<char>, Seq<char>),
    name: Seq<char>,
)
    ensures
        header_lookup(h.push(e), name) == if header_matches(e, name) {
            Some(e.1)
        } else {
            header_lookup(h, name)
        },
{
    assert(h.push(e).last() == e);
    assert(h.push(e).drop_last() =~= h);
}

/// An HTTP request the pipeline builds: method, absolute URL, headers in
/// insertion order, and an optional body.
pub struct Request {
    /// The request method.
    pub method: Method,
    /// The absolute request URL, in the normal form the URL builder made.
    pub url: String,
    /// The headers, in insertion order; names compare without ASCII case.
    pub headers: Vec<(String, String)>,
    /// The request body, when the operation sends one.
    pub body: Option<String>,
}

impl Request {
    /// The mathematical content of the header list.
    pub open spec fn headers_spec(&self) -> Seq<(Seq<char>, Seq<char>)> {
        headers_view(self.headers@)
    }

    /// A fresh request with no headers and no body.
    pub fn new(method: Method, url: String) -> (r: Request)
        ensures
            r.method == method,
            r.url@ == url@,
            r.headers_spec() == Seq::<(Seq<char>, Seq<char>)>::empty(),
            r.body is None,
    {
        let r = Request { method, url, headers: Vec::new(), body: None };
        proof {
            assert(r.headers_spec() =~= Seq::<(Seq<char>, Seq<char>)>::empty());
        }
        r
    }

    /// Sets the request body.
    pub fn set_body(&mut self, body: String)
        ensures
            final(self).body matches Some(b) && b@ == body@,
            final(self).method == old(self).method,
            final(self).url == old(self).url,
            final(self).headers_spec() == old(self).headers_spec(),
    {
        self.body = Some(body);
    }

    /// The value of the last header carrying this name, compared without
    /// ASCII case — what a receiver of the request observes for the name.
    pub fn header(&self, name: &str) -> (r: Option<&String>)
        ensures
            match r {
                Some(v) => header_lookup(self.headers_spec(), name@) == Some(v@),
                None => header_lookup(self.headers_spec(), name@) is None,
            },
    {
        find_header(&self.headers, name)
    }

    /// Sets the one value of this header name: every entry already carrying
    /// the name, in any ASCII case, is removed, and the new entry goes last.
    pub fn insert_header(&mut self, name: &str, value: &str)
        ensures
            final(self).headers_spec() == keep_headers(old(self).headers_spec(), name@).push(
                (name@, value@),
            ),
            final(self).method == old(self).method,
            final(self).url == old(self).url,
            final(self).body == old(self).body,
    {
        let kept = remove_header_entries(&self.headers, name);
        self.headers = kept;
        let owned_name = name.to_owned();
        let owned_value = value.to_owned();
        let ghost before: Seq<(Seq<char>, Seq<char>)> = self.headers_spec();
        self.headers.push((owned_name, owned_value));
        proof {
            assert(self.headers_spec() =~= before.push((name@, value@)));
        }
    }
}

/// An HTTP response as the transport hands it back: status code, headers,
/// and the body text.
pub struct Response {
    /// The status code.
    pub status: u16,
    /// The headers, in insertion order; names compare without ASCII case.
    pub headers: Vec<(String, String)>,
    /// The body text; empty when the response carries none.
    pub body: String,
}

impl Response {
    /// The mathematical content of the header list.
    pub open spec fn headers_spec(&self) -> Seq<(Seq<char>, Seq<char>)> {
        headers_view(self.headers@)
    }

    /// A fresh response with no headers and an empty body.
    pub fn new(status: u16) -> (r: Response)
        ensures
            r.status == status,
            r.headers_spec() == Seq::<(Seq<char>, Seq<char>)>::empty(),
            r.body@ == Seq::<char>::empty(),
    {
        let r = Response { status, headers: Vec::new(), body: String::new() };
        proof {
            assert(r.headers_spec() =~= Seq::<(Seq<char>, Seq<char>)>::empty());
        }
        r
    }

    /// Sets the body text.
    pub fn set_body(&mut self, body: String)
        ensures
            final(self).body@ == body@,
            final(self).status == old(self).status,
            final(self).headers_spec() == old(self).headers_spec(),
    {
        self.body = body;
    }

    /// Appends one header entry.
    pub fn append_header(&mut self, name: &str, value: &str)
        ensures
            final(self).headers_spec() == old(self).headers_spec().push((name@, value@)),
            final(self).status == old(self).status,
            final(self).body == old(self).body,
    {
        let ghost before: Seq<(Seq<char>, Seq<char>)> = self.headers_spec();
        self.headers.push((name.to_owned(), value.to_owned()));
        proof {
            assert(self.headers_spec() =~= before.push((name@, value@)));
        }
    }

    /// The value of the last header carrying this name, compared without
    /// ASCII case.
    pub fn header(&self, name: &str) -> (r: Option<&String>)
        ensures
            match r {
                Some(v) => header_lookup(self.headers_spec(), name@) == Some(v@),
                None => header_lookup(self.headers_spec(), name@) is None,
            },
    {
        find_header(&self.headers, name)
    }
}

/// Finds the last entry of a header list carrying this name, without ASCII
/// case.
fn find_header<'a>(headers: &'a Vec<(String, String)>, name: &str) -> (r: Option<&'a String>)
    ensures
        match r {
            Some(v) => header_lookup(headers_view(headers@), name@) == Some(v@),
            None => header_lookup(headers_view(headers@), name@) is None,
        },
{
    let ghost hv: Seq<(Seq<char>, Seq<char>)> = headers_view(headers@);
    let mut best: Option<&'a String> = None;
    let mut i: usize = 0;
    while i < headers.len()
        invariant
            i <= headers@.len(),
            hv == headers_view(headers@),
            hv.len() == headers@.len(),
            forall|k: int| 0 <= k < headers@.len() ==> hv[k] == (headers@[k].0@, headers@[k].1@),
            (match best {
                Some(v) => header_lookup(hv.subrange(0, i as int), name@) == Some(v@),
                None => header_lookup(hv.subrange(0, i as int), name@) is None,
            }),
        decreases headers@.len() - i,
    {
        proof {
            assert(hv.subrange(0, i as int + 1).drop_last() =~= hv.subrange(0, i as int));
            assert(hv.subrange(0, i as int + 1).last() == hv[i as int]);
        }
        if eq_ignore_ascii_case(headers[i].0.as_str(), name) {
            best = Some(&headers[i].1);
        }
        i += 1;
    }
    proof {
        assert(hv.subrange(0, hv.len() as int) =~= hv);
    }
    best
}

/// Copies a header list, leaving out every entry carrying this name,
/// without ASCII case.
fn remove_header_entries(headers: &Vec<(String, String)>, name: &str) -> (r: Vec<(String, String)>)
    ensures
        headers_view(r@) == keep_headers(headers_view(headers@), name@),
{
    let ghost hv: Seq<(Seq<char>, Seq<char>)> = headers_view(headers@);
    let ghost pred = |e: (Seq<char>, Seq<char>)| !header_matches(e, name@);
    let mut kept: Vec<(String, String)> = Vec::new();
    let mut i: usize = 0;
    proof {
        reveal(Seq::filter);
        assert(hv.subrange(0, 0) =~= Seq::<(Seq<char>, Seq<char>)>::empty());
        assert(headers_view(kept@) =~= Seq::<(Seq<char>, Seq<char>)>::empty());
        assert(headers_view(kept@) =~= hv.subrange(0, 0).filter(pred));
    }
    while i < headers.len()
        invariant
            i <= headers@.len(),
            hv == headers_view(headers@),
            hv.len() == headers@.len(),
            forall|k: int| 0 <= k < headers@.len() ==> hv[k] == (headers@[k].0@, headers@[k].1@),
            pred == (|e: (Seq<char>, Seq<char>)| !header_matches(e, name@)),
            headers_view(kept@) == hv.subrange(0, i as int).filter(pred),
        decreases headers@.len() - i,
    {
        proof {
            reveal(Seq::filter);
            assert(hv.subrange(0, i as int + 1).drop_last() =~= hv.subrange(0, i as int));
            assert(hv.subrange(0, i as int + 1).last() == hv[i as int]);
        }
        let ghost kept_before: Seq<(Seq<char>, Seq<char>)> = headers_view(kept@);
        if !eq_ignore_ascii_case(headers[i].0.as_str(), name) {
            kept.push((headers[i].0.clone(), headers[i].1.clone()));
            proof {
                assert(headers_view(kept@) =~= kept_before.push(hv[i as int]));
            }
        }
        i += 1;
    }
    proof {
        assert(hv.subrange(0, hv.len() as int) =~= hv);
    }
    kept
}

/// A request that carries the two headers the sender owes on every
/// dispatch: exactly one authorization header and exactly one
/// identification header.
pub open spec fn carries_standard_headers(r: Request) -> bool {
    &&& header_count(r.headers_spec(), "Authorization"@) == 1
    &&& header_count(r.headers_spec(), "User-Agent"@) == 1
}

/// The transport capability: one operation that physically sends a request
/// and hands back a response or a transport failure. The library never
/// promises anything about what comes back; every caller must hand it a
/// request that already carries the standard headers.
pub trait HttpClient {
    /// Executes one request.
    fn execute_request(&self, request: Request) -> (r: Result<Response, DomeneshopError>)
        requires
            carries_standard_headers(request),
    ;
}

/// A transport for tests: answers every request with one programmed
/// outcome.
pub struct MockClient {
    /// The outcome handed back for every request.
    pub response: Result<Response, DomeneshopError>,
}

impl Clone for Response {
    /// A copy of the response: same status, same headers, same body.
    fn clone(&self) -> (r: Self)
        ensures
            r.status == self.status,
            r.headers_spec() == self.headers_spec(),
            r.body@ == self.body@,
    {
        let mut headers: Vec<(String, String)> = Vec::new();
        let mut i: usize = 0;
        while i < self.headers.len()
            invariant
                i <= self.headers@.len(),
                headers_view(headers@) =~= headers_view(self.headers@).subrange(0, i as int),
            decreases self.headers@.len() - i,
        {
            let ghost before: Seq<(Seq<char>, Seq<char>)> = headers_view(headers@);
            headers.push((self.headers[i].0.clone(), self.headers[i].1.clone()));
            i += 1;
            proof {
                let hv = headers_view(self.headers@);
                assert(headers_view(headers@) =~= before.push(
                    (self.headers@[i - 1].0@, self.headers@[i - 1].1@),
                ));
                assert(hv[i - 1] == (self.headers@[i - 1].0@, self.headers@[i - 1].1@));
                assert(hv.subrange(0, i as int) =~= hv.subrange(0, i as int - 1).push(hv[i - 1]));
                assert(headers_view(headers@) =~= hv.subrange(0, i as int));
            }
        }
        proof {
            assert(headers_view(self.headers@).subrange(0, self.headers@.len() as int)
                =~= headers_view(self.headers@));
        }
        Response { status: self.status, headers, body: self.body.clone() }
    }
}

impl HttpClient for MockClient {
    /// Hands back a copy of the programmed outcome, whatever the request:
    /// the same status, headers and body, or the same error.
    fn execute_request(&self, request: Request) -> (r: Result<Response, DomeneshopError>)
        ensures
            match (r, self.response) {
                (Ok(a), Ok(b)) => a.status == b.status && a.headers_spec() == b.headers_spec()
                    && a.body@ == b.body@,
                (Err(ea), Err(eb)) => ea@ == eb@,
                _ => false,
            },
    {
        match &self.response {
            Ok(r) => Ok(r.clone()),
            Err(e) => Err(e.clone()),
        }
    }
}

} // verus!
