//! The dynamic DNS update operation: query-parameter-only semantics.

use vstd::prelude::*;
use vstd::string::*;

use crate::client::{composed_url_with_query_text, DomeneshopClient};
use crate::errors::DomeneshopError;
use crate::http::{HttpClient, Method, Request};
use crate::interpret::ensure_status;
use crate::query::params_view;
use crate::weburl::url_ok;

verus! {

/// The parameters of a dynamic DNS update: the hostname always, the `myip`
/// address exactly when one was given — an absent address contributes no
/// parameter at all, never an empty value.
pub open spec fn dyndns_params(hostname: Seq<char>, ip: Option<String>) -> Seq<
    (Seq<char>, Seq<char>),
> {
    seq![("hostname"@, hostname)] + (match ip {
        Some(address) => seq![("myip"@, address@)],
        None => Seq::<(Seq<char>, Seq<char>)>::empty(),
    })
}

impl<C: HttpClient> DomeneshopClient<C> {
    /// Updates DNS through the IP update protocol: a GET of
    /// `/dyndns/update` carrying exactly `dyndns_params` — the hostname,
    /// and the `myip` address only when one was given. A record for the
    /// hostname is created if it does not exist, or updated if it does, the
    /// record type detected from the address; when `ip` is absent the
    /// server uses the address the request came from. The API answers a
    /// bare `204`, and any other status fails. Fails before anything is
    /// sent, classified `"InfrastructureError"`, when the composed URL does
    /// not parse.
    pub fn update_dyndns(&self, hostname: &str, ip: Option<String>) -> (r: Result<
        (),
        DomeneshopError,
    >)
        ensures
            !url_ok(
                composed_url_with_query_text(
                    self.base_url_spec(),
                    "/dyndns/update"@,
                    dyndns_params(hostname@, ip),
                ),
            ) ==> (r matches Err(e) && e@.code == "InfrastructureError"@),
    {
        let ghost expected: Seq<(Seq<char>, Seq<char>)> = dyndns_params(hostname@, ip);
        let mut query_parameters: Vec<(String, String)> = Vec::new();
        query_parameters.push((String::from_str("hostname"), hostname.to_owned()));
        match ip {
            Some(address) => {
                query_parameters.push((String::from_str("myip"), address));
            },
            None => {},
        }
        proof {
            assert(params_view(query_parameters@) =~= expected);
        }
        let url = self.create_url_with_parameters("/dyndns/update", &query_parameters)?;
        let request = Request::new(Method::Get, url.into_string());
        let response = self.send(request)?;
        ensure_status(&response, 204)
    }
}

} // verus!
