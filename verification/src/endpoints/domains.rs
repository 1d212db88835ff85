//! Domains: the domain shape with its status, services and dates, the JSON
//! codec, and the operations that fetch and list domains.

use vstd::prelude::*;
use vstd::string::*;

use crate::client::{composed_url_text, composed_url_with_query_text, DomeneshopClient};
use crate::codec::{
    get_bool, get_i64, get_string, lookup_arr, lookup_bool, lookup_int, lookup_obj, lookup_str,
    spec_decode_strings, JsonPayload,
};
use crate::date::{date_wf, spec_parse_date, Date};
use crate::endpoints::dns::DomainId;
use crate::errors::DomeneshopError;
use crate::http::HttpClient;
use crate::interpret::{spec_decode_body, spec_decode_body_list};
use crate::json::{JsonVal, JsonValue};
use crate::parse::spec_parse_json;
use crate::query::params_view;
use crate::text::{i32_to_string, str_eq};
use crate::weburl::url_ok;

verus! {

/// The status of a domain.
#[derive(Clone, Copy, PartialEq, Eq, Structural, Hash, Debug)]
pub enum DomainStatus {
    /// The domain is active.
    Active,
    /// The domain has expired.
    Expired,
    /// The domain is deactivated.
    Deactivated,
    /// The domain is marked for deletion, but can be restored.
    PendingDeleteRestorable,
}

/// The status a wire text names, if any.
pub open spec fn domain_status_of(s: Seq<char>) -> Option<DomainStatus> {
    if s == "active"@ {
        Some(DomainStatus::Active)
    } else if s == "expired"@ {
        Some(DomainStatus::Expired)
    } else if s == "deactivated"@ {
        Some(DomainStatus::Deactivated)
    } else if s == "pendingDeleteRestorable"@ {
        Some(DomainStatus::PendingDeleteRestorable)
    } else {
        None
    }
}

/// The type of web hotel connected to a domain.
#[derive(Clone, Copy, PartialEq, Eq, Structural, Hash, Debug)]
pub enum WebhotelType {
    /// No web hotel registered.
    NoWebhotel,
    /// Medium.
    WebMedium,
    /// Starter.
    WebSmall,
    /// Large.
    WebLarge,
    /// Extra large.
    WebXLarge,
}

/// The web hotel type a wire text names, if any.
pub open spec fn webhotel_of(s: Seq<char>) -> Option<WebhotelType> {
    if s == "none"@ {
        Some(WebhotelType::NoWebhotel)
    } else if s == "webMedium"@ {
        Some(WebhotelType::WebMedium)
    } else if s == "webSmall"@ {
        Some(WebhotelType::WebSmall)
    } else if s == "webLarge"@ {
        Some(WebhotelType::WebLarge)
    } else if s == "webXLarge"@ {
        Some(WebhotelType::WebXLarge)
    } else {
        None
    }
}

/// Which services are active for a domain.
#[derive(Clone, Copy, PartialEq, Eq, Structural, Hash, Debug)]
pub struct DomainServices {
    /// Whether the registrar service is active.
    pub registrar: bool,
    /// Whether DNS service is active.
    pub dns: bool,
    /// Whether email service is active.
    pub email: bool,
    /// The web hotel connected to the domain.
    pub webhotel: WebhotelType,
}

/// The services an object's fields carry, if they have the expected shape.
pub open spec fn spec_services(fields: Seq<(Seq<char>, JsonVal)>) -> Option<DomainServices> {
    match (lookup_bool(fields, "registrar"@), lookup_bool(fields, "dns"@), lookup_bool(
        fields,
        "email"@,
    ), lookup_str(fields, "webhotel"@)) {
        (Some(registrar), Some(dns), Some(email), Some(w)) => match webhotel_of(w) {
            Some(webhotel) => Some(DomainServices { registrar, dns, email, webhotel }),
            None => None,
        },
        _ => None,
    }
}

/// The available data of a domain.
#[derive(Clone, PartialEq, Eq, Hash, Debug)]
pub struct Domain {
    /// The identifier of the domain.
    pub id: DomainId,
    /// The domain name.
    pub domain: String,
    /// The expiration date.
    pub expiry_date: Date,
    /// The date of registration, when known.
    pub registered_date: Option<Date>,
    /// Whether automatic renewal is enabled.
    pub renew: bool,
    /// The name of the registrant.
    pub registrant: String,
    /// The status of the domain.
    pub status: DomainStatus,
    /// The active nameservers of the domain.
    pub nameservers: Vec<String>,
    /// Which services are enabled for the domain.
    pub services: DomainServices,
}

/// The mathematical content of a domain.
pub struct DomainView {
    /// The identifier of the domain.
    pub id: int,
    /// The domain name.
    pub domain: Seq<char>,
    /// The expiration date.
    pub expiry_date: Date,
    /// The date of registration, when known.
    pub registered_date: Option<Date>,
    /// Whether automatic renewal is enabled.
    pub renew: bool,
    /// The name of the registrant.
    pub registrant: Seq<char>,
    /// The status of the domain.
    pub status: DomainStatus,
    /// The active nameservers of the domain.
    pub nameservers: Seq<Seq<char>>,
    /// Which services are enabled for the domain.
    pub services: DomainServices,
}

impl View for Domain {
    type V = DomainView;

    open spec fn view(&self) -> DomainView {
        DomainView {
            id: self.id as int,
            domain: self.domain@,
            expiry_date: self.expiry_date,
            registered_date: self.registered_date,
            renew: self.renew,
            registrant: self.registrant@,
            status: self.status,
            nameservers: self.nameservers@.map_values(|s: String| s@),
            services: self.services,
        }
    }
}

/// The date under this key, read from its wire text.
pub open spec fn lookup_date(fields: Seq<(Seq<char>, JsonVal)>, key: Seq<char>) -> Option<Date> {
    match lookup_str(fields, key) {
        Some(s) => spec_parse_date(s),
        None => None,
    }
}

/// The optional date under this key: an absent key or a `null` mean no
/// date; a string must parse as a date.
pub open spec fn lookup_optional_date(fields: Seq<(Seq<char>, JsonVal)>, key: Seq<char>) -> Option<
    Option<Date>,
> {
    match crate::codec::obj_lookup(fields, key) {
        None => Some(None),
        Some(JsonVal::Null) => Some(None),
        Some(JsonVal::Str(s)) => match spec_parse_date(s) {
            Some(d) => Some(Some(d)),
            None => None,
        },
        Some(_) => None,
    }
}

/// Reads the date under this key.
pub fn get_date(fields: &Vec<(String, JsonValue)>, key: &str) -> (r: Option<Date>)
    ensures
        r == lookup_date(crate::json::obj_view(fields@), key@),
{
    match get_string(fields, key) {
        Some(s) => crate::date::parse_date(s.as_str()),
        None => None,
    }
}

/// Reads the optional date under this key.
pub fn get_optional_date(fields: &Vec<(String, JsonValue)>, key: &str) -> (r: Option<
    Option<Date>,
>)
    ensures
        r == lookup_optional_date(crate::json::obj_view(fields@), key@),
{
    match crate::codec::obj_get(fields, key) {
        None => Some(None),
        Some(JsonValue::Null) => Some(None),
        Some(JsonValue::Str(s)) => match crate::date::parse_date(s.as_str()) {
            Some(d) => Some(Some(d)),
            None => None,
        },
        Some(_) => None,
    }
}

impl JsonPayload for Domain {
    /// A domain is read from an object carrying its identifier within
    /// `i32`, its name, dates in wire form, its status, its nameservers as
    /// an array of strings, and its services as a nested object.
    open spec fn spec_decode(v: JsonVal) -> Option<DomainView> {
        match v {
            JsonVal::Obj(fields) => match (lookup_int(fields, "id"@), lookup_str(
                fields,
                "domain"@,
            ), lookup_date(fields, "expiry_date"@), lookup_optional_date(
                fields,
                "registered_date"@,
            ), lookup_bool(fields, "renew"@), lookup_str(fields, "registrant"@), lookup_str(
                fields,
                "status"@,
            ), lookup_arr(fields, "nameservers"@), lookup_obj(fields, "services"@)) {
                (
                    Some(id),
                    Some(domain),
                    Some(expiry_date),
                    Some(registered_date),
                    Some(renew),
                    Some(registrant),
                    Some(status_text),
                    Some(ns),
                    Some(services_fields),
                ) => {
                    match (
                        domain_status_of(status_text),
                        spec_decode_strings(ns),
                        spec_services(services_fields),
                    ) {
                        (Some(status), Some(nameservers), Some(services)) => if -0x8000_0000 <= id
                            <= 0x7fff_ffff {
                            Some(
                                DomainView {
                                    id,
                                    domain,
                                    expiry_date,
                                    registered_date,
                                    renew,
                                    registrant,
                                    status,
                                    nameservers,
                                    services,
                                },
                            )
                        } else {
                            None
                        },
                        _ => None,
                    }
                },
                _ => None,
            },
            _ => None,
        }
    }

    fn decode_json(v: &JsonValue) -> (r: Option<Self>) {
        match v {
            JsonValue::Obj(fields) => {
                let id_wide = match get_i64(fields, "id") {
                    Some(n) => n,
                    None => {
                        return None;
                    },
                };
                let domain = match get_string(fields, "domain") {
                    Some(s) => s,
                    None => {
                        return None;
                    },
                };
                let expiry_date = match get_date(fields, "expiry_date") {
                    Some(d) => d,
                    None => {
                        return None;
                    },
                };
                let registered_date = match get_optional_date(fields, "registered_date") {
                    Some(d) => d,
                    None => {
                        return None;
                    },
                };
                let renew = match get_bool(fields, "renew") {
                    Some(b) => b,
                    None => {
                        return None;
                    },
                };
                let registrant = match get_string(fields, "registrant") {
                    Some(s) => s,
                    None => {
                        return None;
                    },
                };
                let status_text = match get_string(fields, "status") {
                    Some(s) => s,
                    None => {
                        return None;
                    },
                };
                let status = if str_eq(status_text.as_str(), "active") {
                    DomainStatus::Active
                } else if str_eq(status_text.as_str(), "expired") {
                    DomainStatus::Expired
                } else if str_eq(status_text.as_str(), "deactivated") {
                    DomainStatus::Deactivated
                } else if str_eq(status_text.as_str(), "pendingDeleteRestorable") {
                    DomainStatus::PendingDeleteRestorable
                } else {
                    return None;
                };
                let ns = match crate::codec::get_arr(fields, "nameservers") {
                    Some(a) => a,
                    None => {
                        return None;
                    },
                };
                let nameservers = match crate::codec::decode_string_list(ns) {
                    Some(ss) => ss,
                    None => {
                        return None;
                    },
                };
                let services_fields = match crate::codec::get_obj(fields, "services") {
                    Some(sf) => sf,
                    None => {
                        return None;
                    },
                };
                let registrar = match get_bool(services_fields, "registrar") {
                    Some(b) => b,
                    None => {
                        return None;
                    },
                };
                let dns = match get_bool(services_fields, "dns") {
                    Some(b) => b,
                    None => {
                        return None;
                    },
                };
                let email = match get_bool(services_fields, "email") {
                    Some(b) => b,
                    None => {
                        return None;
                    },
                };
                let webhotel_text = match get_string(services_fields, "webhotel") {
                    Some(s) => s,
                    None => {
                        return None;
                    },
                };
                let webhotel = if str_eq(webhotel_text.as_str(), "none") {
                    WebhotelType::NoWebhotel
                } else if str_eq(webhotel_text.as_str(), "webMedium") {
                    WebhotelType::WebMedium
                } else if str_eq(webhotel_text.as_str(), "webSmall") {
                    WebhotelType::WebSmall
                } else if str_eq(webhotel_text.as_str(), "webLarge") {
                    WebhotelType::WebLarge
                } else if str_eq(webhotel_text.as_str(), "webXLarge") {
                    WebhotelType::WebXLarge
                } else {
                    return None;
                };
                if id_wide < -0x8000_0000 || id_wide > 0x7fff_ffff {
                    return None;
                }
                Some(
                    Domain {
                        id: id_wide as i32,
                        domain,
                        expiry_date,
                        registered_date,
                        renew,
                        registrant,
                        status,
                        nameservers,
                        services: DomainServices { registrar, dns, email, webhotel },
                    },
                )
            },
            _ => None,
        }
    }
}

/// A date read out of a field is a date that exists on the calendar.
proof fn lemma_lookup_date_wf(fields: Seq<(Seq<char>, JsonVal)>, key: Seq<char>, d: Date)
    requires
        lookup_date(fields, key) == Some(d),
    ensures
        date_wf(d),
{
    match lookup_str(fields, key) {
        Some(s) => {
            assert(spec_parse_date(s) == Some(d));
        },
        None => {
            assert(false);
        },
    }
}

/// An optional date read out of a field, when present, exists on the
/// calendar.
proof fn lemma_lookup_optional_date_wf(
    fields: Seq<(Seq<char>, JsonVal)>,
    key: Seq<char>,
    od: Option<Date>,
)
    requires
        lookup_optional_date(fields, key) == Some(od),
    ensures
        od matches Some(d) ==> date_wf(d),
{
    match crate::codec::obj_lookup(fields, key) {
        None => {},
        Some(JsonVal::Null) => {},
        Some(JsonVal::Str(s)) => {
            match spec_parse_date(s) {
                Some(d) => {},
                None => {
                    assert(false);
                },
            }
        },
        Some(_) => {
            assert(false);
        },
    }
}

/// A domain that decodes carries dates that exist on the calendar.
pub proof fn lemma_domain_dates_wf(v: JsonVal, dv: DomainView)
    requires
        <Domain as JsonPayload>::spec_decode(v) == Some(dv),
    ensures
        date_wf(dv.expiry_date),
        dv.registered_date matches Some(d) ==> date_wf(d),
{
    match v {
        JsonVal::Obj(fields) => {
            assert(lookup_date(fields, "expiry_date"@) == Some(dv.expiry_date));
            assert(lookup_optional_date(fields, "registered_date"@) == Some(dv.registered_date));
            lemma_lookup_date_wf(fields, "expiry_date"@, dv.expiry_date);
            lemma_lookup_optional_date_wf(fields, "registered_date"@, dv.registered_date);
        },
        _ => {
            assert(false);
        },
    }
}

/// Every domain of a decoded list carries dates that exist on the calendar.
proof fn lemma_domain_list_dates(dvs: Seq<DomainView>)
    requires
        exists|body: Seq<char>| spec_decode_body_list::<Domain>(body) == Some(dvs),
    ensures
        forall|k: int| 0 <= k < dvs.len() ==> date_wf(#[trigger] dvs[k].expiry_date) && (
        dvs[k].registered_date matches Some(d) ==> date_wf(d)),
{
    let body = choose|body: Seq<char>| spec_decode_body_list::<Domain>(body) == Some(dvs);
    match spec_parse_json(body) {
        Some(JsonVal::Arr(elems)) => {
            crate::codec::lemma_decode_list_each::<Domain>(elems, dvs);
            assert forall|k: int| 0 <= k < dvs.len() implies date_wf(
                #[trigger] dvs[k].expiry_date,
            ) && (dvs[k].registered_date matches Some(d) ==> date_wf(d)) by {
                lemma_domain_dates_wf(elems[k], dvs[k]);
            }
        },
        _ => {
            assert(false);
        },
    }
}

/// The resource path of one domain.
pub open spec fn domain_path(id: int) -> Seq<char> {
    "/domains/"@ + crate::text::int_text(id)
}

/// The filter parameter of a domain listing.
pub open spec fn domain_filter_params(filter: Seq<char>) -> Seq<(Seq<char>, Seq<char>)> {
    seq![("domain"@, filter)]
}

/// Renders the path of one domain.
fn domain_path_text(id: DomainId) -> (r: String)
    ensures
        r@ == domain_path(id as int),
{
    let mut path = String::from_str("/domains/");
    path.append(i32_to_string(id).as_str());
    proof {
        assert(path@ =~= domain_path(id as int));
    }
    path
}

impl<C: HttpClient> DomeneshopClient<C> {
    /// Fetches a single domain by its identifier: a GET of the domain's
    /// path. A domain handed back carries dates that exist on the calendar.
    /// Fails before anything is sent, classified `"InfrastructureError"`,
    /// when the composed URL does not parse.
    ///
    /// The API answers unauthorized when the identifier names a domain the
    /// credentials do not own, so an unknown identifier cannot be told apart
    /// from a credentials failure; the ambiguity is the remote API's own and
    /// is passed on rather than resolved here.
    pub fn get_domain(&self, id: DomainId) -> (r: Result<Domain, DomeneshopError>)
        ensures
            !url_ok(composed_url_text(self.base_url_spec(), domain_path(id as int))) ==> (
            r matches Err(e) && e@.code == "InfrastructureError"@),
            r matches Ok(d) ==> date_wf(d@.expiry_date) && (d@.registered_date matches Some(rd)
                ==> date_wf(rd)),
    {
        let path = domain_path_text(id);
        let url = self.create_url(path.as_str())?;
        let result = self.get_response::<Domain>(url);
        proof {
            match &result {
                Ok(d) => {
                    let body = choose|body: Seq<char>|
                        spec_decode_body::<Domain>(body) == Some(d@);
                    match spec_parse_json(body) {
                        Some(v) => {
                            lemma_domain_dates_wf(v, d@);
                        },
                        None => {
                            assert(false);
                        },
                    }
                },
                Err(_) => {},
            }
        }
        result
    }

    /// Lists all domains of the current account: a GET of the domain
    /// collection path. Every domain handed back carries dates that exist
    /// on the calendar. Fails before anything is sent, classified
    /// `"InfrastructureError"`, when the composed URL does not parse.
    pub fn list_domains(&self) -> (r: Result<Vec<Domain>, DomeneshopError>)
        ensures
            !url_ok(composed_url_text(self.base_url_spec(), "/domains"@)) ==> (r matches Err(e)
                && e@.code == "InfrastructureError"@),
            r matches Ok(ds) ==> forall|k: int|
                0 <= k < ds@.len() ==> date_wf(#[trigger] ds@[k]@.expiry_date) && (
                ds@[k]@.registered_date matches Some(rd) ==> date_wf(rd)),
    {
        let url = self.create_url("/domains")?;
        let result = self.get_response_list::<Domain>(url);
        proof {
            match &result {
                Ok(ds) => {
                    let ghost dvs: Seq<DomainView> = ds@.map_values(|d: Domain| d@);
                    lemma_domain_list_dates(dvs);
                    assert forall|k: int| 0 <= k < ds@.len() implies date_wf(
                        #[trigger] ds@[k]@.expiry_date,
                    ) && (ds@[k]@.registered_date matches Some(rd) ==> date_wf(rd)) by {
                        assert(date_wf(dvs[k].expiry_date) && (dvs[k].registered_date matches Some(
                            rd,
                        ) ==> date_wf(rd)));
                        assert(dvs[k] == ds@[k]@);
                    }
                },
                Err(_) => {},
            }
        }
        result
    }

    /// Lists the domains of the current account whose name contains the
    /// filter text: a GET of the domain collection path carrying exactly
    /// the one `domain` parameter. Every domain handed back carries dates
    /// that exist on the calendar. Fails before anything is sent,
    /// classified `"InfrastructureError"`, when the composed URL does not
    /// parse.
    pub fn list_domains_with_filter(&self, filter: &str) -> (r: Result<
        Vec<Domain>,
        DomeneshopError,
    >)
        ensures
            !url_ok(
                composed_url_with_query_text(
                    self.base_url_spec(),
                    "/domains"@,
                    domain_filter_params(filter@),
                ),
            ) ==> (r matches Err(e) && e@.code == "InfrastructureError"@),
            r matches Ok(ds) ==> forall|k: int|
                0 <= k < ds@.len() ==> date_wf(#[trigger] ds@[k]@.expiry_date) && (
                ds@[k]@.registered_date matches Some(rd) ==> date_wf(rd)),
    {
        let mut query_parameters: Vec<(String, String)> = Vec::new();
        query_parameters.push((String::from_str("domain"), filter.to_owned()));
        proof {
            assert(params_view(query_parameters@) =~= domain_filter_params(filter@));
        }
        let url = self.create_url_with_parameters("/domains", &query_parameters)?;
        let result = self.get_response_list::<Domain>(url);
        proof {
            match &result {
                Ok(ds) => {
                    let ghost dvs: Seq<DomainView> = ds@.map_values(|d: Domain| d@);
                    lemma_domain_list_dates(dvs);
                    assert forall|k: int| 0 <= k < ds@.len() implies date_wf(
                        #[trigger] ds@[k]@.expiry_date,
                    ) && (ds@[k]@.registered_date matches Some(rd) ==> date_wf(rd)) by {
                        assert(date_wf(dvs[k].expiry_date) && (dvs[k].registered_date matches Some(
                            rd,
                        ) ==> date_wf(rd)));
                        assert(dvs[k] == ds@[k]@);
                    }
                },
                Err(_) => {},
            }
        }
        result
    }
}

} // verus!
