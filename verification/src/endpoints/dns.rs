//! DNS records: the tagged record variants, their JSON codec, and the
//! operations that list, fetch, create, update and delete records.

use vstd::prelude::*;
use vstd::string::*;

use crate::client::{composed_url_text, composed_url_with_query_text, DomeneshopClient};
use crate::codec::{get_i64, get_string, lookup_int, lookup_str, JsonEncode, JsonPayload};
use crate::errors::DomeneshopError;
use crate::http::{HttpClient, Method, Request};
use crate::interpret::{decode_created, ensure_status};
use crate::json::{lemma_obj_view, obj_view, JsonVal, JsonValue};
use crate::query::params_view;
use crate::text::i32_to_string;
use crate::weburl::{url_ok, WebUrl};

verus! {

/// The identifier of a domain.
pub type DomainId = i32;

/// The identifier of a DNS record.
pub type DnsId = i32;

/// The type tag of a DNS record.
#[derive(Clone, Copy, PartialEq, Eq, Structural, Hash, Debug)]
pub enum DnsType {
    /// An address record.
    A,
    /// An IPv6 address record.
    AAAA,
    /// An alias record.
    CNAME,
    /// A mail exchange record.
    MX,
    /// A service locator record.
    SRV,
    /// A text record.
    TXT,
}

/// The wire text of a record type tag.
pub open spec fn dns_type_text(t: DnsType) -> Seq<char> {
    match t {
        DnsType::A => "A"@,
        DnsType::AAAA => "AAAA"@,
        DnsType::CNAME => "CNAME"@,
        DnsType::MX => "MX"@,
        DnsType::SRV => "SRV"@,
        DnsType::TXT => "TXT"@,
    }
}

impl DnsType {
    /// The wire text of this type tag: `A`, `AAAA`, `CNAME`, `MX`, `SRV` or
    /// `TXT`.
    pub fn text(&self) -> (r: String)
        ensures
            r@ == dns_type_text(*self),
    {
        match self {
            DnsType::A => String::from_str("A"),
            DnsType::AAAA => String::from_str("AAAA"),
            DnsType::CNAME => String::from_str("CNAME"),
            DnsType::MX => String::from_str("MX"),
            DnsType::SRV => String::from_str("SRV"),
            DnsType::TXT => String::from_str("TXT"),
        }
    }
}

/// Data of an address record.
#[derive(Clone, PartialEq, Eq, Hash, Debug)]
pub struct ARecordData {
    /// The host/subdomain the record applies to.
    pub host: String,
    /// TTL of the record in seconds. Must be a multiple of 60.
    pub ttl: i16,
    /// The IPv4 address.
    pub data: String,
}

/// Data of an IPv6 address record.
#[derive(Clone, PartialEq, Eq, Hash, Debug)]
pub struct AAAARecordData {
    /// The host/subdomain the record applies to.
    pub host: String,
    /// TTL of the record in seconds. Must be a multiple of 60.
    pub ttl: i16,
    /// The IPv6 address.
    pub data: String,
}

/// Data of an alias record.
#[derive(Clone, PartialEq, Eq, Hash, Debug)]
pub struct CNAMERecordData {
    /// The host/subdomain the record applies to.
    pub host: String,
    /// TTL of the record in seconds. Must be a multiple of 60.
    pub ttl: i16,
    /// The target hostname.
    pub data: String,
}

/// Data of a mail exchange record.
#[derive(Clone, PartialEq, Eq, Hash, Debug)]
pub struct MXRecordData {
    /// The host/subdomain the record applies to.
    pub host: String,
    /// TTL of the record in seconds. Must be a multiple of 60.
    pub ttl: i16,
    /// The target mail host.
    pub data: String,
    /// Record priority, also known as preference; lower values are usually
    /// preferred first.
    pub priority: i16,
}

/// Data of a service locator record.
#[derive(Clone, PartialEq, Eq, Hash, Debug)]
pub struct SRVRecordData {
    /// The host/subdomain the record applies to.
    pub host: String,
    /// TTL of the record in seconds. Must be a multiple of 60.
    pub ttl: i16,
    /// The target hostname.
    pub data: String,
    /// Record priority; lower values are usually preferred first.
    pub priority: i16,
    /// Record weight, relevant when several records share a priority.
    pub weight: i16,
    /// The port where the service is found.
    pub port: i16,
}

/// Data of a text record.
#[derive(Clone, PartialEq, Eq, Hash, Debug)]
pub struct TXTRecordData {
    /// The host/subdomain the record applies to.
    pub host: String,
    /// TTL of the record in seconds. Must be a multiple of 60.
    pub ttl: i16,
    /// The freeform text.
    pub data: String,
}

/// The data of a DNS record, discriminated by its type tag.
#[derive(Clone, PartialEq, Eq, Hash, Debug)]
pub enum DnsRecordData {
    /// An address record.
    A(ARecordData),
    /// An IPv6 address record.
    AAAA(AAAARecordData),
    /// An alias record.
    CNAME(CNAMERecordData),
    /// A mail exchange record.
    MX(MXRecordData),
    /// A service locator record.
    SRV(SRVRecordData),
    /// A text record.
    TXT(TXTRecordData),
}

/// The mathematical content of a DNS record's data: the type tag, the
/// common fields, and the tag-specific fields.
pub enum DnsRecordDataView {
    /// An address record.
    A { host: Seq<char>, ttl: int, data: Seq<char> },
    /// An IPv6 address record.
    AAAA { host: Seq<char>, ttl: int, data: Seq<char> },
    /// An alias record.
    CNAME { host: Seq<char>, ttl: int, data: Seq<char> },
    /// A mail exchange record.
    MX { host: Seq<char>, ttl: int, data: Seq<char>, priority: int },
    /// A service locator record.
    SRV { host: Seq<char>, ttl: int, data: Seq<char>, priority: int, weight: int, port: int },
    /// A text record.
    TXT { host: Seq<char>, ttl: int, data: Seq<char> },
}

impl View for DnsRecordData {
    type V = DnsRecordDataView;

    open spec fn view(&self) -> DnsRecordDataView {
        match self {
            DnsRecordData::A(a) => DnsRecordDataView::A {
                host: a.host@,
                ttl: a.ttl as int,
                data: a.data@,
            },
            DnsRecordData::AAAA(a) => DnsRecordDataView::AAAA {
                host: a.host@,
                ttl: a.ttl as int,
                data: a.data@,
            },
            DnsRecordData::CNAME(c) => DnsRecordDataView::CNAME {
                host: c.host@,
                ttl: c.ttl as int,
                data: c.data@,
            },
            DnsRecordData::MX(m) => DnsRecordDataView::MX {
                host: m.host@,
                ttl: m.ttl as int,
                data: m.data@,
                priority: m.priority as int,
            },
            DnsRecordData::SRV(s) => DnsRecordDataView::SRV {
                host: s.host@,
                ttl: s.ttl as int,
                data: s.data@,
                priority: s.priority as int,
                weight: s.weight as int,
                port: s.port as int,
            },
            DnsRecordData::TXT(t) => DnsRecordDataView::TXT {
                host: t.host@,
                ttl: t.ttl as int,
                data: t.data@,
            },
        }
    }
}

/// An existing record: its identifier and its data.
#[derive(Clone, PartialEq, Eq, Hash, Debug)]
pub struct ExistingDnsRecord {
    /// The identifier of the record.
    pub id: DnsId,
    /// The data of the record.
    pub data: DnsRecordData,
}

/// The mathematical content of an existing record.
pub struct ExistingDnsRecordView {
    /// The identifier of the record.
    pub id: int,
    /// The data of the record.
    pub data: DnsRecordDataView,
}

impl View for ExistingDnsRecord {
    type V = ExistingDnsRecordView;

    open spec fn view(&self) -> ExistingDnsRecordView {
        ExistingDnsRecordView { id: self.id as int, data: self.data@ }
    }
}

/// A fits-in-`i16` range check, the range of the numeric record fields.
pub open spec fn fits_i16(n: int) -> bool {
    -0x8000 <= n <= 0x7fff
}

/// The record data an object's fields carry, discriminated by the `type`
/// tag, with the fields the tag demands; other fields are ignored. Numeric
/// fields must fit their range.
pub open spec fn spec_record_fields(fields: Seq<(Seq<char>, JsonVal)>) -> Option<
    DnsRecordDataView,
> {
    match (lookup_str(fields, "type"@), lookup_str(fields, "host"@), lookup_int(fields, "ttl"@),
    lookup_str(fields, "data"@)) {
        (Some(t), Some(host), Some(ttl), Some(data)) => {
            if !fits_i16(ttl) {
                None
            } else if t == "A"@ {
                Some(DnsRecordDataView::A { host, ttl, data })
            } else if t == "AAAA"@ {
                Some(DnsRecordDataView::AAAA { host, ttl, data })
            } else if t == "CNAME"@ {
                Some(DnsRecordDataView::CNAME { host, ttl, data })
            } else if t == "TXT"@ {
                Some(DnsRecordDataView::TXT { host, ttl, data })
            } else if t == "MX"@ {
                match lookup_int(fields, "priority"@) {
                    Some(priority) => if fits_i16(priority) {
                        Some(DnsRecordDataView::MX { host, ttl, data, priority })
                    } else {
                        None
                    },
                    None => None,
                }
            } else if t == "SRV"@ {
                match (lookup_int(fields, "priority"@), lookup_int(fields, "weight"@), lookup_int(
                    fields,
                    "port"@,
                )) {
                    (Some(priority), Some(weight), Some(port)) => if fits_i16(priority) && fits_i16(
                        weight,
                    ) && fits_i16(port) {
                        Some(DnsRecordDataView::SRV { host, ttl, data, priority, weight, port })
                    } else {
                        None
                    },
                    _ => None,
                }
            } else {
                None
            }
        },
        _ => None,
    }
}

/// The integer under this key when it fits `i16`.
fn get_i16(fields: &Vec<(String, JsonValue)>, key: &str) -> (r: Option<i16>)
    ensures
        match r {
            Some(n) => lookup_int(obj_view(fields@), key@) == Some(n as int),
            None => (match lookup_int(obj_view(fields@), key@) {
                Some(n) => !fits_i16(n),
                None => true,
            }),
        },
{
    match get_i64(fields, key) {
        Some(n) => {
            if -0x8000 <= n && n <= 0x7fff {
                Some(n as i16)
            } else {
                None
            }
        },
        None => None,
    }
}

/// Reads the record data out of an object's fields: exactly what
/// `spec_record_fields` says.
fn decode_record_fields(fields: &Vec<(String, JsonValue)>) -> (r: Option<DnsRecordData>)
    ensures
        match r {
            Some(d) => spec_record_fields(obj_view(fields@)) == Some(d@),
            None => spec_record_fields(obj_view(fields@)) is None,
        },
{
    let t = match get_string(fields, "type") {
        Some(t) => t,
        None => {
            return None;
        },
    };
    let host = match get_string(fields, "host") {
        Some(h) => h,
        None => {
            return None;
        },
    };
    let ttl_wide = match get_i64(fields, "ttl") {
        Some(n) => n,
        None => {
            return None;
        },
    };
    let data = match get_string(fields, "data") {
        Some(d) => d,
        None => {
            return None;
        },
    };
    if ttl_wide < -0x8000 || ttl_wide > 0x7fff {
        return None;
    }
    let ttl: i16 = ttl_wide as i16;
    if crate::text::str_eq(t.as_str(), "A") {
        Some(DnsRecordData::A(ARecordData { host, ttl, data }))
    } else if crate::text::str_eq(t.as_str(), "AAAA") {
        Some(DnsRecordData::AAAA(AAAARecordData { host, ttl, data }))
    } else if crate::text::str_eq(t.as_str(), "CNAME") {
        Some(DnsRecordData::CNAME(CNAMERecordData { host, ttl, data }))
    } else if crate::text::str_eq(t.as_str(), "TXT") {
        Some(DnsRecordData::TXT(TXTRecordData { host, ttl, data }))
    } else if crate::text::str_eq(t.as_str(), "MX") {
        match get_i16(fields, "priority") {
            Some(priority) => Some(DnsRecordData::MX(MXRecordData { host, ttl, data, priority })),
            None => None,
        }
    } else if crate::text::str_eq(t.as_str(), "SRV") {
        let priority = match get_i16(fields, "priority") {
            Some(p) => p,
            None => {
                return None;
            },
        };
        let weight = match get_i16(fields, "weight") {
            Some(w) => w,
            None => {
                return None;
            },
        };
        let port = match get_i16(fields, "port") {
            Some(p) => p,
            None => {
                return None;
            },
        };
        Some(DnsRecordData::SRV(SRVRecordData { host, ttl, data, priority, weight, port }))
    } else {
        None
    }
}

impl JsonPayload for DnsRecordData {
    /// Record data is read from an object whose `type` tag picks the
    /// variant.
    open spec fn spec_decode(v: JsonVal) -> Option<DnsRecordDataView> {
        match v {
            JsonVal::Obj(fields) => spec_record_fields(fields),
            _ => None,
        }
    }

    fn decode_json(v: &JsonValue) -> (r: Option<Self>) {
        match v {
            JsonValue::Obj(fields) => decode_record_fields(fields),
            _ => None,
        }
    }
}

impl JsonPayload for ExistingDnsRecord {
    /// An existing record is read from an object carrying an `id` within
    /// `i32` beside the record fields.
    open spec fn spec_decode(v: JsonVal) -> Option<ExistingDnsRecordView> {
        match v {
            JsonVal::Obj(fields) => match (lookup_int(fields, "id"@), spec_record_fields(fields)) {
                (Some(id), Some(data)) => if -0x8000_0000 <= id <= 0x7fff_ffff {
                    Some(ExistingDnsRecordView { id, data })
                } else {
                    None
                },
                _ => None,
            },
            _ => None,
        }
    }

    fn decode_json(v: &JsonValue) -> (r: Option<Self>) {
        match v {
            JsonValue::Obj(fields) => {
                let id_wide = match get_i64(fields, "id") {
                    Some(n) => n,
                    None => {
                        return None;
                    },
                };
                let data = match decode_record_fields(fields) {
                    Some(d) => d,
                    None => {
                        return None;
                    },
                };
                if id_wide < -0x8000_0000 || id_wide > 0x7fff_ffff {
                    return None;
                }
                Some(ExistingDnsRecord { id: id_wide as i32, data })
            },
            _ => None,
        }
    }
}

/// The canonical JSON content of a record's data: the `type` tag first,
/// then the common fields, then the tag-specific fields.
pub open spec fn record_json(v: DnsRecordDataView) -> JsonVal {
    match v {
        DnsRecordDataView::A { host, ttl, data } => JsonVal::Obj(
            seq![
                ("type"@, JsonVal::Str("A"@)),
                ("host"@, JsonVal::Str(host)),
                ("ttl"@, JsonVal::Int(ttl)),
                ("data"@, JsonVal::Str(data)),
            ],
        ),
        DnsRecordDataView::AAAA { host, ttl, data } => JsonVal::Obj(
            seq![
                ("type"@, JsonVal::Str("AAAA"@)),
                ("host"@, JsonVal::Str(host)),
                ("ttl"@, JsonVal::Int(ttl)),
                ("data"@, JsonVal::Str(data)),
            ],
        ),
        DnsRecordDataView::CNAME { host, ttl, data } => JsonVal::Obj(
            seq![
                ("type"@, JsonVal::Str("CNAME"@)),
                ("host"@, JsonVal::Str(host)),
                ("ttl"@, JsonVal::Int(ttl)),
                ("data"@, JsonVal::Str(data)),
            ],
        ),
        DnsRecordDataView::MX { host, ttl, data, priority } => JsonVal::Obj(
            seq![
                ("type"@, JsonVal::Str("MX"@)),
                ("host"@, JsonVal::Str(host)),
                ("ttl"@, JsonVal::Int(ttl)),
                ("data"@, JsonVal::Str(data)),
                ("priority"@, JsonVal::Int(priority)),
            ],
        ),
        DnsRecordDataView::SRV { host, ttl, data, priority, weight, port } => JsonVal::Obj(
            seq![
                ("type"@, JsonVal::Str("SRV"@)),
                ("host"@, JsonVal::Str(host)),
                ("ttl"@, JsonVal::Int(ttl)),
                ("data"@, JsonVal::Str(data)),
                ("priority"@, JsonVal::Int(priority)),
                ("weight"@, JsonVal::Int(weight)),
                ("port"@, JsonVal::Int(port)),
            ],
        ),
        DnsRecordDataView::TXT { host, ttl, data } => JsonVal::Obj(
            seq![
                ("type"@, JsonVal::Str("TXT"@)),
                ("host"@, JsonVal::Str(host)),
                ("ttl"@, JsonVal::Int(ttl)),
                ("data"@, JsonVal::Str(data)),
            ],
        ),
    }
}

impl JsonEncode for DnsRecordData {
    /// A record's data is written as the object `record_json` describes.
    open spec fn spec_encode(v: DnsRecordDataView) -> JsonVal {
        record_json(v)
    }

    fn encode_json(&self) -> (r: JsonValue) {
        let mut fields: Vec<(String, JsonValue)> = Vec::new();
        match self {
            DnsRecordData::A(a) => {
                fields.push((String::from_str("type"), JsonValue::Str(String::from_str("A"))));
                fields.push((String::from_str("host"), JsonValue::Str(a.host.clone())));
                fields.push((String::from_str("ttl"), JsonValue::Int(a.ttl as i64)));
                fields.push((String::from_str("data"), JsonValue::Str(a.data.clone())));
            },
            DnsRecordData::AAAA(a) => {
                fields.push((String::from_str("type"), JsonValue::Str(String::from_str("AAAA"))));
                fields.push((String::from_str("host"), JsonValue::Str(a.host.clone())));
                fields.push((String::from_str("ttl"), JsonValue::Int(a.ttl as i64)));
                fields.push((String::from_str("data"), JsonValue::Str(a.data.clone())));
            },
            DnsRecordData::CNAME(c) => {
                fields.push((String::from_str("type"), JsonValue::Str(String::from_str("CNAME"))));
                fields.push((String::from_str("host"), JsonValue::Str(c.host.clone())));
                fields.push((String::from_str("ttl"), JsonValue::Int(c.ttl as i64)));
                fields.push((String::from_str("data"), JsonValue::Str(c.data.clone())));
            },
            DnsRecordData::MX(m) => {
                fields.push((String::from_str("type"), JsonValue::Str(String::from_str("MX"))));
                fields.push((String::from_str("host"), JsonValue::Str(m.host.clone())));
                fields.push((String::from_str("ttl"), JsonValue::Int(m.ttl as i64)));
                fields.push((String::from_str("data"), JsonValue::Str(m.data.clone())));
                fields.push((String::from_str("priority"), JsonValue::Int(m.priority as i64)));
            },
            DnsRecordData::SRV(s) => {
                fields.push((String::from_str("type"), JsonValue::Str(String::from_str("SRV"))));
                fields.push((String::from_str("host"), JsonValue::Str(s.host.clone())));
                fields.push((String::from_str("ttl"), JsonValue::Int(s.ttl as i64)));
                fields.push((String::from_str("data"), JsonValue::Str(s.data.clone())));
                fields.push((String::from_str("priority"), JsonValue::Int(s.priority as i64)));
                fields.push((String::from_str("weight"), JsonValue::Int(s.weight as i64)));
                fields.push((String::from_str("port"), JsonValue::Int(s.port as i64)));
            },
            DnsRecordData::TXT(t) => {
                fields.push((String::from_str("type"), JsonValue::Str(String::from_str("TXT"))));
                fields.push((String::from_str("host"), JsonValue::Str(t.host.clone())));
                fields.push((String::from_str("ttl"), JsonValue::Int(t.ttl as i64)));
                fields.push((String::from_str("data"), JsonValue::Str(t.data.clone())));
            },
        }
        proof {
            lemma_obj_view(fields@);
            assert(obj_view(fields@) =~= record_json(self@)->Obj_0);
        }
        JsonValue::Obj(fields)
    }
}

/// Record contents whose numeric fields fit their wire range — true of the
/// content of every executable record value.
pub open spec fn record_view_wf(v: DnsRecordDataView) -> bool {
    match v {
        DnsRecordDataView::A { host, ttl, data } => fits_i16(ttl),
        DnsRecordDataView::AAAA { host, ttl, data } => fits_i16(ttl),
        DnsRecordDataView::CNAME { host, ttl, data } => fits_i16(ttl),
        DnsRecordDataView::TXT { host, ttl, data } => fits_i16(ttl),
        DnsRecordDataView::MX { host, ttl, data, priority } => fits_i16(ttl) && fits_i16(priority),
        DnsRecordDataView::SRV { host, ttl, data, priority, weight, port } => fits_i16(ttl)
            && fits_i16(priority) && fits_i16(weight) && fits_i16(port),
    }
}

/// The wire names of the record fields and type tags are pairwise
/// distinct.
proof fn lemma_wire_names_distinct()
    ensures
        "type"@ != "host"@ && "type"@ != "ttl"@ && "type"@ != "data"@ && "type"@ != "priority"@
            && "type"@ != "weight"@ && "type"@ != "port"@,
        "host"@ != "ttl"@ && "host"@ != "data"@ && "host"@ != "priority"@ && "host"@ != "weight"@
            && "host"@ != "port"@,
        "ttl"@ != "data"@ && "ttl"@ != "priority"@ && "ttl"@ != "weight"@ && "ttl"@ != "port"@,
        "data"@ != "priority"@ && "data"@ != "weight"@ && "data"@ != "port"@,
        "priority"@ != "weight"@ && "priority"@ != "port"@,
        "weight"@ != "port"@,
        "A"@ != "AAAA"@ && "A"@ != "CNAME"@ && "A"@ != "MX"@ && "A"@ != "SRV"@ && "A"@ != "TXT"@,
        "AAAA"@ != "CNAME"@ && "AAAA"@ != "MX"@ && "AAAA"@ != "SRV"@ && "AAAA"@ != "TXT"@,
        "CNAME"@ != "MX"@ && "CNAME"@ != "SRV"@ && "CNAME"@ != "TXT"@,
        "MX"@ != "SRV"@ && "MX"@ != "TXT"@,
        "SRV"@ != "TXT"@,
{
    reveal_strlit("type");
    reveal_strlit("host");
    reveal_strlit("ttl");
    reveal_strlit("data");
    reveal_strlit("priority");
    reveal_strlit("weight");
    reveal_strlit("port");
    reveal_strlit("A");
    reveal_strlit("AAAA");
    reveal_strlit("CNAME");
    reveal_strlit("MX");
    reveal_strlit("SRV");
    reveal_strlit("TXT");
    assert("type"@.len() == 4);
    assert("host"@.len() == 4);
    assert("ttl"@.len() == 3);
    assert("data"@.len() == 4);
    assert("priority"@.len() == 8);
    assert("weight"@.len() == 6);
    assert("port"@.len() == 4);
    assert("A"@.len() == 1);
    assert("AAAA"@.len() == 4);
    assert("CNAME"@.len() == 5);
    assert("MX"@.len() == 2);
    assert("SRV"@.len() == 3);
    assert("TXT"@.len() == 3);
    assert("type"@[0] == 't');
    assert("host"@[0] == 'h');
    assert("data"@[0] == 'd');
    assert("port"@[0] == 'p');
    assert("SRV"@[0] == 'S');
    assert("TXT"@[0] == 'T');
}

/// Writing a DNS record's data as JSON and reading it back yields the same
/// record contents: decoding inverts encoding on every record whose numeric
/// fields fit their wire range.
pub proof fn lemma_dns_record_value_round_trip(v: DnsRecordDataView)
    requires
        record_view_wf(v),
    ensures
        <DnsRecordData as JsonPayload>::spec_decode(record_json(v)) == Some(v),
{
    lemma_wire_names_distinct();
    reveal_with_fuel(crate::codec::obj_lookup, 8);
    let fields = record_json(v)->Obj_0;
    match v {
        DnsRecordDataView::A { host, ttl, data } => {
            let f1 = ("host"@, JsonVal::Str(host));
            let f2 = ("ttl"@, JsonVal::Int(ttl));
            let f3 = ("data"@, JsonVal::Str(data));
            assert(fields.drop_first() =~= seq![f1, f2, f3]);
            assert(seq![f1, f2, f3].drop_first() =~= seq![f2, f3]);
            assert(seq![f2, f3].drop_first() =~= seq![f3]);
            assert(lookup_str(fields, "type"@) == Some("A"@));
            assert(lookup_str(fields, "host"@) == Some(host));
            assert(lookup_int(fields, "ttl"@) == Some(ttl));
            assert(lookup_str(fields, "data"@) == Some(data));
            assert(spec_record_fields(fields) == Some(v));
        },
        DnsRecordDataView::AAAA { host, ttl, data } => {
            let f1 = ("host"@, JsonVal::Str(host));
            let f2 = ("ttl"@, JsonVal::Int(ttl));
            let f3 = ("data"@, JsonVal::Str(data));
            assert(fields.drop_first() =~= seq![f1, f2, f3]);
            assert(seq![f1, f2, f3].drop_first() =~= seq![f2, f3]);
            assert(seq![f2, f3].drop_first() =~= seq![f3]);
            assert(lookup_str(fields, "type"@) == Some("AAAA"@));
            assert(lookup_str(fields, "host"@) == Some(host));
            assert(lookup_int(fields, "ttl"@) == Some(ttl));
            assert(lookup_str(fields, "data"@) == Some(data));
            assert("AAAA"@ != "A"@);
            assert(spec_record_fields(fields) == Some(v));
        },
        DnsRecordDataView::CNAME { host, ttl, data } => {
            let f1 = ("host"@, JsonVal::Str(host));
            let f2 = ("ttl"@, JsonVal::Int(ttl));
            let f3 = ("data"@, JsonVal::Str(data));
            assert(fields.drop_first() =~= seq![f1, f2, f3]);
            assert(seq![f1, f2, f3].drop_first() =~= seq![f2, f3]);
            assert(seq![f2, f3].drop_first() =~= seq![f3]);
            assert(lookup_str(fields, "type"@) == Some("CNAME"@));
            assert(lookup_str(fields, "host"@) == Some(host));
            assert(lookup_int(fields, "ttl"@) == Some(ttl));
            assert(lookup_str(fields, "data"@) == Some(data));
            assert("CNAME"@ != "A"@ && "CNAME"@ != "AAAA"@);
            assert(spec_record_fields(fields) == Some(v));
        },
        DnsRecordDataView::TXT { host, ttl, data } => {
            let f1 = ("host"@, JsonVal::Str(host));
            let f2 = ("ttl"@, JsonVal::Int(ttl));
            let f3 = ("data"@, JsonVal::Str(data));
            assert(fields.drop_first() =~= seq![f1, f2, f3]);
            assert(seq![f1, f2, f3].drop_first() =~= seq![f2, f3]);
            assert(seq![f2, f3].drop_first() =~= seq![f3]);
            assert(lookup_str(fields, "type"@) == Some("TXT"@));
            assert(lookup_str(fields, "host"@) == Some(host));
            assert(lookup_int(fields, "ttl"@) == Some(ttl));
            assert(lookup_str(fields, "data"@) == Some(data));
            assert("TXT"@ != "A"@ && "TXT"@ != "AAAA"@ && "TXT"@ != "CNAME"@);
            assert(spec_record_fields(fields) == Some(v));
        },
        DnsRecordDataView::MX { host, ttl, data, priority } => {
            let f1 = ("host"@, JsonVal::Str(host));
            let f2 = ("ttl"@, JsonVal::Int(ttl));
            let f3 = ("data"@, JsonVal::Str(data));
            let f4 = ("priority"@, JsonVal::Int(priority));
            assert(fields.drop_first() =~= seq![f1, f2, f3, f4]);
            assert(seq![f1, f2, f3, f4].drop_first() =~= seq![f2, f3, f4]);
            assert(seq![f2, f3, f4].drop_first() =~= seq![f3, f4]);
            assert(seq![f3, f4].drop_first() =~= seq![f4]);
            assert(lookup_str(fields, "type"@) == Some("MX"@));
            assert(lookup_str(fields, "host"@) == Some(host));
            assert(lookup_int(fields, "ttl"@) == Some(ttl));
            assert(lookup_str(fields, "data"@) == Some(data));
            assert(lookup_int(fields, "priority"@) == Some(priority));
            assert("MX"@ != "A"@ && "MX"@ != "AAAA"@ && "MX"@ != "CNAME"@ && "MX"@ != "TXT"@);
            assert(spec_record_fields(fields) == Some(v));
        },
        DnsRecordDataView::SRV { host, ttl, data, priority, weight, port } => {
            let f1 = ("host"@, JsonVal::Str(host));
            let f2 = ("ttl"@, JsonVal::Int(ttl));
            let f3 = ("data"@, JsonVal::Str(data));
            let f4 = ("priority"@, JsonVal::Int(priority));
            let f5 = ("weight"@, JsonVal::Int(weight));
            let f6 = ("port"@, JsonVal::Int(port));
            assert(fields.drop_first() =~= seq![f1, f2, f3, f4, f5, f6]);
            assert(seq![f1, f2, f3, f4, f5, f6].drop_first() =~= seq![f2, f3, f4, f5, f6]);
            assert(seq![f2, f3, f4, f5, f6].drop_first() =~= seq![f3, f4, f5, f6]);
            assert(seq![f3, f4, f5, f6].drop_first() =~= seq![f4, f5, f6]);
            assert(seq![f4, f5, f6].drop_first() =~= seq![f5, f6]);
            assert(seq![f5, f6].drop_first() =~= seq![f6]);
            assert(lookup_str(fields, "type"@) == Some("SRV"@));
            assert(lookup_str(fields, "host"@) == Some(host));
            assert(lookup_int(fields, "ttl"@) == Some(ttl));
            assert(lookup_str(fields, "data"@) == Some(data));
            assert(lookup_int(fields, "priority"@) == Some(priority));
            assert(lookup_int(fields, "weight"@) == Some(weight));
            assert(lookup_int(fields, "port"@) == Some(port));
            assert("SRV"@ != "A"@ && "SRV"@ != "AAAA"@ && "SRV"@ != "CNAME"@ && "SRV"@ != "TXT"@
                && "SRV"@ != "MX"@);
            assert(spec_record_fields(fields) == Some(v));
        },
    }
}

/// Writing a DNS record's data as its JSON text and decoding that text
/// back yields the same record contents: the full round trip through the
/// wire format, for every record whose numeric fields fit their wire range.
#[verifier::rlimit(50)]
pub proof fn lemma_dns_record_text_round_trip(v: DnsRecordDataView)
    requires
        record_view_wf(v),
    ensures
        crate::interpret::spec_decode_body::<DnsRecordData>(
            crate::json::json_text(record_json(v)),
        ) == Some(v),
{
    let doc = record_json(v);
    let fields = doc->Obj_0;
    // every field of a written record holds a scalar value
    assert(crate::parse::flat_fields(fields)) by {
        assert forall|k: int| 0 <= k < fields.len() implies crate::parse::scalar_json(
            #[trigger] fields[k].1,
        ) by {
            match v {
                DnsRecordDataView::A { host, ttl, data } => {},
                DnsRecordDataView::AAAA { host, ttl, data } => {},
                DnsRecordDataView::CNAME { host, ttl, data } => {},
                DnsRecordDataView::TXT { host, ttl, data } => {},
                DnsRecordDataView::MX { host, ttl, data, priority } => {},
                DnsRecordDataView::SRV { host, ttl, data, priority, weight, port } => {},
            }
        }
    }
    crate::parse::lemma_flat_fields_wf(fields);
    assert(crate::parse::wf_json(doc));
    crate::parse::lemma_parse_json_of_text(doc);
    lemma_dns_record_value_round_trip(v);
}

/// The creation acknowledgement the API answers a record creation with.
struct DnsRecordAck {
    id: DnsId,
}

/// The mathematical content of a creation acknowledgement.
pub struct DnsRecordAckView {
    /// The identifier of the created record.
    pub id: int,
}

impl View for DnsRecordAck {
    type V = DnsRecordAckView;

    closed spec fn view(&self) -> DnsRecordAckView {
        DnsRecordAckView { id: self.id as int }
    }
}

impl JsonPayload for DnsRecordAck {
    /// The acknowledgement is read from an object carrying an `id` within
    /// `i32`.
    open spec fn spec_decode(v: JsonVal) -> Option<DnsRecordAckView> {
        match v {
            JsonVal::Obj(fields) => match lookup_int(fields, "id"@) {
                Some(id) => if -0x8000_0000 <= id <= 0x7fff_ffff {
                    Some(DnsRecordAckView { id })
                } else {
                    None
                },
                None => None,
            },
            _ => None,
        }
    }

    fn decode_json(v: &JsonValue) -> (r: Option<Self>) {
        match v {
            JsonValue::Obj(fields) => match get_i64(fields, "id") {
                Some(id) => {
                    if -0x8000_0000 <= id && id <= 0x7fff_ffff {
                        Some(DnsRecordAck { id: id as i32 })
                    } else {
                        None
                    }
                },
                None => None,
            },
            _ => None,
        }
    }
}

/// The answer to a record creation: the new record's identifier, and the
/// URL of the created resource when the response named one.
#[derive(Debug)]
pub struct AddDnsRecordResponse {
    /// The identifier of the created record.
    pub id: DnsId,
    /// The URL of the created resource, when the `Location` header carried
    /// a parsable one.
    pub url: Option<WebUrl>,
}

/// The resource path of a domain's DNS record collection.
pub open spec fn dns_records_path(domain_id: int) -> Seq<char> {
    "/domains/"@ + crate::text::int_text(domain_id) + "/dns"@
}

/// The resource path of one DNS record of a domain.
pub open spec fn dns_record_path(domain_id: int, dns_id: int) -> Seq<char> {
    "/domains/"@ + crate::text::int_text(domain_id) + "/dns/"@ + crate::text::int_text(dns_id)
}

/// The filter parameters of a record listing: the host filter first, the
/// type filter second; an absent filter contributes no parameter at all.
pub open spec fn dns_filter_params(
    host_filter: Option<String>,
    type_filter: Option<DnsType>,
) -> Seq<(Seq<char>, Seq<char>)> {
    (match host_filter {
        Some(host) => seq![("host"@, host@)],
        None => Seq::<(Seq<char>, Seq<char>)>::empty(),
    }) + (match type_filter {
        Some(t) => seq![("type"@, dns_type_text(t))],
        None => Seq::<(Seq<char>, Seq<char>)>::empty(),
    })
}

/// Renders the record-collection path of a domain.
fn dns_records_path_text(domain_id: DomainId) -> (r: String)
    ensures
        r@ == dns_records_path(domain_id as int),
{
    let mut path = String::from_str("/domains/");
    path.append(i32_to_string(domain_id).as_str());
    path.append("/dns");
    proof {
        assert(path@ =~= dns_records_path(domain_id as int));
    }
    path
}

/// Renders the path of one record of a domain.
fn dns_record_path_text(domain_id: DomainId, dns_id: DnsId) -> (r: String)
    ensures
        r@ == dns_record_path(domain_id as int, dns_id as int),
{
    let mut path = String::from_str("/domains/");
    path.append(i32_to_string(domain_id).as_str());
    path.append("/dns/");
    path.append(i32_to_string(dns_id).as_str());
    proof {
        assert(path@ =~= dns_record_path(domain_id as int, dns_id as int));
    }
    path
}

impl<C: HttpClient> DomeneshopClient<C> {
    /// Fetches one DNS record of a domain by its identifier: a GET of the
    /// record's path. Fails before anything is sent, classified
    /// `"InfrastructureError"`, when the composed URL does not parse.
    pub fn get_dns_record(&self, domain_id: DomainId, dns_id: DnsId) -> (r: Result<
        ExistingDnsRecord,
        DomeneshopError,
    >)
        ensures
            !url_ok(
                composed_url_text(
                    self.base_url_spec(),
                    dns_record_path(domain_id as int, dns_id as int),
                ),
            ) ==> (r matches Err(e) && e@.code == "InfrastructureError"@),
    {
        let path = dns_record_path_text(domain_id, dns_id);
        let url = self.create_url(path.as_str())?;
        self.get_response::<ExistingDnsRecord>(url)
    }

    /// Lists all DNS records of a domain: a GET of the record-collection
    /// path. Fails before anything is sent, classified
    /// `"InfrastructureError"`, when the composed URL does not parse.
    pub fn list_dns_records(&self, id: DomainId) -> (r: Result<
        Vec<ExistingDnsRecord>,
        DomeneshopError,
    >)
        ensures
            !url_ok(composed_url_text(self.base_url_spec(), dns_records_path(id as int))) ==> (
            r matches Err(e) && e@.code == "InfrastructureError"@),
    {
        let path = dns_records_path_text(id);
        let url = self.create_url(path.as_str())?;
        self.get_response_list::<ExistingDnsRecord>(url)
    }

    /// Lists the DNS records of a domain matching the given filters: a GET
    /// of the record-collection path carrying exactly `dns_filter_params` —
    /// the host filter first, the type filter second, an absent filter
    /// contributing no parameter at all. Fails before anything is sent,
    /// classified `"InfrastructureError"`, when the composed URL does not
    /// parse.
    pub fn list_dns_records_with_filter(
        &self,
        id: DomainId,
        host_filter: Option<String>,
        type_filter: Option<DnsType>,
    ) -> (r: Result<Vec<ExistingDnsRecord>, DomeneshopError>)
        ensures
            !url_ok(
                composed_url_with_query_text(
                    self.base_url_spec(),
                    dns_records_path(id as int),
                    dns_filter_params(host_filter, type_filter),
                ),
            ) ==> (r matches Err(e) && e@.code == "InfrastructureError"@),
    {
        let ghost expected: Seq<(Seq<char>, Seq<char>)> = dns_filter_params(
            host_filter,
            type_filter,
        );
        let mut query_parameters: Vec<(String, String)> = Vec::new();
        match host_filter {
            Some(host) => {
                query_parameters.push((String::from_str("host"), host));
            },
            None => {},
        }
        match type_filter {
            Some(dns_type) => {
                query_parameters.push((String::from_str("type"), dns_type.text()));
            },
            None => {},
        }
        proof {
            assert(params_view(query_parameters@) =~= expected);
        }
        let path = dns_records_path_text(id);
        let url = self.create_url_with_parameters(path.as_str(), &query_parameters)?;
        self.get_response_list::<ExistingDnsRecord>(url)
    }

    /// Adds a new DNS record to the given domain: a POST of the record's
    /// canonical JSON text to the record-collection path. A `201` answer
    /// yields the new record's identifier and, when the `Location` header
    /// names a parsable URL, the well-formed URL of the created resource; a
    /// malformed or absent header leaves the URL absent instead of failing.
    /// Fails before anything is sent, classified `"InfrastructureError"`,
    /// when the composed URL does not parse.
    pub fn add_dns_record(&self, domain_id: DomainId, record: DnsRecordData) -> (r: Result<
        AddDnsRecordResponse,
        DomeneshopError,
    >)
        ensures
            !url_ok(composed_url_text(self.base_url_spec(), dns_records_path(domain_id as int)))
                ==> (r matches Err(e) && e@.code == "InfrastructureError"@),
            r matches Ok(a) ==> (a.url matches Some(u) ==> u.wf()),
    {
        let path = dns_records_path_text(domain_id);
        let url = self.create_url(path.as_str())?;
        let mut request = Request::new(Method::Post, url.into_string());
        request.set_body(crate::json::write_json(&record.encode_json()));
        let response = self.send(request)?;
        let (ack, location) = decode_created::<DnsRecordAck>(
            &response,
            "DNS record created successfully, but could not deserialize response",
        )?;
        Ok(AddDnsRecordResponse { id: ack.id, url: location })
    }

    /// Replaces an existing DNS record of the given domain: a PUT of the
    /// record data's canonical JSON text — the identifier travels in the
    /// path, never in the body — to the record's path. The API answers a
    /// bare `204`, and any other status fails. Fails before anything is
    /// sent, classified `"InfrastructureError"`, when the composed URL does
    /// not parse.
    pub fn update_dns_record(&self, domain_id: DomainId, record: ExistingDnsRecord) -> (r: Result<
        (),
        DomeneshopError,
    >)
        ensures
            !url_ok(
                composed_url_text(
                    self.base_url_spec(),
                    dns_record_path(domain_id as int, record.id as int),
                ),
            ) ==> (r matches Err(e) && e@.code == "InfrastructureError"@),
    {
        let path = dns_record_path_text(domain_id, record.id);
        let url = self.create_url(path.as_str())?;
        let mut request = Request::new(Method::Put, url.into_string());
        request.set_body(crate::json::write_json(&record.data.encode_json()));
        let response = self.send(request)?;
        ensure_status(&response, 204)
    }

    /// Deletes a DNS record of the given domain by its identifier: a DELETE
    /// of the record's path; any success status counts as done. Fails
    /// before anything is sent, classified `"InfrastructureError"`, when
    /// the composed URL does not parse.
    pub fn delete_dns_record(&self, domain_id: DomainId, dns_id: DnsId) -> (r: Result<
        (),
        DomeneshopError,
    >)
        ensures
            !url_ok(
                composed_url_text(
                    self.base_url_spec(),
                    dns_record_path(domain_id as int, dns_id as int),
                ),
            ) ==> (r matches Err(e) && e@.code == "InfrastructureError"@),
    {
        let path = dns_record_path_text(domain_id, dns_id);
        let url = self.create_url(path.as_str())?;
        let request = Request::new(Method::Delete, url.into_string());
        let response = self.send(request);
        match response {
            Ok(_) => Ok(()),
            Err(e) => Err(e),
        }
    }
}

} // verus!
