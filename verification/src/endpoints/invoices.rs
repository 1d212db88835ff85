//! Invoices: the invoice shape with its status, type and currency, the JSON
//! codec, and the operations that fetch and list invoices.

use vstd::prelude::*;
use vstd::string::*;

use crate::client::{composed_url_text, composed_url_with_query_text, DomeneshopClient};
use crate::codec::{get_i64, get_string, lookup_int, lookup_str, JsonPayload};
use crate::date::{date_wf, spec_parse_date, Date};
use crate::endpoints::domains::{get_date, get_optional_date, lookup_date, lookup_optional_date};
use crate::errors::DomeneshopError;
use crate::http::{HttpClient, Method, Request};
use crate::interpret::{decode_optional, spec_decode_body, spec_decode_body_list};
use crate::json::{JsonVal, JsonValue};
use crate::parse::spec_parse_json;
use crate::query::params_view;
use crate::text::{i32_to_string, str_eq};
use crate::weburl::url_ok;

verus! {

/// The identifier of an invoice.
pub type InvoiceId = i32;

/// The status an invoice can have. `Settled` applies only to credit notes.
#[derive(Clone, Copy, PartialEq, Eq, Structural, Hash, Debug)]
pub enum InvoiceStatus {
    /// An unpaid invoice.
    Unpaid,
    /// A paid invoice.
    Paid,
    /// A settled credit note.
    Settled,
}

/// The wire text of an invoice status.
pub open spec fn invoice_status_text(s: InvoiceStatus) -> Seq<char> {
    match s {
        InvoiceStatus::Unpaid => "unpaid"@,
        InvoiceStatus::Paid => "paid"@,
        InvoiceStatus::Settled => "settled"@,
    }
}

/// The status a wire text names, if any.
pub open spec fn invoice_status_of(s: Seq<char>) -> Option<InvoiceStatus> {
    if s == "unpaid"@ {
        Some(InvoiceStatus::Unpaid)
    } else if s == "paid"@ {
        Some(InvoiceStatus::Paid)
    } else if s == "settled"@ {
        Some(InvoiceStatus::Settled)
    } else {
        None
    }
}

impl InvoiceStatus {
    /// The wire text of this status: `unpaid`, `paid` or `settled`.
    pub fn text(&self) -> (r: String)
        ensures
            r@ == invoice_status_text(*self),
    {
        match self {
            InvoiceStatus::Unpaid => String::from_str("unpaid"),
            InvoiceStatus::Paid => String::from_str("paid"),
            InvoiceStatus::Settled => String::from_str("settled"),
        }
    }
}

/// The query parameter value naming an invoice status.
pub fn to_status_query_param(status: &InvoiceStatus) -> (r: String)
    ensures
        r@ == invoice_status_text(*status),
{
    status.text()
}

/// The type of an invoice.
#[derive(Clone, Copy, PartialEq, Eq, Structural, Hash, Debug)]
pub enum InvoiceType {
    /// An ordinary invoice.
    Invoice,
    /// A credit note, under the name the API gives it on the wire.
    CreditNode,
}

/// The invoice type a wire text names, if any.
pub open spec fn invoice_type_of(s: Seq<char>) -> Option<InvoiceType> {
    if s == "invoice"@ {
        Some(InvoiceType::Invoice)
    } else if s == "credit_node"@ {
        Some(InvoiceType::CreditNode)
    } else {
        None
    }
}

/// The currency of an invoice.
#[derive(Clone, Copy, PartialEq, Eq, Structural, Hash, Debug)]
pub enum InvoiceCurrency {
    /// Norwegian krone.
    NOK,
    /// Swedish krona.
    SEK,
    /// Danish krone.
    DKK,
    /// British pound.
    GBP,
    /// US dollar.
    USD,
}

/// The currency a wire text names, if any.
pub open spec fn invoice_currency_of(s: Seq<char>) -> Option<InvoiceCurrency> {
    if s == "NOK"@ {
        Some(InvoiceCurrency::NOK)
    } else if s == "SEK"@ {
        Some(InvoiceCurrency::SEK)
    } else if s == "DKK"@ {
        Some(InvoiceCurrency::DKK)
    } else if s == "GBP"@ {
        Some(InvoiceCurrency::GBP)
    } else if s == "USD"@ {
        Some(InvoiceCurrency::USD)
    } else {
        None
    }
}

/// The available data of an invoice.
#[derive(Clone, PartialEq, Eq, Hash, Debug)]
pub struct Invoice {
    /// The identifier of the invoice.
    pub id: InvoiceId,
    /// Whether this is an invoice or a credit note.
    pub invoice_type: InvoiceType,
    /// The amount.
    pub amount: i32,
    /// The currency of the amount.
    pub currency: InvoiceCurrency,
    /// The due date, when there is one.
    pub due_date: Option<Date>,
    /// The date the invoice was issued.
    pub issued_date: Date,
    /// The date the invoice was paid, when it was.
    pub paid_date: Option<Date>,
    /// The status of the invoice.
    pub status: InvoiceStatus,
    /// The address of the invoice on the registrar's site.
    pub url: String,
}

/// The mathematical content of an invoice.
pub struct InvoiceView {
    /// The identifier of the invoice.
    pub id: int,
    /// Whether this is an invoice or a credit note.
    pub invoice_type: InvoiceType,
    /// The amount.
    pub amount: int,
    /// The currency of the amount.
    pub currency: InvoiceCurrency,
    /// The due date, when there is one.
    pub due_date: Option<Date>,
    /// The date the invoice was issued.
    pub issued_date: Date,
    /// The date the invoice was paid, when it was.
    pub paid_date: Option<Date>,
    /// The status of the invoice.
    pub status: InvoiceStatus,
    /// The address of the invoice on the registrar's site.
    pub url: Seq<char>,
}

impl View for Invoice {
    type V = InvoiceView;

    open spec fn view(&self) -> InvoiceView {
        InvoiceView {
            id: self.id as int,
            invoice_type: self.invoice_type,
            amount: self.amount as int,
            currency: self.currency,
            due_date: self.due_date,
            issued_date: self.issued_date,
            paid_date: self.paid_date,
            status: self.status,
            url: self.url@,
        }
    }
}

/// A fits-in-`i32` range check.
pub open spec fn fits_i32(n: int) -> bool {
    -0x8000_0000 <= n <= 0x7fff_ffff
}

impl JsonPayload for Invoice {
    /// An invoice is read from an object carrying its identifier and amount
    /// within `i32`, its type, currency and status by their wire names, its
    /// dates in wire form — the due and paid dates may be absent — and its
    /// address.
    open spec fn spec_decode(v: JsonVal) -> Option<InvoiceView> {
        match v {
            JsonVal::Obj(fields) => match (lookup_int(fields, "id"@), lookup_str(
                fields,
                "type"@,
            ), lookup_int(fields, "amount"@), lookup_str(fields, "currency"@), lookup_optional_date(
                fields,
                "due_date"@,
            ), lookup_date(fields, "issued_date"@), lookup_optional_date(
                fields,
                "paid_date"@,
            ), lookup_str(fields, "status"@), lookup_str(fields, "url"@)) {
                (
                    Some(id),
                    Some(type_text),
                    Some(amount),
                    Some(currency_text),
                    Some(due_date),
                    Some(issued_date),
                    Some(paid_date),
                    Some(status_text),
                    Some(url),
                ) => {
                    match (
                        invoice_type_of(type_text),
                        invoice_currency_of(currency_text),
                        invoice_status_of(status_text),
                    ) {
                        (Some(invoice_type), Some(currency), Some(status)) => if fits_i32(id)
                            && fits_i32(amount) {
                            Some(
                                InvoiceView {
                                    id,
                                    invoice_type,
                                    amount,
                                    currency,
                                    due_date,
                                    issued_date,
                                    paid_date,
                                    status,
                                    url,
                                },
                            )
                        } else {
                            None
                        },
                        _ => None,
                    }
                },
                _ => None,
            },
            _ => None,
        }
    }

    fn decode_json(v: &JsonValue) -> (r: Option<Self>) {
        match v {
            JsonValue::Obj(fields) => {
                let id_wide = match get_i64(fields, "id") {
                    Some(n) => n,
                    None => {
                        return None;
                    },
                };
                let type_text = match get_string(fields, "type") {
                    Some(s) => s,
                    None => {
                        return None;
                    },
                };
                let invoice_type = if str_eq(type_text.as_str(), "invoice") {
                    InvoiceType::Invoice
                } else if str_eq(type_text.as_str(), "credit_node") {
                    InvoiceType::CreditNode
                } else {
                    return None;
                };
                let amount_wide = match get_i64(fields, "amount") {
                    Some(n) => n,
                    None => {
                        return None;
                    },
                };
                let currency_text = match get_string(fields, "currency") {
                    Some(s) => s,
                    None => {
                        return None;
                    },
                };
                let currency = if str_eq(currency_text.as_str(), "NOK") {
                    InvoiceCurrency::NOK
                } else if str_eq(currency_text.as_str(), "SEK") {
                    InvoiceCurrency::SEK
                } else if str_eq(currency_text.as_str(), "DKK") {
                    InvoiceCurrency::DKK
                } else if str_eq(currency_text.as_str(), "GBP") {
                    InvoiceCurrency::GBP
                } else if str_eq(currency_text.as_str(), "USD") {
                    InvoiceCurrency::USD
                } else {
                    return None;
                };
                let due_date = match get_optional_date(fields, "due_date") {
                    Some(d) => d,
                    None => {
                        return None;
                    },
                };
                let issued_date = match get_date(fields, "issued_date") {
                    Some(d) => d,
                    None => {
                        return None;
                    },
                };
                let paid_date = match get_optional_date(fields, "paid_date") {
                    Some(d) => d,
                    None => {
                        return None;
                    },
                };
                let status_text = match get_string(fields, "status") {
                    Some(s) => s,
                    None => {
                        return None;
                    },
                };
                let status = if str_eq(status_text.as_str(), "unpaid") {
                    InvoiceStatus::Unpaid
                } else if str_eq(status_text.as_str(), "paid") {
                    InvoiceStatus::Paid
                } else if str_eq(status_text.as_str(), "settled") {
                    InvoiceStatus::Settled
                } else {
                    return None;
                };
                let url = match get_string(fields, "url") {
                    Some(s) => s,
                    None => {
                        return None;
                    },
                };
                if id_wide < -0x8000_0000 || id_wide > 0x7fff_ffff {
                    return None;
                }
                if amount_wide < -0x8000_0000 || amount_wide > 0x7fff_ffff {
                    return None;
                }
                Some(
                    Invoice {
                        id: id_wide as i32,
                        invoice_type,
                        amount: amount_wide as i32,
                        currency,
                        due_date,
                        issued_date,
                        paid_date,
                        status,
                        url,
                    },
                )
            },
            _ => None,
        }
    }
}

/// An invoice that decodes carries dates that exist on the calendar.
pub proof fn lemma_invoice_dates_wf(v: JsonVal, iv: InvoiceView)
    requires
        <Invoice as JsonPayload>::spec_decode(v) == Some(iv),
    ensures
        date_wf(iv.issued_date),
        iv.due_date matches Some(d) ==> date_wf(d),
        iv.paid_date matches Some(d) ==> date_wf(d),
{
    match v {
        JsonVal::Obj(fields) => {
            assert(lookup_date(fields, "issued_date"@) == Some(iv.issued_date));
            assert(lookup_optional_date(fields, "due_date"@) == Some(iv.due_date));
            assert(lookup_optional_date(fields, "paid_date"@) == Some(iv.paid_date));
            lemma_invoice_field_date_wf(fields, "issued_date"@, iv.issued_date);
            lemma_invoice_field_optional_date_wf(fields, "due_date"@, iv.due_date);
            lemma_invoice_field_optional_date_wf(fields, "paid_date"@, iv.paid_date);
        },
        _ => {
            assert(false);
        },
    }
}

/// A date read out of a field is a date that exists on the calendar.
proof fn lemma_invoice_field_date_wf(fields: Seq<(Seq<char>, JsonVal)>, key: Seq<char>, d: Date)
    requires
        lookup_date(fields, key) == Some(d),
    ensures
        date_wf(d),
{
    match lookup_str(fields, key) {
        Some(s) => {
            assert(spec_parse_date(s) == Some(d));
        },
        None => {
            assert(false);
        },
    }
}

/// An optional date read out of a field, when present, exists on the
/// calendar.
proof fn lemma_invoice_field_optional_date_wf(
    fields: Seq<(Seq<char>, JsonVal)>,
    key: Seq<char>,
    od: Option<Date>,
)
    requires
        lookup_optional_date(fields, key) == Some(od),
    ensures
        od matches Some(d) ==> date_wf(d),
{
    match crate::codec::obj_lookup(fields, key) {
        None => {},
        Some(JsonVal::Null) => {},
        Some(JsonVal::Str(s)) => {
            match spec_parse_date(s) {
                Some(d) => {},
                None => {
                    assert(false);
                },
            }
        },
        Some(_) => {
            assert(false);
        },
    }
}

/// Every invoice of a decoded list carries dates that exist on the
/// calendar.
proof fn lemma_invoice_list_dates(ivs: Seq<InvoiceView>)
    requires
        exists|body: Seq<char>| spec_decode_body_list::<Invoice>(body) == Some(ivs),
    ensures
        forall|k: int| 0 <= k < ivs.len() ==> date_wf(#[trigger] ivs[k].issued_date) && (
        ivs[k].due_date matches Some(d) ==> date_wf(d)) && (ivs[k].paid_date matches Some(d)
            ==> date_wf(d)),
{
    let body = choose|body: Seq<char>| spec_decode_body_list::<Invoice>(body) == Some(ivs);
    match spec_parse_json(body) {
        Some(JsonVal::Arr(elems)) => {
            crate::codec::lemma_decode_list_each::<Invoice>(elems, ivs);
            assert forall|k: int| 0 <= k < ivs.len() implies date_wf(
                #[trigger] ivs[k].issued_date,
            ) && (ivs[k].due_date matches Some(d) ==> date_wf(d)) && (
            ivs[k].paid_date matches Some(d) ==> date_wf(d)) by {
                lemma_invoice_dates_wf(elems[k], ivs[k]);
            }
        },
        _ => {
            assert(false);
        },
    }
}

/// The resource path of one invoice.
pub open spec fn invoice_path(id: int) -> Seq<char> {
    "/invoices/"@ + crate::text::int_text(id)
}

/// The status filter parameter of an invoice listing.
pub open spec fn invoice_status_params(status: InvoiceStatus) -> Seq<(Seq<char>, Seq<char>)> {
    seq![("status"@, invoice_status_text(status))]
}

/// Renders the path of one invoice.
fn invoice_path_text(id: InvoiceId) -> (r: String)
    ensures
        r@ == invoice_path(id as int),
{
    let mut path = String::from_str("/invoices/");
    path.append(i32_to_string(id).as_str());
    proof {
        assert(path@ =~= invoice_path(id as int));
    }
    path
}

impl<C: HttpClient> DomeneshopClient<C> {
    /// Fetches an invoice by its number: a GET of the invoice's path,
    /// interpreted without validation so that a `404` answer means no such
    /// invoice and is not an error. An invoice handed back carries dates
    /// that exist on the calendar. Fails before anything is sent,
    /// classified `"InfrastructureError"`, when the composed URL does not
    /// parse.
    pub fn get_invoice(&self, id: InvoiceId) -> (r: Result<Option<Invoice>, DomeneshopError>)
        ensures
            !url_ok(composed_url_text(self.base_url_spec(), invoice_path(id as int))) ==> (
            r matches Err(e) && e@.code == "InfrastructureError"@),
            r matches Ok(o) ==> (o matches Some(inv) ==> date_wf(inv@.issued_date) && (
            inv@.due_date matches Some(d) ==> date_wf(d)) && (inv@.paid_date matches Some(d)
                ==> date_wf(d))),
    {
        let path = invoice_path_text(id);
        let url = self.create_url(path.as_str())?;
        let request = Request::new(Method::Get, url.into_string());
        let response = self.send_no_validation(request)?;
        let result = decode_optional::<Invoice>(&response);
        proof {
            match &result {
                Ok(o) => match o {
                    Some(inv) => {
                        match spec_parse_json(response.body@) {
                            Some(v) => {
                                lemma_invoice_dates_wf(v, inv@);
                            },
                            None => {
                                assert(false);
                            },
                        }
                    },
                    None => {},
                },
                Err(_) => {},
            }
        }
        result
    }

    /// Lists the invoices of the account: a GET of the invoice collection
    /// path. The API only returns invoices from the past three years. Every
    /// invoice handed back carries dates that exist on the calendar. Fails
    /// before anything is sent, classified `"InfrastructureError"`, when
    /// the composed URL does not parse.
    pub fn list_invoices(&self) -> (r: Result<Vec<Invoice>, DomeneshopError>)
        ensures
            !url_ok(composed_url_text(self.base_url_spec(), "/invoices"@)) ==> (r matches Err(e)
                && e@.code == "InfrastructureError"@),
            r matches Ok(invs) ==> forall|k: int|
                0 <= k < invs@.len() ==> date_wf(#[trigger] invs@[k]@.issued_date) && (
                invs@[k]@.due_date matches Some(d) ==> date_wf(d)) && (
                invs@[k]@.paid_date matches Some(d) ==> date_wf(d)),
    {
        let url = self.create_url("/invoices")?;
        let result = self.get_response_list::<Invoice>(url);
        proof {
            match &result {
                Ok(invs) => {
                    let ghost ivs: Seq<InvoiceView> = invs@.map_values(|i: Invoice| i@);
                    lemma_invoice_list_dates(ivs);
                    assert forall|k: int| 0 <= k < invs@.len() implies date_wf(
                        #[trigger] invs@[k]@.issued_date,
                    ) && (invs@[k]@.due_date matches Some(d) ==> date_wf(d)) && (
                    invs@[k]@.paid_date matches Some(d) ==> date_wf(d)) by {
                        assert(date_wf(ivs[k].issued_date) && (ivs[k].due_date matches Some(d)
                            ==> date_wf(d)) && (ivs[k].paid_date matches Some(d) ==> date_wf(d)));
                        assert(ivs[k] == invs@[k]@);
                    }
                },
                Err(_) => {},
            }
        }
        result
    }

    /// Lists the invoices of the account carrying the given status: a GET
    /// of the invoice collection path carrying exactly the one `status`
    /// parameter with the status's wire text. Every invoice handed back
    /// carries dates that exist on the calendar. Fails before anything is
    /// sent, classified `"InfrastructureError"`, when the composed URL does
    /// not parse.
    pub fn list_invoices_with_status(&self, status: InvoiceStatus) -> (r: Result<
        Vec<Invoice>,
        DomeneshopError,
    >)
        ensures
            !url_ok(
                composed_url_with_query_text(
                    self.base_url_spec(),
                    "/invoices"@,
                    invoice_status_params(status),
                ),
            ) ==> (r matches Err(e) && e@.code == "InfrastructureError"@),
            r matches Ok(invs) ==> forall|k: int|
                0 <= k < invs@.len() ==> date_wf(#[trigger] invs@[k]@.issued_date) && (
                invs@[k]@.due_date matches Some(d) ==> date_wf(d)) && (
                invs@[k]@.paid_date matches Some(d) ==> date_wf(d)),
    {
        let mut query_parameters: Vec<(String, String)> = Vec::new();
        query_parameters.push((String::from_str("status"), to_status_query_param(&status)));
        proof {
            assert(params_view(query_parameters@) =~= invoice_status_params(status));
        }
        let url = self.create_url_with_parameters("/invoices", &query_parameters)?;
        let result = self.get_response_list::<Invoice>(url);
        proof {
            match &result {
                Ok(invs) => {
                    let ghost ivs: Seq<InvoiceView> = invs@.map_values(|i: Invoice| i@);
                    lemma_invoice_list_dates(ivs);
                    assert forall|k: int| 0 <= k < invs@.len() implies date_wf(
                        #[trigger] invs@[k]@.issued_date,
                    ) && (invs@[k]@.due_date matches Some(d) ==> date_wf(d)) && (
                    invs@[k]@.paid_date matches Some(d) ==> date_wf(d)) by {
                        assert(date_wf(ivs[k].issued_date) && (ivs[k].due_date matches Some(d)
                            ==> date_wf(d)) && (ivs[k].paid_date matches Some(d) ==> date_wf(d)));
                        assert(ivs[k] == invs@[k]@);
                    }
                },
                Err(_) => {},
            }
        }
        result
    }
}

} // verus!
