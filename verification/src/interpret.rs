//! The response interpreter: status-code-driven decoding of success
//! payloads, structured API errors, status-dependent optionality, and the
//! creation acknowledgement with its `Location` header.

use vstd::prelude::*;
use vstd::string::*;

use crate::codec::{lookup_str, JsonPayload};
use crate::errors::{
    to_domain_error, to_domain_error_with_context, DomeneshopError, DomeneshopErrorView,
};
use crate::http::{header_lookup, Response};
use crate::json::{JsonVal, JsonValue};
use crate::parse::{parse_json, spec_parse_json};
use crate::text::{chars_to_string, i64_to_chars, int_text};
use crate::weburl::{url_norm, url_ok, WebUrl};

verus! {

/// The structured error a response body carries, if it is one: the API
/// reports an object with a `help` text and a `code` classification.
pub open spec fn api_error_of(body: Seq<char>) -> Option<(Seq<char>, Seq<char>)> {
    match spec_parse_json(body) {
        Some(JsonVal::Obj(fields)) => match (lookup_str(fields, "code"@), lookup_str(
            fields,
            "help"@,
        )) {
            (Some(code), Some(help)) => Some((help, code)),
            _ => None,
        },
        _ => None,
    }
}

/// The Domain Error a failing response normalises to: the API's own help
/// text and classification code when the body is a structured error, and
/// otherwise a deserialization failure classified `"InfrastructureError"`
/// whose message keeps the fixed context prefix.
pub open spec fn normalized_api_error(body: Seq<char>) -> DomeneshopErrorView {
    match api_error_of(body) {
        Some((help, code)) => DomeneshopErrorView { help, code },
        None => DomeneshopErrorView {
            help: "Failed to deserialize error response"@ + ": "@
                + "the body is not a structured API error"@,
            code: "InfrastructureError"@,
        },
    }
}

/// Turns a failing response into the Domain Error its body describes: the
/// decoded API error verbatim, or — when the body cannot be decoded as a
/// structured error — a failure that keeps both the context text
/// `Failed to deserialize error response` and the cause in its message.
pub fn handle_response_error(response: &Response) -> (e: DomeneshopError)
    ensures
        e@ == normalized_api_error(response.body@),
{
    match parse_json(response.body.as_str()) {
        Some(JsonValue::Obj(fields)) => {
            let code = crate::codec::get_string(&fields, "code");
            let help = crate::codec::get_string(&fields, "help");
            match (code, help) {
                (Some(code), Some(help)) => DomeneshopError::new(help, code),
                _ => to_domain_error_with_context(
                    "Failed to deserialize error response",
                    "the body is not a structured API error",
                ),
            }
        },
        _ => to_domain_error_with_context(
            "Failed to deserialize error response",
            "the body is not a structured API error",
        ),
    }
}

/// A failing response whose body is not a structured API error normalises
/// to a Domain Error classified `"InfrastructureError"` whose message keeps
/// the fixed context text as its prefix: the context never replaces the
/// cause, and the cause never displaces the context.
pub proof fn lemma_error_context_kept(body: Seq<char>)
    ensures
        api_error_of(body) is None ==> normalized_api_error(body).code == "InfrastructureError"@,
        api_error_of(body) is None ==> normalized_api_error(body).help.subrange(
            0,
            "Failed to deserialize error response"@.len() as int,
        ) == "Failed to deserialize error response"@,
{
    if api_error_of(body) is None {
        let context = "Failed to deserialize error response"@;
        let rest = ": "@ + "the body is not a structured API error"@;
        assert(normalized_api_error(body).help == context + rest);
        assert((context + rest).subrange(0, context.len() as int) =~= context);
    }
}

/// What decoding a body as this payload yields: the parsed document read as
/// the payload shape, or nothing when the text does not parse or the shape
/// does not fit.
pub open spec fn spec_decode_body<T: JsonPayload>(body: Seq<char>) -> Option<T::V> {
    match spec_parse_json(body) {
        Some(v) => T::spec_decode(v),
        None => None,
    }
}

/// The cause text a failed body decode reports.
pub open spec fn decode_failure_text(body: Seq<char>) -> Seq<char> {
    if spec_parse_json(body) is None {
        "response body is not valid JSON"@
    } else {
        "response body does not have the expected shape"@
    }
}

/// Decodes a response body as a payload shape. Succeeds exactly when the
/// body parses as JSON and the document has the payload's shape; any
/// failure is classified `"InfrastructureError"`.
pub fn decode_body<T: JsonPayload>(response: &Response) -> (r: Result<T, DomeneshopError>)
    ensures
        match r {
            Ok(t) => spec_decode_body::<T>(response.body@) == Some(t@),
            Err(e) => spec_decode_body::<T>(response.body@) is None && e@.help
                == decode_failure_text(response.body@) && e@.code == "InfrastructureError"@,
        },
{
    match parse_json(response.body.as_str()) {
        None => Err(to_domain_error(String::from_str("response body is not valid JSON"))),
        Some(v) => match T::decode_json(&v) {
            Some(t) => Ok(t),
            None => Err(
                to_domain_error(String::from_str("response body does not have the expected shape")),
            ),
        },
    }
}

/// What decoding a body as a list of this payload yields: the parsed array
/// with every element read as the payload shape.
pub open spec fn spec_decode_body_list<T: JsonPayload>(body: Seq<char>) -> Option<Seq<T::V>> {
    match spec_parse_json(body) {
        Some(JsonVal::Arr(elems)) => crate::codec::spec_decode_list::<T>(elems),
        _ => None,
    }
}

/// Decodes a response body as an array of payloads. Succeeds exactly when
/// the body parses as a JSON array and every element has the payload's
/// shape; any failure is classified `"InfrastructureError"`.
pub fn decode_body_list<T: JsonPayload>(response: &Response) -> (r: Result<
    Vec<T>,
    DomeneshopError,
>)
    ensures
        match r {
            Ok(ts) => spec_decode_body_list::<T>(response.body@) == Some(
                ts@.map_values(|t: T| t@),
            ),
            Err(e) => spec_decode_body_list::<T>(response.body@) is None && e@.code
                == "InfrastructureError"@,
        },
{
    match parse_json(response.body.as_str()) {
        Some(JsonValue::Arr(elems)) => match crate::codec::decode_list::<T>(&elems) {
            Some(ts) => Ok(ts),
            None => Err(
                to_domain_error(String::from_str("response body does not have the expected shape")),
            ),
        },
        Some(_) => Err(
            to_domain_error(String::from_str("response body does not have the expected shape")),
        ),
        None => Err(to_domain_error(String::from_str("response body is not valid JSON"))),
    }
}

/// Interprets a non-validated response for a single-resource lookup: a
/// success status decodes the payload and wraps it as present; a `404`
/// means the resource is absent, not an error, and the body is never
/// touched; any other status normalises to the Domain Error its body
/// describes.
pub fn decode_optional<T: JsonPayload>(response: &Response) -> (r: Result<
    Option<T>,
    DomeneshopError,
>)
    ensures
        response.status == 200 ==> (match spec_decode_body::<T>(response.body@) {
            Some(tv) => r matches Ok(o) && o matches Some(t) && t@ == tv,
            None => r matches Err(e) && e@.help == decode_failure_text(response.body@) && e@.code
                == "InfrastructureError"@,
        }),
        response.status == 404 ==> (r matches Ok(o) && o is None),
        response.status != 200 && response.status != 404 ==> (r matches Err(e) && e@
            == normalized_api_error(response.body@)),
{
    if response.status == 200 {
        match decode_body::<T>(response) {
            Ok(t) => Ok(Some(t)),
            Err(e) => Err(e),
        }
    } else if response.status == 404 {
        Ok(None)
    } else {
        Err(handle_response_error(response))
    }
}

/// The message reported for a status no branch of an operation recognises.
pub open spec fn unexpected_status_text(status: u16) -> Seq<char> {
    "Encountered unexpected response status "@ + int_text(status as int)
}

/// The Domain Error for a status no branch of an operation recognises:
/// classified `"UnexpectedStatus"`, the literal status value in the
/// message.
pub fn unexpected_status_error(status: u16) -> (e: DomeneshopError)
    ensures
        e@.help == unexpected_status_text(status),
        e@.code == "UnexpectedStatus"@,
{
    let mut help = String::from_str("Encountered unexpected response status ");
    let digits = i64_to_chars(status as i64);
    let digits_text = chars_to_string(&digits);
    help.append(digits_text.as_str());
    DomeneshopError::new(help, String::from_str("UnexpectedStatus"))
}

/// Checks a response against the one status an operation expects; any other
/// status fails, classified `"UnexpectedStatus"`, regardless of the body.
pub fn ensure_status(response: &Response, expected: u16) -> (r: Result<(), DomeneshopError>)
    ensures
        r is Ok <==> response.status == expected,
        r matches Err(e) ==> e@.help == unexpected_status_text(response.status) && e@.code
            == "UnexpectedStatus"@,
{
    if response.status == expected {
        Ok(())
    } else {
        Err(unexpected_status_error(response.status))
    }
}

/// The URL the `Location` header of a creation response points at, if the
/// header is present and parses; a malformed value is tolerated silently.
pub open spec fn location_url_of(resp: Response) -> Option<Seq<char>> {
    match header_lookup(resp.headers_spec(), "Location"@) {
        Some(loc) => if url_ok(loc) {
            Some(url_norm(loc))
        } else {
            None
        },
        None => None,
    }
}

/// Interprets a creation response: a `201` decodes the acknowledgement
/// payload and additionally extracts the optional `Location` header, parsed
/// as a URL — a missing or malformed header value is treated as an absent
/// URL, never as an error. Any other status fails, classified
/// `"UnexpectedStatus"`, with the literal status in the message; a `201`
/// whose body does not decode fails with the operation's context prefixed
/// to the cause.
pub fn decode_created<T: JsonPayload>(response: &Response, context: &str) -> (r: Result<
    (T, Option<WebUrl>),
    DomeneshopError,
>)
    ensures
        response.status == 201 ==> (match spec_decode_body::<T>(response.body@) {
            Some(tv) => r matches Ok(p) && p.0@ == tv && (match location_url_of(*response) {
                Some(l) => p.1 matches Some(w) && w@ == l && w.wf(),
                None => p.1 is None,
            }),
            None => r matches Err(e) && e@.help == context@ + ": "@ + decode_failure_text(
                response.body@,
            ) && e@.code == "InfrastructureError"@,
        }),
        response.status != 201 ==> (r matches Err(e) && e@.help == unexpected_status_text(
            response.status,
        ) && e@.code == "UnexpectedStatus"@),
{
    if response.status != 201 {
        return Err(unexpected_status_error(response.status));
    }
    let location: Option<WebUrl> = match response.header("Location") {
        Some(loc) => match WebUrl::parse(loc.as_str()) {
            Ok(u) => Some(u),
            Err(_) => None,
        },
        None => None,
    };
    match decode_body::<T>(response) {
        Ok(t) => Ok((t, location)),
        Err(e) => Err(to_domain_error_with_context(context, e.help().as_str())),
    }
}

} // verus!
