//! The uniform error value surfaced to callers, and the helpers that
//! normalise every failure path into it.

use vstd::prelude::*;
use vstd::string::*;

verus! {

/// The error returned when operations against the API fail.
///
/// Every failure carries a human-readable explanation (`help`) and a short
/// classification code (`code`): either a literal library-defined code such
/// as `"InfrastructureError"` or `"UnexpectedStatus"`, or the classification
/// string reported by the remote API inside a structured error payload.
#[derive(Debug)]
pub struct DomeneshopError {
    help: String,
    code: String,
}

impl Clone for DomeneshopError {
    /// A copy of the error: same explanation, same classification code.
    fn clone(&self) -> (r: Self)
        ensures
            r@ == self@,
    {
        DomeneshopError { help: self.help.clone(), code: self.code.clone() }
    }
}

/// The mathematical content of a [`DomeneshopError`]: its two observable fields.
pub struct DomeneshopErrorView {
    pub help: Seq<char>,
    pub code: Seq<char>,
}

impl View for DomeneshopError {
    type V = DomeneshopErrorView;

    closed spec fn view(&self) -> DomeneshopErrorView {
        DomeneshopErrorView { help: self.help@, code: self.code@ }
    }
}

impl DomeneshopError {
    /// Creates a new `DomeneshopError` from an explanation and a classification code.
    pub fn new(help: String, code: String) -> (e: DomeneshopError)
        ensures
            e@.help == help@,
            e@.code == code@,
    {
        DomeneshopError { help, code }
    }

    /// The human-readable explanation of the failure.
    pub fn help(&self) -> (r: &String)
        ensures
            r@ == self@.help,
    {
        &self.help
    }

    /// The short classification code of the failure.
    pub fn code(&self) -> (r: &String)
        ensures
            r@ == self@.code,
    {
        &self.code
    }
}

/// Wraps the text of a local failure (a URL that does not parse, a body that
/// does not decode) as a Domain Error classified `"InfrastructureError"`.
pub fn to_domain_error(cause: String) -> (e: DomeneshopError)
    ensures
        e@.help == cause@,
        e@.code == "InfrastructureError"@,
{
    DomeneshopError { help: cause, code: String::from_str("InfrastructureError") }
}

/// Like [`to_domain_error`], but prefixes the cause text with a context
/// string in the fixed `"{context}: {cause}"` format. The context never
/// replaces the cause: both stay visible in the explanation.
pub fn to_domain_error_with_context(context: &str, cause: &str) -> (e: DomeneshopError)
    ensures
        e@.help == context@ + ": "@ + cause@,
        e@.code == "InfrastructureError"@,
{
    let mut help = context.to_owned();
    help.append(": ");
    help.append(cause);
    proof {
        assert(help@ == context@ + ": "@ + cause@);
    }
    DomeneshopError { help, code: String::from_str("InfrastructureError") }
}

} // verus!
