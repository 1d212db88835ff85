//! The per-resource operations: each composes the URL builder, the
//! authenticated sender and the response interpreter for one API action.

pub mod dns;
pub mod domains;
pub mod dyndns;
pub mod forwards;
pub mod invoices;
