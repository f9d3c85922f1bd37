//! The credential guard: from the `Authorization` header to the caller's identity.

use vstd::prelude::*;
use vstd::string::*;
use vstd::utf8::{decode_utf8, encode_utf8_decode_utf8};
use crate::headers::{is_visible, value_bytes, value_text};
use crate::api::Status;
use crate::model::CurrentUser;
use crate::store::{Store, StoreView};
use crate::text::{has_prefix, opt_text, strip, strip_prefix};

verus! {

/// What the store said of a presented secret.
#[derive(Debug, Clone, Copy, PartialEq, Eq, Structural)]
pub enum Lookup {
    /// The secret belongs to the credential with this identity.
    Found(u128),
    /// No credential has the secret.
    Unknown,
    /// The store failed to answer.
    Failed,
}

/// The first move of the guard.
#[derive(Debug, Clone, PartialEq, Eq)]
pub enum GuardStep {
    /// The request is turned away with this status.
    Reject(Status),
    /// The store is to be asked whose secret this is.
    Resolve(String),
}

/// The characters of an optional string slice.
pub open spec fn opt_str(value: Option<&str>) -> Option<Seq<char>> {
    match value {
        Some(s) => Some(s@),
        None => None,
    }
}

/// The text of a header as it was received: that of a header whose bytes
/// are all visible ASCII characters, spaces or tabs. A header with any
/// other byte counts as missing.
pub open spec fn header_text(value: Option<&axum::http::HeaderValue>) -> Option<Seq<char>> {
    match value {
        Some(v) => if is_visible(value_bytes(*v)) {
            Some(decode_utf8(value_bytes(*v)))
        } else {
            None
        },
        None => None,
    }
}

/// The secret that a header presents: what follows `Bearer ` in a header
/// that begins with it. A missing header presents none.
pub open spec fn bearer_secret(header: Option<Seq<char>>) -> Option<Seq<char>> {
    match header {
        Some(value) => strip_prefix(value, "Bearer "@),
        None => None,
    }
}

/// The identity that the guard lets through, or the status it answers with.
pub open spec fn guard_outcome(lookup: Lookup) -> Result<CurrentUser, Status> {
    match lookup {
        Lookup::Found(id) => Ok(CurrentUser { credential_id: id }),
        Lookup::Unknown => Err(Status::Unauthorized),
        Lookup::Failed => Err(Status::InternalServerError),
    }
}

/// What the store says of a secret.
pub open spec fn lookup_in(s: StoreView, secret: Seq<char>) -> Lookup {
    match s.resolve(secret) {
        Some(id) => Lookup::Found(id),
        None => Lookup::Unknown,
    }
}

/// The caller that a header identifies to a store, or the status that the
/// request is turned away with.
pub open spec fn caller(s: StoreView, header: Option<Seq<char>>) -> Result<CurrentUser, Status> {
    match bearer_secret(header) {
        Some(secret) => guard_outcome(lookup_in(s, secret)),
        None => Err(Status::Unauthorized),
    }
}

/// The secret presented by an `Authorization` header.
pub fn bearer_token(header: Option<&str>) -> (r: Option<String>)
    ensures
        opt_text(r) == bearer_secret(opt_str(header)),
{
    match header {
        Some(value) => strip(value, "Bearer "),
        None => None,
    }
}

/// The text of an `Authorization` header as it was received, if it is text.
pub fn authorization_text<'a>(value: Option<&'a axum::http::HeaderValue>) -> (r: Option<&'a str>)
    ensures
        opt_str(r) == header_text(value),
{
    match value {
        Some(v) => match value_text(v) {
            Ok(text) => {
                proof {
                    encode_utf8_decode_utf8(text@);
                }
                Some(text)
            },
            Err(_) => None,
        },
        None => None,
    }
}

/// Opens the guard for a request as it was received: a header that is no
/// text counts as missing.
pub fn guard_open(value: Option<&axum::http::HeaderValue>) -> (step: GuardStep)
    ensures
        match bearer_secret(header_text(value)) {
            Some(secret) => step matches GuardStep::Resolve(s) && s@ == secret,
            None => step == GuardStep::Reject(Status::Unauthorized),
        },
{
    guard_begin(authorization_text(value))
}

/// Opens the guard for a request: a request without a bearer secret is
/// turned away as unauthorized, any other has its secret resolved.
pub fn guard_begin(header: Option<&str>) -> (step: GuardStep)
    ensures
        match bearer_secret(opt_str(header)) {
            Some(secret) => step matches GuardStep::Resolve(s) && s@ == secret,
            None => step == GuardStep::Reject(Status::Unauthorized),
        },
{
    match bearer_token(header) {
        Some(secret) => GuardStep::Resolve(secret),
        None => GuardStep::Reject(Status::Unauthorized),
    }
}

/// Closes the guard on the store's answer: a known secret lets the request
/// through under its identity, an unknown one is unauthorized, and a store
/// that failed is an internal error.
pub fn guard_finish(lookup: Lookup) -> (r: Result<CurrentUser, Status>)
    ensures
        r == guard_outcome(lookup),
{
    match lookup {
        Lookup::Found(id) => Ok(CurrentUser { credential_id: id }),
        Lookup::Unknown => Err(Status::Unauthorized),
        Lookup::Failed => Err(Status::InternalServerError),
    }
}

/// Identifies the caller of a request against a store.
pub fn authenticate(store: &Store, header: Option<&str>) -> (r: Result<CurrentUser, Status>)
    requires
        store@.wf(),
    ensures
        r == caller(store@, opt_str(header)),
{
    match guard_begin(header) {
        GuardStep::Reject(status) => Err(status),
        GuardStep::Resolve(secret) => {
            let lookup = match store.resolve_credential(secret.as_str()) {
                Some(id) => Lookup::Found(id),
                None => Lookup::Unknown,
            };
            guard_finish(lookup)
        },
    }
}

/// A header that does not begin with `Bearer ` is unauthorized, whatever
/// the store holds.
pub proof fn law_header_without_prefix(s: StoreView, value: Seq<char>)
    requires
        !has_prefix(value, "Bearer "@),
    ensures
        caller(s, Some(value)) == Err::<CurrentUser, Status>(Status::Unauthorized),
{
}

/// A caller that passes the guard acts under the identity of a credential
/// of the store, the one whose secret the header presents.
pub proof fn law_caller_is_a_credential(s: StoreView, header: Option<Seq<char>>)
    requires
        s.wf(),
        caller(s, header) is Ok,
    ensures
        bearer_secret(header) is Some,
        exists|k: int|
            s.secret_at(k, bearer_secret(header).unwrap()) && s.credentials[k].id == caller(
                s,
                header,
            ).unwrap().credential_id,
{
    let secret = bearer_secret(header).unwrap();
    let k = choose|k: int| s.secret_at(k, secret);
    assert(s.secret_at(k, secret) && s.credentials[k].id == caller(s, header).unwrap().credential_id);
}

} // verus!
