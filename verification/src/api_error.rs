//! Error envelope of the HTTP API: every error is answered with an HTTP
//! status and a JSON body `{ code, message, details? }`. A resource owned
//! by another account is answered exactly like an absent one (404).

use vstd::prelude::*;

use crate::errors::concat2;

verus! {

/// Error answered by a handler: HTTP status and envelope body. `details`
/// is JSON text; it is left out of the body when `None`.
#[derive(Debug, Clone, PartialEq, Eq)]
pub struct ApiError {
    pub status: u16,
    /// Stable, machine-readable code (`not_found`, `validation`, …).
    pub code: String,
    /// Plain-language message for the user.
    pub message: String,
    /// Optional context (field at fault, bounds, …), JSON text.
    pub details: Option<String>,
}

impl ApiError {
    /// Resource absent, or owned by another account: 404 `not_found`,
    /// message `<resource> introuvable`.
    pub fn not_found(resource: &str) -> (r: Self)
        ensures
            r.status == 404,
            r.code@ == "not_found"@,
            r.message@ == resource@ + " introuvable"@,
            r.details is None,
    {
        ApiError {
            status: 404,
            code: "not_found".to_owned(),
            message: concat2(resource, " introuvable"),
            details: None,
        }
    }

    /// Invalid input: 422 `validation`, with details.
    pub fn validation(message: &str, details: String) -> (r: Self)
        ensures
            r.status == 422,
            r.code@ == "validation"@,
            r.message@ == message@,
            r.details == Some(details),
    {
        ApiError {
            status: 422,
            code: "validation".to_owned(),
            message: message.to_owned(),
            details: Some(details),
        }
    }

    /// Missing or expired session: 401 `unauthorized`.
    pub fn unauthorized() -> (r: Self)
        ensures
            r.status == 401,
            r.code@ == "unauthorized"@,
            r.message@ == "Session requise"@,
            r.details is None,
    {
        ApiError {
            status: 401,
            code: "unauthorized".to_owned(),
            message: "Session requise".to_owned(),
            details: None,
        }
    }

    /// Action refused by the instance policy: 403 `forbidden`.
    pub fn forbidden(message: &str) -> (r: Self)
        ensures
            r.status == 403,
            r.code@ == "forbidden"@,
            r.message@ == message@,
            r.details is None,
    {
        ApiError {
            status: 403,
            code: "forbidden".to_owned(),
            message: message.to_owned(),
            details: None,
        }
    }

    /// Slicing or export for a printer the account has not declared:
    /// 403 `printer_not_owned`.
    pub fn printer_not_owned(message: &str) -> (r: Self)
        ensures
            r.status == 403,
            r.code@ == "printer_not_owned"@,
            r.message@ == message@,
            r.details is None,
    {
        ApiError {
            status: 403,
            code: "printer_not_owned".to_owned(),
            message: message.to_owned(),
            details: None,
        }
    }

    /// Edit conflict (optimistic lock): 409 `conflict`.
    pub fn conflict(message: &str) -> (r: Self)
        ensures
            r.status == 409,
            r.code@ == "conflict"@,
            r.message@ == message@,
            r.details is None,
    {
        ApiError {
            status: 409,
            code: "conflict".to_owned(),
            message: message.to_owned(),
            details: None,
        }
    }

    /// Upload over the instance limit: 413 `too_large`.
    pub fn too_large(message: &str) -> (r: Self)
        ensures
            r.status == 413,
            r.code@ == "too_large"@,
            r.message@ == message@,
            r.details is None,
    {
        ApiError {
            status: 413,
            code: "too_large".to_owned(),
            message: message.to_owned(),
            details: None,
        }
    }

    /// Feature the server does not provide: 501 `not_implemented`.
    pub fn not_implemented(message: &str) -> (r: Self)
        ensures
            r.status == 501,
            r.code@ == "not_implemented"@,
            r.message@ == message@,
            r.details is None,
    {
        ApiError {
            status: 501,
            code: "not_implemented".to_owned(),
            message: message.to_owned(),
            details: None,
        }
    }

    /// Internal error: 500 `internal`; the detail goes to the logs, never to
    /// the client.
    pub fn internal() -> (r: Self)
        ensures
            r.status == 500,
            r.code@ == "internal"@,
            r.message@ == "Erreur interne"@,
            r.details is None,
    {
        ApiError {
            status: 500,
            code: "internal".to_owned(),
            message: "Erreur interne".to_owned(),
            details: None,
        }
    }
}

} // verus!
