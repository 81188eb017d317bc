//! What the HTTP service answers where it cannot answer with lectures.
//!
//! Routing and rendering are the caller's. This file decides which degree a
//! request means, and with which status a request is refused.

use crate::datasource::ErrorKind;
use crate::datasource::SourceError;
use crate::entities::find_degree;
use crate::entities::Degrees;
use crate::entities::StaticDegree;
use vstd::prelude::*;

verus! {

/// Status of a request for a degree that the catalogue does not have.
pub const NOT_FOUND: u16 = 404;

/// Status of a request that failed inside the service.
pub const INTERNAL_ERROR: u16 = 500;

/// Status of a request for lectures that no source could give.
pub const BAD_GATEWAY: u16 = 502;

/// How the refusal of a request for an unknown degree begins.
pub const UNKNOWN_DEGREE: &'static str = "No degree program with this ID found: ";

/// A request that is refused: the status code and what to say.
#[derive(Debug)]
pub struct Refusal {
    pub status: u16,
    pub message: String,
}

/// The status with which a load that failed with `kind` is refused: a load
/// that no source answered is a failure behind the service.
pub open spec fn status_of(kind: ErrorKind) -> u16 {
    if kind == ErrorKind::NoSource {
        BAD_GATEWAY
    } else {
        INTERNAL_ERROR
    }
}

/// The degree that a request with the id `id` means; a refusal with the
/// status `NOT_FOUND` where the catalogue has no such degree.
pub fn requested_degree(id: &str) -> (degree: Result<StaticDegree, Refusal>)
    ensures
        match degree {
            Ok(degree) => degree.id@ == id@ && Degrees::catalog().contains(degree),
            Err(refusal) => {
                &&& !crate::entities::in_catalog(id@)
                &&& refusal.status == NOT_FOUND
                &&& refusal.message@ == UNKNOWN_DEGREE@ + id@
            },
        },
{
    match find_degree(id) {
        Some(degree) => Ok(degree),
        None => Err(
            Refusal { status: NOT_FOUND, message: String::from_str(UNKNOWN_DEGREE).concat(id) },
        ),
    }
}

/// The refusal of a request whose load failed with `error`.
pub fn refusal_of(error: &SourceError) -> (refusal: Refusal)
    ensures
        refusal.status == status_of(error.kind),
        refusal.message@ == error.message@,
        500 <= refusal.status < 600,
{
    let status = match error.kind {
        ErrorKind::NoSource => BAD_GATEWAY,
        _ => INTERNAL_ERROR,
    };
    Refusal { status, message: error.message.clone() }
}

} // verus!
