//! The customer endpoints: their parameters and how their failures are
//! answered.
use vstd::prelude::*;

use crate::api::ErrorResponse;
use crate::text::{opt_chars, opt_text, owned, string_of, trim, trim_chars};

verus! {

/// How a customer request failed: the backend found nothing, refused the
/// customer, rejected the input, or failed otherwise.
#[derive(PartialEq, Eq, Structural, Clone, Copy, Debug)]
pub enum CustomerFailure {
    Nothing,
    Unauthorized,
    InvalidInput,
    Other,
}

fn error_body(status: u16, error: &str) -> (r: (u16, ErrorResponse))
    ensures
        r.0 == status,
        r.1.error@ == error@,
{
    (status, ErrorResponse { error: owned(error) })
}

/// The trimmed `delivery_note_id` parameter, or `400 "delivery_note_id is
/// required"` when it is absent or blank.
pub fn delivery_note_id_param(value: Option<&str>) -> (r: Result<String, (u16, ErrorResponse)>)
    ensures
        trim(opt_text(value)).len() > 0 ==> (r matches Ok(v) && v@ == trim(opt_text(value))),
        trim(opt_text(value)).len() == 0 ==> (r matches Err(e) && e.0 == 400 && e.1.error@
            == "delivery_note_id is required"@),
{
    let t = trim_chars(opt_chars(value).as_slice());
    if t.len() == 0 {
        Err(error_body(400, "delivery_note_id is required"))
    } else {
        Ok(string_of(t.as_slice()))
    }
}

/// The trimmed `kind` parameter of the status details (empty when absent).
pub fn status_kind_param(value: Option<&str>) -> (r: String)
    ensures
        r@ == trim(opt_text(value)),
{
    let t = trim_chars(opt_chars(value).as_slice());
    string_of(t.as_slice())
}

/// The answer to a failed delivery detail request: `403` when the customer
/// was refused, `500 "customer detail failed"` otherwise.
pub fn customer_detail_failure(failure: CustomerFailure) -> (r: (u16, ErrorResponse))
    ensures
        failure == CustomerFailure::Unauthorized ==> r.0 == 403 && r.1.error@ == "forbidden"@,
        failure != CustomerFailure::Unauthorized ==> r.0 == 500 && r.1.error@
            == "customer detail failed"@,
{
    match failure {
        CustomerFailure::Unauthorized => error_body(403, "forbidden"),
        _ => error_body(500, "customer detail failed"),
    }
}

/// The answer to a failed delivery response: `403` when the customer was
/// refused, `400 "invalid input"` when the input was rejected, `500
/// "customer respond failed"` otherwise.
pub fn customer_respond_failure(failure: CustomerFailure) -> (r: (u16, ErrorResponse))
    ensures
        failure == CustomerFailure::Unauthorized ==> r.0 == 403 && r.1.error@ == "forbidden"@,
        failure == CustomerFailure::InvalidInput ==> r.0 == 400 && r.1.error@ == "invalid input"@,
        (failure == CustomerFailure::Nothing || failure == CustomerFailure::Other) ==> r.0 == 500
            && r.1.error@ == "customer respond failed"@,
{
    match failure {
        CustomerFailure::Unauthorized => error_body(403, "forbidden"),
        CustomerFailure::InvalidInput => error_body(400, "invalid input"),
        _ => error_body(500, "customer respond failed"),
    }
}

} // verus!
