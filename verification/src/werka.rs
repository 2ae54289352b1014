//! The werka (warehouse) endpoints: customer issue requests, the stock entry
//! barcode lookup, and how the errors of the warehouse backend are answered.
use vstd::prelude::*;

use crate::api::{ErrorResponse, positive_int, positive_text_spec, StockEntryLookupQuery};
use crate::text::{opt_chars, opt_string_text, opt_text, owned, string_of, trim, trim_chars};

verus! {

/// Errors of the warehouse backend.
#[derive(Debug)]
pub enum WerkaPortError {
    InvalidInput,
    NotFound,
    DirectDbLookupUnavailable,
    LookupFailed,
    WriteFailed(String),
    InsufficientStock,
    DuplicateCustomerIssueSource,
}

/// Error body of the customer issue endpoints.
#[derive(Debug)]
pub struct IssueErrorResponse {
    pub error: String,
    pub error_code: Option<String>,
}

/// The stock entry line that a customer issue is taken from.
#[derive(Debug)]
pub struct WerkaCustomerIssueSource {
    pub barcode: String,
    pub stock_entry_name: String,
    pub line_index: i64,
}

impl WerkaCustomerIssueSource {
    /// The empty source: no barcode, no stock entry, line 0.
    pub fn empty() -> (r: Self)
        ensures
            r.barcode@.len() == 0,
            r.stock_entry_name@.len() == 0,
            r.line_index == 0,
    {
        WerkaCustomerIssueSource { barcode: String::new(), stock_entry_name: String::new(), line_index: 0 }
    }
}

/// A customer issue as the client sends it. The quantity is carried as `Q`.
#[derive(Debug)]
pub struct WerkaCustomerIssueCreateRequest<Q> {
    pub customer_ref: String,
    pub item_code: String,
    pub qty: Q,
    pub source_barcode: String,
    pub source_stock_entry: String,
    pub source_line_index: i64,
}

/// A customer issue as the warehouse backend takes it.
#[derive(Debug)]
pub struct WerkaCustomerIssueCreateInput<Q> {
    pub customer_ref: String,
    pub item_code: String,
    pub qty: Q,
    pub source: WerkaCustomerIssueSource,
}

/// The backend input of a single customer issue request.
pub open spec fn issue_input<Q>(request: WerkaCustomerIssueCreateRequest<Q>) -> WerkaCustomerIssueCreateInput<Q> {
    WerkaCustomerIssueCreateInput {
        customer_ref: request.customer_ref,
        item_code: request.item_code,
        qty: request.qty,
        source: WerkaCustomerIssueSource {
            barcode: request.source_barcode,
            stock_entry_name: request.source_stock_entry,
            line_index: request.source_line_index,
        },
    }
}

/// The backend input of a single customer issue: the request's fields, with
/// its source line.
pub fn customer_issue_input_from_request<Q>(request: WerkaCustomerIssueCreateRequest<Q>) -> (r:
    WerkaCustomerIssueCreateInput<Q>)
    ensures
        r == issue_input(request),
        r.customer_ref@ == request.customer_ref@,
        r.item_code@ == request.item_code@,
        r.qty == request.qty,
        r.source.barcode@ == request.source_barcode@,
        r.source.stock_entry_name@ == request.source_stock_entry@,
        r.source.line_index == request.source_line_index,
{
    WerkaCustomerIssueCreateInput {
        customer_ref: request.customer_ref,
        item_code: request.item_code,
        qty: request.qty,
        source: WerkaCustomerIssueSource {
            barcode: request.source_barcode,
            stock_entry_name: request.source_stock_entry,
            line_index: request.source_line_index,
        },
    }
}

/// The backend input of one line of a customer issue batch: the request's
/// fields with an empty source, whatever source the line named.
pub fn customer_issue_batch_input_from_request<Q>(request: WerkaCustomerIssueCreateRequest<Q>) -> (r:
    WerkaCustomerIssueCreateInput<Q>)
    ensures
        r.customer_ref@ == request.customer_ref@,
        r.item_code@ == request.item_code@,
        r.qty == request.qty,
        r.source.barcode@.len() == 0,
        r.source.stock_entry_name@.len() == 0,
        r.source.line_index == 0,
{
    WerkaCustomerIssueCreateInput {
        customer_ref: request.customer_ref,
        item_code: request.item_code,
        qty: request.qty,
        source: WerkaCustomerIssueSource::empty(),
    }
}

/// Status, message and error code that answer a failed customer issue;
/// `None` stands for a backend that created nothing.
pub open spec fn issue_failure_parts(error: Option<WerkaPortError>) -> (u16, Seq<char>, Option<Seq<char>>) {
    match error {
        Some(WerkaPortError::InsufficientStock) => (
            409,
            "insufficient stock"@,
            Some("insufficient_stock"@),
        ),
        Some(WerkaPortError::DuplicateCustomerIssueSource) => (
            409,
            "duplicate customer issue source"@,
            Some("duplicate_customer_issue_source"@),
        ),
        _ => (500, "werka customer issue create failed"@, None),
    }
}

/// The view of an optional error code.
pub open spec fn opt_string_view(v: Option<String>) -> Option<Seq<char>> {
    match v {
        Some(s) => Some(s@),
        None => None,
    }
}

fn issue_error(status: u16, error: &str, code: Option<&str>) -> (r: (u16, IssueErrorResponse))
    ensures
        r.0 == status,
        r.1.error@ == error@,
        opt_string_view(r.1.error_code) == match code {
            Some(c) => Some(c@),
            None => None::<Seq<char>>,
        },
{
    let error_code = match code {
        Some(c) => Some(owned(c)),
        None => None,
    };
    (status, IssueErrorResponse { error: owned(error), error_code })
}

/// The answer to a single customer issue that failed: a conflict for
/// insufficient stock or a source already issued, a server error otherwise.
pub fn customer_issue_failure(error: Option<&WerkaPortError>) -> (r: (u16, IssueErrorResponse))
    ensures
        ({
            let parts = issue_failure_parts(
                match error {
                    Some(e) => Some(*e),
                    None => None,
                },
            );
            r.0 == parts.0 && r.1.error@ == parts.1 && opt_string_view(r.1.error_code) == parts.2
        }),
{
    match error {
        Some(WerkaPortError::InsufficientStock) => issue_error(
            409,
            "insufficient stock",
            Some("insufficient_stock"),
        ),
        Some(WerkaPortError::DuplicateCustomerIssueSource) => issue_error(
            409,
            "duplicate customer issue source",
            Some("duplicate_customer_issue_source"),
        ),
        _ => issue_error(500, "werka customer issue create failed", None),
    }
}

/// The answer to a failed customer issue batch, whatever the cause.
pub fn customer_issue_batch_failure() -> (r: (u16, IssueErrorResponse))
    ensures
        r.0 == 500,
        r.1.error@ == "werka customer issue create failed"@,
        r.1.error_code is None,
{
    issue_error(500, "werka customer issue create failed", None)
}

/// The barcode that a stock entry lookup searches: the `barcode` parameter
/// trimmed, or the `epc` parameter trimmed when the barcode is blank.
pub open spec fn lookup_barcode_spec(barcode: Seq<char>, epc: Seq<char>) -> Seq<char> {
    if trim(barcode).len() > 0 {
        trim(barcode)
    } else {
        trim(epc)
    }
}

fn opt_as_str(v: &Option<String>) -> (r: Option<&str>)
    ensures
        opt_text(r) == opt_string_text(*v),
{
    match v {
        Some(s) => Some(s.as_str()),
        None => None,
    }
}

/// The barcode and limit of a stock entry lookup, or `None` when both the
/// barcode and the EPC are blank (answered `400 "barcode is required"`).
/// The limit is the `limit` parameter when it is a positive integer, else 20.
pub fn stock_entry_lookup_params(query: &StockEntryLookupQuery) -> (r: Option<(String, usize)>)
    ensures
        ({
            let b = lookup_barcode_spec(opt_string_text(query.barcode), opt_string_text(query.epc));
            &&& r is None <==> b.len() == 0
            &&& r matches Some(p) ==> p.0@ == b && p.1 == positive_text_spec(
                opt_string_text(query.limit),
                20,
            )
        }),
{
    let barcode = trim_chars(opt_chars(opt_as_str(&query.barcode)).as_slice());
    let barcode = if barcode.len() == 0 {
        trim_chars(opt_chars(opt_as_str(&query.epc)).as_slice())
    } else {
        barcode
    };
    if barcode.len() == 0 {
        return None;
    }
    let limit = positive_int(opt_as_str(&query.limit), 20);
    Some((string_of(barcode.as_slice()), limit))
}

/// Status and message that answer a failed stock entry lookup; `None`
/// stands for a backend that could not run the lookup at all.
pub open spec fn lookup_failure_parts(error: Option<WerkaPortError>) -> (u16, Seq<char>) {
    match error {
        None => (503, "direct db lookup unavailable"@),
        Some(WerkaPortError::DirectDbLookupUnavailable) => (503, "direct db lookup unavailable"@),
        Some(WerkaPortError::InvalidInput) => (400, "barcode is required"@),
        Some(WerkaPortError::NotFound) => (404, "stock entry not found"@),
        _ => (500, "stock entry lookup failed"@),
    }
}

fn error_body(status: u16, error: &str) -> (r: (u16, ErrorResponse))
    ensures
        r.0 == status,
        r.1.error@ == error@,
{
    (status, ErrorResponse { error: owned(error) })
}

/// The answer to a stock entry lookup that found nothing usable.
pub fn stock_entry_lookup_failure(error: Option<&WerkaPortError>) -> (r: (u16, ErrorResponse))
    ensures
        ({
            let parts = lookup_failure_parts(
                match error {
                    Some(e) => Some(*e),
                    None => None,
                },
            );
            r.0 == parts.0 && r.1.error@ == parts.1
        }),
{
    match error {
        None => error_body(503, "direct db lookup unavailable"),
        Some(WerkaPortError::DirectDbLookupUnavailable) => error_body(
            503,
            "direct db lookup unavailable",
        ),
        Some(WerkaPortError::InvalidInput) => error_body(400, "barcode is required"),
        Some(WerkaPortError::NotFound) => error_body(404, "stock entry not found"),
        _ => error_body(500, "stock entry lookup failed"),
    }
}

} // verus!
