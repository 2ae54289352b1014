//! Response bodies and query parameters of the mobile API, and the rules by
//! which the handlers read their query parameters.
use vstd::prelude::*;

use crate::decimal::{parse_isize, parse_isize_spec, parse_usize, parse_usize_spec};
use crate::text::{opt_chars, opt_text, owned, string_of, trim, trim_chars};

verus! {

/// Error body of the admin endpoints.
#[derive(Debug)]
pub struct AdminErrorResponse {
    pub error: String,
}

impl AdminErrorResponse {
    /// A body carrying the message `error`.
    pub fn new(error: &str) -> (r: Self)
        ensures
            r.error@ == error@,
    {
        AdminErrorResponse { error: owned(error) }
    }
}

/// An admin error: an HTTP status code and its body.
#[derive(Debug)]
pub struct AdminError {
    pub status: u16,
    pub body: AdminErrorResponse,
}

/// The `400 Bad Request` admin error with message `message`.
pub open spec fn is_bad_request(e: AdminError, message: Seq<char>) -> bool {
    e.status == 400 && e.body.error@ == message
}

fn bad_request(message: &str) -> (e: AdminError)
    ensures
        is_bad_request(e, message@),
{
    AdminError { status: 400, body: AdminErrorResponse::new(message) }
}

/// `{"ok": ...}` body of the admin, auth and push endpoints.
#[derive(Debug)]
pub struct OkResponse {
    pub ok: bool,
}

/// Error body of the auth, profile and push endpoints.
#[derive(Debug)]
pub struct ErrorResponse {
    pub error: String,
}

/// Paging parameters of admin list endpoints.
#[derive(Debug)]
pub struct PageQuery {
    pub q: Option<String>,
    pub limit: Option<String>,
    pub offset: Option<String>,
}

/// The `ref` parameter of admin detail endpoints.
#[derive(Debug)]
pub struct RefQuery {
    pub ref_: Option<String>,
}

/// The `ref` and `item_code` parameters of admin item endpoints.
#[derive(Debug)]
pub struct RefItemQuery {
    pub ref_: Option<String>,
    pub item_code: Option<String>,
}

/// Search parameters of the admin item catalog.
#[derive(Debug)]
pub struct ItemQuery {
    pub q: Option<String>,
    pub parent: Option<String>,
    pub group: Option<String>,
    pub limit: Option<String>,
    pub offset: Option<String>,
}

/// Query of the customer status-details endpoint.
#[derive(Debug)]
pub struct CustomerStatusDetailsQuery {
    pub kind: Option<String>,
}

/// Query of the customer delivery-detail endpoint.
#[derive(Debug)]
pub struct CustomerDetailQuery {
    pub delivery_note_id: Option<String>,
}

/// Query of the notification detail and comment endpoints.
#[derive(Debug)]
pub struct NotificationDetailQuery {
    pub receipt_id: Option<String>,
}

/// Query of the avatar view endpoint.
#[derive(Debug)]
pub struct AvatarViewQuery {
    pub token: Option<String>,
}

/// Body of the profile update request.
#[derive(Debug)]
pub struct ProfileUpdateRequest {
    pub nickname: String,
}

/// Query of the push-token delete request.
#[derive(Debug)]
pub struct PushTokenDeleteQuery {
    pub token: Option<String>,
}

/// Query of the rezka source lookup.
#[derive(Debug)]
pub struct RezkaSourceQuery {
    pub barcode: Option<String>,
}

/// Query of the stock entry lookup.
#[derive(Debug)]
pub struct StockEntryLookupQuery {
    pub barcode: Option<String>,
    pub epc: Option<String>,
    pub limit: Option<String>,
}

/// Query of the supplier status breakdown.
#[derive(Debug)]
pub struct SupplierStatusBreakdownQuery {
    pub kind: Option<String>,
}

/// Query of the supplier status details.
#[derive(Debug)]
pub struct SupplierStatusDetailsQuery {
    pub kind: Option<String>,
    pub item_code: Option<String>,
}

/// Query of the supplier item search.
#[derive(Debug)]
pub struct SupplierItemsQuery {
    pub q: Option<String>,
}

/// The trimmed `ref` parameter; `400 "ref is required"` when it is absent or
/// blank.
pub fn required_ref(value: Option<&str>) -> (r: Result<String, AdminError>)
    ensures
        match r {
            Ok(s) => trim(opt_text(value)).len() > 0 && s@ == trim(opt_text(value)),
            Err(e) => trim(opt_text(value)).len() == 0 && is_bad_request(e, "ref is required"@),
        },
{
    let raw = opt_chars(value);
    let t = trim_chars(raw.as_slice());
    if t.len() == 0 {
        Err(bad_request("ref is required"))
    } else {
        Ok(string_of(t.as_slice()))
    }
}

/// The trimmed `ref` and `item_code` parameters; `400 "ref and item_code are
/// required"` when either is absent or blank.
pub fn required_ref_item(ref_: Option<&str>, item_code: Option<&str>) -> (r: Result<
    (String, String),
    AdminError,
>)
    ensures
        match r {
            Ok(p) => trim(opt_text(ref_)).len() > 0 && trim(opt_text(item_code)).len() > 0 && p.0@
                == trim(opt_text(ref_)) && p.1@ == trim(opt_text(item_code)),
            Err(e) => (trim(opt_text(ref_)).len() == 0 || trim(opt_text(item_code)).len() == 0)
                && is_bad_request(e, "ref and item_code are required"@),
        },
{
    let r = trim_chars(opt_chars(ref_).as_slice());
    let i = trim_chars(opt_chars(item_code).as_slice());
    if r.len() == 0 || i.len() == 0 {
        Err(bad_request("ref and item_code are required"))
    } else {
        Ok((string_of(r.as_slice()), string_of(i.as_slice())))
    }
}

/// The value that `optional_search_limit` gives.
pub open spec fn search_limit_spec(value: Option<&str>, default: usize, max: usize) -> usize {
    match parse_usize_spec(trim(opt_text(value))) {
        Some(limit) => if limit > 0 && max > 0 && limit > max {
            max
        } else if limit > 0 {
            limit as usize
        } else {
            default
        },
        None => default,
    }
}

/// A search limit: the parsed positive value, capped at `max` when `max` is
/// positive; `default` when absent, unparsable or zero.
pub fn optional_search_limit(value: Option<&str>, default: usize, max: usize) -> (r: usize)
    ensures
        r == search_limit_spec(value, default, max),
{
    let t = trim_chars(opt_chars(value).as_slice());
    match parse_usize(t.as_slice()) {
        Some(limit) => {
            if limit > 0 && max > 0 && limit > max {
                max
            } else if limit > 0 {
                limit
            } else {
                default
            }
        },
        None => default,
    }
}

/// The parsed value of `t`, trimmed, when it is a positive integer, else
/// `default`.
pub open spec fn positive_text_spec(t: Seq<char>, default: usize) -> usize {
    match parse_usize_spec(trim(t)) {
        Some(v) => if v > 0 {
            v as usize
        } else {
            default
        },
        None => default,
    }
}

/// The value that `positive_int` gives.
pub open spec fn positive_int_spec(value: Option<&str>, default: usize) -> usize {
    positive_text_spec(opt_text(value), default)
}

/// The parsed value when it is a positive integer, else `default`.
pub fn positive_int(value: Option<&str>, default: usize) -> (r: usize)
    ensures
        r == positive_int_spec(value, default),
{
    let t = trim_chars(opt_chars(value).as_slice());
    match parse_usize(t.as_slice()) {
        Some(v) => if v > 0 {
            v
        } else {
            default
        },
        None => default,
    }
}

/// The stock-entry lookup limit: the parsed value when positive, else
/// `fallback`.
pub fn parse_positive_int(raw: Option<&str>, fallback: usize) -> (r: usize)
    ensures
        r == positive_int_spec(raw, fallback),
{
    positive_int(raw, fallback)
}

/// The value that `optional_offset` gives.
pub open spec fn offset_spec(value: Option<&str>) -> usize {
    match parse_isize_spec(trim(opt_text(value))) {
        Some(v) => if v >= 0 {
            v as usize
        } else {
            0
        },
        None => 0,
    }
}

/// A list offset: the parsed value when it is a non-negative `isize`, else 0.
pub fn optional_offset(value: Option<&str>) -> (r: usize)
    ensures
        r == offset_spec(value),
{
    let t = trim_chars(opt_chars(value).as_slice());
    match parse_isize(t.as_slice()) {
        Some(v) => if v >= 0 {
            v as usize
        } else {
            0
        },
        None => 0,
    }
}

} // verus!
