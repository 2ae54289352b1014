//! The rezka (roll split) endpoints: choosing the source stock entry of a
//! split from a barcode lookup, and the error bodies of those endpoints.
use vstd::prelude::*;

use crate::text::{owned, string_of, trim, trim_str, trimmed_string};
use crate::werka::WerkaPortError;

verus! {

/// Error body of the rezka endpoints.
#[derive(Debug)]
pub struct RezkaErrorResponse {
    pub ok: bool,
    pub error: String,
    pub detail: String,
}

impl RezkaErrorResponse {
    /// A failed response with code `error` and message `detail`.
    pub fn new(error: &str, detail: &str) -> (r: Self)
        ensures
            !r.ok,
            r.error@ == error@,
            r.detail@ == detail@,
    {
        RezkaErrorResponse { ok: false, error: owned(error), detail: owned(detail) }
    }
}

/// One stock entry line found by a barcode lookup. The quantity is carried
/// as `Q`; the library never computes with it.
#[derive(Debug)]
pub struct StockEntryBarcodeEntry<Q> {
    pub stock_entry_name: String,
    pub stock_entry_type: String,
    pub doc_status: i64,
    pub status: String,
    pub company: String,
    pub posting_date: String,
    pub posting_time: String,
    pub creation: String,
    pub modified: String,
    pub remarks: String,
    pub line_index: i64,
    pub item_code: String,
    pub item_name: String,
    pub qty: Q,
    pub uom: String,
    pub stock_uom: String,
    pub barcode: String,
    pub source_warehouse: String,
    pub target_warehouse: String,
}

/// The stock entry line that a rezka split consumes.
#[derive(Debug)]
pub struct RezkaSourceEntry<Q> {
    pub barcode: String,
    pub stock_entry_name: String,
    pub line_index: i64,
    pub item_code: String,
    pub item_name: String,
    pub qty: Q,
    pub uom: String,
    pub warehouse: String,
    pub company: String,
}

/// The first of three texts that is not blank, trimmed; `default` when both
/// others are blank.
pub open spec fn first_non_empty_spec(value: Seq<char>, fallback: Seq<char>, default: Seq<char>) -> Seq<char> {
    if trim(value).len() > 0 {
        trim(value)
    } else if trim(fallback).len() > 0 {
        trim(fallback)
    } else {
        default
    }
}

/// `value` trimmed, or else `fallback` trimmed, or else `default`.
pub fn first_non_empty(value: &str, fallback: &str, default: &str) -> (r: String)
    ensures
        r@ == first_non_empty_spec(value@, fallback@, default@),
{
    let v = trim_str(value);
    if v.len() > 0 {
        return string_of(v.as_slice());
    }
    let f = trim_str(fallback);
    if f.len() > 0 {
        string_of(f.as_slice())
    } else {
        owned(default)
    }
}

/// The warehouse of a stock entry line: its target warehouse, or its source
/// warehouse when it has no target, trimmed.
pub open spec fn entry_warehouse(target: Seq<char>, source: Seq<char>) -> Seq<char> {
    if trim(target).len() == 0 {
        trim(source)
    } else {
        trim(target)
    }
}

/// Whether a stock entry line can feed a split: barcode, item and
/// warehouse present and a quantity above zero.
pub open spec fn usable_source<Q>(entry: StockEntryBarcodeEntry<Q>, qty_above_zero: bool) -> bool {
    &&& trim(entry.barcode@).len() > 0
    &&& trim(entry.item_code@).len() > 0
    &&& entry_warehouse(entry.target_warehouse@, entry.source_warehouse@).len() > 0
    &&& qty_above_zero
}

/// The split source made of a stock entry line, or `None` when the line has
/// no barcode, item or warehouse, or its quantity is not above zero.
/// `qty_above_zero` is the outcome of the quantity test `!(qty <= 0.0)`.
pub fn source_entry_from_stock_entry<Q>(entry: StockEntryBarcodeEntry<Q>, qty_above_zero: bool) -> (r: Option<
    RezkaSourceEntry<Q>,
>)
    ensures
        r is Some <==> usable_source(entry, qty_above_zero),
        r matches Some(s) ==> {
            &&& s.barcode@ == trim(entry.barcode@)
            &&& s.stock_entry_name@ == trim(entry.stock_entry_name@)
            &&& s.line_index == entry.line_index
            &&& s.item_code@ == trim(entry.item_code@)
            &&& s.item_name@ == trim(entry.item_name@)
            &&& s.qty == entry.qty
            &&& s.uom@ == first_non_empty_spec(entry.uom@, entry.stock_uom@, seq!['K', 'g'])
            &&& s.warehouse@ == entry_warehouse(entry.target_warehouse@, entry.source_warehouse@)
            &&& s.company@ == trim(entry.company@)
        },
{
    let target = trim_str(entry.target_warehouse.as_str());
    let warehouse = if target.len() == 0 {
        trim_str(entry.source_warehouse.as_str())
    } else {
        target
    };
    let barcode = trim_str(entry.barcode.as_str());
    let item_code = trim_str(entry.item_code.as_str());
    if barcode.len() == 0 || item_code.len() == 0 || warehouse.len() == 0 || !qty_above_zero {
        return None;
    }
    let kg = "Kg";
    proof {
        reveal_strlit("Kg");
    }
    let uom = first_non_empty(entry.uom.as_str(), entry.stock_uom.as_str(), kg);
    Some(
        RezkaSourceEntry {
            barcode: string_of(barcode.as_slice()),
            stock_entry_name: trimmed_string(entry.stock_entry_name.as_str()),
            line_index: entry.line_index,
            item_code: string_of(item_code.as_slice()),
            item_name: trimmed_string(entry.item_name.as_str()),
            qty: entry.qty,
            uom,
            warehouse: string_of(warehouse.as_slice()),
            company: trimmed_string(entry.company.as_str()),
        },
    )
}

/// Index of the first submitted line (`doc_status == 1`), if any.
pub fn first_submitted_entry<Q>(entries: &[StockEntryBarcodeEntry<Q>]) -> (r: Option<usize>)
    ensures
        match r {
            Some(i) => i < entries@.len() && entries@[i as int].doc_status == 1 && forall|j: int|
                0 <= j < i ==> #[trigger] entries@[j].doc_status != 1,
            None => forall|j: int| 0 <= j < entries@.len() ==> #[trigger] entries@[j].doc_status != 1,
        },
{
    let mut i: usize = 0;
    while i < entries.len()
        invariant
            i <= entries@.len(),
            forall|j: int| 0 <= j < i ==> #[trigger] entries@[j].doc_status != 1,
        decreases entries@.len() - i,
    {
        if entries[i].doc_status == 1 {
            return Some(i);
        }
        i = i + 1;
    }
    None
}

/// Why no split source could be found for a barcode.
#[derive(PartialEq, Eq, Structural, Clone, Copy, Debug)]
pub enum RezkaSourceFailure {
    BarcodeRequired,
    LookupUnavailable,
    NotFound,
    SourceInvalid,
}

/// HTTP status, error code and message of a source failure.
pub open spec fn source_failure_parts(f: RezkaSourceFailure) -> (u16, Seq<char>, Seq<char>) {
    match f {
        RezkaSourceFailure::BarcodeRequired => (400, "barcode_required"@, "barcode is required"@),
        RezkaSourceFailure::LookupUnavailable => (
            503,
            "direct_db_lookup_unavailable"@,
            "direct db lookup unavailable"@,
        ),
        RezkaSourceFailure::NotFound => (404, "stock_entry_not_found"@, "stock entry not found"@),
        RezkaSourceFailure::SourceInvalid => (
            400,
            "source_entry_invalid"@,
            "source entry warehouse/item/qty is invalid"@,
        ),
    }
}

impl RezkaSourceFailure {
    /// The status and body that answer this failure.
    pub fn response(self) -> (r: (u16, RezkaErrorResponse))
        ensures
            r.0 == source_failure_parts(self).0,
            !r.1.ok,
            r.1.error@ == source_failure_parts(self).1,
            r.1.detail@ == source_failure_parts(self).2,
    {
        match self {
            RezkaSourceFailure::BarcodeRequired => (
                400,
                RezkaErrorResponse::new("barcode_required", "barcode is required"),
            ),
            RezkaSourceFailure::LookupUnavailable => (
                503,
                RezkaErrorResponse::new(
                    "direct_db_lookup_unavailable",
                    "direct db lookup unavailable",
                ),
            ),
            RezkaSourceFailure::NotFound => (
                404,
                RezkaErrorResponse::new("stock_entry_not_found", "stock entry not found"),
            ),
            RezkaSourceFailure::SourceInvalid => (
                400,
                RezkaErrorResponse::new(
                    "source_entry_invalid",
                    "source entry warehouse/item/qty is invalid",
                ),
            ),
        }
    }
}

/// The barcode to look up, trimmed, or `BarcodeRequired` when it is blank.
pub fn source_barcode(barcode: &str) -> (r: Result<String, RezkaSourceFailure>)
    ensures
        trim(barcode@).len() == 0 <==> r == Err::<String, RezkaSourceFailure>(
            RezkaSourceFailure::BarcodeRequired,
        ),
        r matches Ok(b) ==> b@ == trim(barcode@),
{
    let b = trim_str(barcode);
    if b.len() == 0 {
        Err(RezkaSourceFailure::BarcodeRequired)
    } else {
        Ok(string_of(b.as_slice()))
    }
}

/// The failure that answers a barcode lookup error: an invalid input is a
/// missing barcode, anything else means the lookup is unavailable.
pub fn lookup_failure(error: &WerkaPortError) -> (r: RezkaSourceFailure)
    ensures
        r == (if *error is InvalidInput {
            RezkaSourceFailure::BarcodeRequired
        } else {
            RezkaSourceFailure::LookupUnavailable
        }),
{
    match error {
        WerkaPortError::InvalidInput => RezkaSourceFailure::BarcodeRequired,
        _ => RezkaSourceFailure::LookupUnavailable,
    }
}

} // verus!
