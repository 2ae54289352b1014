//! The records the mobile API passes around: principals, dispatch records
//! and the Werka archive.
use vstd::prelude::*;

verus! {

/// The role a signed-in principal acts in.
#[derive(PartialEq, Eq, Structural, Clone, Copy, Debug)]
pub enum PrincipalRole {
    Supplier,
    Werka,
    Customer,
    Aparatchi,
    Admin,
}

/// A signed-in user as the session holds it.
#[derive(Debug)]
pub struct Principal {
    pub role: PrincipalRole,
    pub display_name: String,
    pub legal_name: String,
    pub ref_: String,
    pub phone: String,
    pub avatar_url: String,
}

/// A dispatch (or receipt) record shown in lists and pushed to devices.
///
/// `sent_qty`, `accepted_qty` and `amount` hold the decimal rendering of the
/// quantities that the caller wants shown: four decimals for push data, the
/// `%.4g` form for archive reports.
#[derive(Debug)]
pub struct DispatchRecord {
    pub id: String,
    pub record_type: String,
    pub supplier_ref: String,
    pub supplier_name: String,
    pub item_code: String,
    pub item_name: String,
    pub uom: String,
    pub sent_qty: String,
    pub accepted_qty: String,
    pub amount: String,
    pub currency: String,
    pub note: String,
    pub event_type: String,
    pub highlight: String,
    pub status: String,
    pub created_label: String,
}

/// A total quantity of one unit of measure in an archive report; `qty` is
/// its rendering.
#[derive(Debug)]
pub struct ArchiveTotalByUom {
    pub uom: String,
    pub qty: String,
}

/// The summary of an archive report.
#[derive(Debug)]
pub struct WerkaArchiveSummary {
    pub record_count: u64,
    pub totals_by_uom: Vec<ArchiveTotalByUom>,
}

/// A Werka archive report: the records of one kind over a period.
#[derive(Debug)]
pub struct WerkaArchiveResponse {
    pub kind: String,
    pub period: String,
    pub from: String,
    pub to: String,
    pub summary: WerkaArchiveSummary,
    pub items: Vec<DispatchRecord>,
}

} // verus!
