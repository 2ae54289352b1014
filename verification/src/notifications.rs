//! Notification detail and comments: the receipt parameter, how a failed
//! request is answered, and the Werka event a supplier's acknowledgment
//! raises.
use vstd::prelude::*;

use crate::api::ErrorResponse;
use crate::decimal::{decimal, push_decimal};
use crate::models::{DispatchRecord, PrincipalRole};
use crate::text::{
    chars_of, contains_chars, has_prefix, occurs_in, owned, push_all, push_str_chars, string_of,
    to_lowercase, trim, trim_str, trimmed_string, unicode_lowercase,
};

verus! {

fn error_body(status: u16, error: &str) -> (r: (u16, ErrorResponse))
    ensures
        r.0 == status,
        r.1.error@ == error@,
{
    (status, ErrorResponse { error: owned(error) })
}

/// The `receipt_id` parameter as given, or `400 "receipt_id is required"`
/// when it is absent or blank.
pub fn receipt_id_param(receipt_id: Option<&str>) -> (r: Result<String, (u16, ErrorResponse)>)
    ensures
        match receipt_id {
            Some(s) if trim(s@).len() > 0 => r matches Ok(v) && v@ == s@,
            _ => r matches Err(e) && e.0 == 400 && e.1.error@ == "receipt_id is required"@,
        },
{
    match receipt_id {
        Some(s) => {
            let t = trim_str(s);
            if t.len() > 0 {
                Ok(owned(s))
            } else {
                Err(error_body(400, "receipt_id is required"))
            }
        },
        None => Err(error_body(400, "receipt_id is required")),
    }
}

/// The answer to a notification request that failed: `403 "forbidden"`
/// when the backend's error text mentions `unauthorized`, else `500` with
/// `failure`. `error_text` is `None` when the backend found nothing.
pub fn notification_failure(error_text: Option<&str>, failure: &str) -> (r: (u16, ErrorResponse))
    ensures
        match error_text {
            Some(t) if occurs_in(t@, "unauthorized"@) => r.0 == 403 && r.1.error@ == "forbidden"@,
            _ => r.0 == 500 && r.1.error@ == failure@,
        },
{
    match error_text {
        Some(t) => {
            let text = chars_of(t);
            let needle = chars_of("unauthorized");
            if contains_chars(text.as_slice(), needle.as_slice()) {
                error_body(403, "forbidden")
            } else {
                error_body(500, failure)
            }
        },
        None => error_body(500, failure),
    }
}

/// Whether a comment is a supplier's acknowledgment: a supplier wrote it and
/// its trimmed, lowercased text starts with `tasdiqlayman`.
pub open spec fn supplier_ack_spec(role: PrincipalRole, message: Seq<char>) -> bool {
    role == PrincipalRole::Supplier && has_prefix(unicode_lowercase(trim(message)), "tasdiqlayman"@)
}

/// Whether the comment `message` by a `role` acknowledges a return.
pub fn is_supplier_ack(role: PrincipalRole, message: &str) -> (r: bool)
    ensures
        r == supplier_ack_spec(role, message@),
{
    if role != PrincipalRole::Supplier {
        return false;
    }
    let t = trimmed_string(message);
    let lower = to_lowercase(t.as_str());
    let l = chars_of(lower.as_str());
    let p = chars_of("tasdiqlayman");
    crate::text::starts_with_chars(l.as_slice(), p.as_slice())
}

/// The decimal rendering of an integer, with a leading `-` when negative.
pub open spec fn signed_decimal(n: int) -> Seq<char> {
    if n < 0 {
        seq!['-'] + decimal((-n) as nat)
    } else {
        decimal(n as nat)
    }
}

/// The id of the acknowledgment event of record `id` raised at `now`
/// (Unix seconds).
pub open spec fn supplier_ack_id(id: Seq<char>, now: i64) -> Seq<char> {
    "supplier_ack:"@ + trim(id) + ":"@ + signed_decimal(now as int)
}

/// The message shown for a supplier's acknowledgment.
pub open spec fn supplier_ack_highlight() -> Seq<char> {
    "Supplier mahsulotni qaytarganingizni tasdiqladi"@
}

/// The acknowledgment event of `record` raised at `now` (Unix seconds): the
/// record with a new id, event type `supplier_ack`, the acknowledgment
/// message as highlight and no note.
pub fn supplier_ack_record(record: &DispatchRecord, now: i64) -> (r: DispatchRecord)
    ensures
        r.id@ == supplier_ack_id(record.id@, now),
        r.event_type@ == "supplier_ack"@,
        r.highlight@ == supplier_ack_highlight(),
        r.note@.len() == 0,
        r.record_type@ == record.record_type@,
        r.supplier_ref@ == record.supplier_ref@,
        r.supplier_name@ == record.supplier_name@,
        r.item_code@ == record.item_code@,
        r.item_name@ == record.item_name@,
        r.uom@ == record.uom@,
        r.sent_qty@ == record.sent_qty@,
        r.accepted_qty@ == record.accepted_qty@,
        r.amount@ == record.amount@,
        r.currency@ == record.currency@,
        r.status@ == record.status@,
        r.created_label@ == record.created_label@,
{
    let mut id = chars_of("supplier_ack:");
    let t = trim_str(record.id.as_str());
    push_all(&mut id, t.as_slice());
    push_str_chars(&mut id, ":");
    if now < 0 {
        push_str_chars(&mut id, "-");
        let magnitude: u128 = (0i128 - (now as i128)) as u128;
        push_decimal(&mut id, magnitude);
        assert("-"@ =~= seq!['-']) by {
            reveal_strlit("-");
        }
        assert(id@ =~= "supplier_ack:"@ + trim(record.id@) + ":"@ + (seq!['-'] + decimal(
            (-(now as int)) as nat,
        )));
    } else {
        push_decimal(&mut id, now as u128);
    }
    DispatchRecord {
        id: string_of(id.as_slice()),
        record_type: record.record_type.clone(),
        supplier_ref: record.supplier_ref.clone(),
        supplier_name: record.supplier_name.clone(),
        item_code: record.item_code.clone(),
        item_name: record.item_name.clone(),
        uom: record.uom.clone(),
        sent_qty: record.sent_qty.clone(),
        accepted_qty: record.accepted_qty.clone(),
        amount: record.amount.clone(),
        currency: record.currency.clone(),
        note: String::new(),
        event_type: owned("supplier_ack"),
        highlight: owned("Supplier mahsulotni qaytarganingizni tasdiqladi"),
        status: record.status.clone(),
        created_label: record.created_label.clone(),
    }
}

/// The current time in Unix seconds, read with
/// `time::OffsetDateTime::now_utc().unix_timestamp()`. Nothing is claimed of
/// the value: it depends on the clock.
#[verifier::external_body]
fn unix_now_seconds() -> (r: i64) {
    time::OffsetDateTime::now_utc().unix_timestamp()
}

/// The acknowledgment event of `record`, raised now.
pub fn supplier_ack_event(record: &DispatchRecord) -> (r: DispatchRecord)
    ensures
        exists|now: i64| r.id@ == supplier_ack_id(record.id@, now),
        r.event_type@ == "supplier_ack"@,
        r.highlight@ == supplier_ack_highlight(),
        r.note@.len() == 0,
        r.record_type@ == record.record_type@,
        r.supplier_ref@ == record.supplier_ref@,
        r.supplier_name@ == record.supplier_name@,
        r.item_code@ == record.item_code@,
        r.item_name@ == record.item_name@,
        r.uom@ == record.uom@,
        r.sent_qty@ == record.sent_qty@,
        r.accepted_qty@ == record.accepted_qty@,
        r.amount@ == record.amount@,
        r.currency@ == record.currency@,
        r.status@ == record.status@,
        r.created_label@ == record.created_label@,
{
    let now = unix_now_seconds();
    supplier_ack_record(record, now)
}

} // verus!
