//! The push notifications that the warehouse events raise: to which key
//! each goes, with which title and text, and for which recipient its data
//! is addressed.
use vstd::prelude::*;

use crate::models::{DispatchRecord, PrincipalRole};
use crate::text::{chars_of, owned, push_all, push_str_chars, string_of, trim, trim_str};

verus! {

/// A push notification: the recipient key, title and body, and the role and
/// reference its data is addressed to.
#[derive(Debug)]
pub struct PushMessage {
    pub key: String,
    pub title: String,
    pub body: String,
    pub target_role: PrincipalRole,
    pub target_ref: String,
}

/// The text of a push message: key, title, body, role, reference.
pub open spec fn message_view(m: PushMessage) -> (Seq<char>, Seq<char>, Seq<char>, PrincipalRole, Seq<char>) {
    (m.key@, m.title@, m.body@, m.target_role, m.target_ref@)
}

fn message(key: &str, title: &str, body: &str, target_role: PrincipalRole, target_ref: &str) -> (r:
    PushMessage)
    ensures
        message_view(r) == (key@, title@, body@, target_role, target_ref@),
{
    PushMessage {
        key: owned(key),
        title: owned(title),
        body: owned(body),
        target_role,
        target_ref: owned(target_ref),
    }
}

/// The Werka notification of a new supplier dispatch: titled with the
/// supplier's name, saying that `qty` of the item awaits acceptance. `qty`
/// is the rendering of the dispatched quantity.
pub fn dispatch_created_message(record: &DispatchRecord, qty: &str) -> (r: PushMessage)
    ensures
        message_view(r) == (
            "werka:werka"@,
            record.supplier_name@,
            record.item_code@ + " \u{2022} "@ + qty@ + " "@ + record.uom@ + " qabul kutmoqda."@,
            PrincipalRole::Werka,
            "werka"@,
        ),
{
    let mut body = chars_of(record.item_code.as_str());
    push_str_chars(&mut body, " \u{2022} ");
    push_str_chars(&mut body, qty);
    push_str_chars(&mut body, " ");
    push_str_chars(&mut body, record.uom.as_str());
    push_str_chars(&mut body, " qabul kutmoqda.");
    let text = string_of(body.as_slice());
    message("werka:werka", record.supplier_name.as_str(), text.as_str(), PrincipalRole::Werka, "werka")
}

/// The supplier's notification of a confirmed receipt: to the supplier's
/// key, titled with the item code, giving the new status.
pub fn receipt_confirmed_message(record: &DispatchRecord) -> (r: PushMessage)
    ensures
        message_view(r) == (
            "supplier:"@ + trim(record.supplier_ref@),
            record.item_code@,
            "Status: "@ + trim(record.status@),
            PrincipalRole::Supplier,
            record.supplier_ref@,
        ),
{
    let mut key = chars_of("supplier:");
    push_all(&mut key, trim_str(record.supplier_ref.as_str()).as_slice());
    let mut body = chars_of("Status: ");
    push_all(&mut body, trim_str(record.status.as_str()).as_slice());
    let key = string_of(key.as_slice());
    let body = string_of(body.as_slice());
    message(
        key.as_str(),
        record.item_code.as_str(),
        body.as_str(),
        PrincipalRole::Supplier,
        record.supplier_ref.as_str(),
    )
}

/// The Werka notification of a supplier's answer to an unannounced receipt.
pub fn unannounced_response_message(record: &DispatchRecord) -> (r: PushMessage)
    ensures
        message_view(r) == (
            "werka:werka"@,
            "Supplier javob berdi"@,
            record.note@,
            PrincipalRole::Werka,
            "werka"@,
        ),
{
    message("werka:werka", "Supplier javob berdi", record.note.as_str(), PrincipalRole::Werka, "werka")
}

/// The Werka notification of a supplier's acknowledgment event.
pub fn supplier_ack_message(record: &DispatchRecord) -> (r: PushMessage)
    ensures
        message_view(r) == (
            "werka:werka"@,
            "Supplier tasdiqladi"@,
            record.highlight@,
            PrincipalRole::Werka,
            "werka"@,
        ),
{
    message("werka:werka", "Supplier tasdiqladi", record.highlight.as_str(), PrincipalRole::Werka, "werka")
}

/// The notifications of a customer's answer to a delivery: one to Werka,
/// then one to the admin.
pub fn customer_response_messages(record: &DispatchRecord) -> (r: Vec<PushMessage>)
    ensures
        r@.len() == 2,
        message_view(r@[0]) == (
            "werka:werka"@,
            "Customer javob berdi"@,
            record.note@,
            PrincipalRole::Werka,
            "werka"@,
        ),
        message_view(r@[1]) == (
            "admin:admin"@,
            "Customer javob berdi"@,
            record.note@,
            PrincipalRole::Admin,
            "admin"@,
        ),
{
    let mut v: Vec<PushMessage> = Vec::new();
    v.push(message("werka:werka", "Customer javob berdi", record.note.as_str(), PrincipalRole::Werka, "werka"));
    v.push(message("admin:admin", "Customer javob berdi", record.note.as_str(), PrincipalRole::Admin, "admin"));
    v
}

/// The customer's notification of goods issued to them: to the customer's
/// key, saying that `qty` of the item was sent. `qty` is the rendering of
/// the issued quantity.
pub fn customer_issue_message(customer_ref: &str, item_code: &str, qty: &str, uom: &str) -> (r: PushMessage)
    ensures
        message_view(r) == (
            "customer:"@ + trim(customer_ref@),
            "Werka mahsulot jo'natdi"@,
            trim(item_code@) + " "@ + qty@ + " "@ + trim(uom@) + " jo'natildi"@,
            PrincipalRole::Customer,
            customer_ref@,
        ),
{
    let mut key = chars_of("customer:");
    push_all(&mut key, trim_str(customer_ref).as_slice());
    let mut body = trim_str(item_code);
    push_str_chars(&mut body, " ");
    push_str_chars(&mut body, qty);
    push_str_chars(&mut body, " ");
    push_all(&mut body, trim_str(uom).as_slice());
    push_str_chars(&mut body, " jo'natildi");
    let key = string_of(key.as_slice());
    let body = string_of(body.as_slice());
    message(key.as_str(), "Werka mahsulot jo'natdi", body.as_str(), PrincipalRole::Customer, customer_ref)
}

} // verus!
