//! Push notifications: the data map sent with a dispatch record, and the
//! registry of device tokens per recipient key.
use vstd::prelude::*;

use crate::auth::{role_key, role_key_spec};
use crate::models::{DispatchRecord, PrincipalRole};
use crate::api::ErrorResponse;
use crate::text::{opt_text, owned, trim, trimmed_string};

verus! {

/// The views of a list of key/value pairs.
pub open spec fn pair_views(v: Seq<(String, String)>) -> Seq<(Seq<char>, Seq<char>)> {
    v.map_values(|p: (String, String)| (p.0@, p.1@))
}

/// The push data of a dispatch record: its fields by name.
pub open spec fn dispatch_data_spec(r: DispatchRecord) -> Seq<(Seq<char>, Seq<char>)> {
    seq![
        ("id"@, r.id@),
        ("record_type"@, r.record_type@),
        ("supplier_ref"@, r.supplier_ref@),
        ("supplier_name"@, r.supplier_name@),
        ("item_code"@, r.item_code@),
        ("item_name"@, r.item_name@),
        ("uom"@, r.uom@),
        ("sent_qty"@, r.sent_qty@),
        ("accepted_qty"@, r.accepted_qty@),
        ("amount"@, r.amount@),
        ("currency"@, r.currency@),
        ("note"@, r.note@),
        ("event_type"@, r.event_type@),
        ("highlight"@, r.highlight@),
        ("status"@, r.status@),
        ("created_label"@, r.created_label@),
    ]
}

/// The push data of a record addressed to a role and reference: the record's
/// fields, then `target_role` and the trimmed `target_ref`.
pub open spec fn dispatch_data_for_target_spec(
    r: DispatchRecord,
    role: PrincipalRole,
    target_ref: Seq<char>,
) -> Seq<(Seq<char>, Seq<char>)> {
    dispatch_data_spec(r) + seq![("target_role"@, role_key_spec(role)), ("target_ref"@, trim(target_ref))]
}

fn pair(key: &str, value: &String) -> (p: (String, String))
    ensures
        p.0@ == key@,
        p.1@ == value@,
{
    (owned(key), value.clone())
}

/// The push data of a dispatch record, one pair per field.
pub fn dispatch_record_data(record: &DispatchRecord) -> (r: Vec<(String, String)>)
    ensures
        pair_views(r@) == dispatch_data_spec(*record),
{
    let mut v: Vec<(String, String)> = Vec::new();
    v.push(pair("id", &record.id));
    v.push(pair("record_type", &record.record_type));
    v.push(pair("supplier_ref", &record.supplier_ref));
    v.push(pair("supplier_name", &record.supplier_name));
    v.push(pair("item_code", &record.item_code));
    v.push(pair("item_name", &record.item_name));
    v.push(pair("uom", &record.uom));
    v.push(pair("sent_qty", &record.sent_qty));
    v.push(pair("accepted_qty", &record.accepted_qty));
    v.push(pair("amount", &record.amount));
    v.push(pair("currency", &record.currency));
    v.push(pair("note", &record.note));
    v.push(pair("event_type", &record.event_type));
    v.push(pair("highlight", &record.highlight));
    v.push(pair("status", &record.status));
    v.push(pair("created_label", &record.created_label));
    assert(pair_views(v@) =~= dispatch_data_spec(*record));
    v
}

/// The push data of `record` for a recipient with `role` and `target_ref`.
pub fn dispatch_record_data_for_target(
    record: &DispatchRecord,
    role: PrincipalRole,
    target_ref: &str,
) -> (r: Vec<(String, String)>)
    ensures
        pair_views(r@) == dispatch_data_for_target_spec(*record, role, target_ref@),
{
    let mut v = dispatch_record_data(record);
    let ghost base = pair_views(v@);
    v.push((owned("target_role"), owned(role_key(&role))));
    v.push((owned("target_ref"), trimmed_string(target_ref)));
    assert(pair_views(v@) =~= base + seq![
        ("target_role"@, role_key_spec(role)),
        ("target_ref"@, trim(target_ref@)),
    ]);
    v
}

/// Errors of the push service.
#[derive(PartialEq, Eq, Structural, Clone, Copy, Debug)]
pub enum PushServiceError {
    TokenRequired,
    StoreFailed,
}

fn error_body(status: u16, error: &str) -> (r: (u16, ErrorResponse))
    ensures
        r.0 == status,
        r.1.error@ == error@,
{
    (status, ErrorResponse { error: owned(error) })
}

/// `400 "token is required"`.
pub fn token_required() -> (r: (u16, ErrorResponse))
    ensures
        r.0 == 400,
        r.1.error@ == "token is required"@,
{
    error_body(400, "token is required")
}

/// The token of a registration request, refused with `400 "token is
/// required"` when it is blank; the token is passed on as sent.
pub fn register_token_param(token: &str) -> (r: Result<(), (u16, ErrorResponse)>)
    ensures
        r is Ok <==> trim(token@).len() > 0,
        r matches Err(e) ==> e.0 == 400 && e.1.error@ == "token is required"@,
{
    if crate::text::trim_str(token).len() == 0 {
        Err(token_required())
    } else {
        Ok(())
    }
}

/// The token of a delete request (`token` query parameter), trimmed, or
/// `400 "token is required"` when absent or blank.
pub fn delete_token_param(token: Option<&str>) -> (r: Result<String, (u16, ErrorResponse)>)
    ensures
        trim(opt_text(token)).len() > 0 ==> (r matches Ok(t) && t@ == trim(opt_text(token))),
        trim(opt_text(token)).len() == 0 ==> (r matches Err(e) && e.0 == 400 && e.1.error@
            == "token is required"@),
{
    let t = crate::text::trim_chars(crate::text::opt_chars(token).as_slice());
    if t.len() == 0 {
        Err(token_required())
    } else {
        Ok(crate::text::string_of(t.as_slice()))
    }
}

/// The answer to a failed registration: a missing token, or `500 "push
/// token save failed"`.
pub fn register_error(error: PushServiceError) -> (r: (u16, ErrorResponse))
    ensures
        error == PushServiceError::TokenRequired ==> r.0 == 400 && r.1.error@ == "token is required"@,
        error == PushServiceError::StoreFailed ==> r.0 == 500 && r.1.error@
            == "push token save failed"@,
{
    match error {
        PushServiceError::TokenRequired => token_required(),
        PushServiceError::StoreFailed => error_body(500, "push token save failed"),
    }
}

/// The answer to a failed delete: a missing token, or `500 "push token
/// delete failed"`.
pub fn delete_error(error: PushServiceError) -> (r: (u16, ErrorResponse))
    ensures
        error == PushServiceError::TokenRequired ==> r.0 == 400 && r.1.error@ == "token is required"@,
        error == PushServiceError::StoreFailed ==> r.0 == 500 && r.1.error@
            == "push token delete failed"@,
{
    match error {
        PushServiceError::TokenRequired => token_required(),
        PushServiceError::StoreFailed => error_body(500, "push token delete failed"),
    }
}


/// The field of record `r` named `k`, when `r` has a field of that name.
pub open spec fn record_field(r: DispatchRecord, k: Seq<char>) -> Option<Seq<char>> {
    if k == "id"@ {
        Some(r.id@)
    } else if k == "record_type"@ {
        Some(r.record_type@)
    } else if k == "supplier_ref"@ {
        Some(r.supplier_ref@)
    } else if k == "supplier_name"@ {
        Some(r.supplier_name@)
    } else if k == "item_code"@ {
        Some(r.item_code@)
    } else if k == "item_name"@ {
        Some(r.item_name@)
    } else if k == "uom"@ {
        Some(r.uom@)
    } else if k == "sent_qty"@ {
        Some(r.sent_qty@)
    } else if k == "accepted_qty"@ {
        Some(r.accepted_qty@)
    } else if k == "amount"@ {
        Some(r.amount@)
    } else if k == "currency"@ {
        Some(r.currency@)
    } else if k == "note"@ {
        Some(r.note@)
    } else if k == "event_type"@ {
        Some(r.event_type@)
    } else if k == "highlight"@ {
        Some(r.highlight@)
    } else if k == "status"@ {
        Some(r.status@)
    } else if k == "created_label"@ {
        Some(r.created_label@)
    } else {
        None
    }
}

/// The push data of a record names each of its fields once, with that
/// field's value: every pair is a field name and the record's value of that
/// field, no name repeats, and every field is there.
pub proof fn law_dispatch_data_is_the_record(r: DispatchRecord)
    ensures
        forall|i: int|
            0 <= i < dispatch_data_spec(r).len() ==> record_field(r, (#[trigger] dispatch_data_spec(r)[i]).0)
                == Some(dispatch_data_spec(r)[i].1),
        forall|i: int, j: int|
            0 <= i < j < dispatch_data_spec(r).len() ==> (#[trigger] dispatch_data_spec(r)[i]).0
                != (#[trigger] dispatch_data_spec(r)[j]).0,
        dispatch_data_spec(r).len() == 16,
{
    reveal_strlit("id");
    reveal_strlit("record_type");
    reveal_strlit("supplier_ref");
    reveal_strlit("supplier_name");
    reveal_strlit("item_code");
    reveal_strlit("item_name");
    reveal_strlit("uom");
    reveal_strlit("sent_qty");
    reveal_strlit("accepted_qty");
    reveal_strlit("amount");
    reveal_strlit("currency");
    reveal_strlit("note");
    reveal_strlit("event_type");
    reveal_strlit("highlight");
    reveal_strlit("status");
    reveal_strlit("created_label");
    assert("id"@.len() == 2 && "id"@[0] == 'i');
    assert("record_type"@.len() == 11 && "record_type"@[0] == 'r');
    assert("record_type"@[5] == 'd');
    assert("supplier_ref"@.len() == 12 && "supplier_ref"@[0] == 's');
    assert("supplier_ref"@[5] == 'i');
    assert("supplier_name"@.len() == 13 && "supplier_name"@[0] == 's');
    assert("supplier_name"@[5] == 'i');
    assert("item_code"@.len() == 9 && "item_code"@[0] == 'i');
    assert("item_code"@[5] == 'c');
    assert("item_name"@.len() == 9 && "item_name"@[0] == 'i');
    assert("item_name"@[5] == 'n');
    assert("uom"@.len() == 3 && "uom"@[0] == 'u');
    assert("sent_qty"@.len() == 8 && "sent_qty"@[0] == 's');
    assert("sent_qty"@[5] == 'q');
    assert("accepted_qty"@.len() == 12 && "accepted_qty"@[0] == 'a');
    assert("accepted_qty"@[5] == 't');
    assert("amount"@.len() == 6 && "amount"@[0] == 'a');
    assert("amount"@[5] == 't');
    assert("currency"@.len() == 8 && "currency"@[0] == 'c');
    assert("currency"@[5] == 'n');
    assert("note"@.len() == 4 && "note"@[0] == 'n');
    assert("event_type"@.len() == 10 && "event_type"@[0] == 'e');
    assert("event_type"@[5] == '_');
    assert("highlight"@.len() == 9 && "highlight"@[0] == 'h');
    assert("highlight"@[5] == 'i');
    assert("status"@.len() == 6 && "status"@[0] == 's');
    assert("status"@[5] == 's');
    assert("created_label"@.len() == 13 && "created_label"@[0] == 'c');
    assert("created_label"@[5] == 'e');
    let d = dispatch_data_spec(r);
    assert forall|i: int| 0 <= i < d.len() implies record_field(r, (#[trigger] d[i]).0) == Some(d[i].1) by {}
    assert forall|i: int, j: int| 0 <= i < j < d.len() implies (#[trigger] d[i]).0 != (#[trigger] d[j]).0 by {}
}


/// The push data addressed to a recipient: the record's fields, each once
/// with its value, then the recipient's role key under `target_role` and
/// its trimmed reference under `target_ref`; no name repeats.
pub proof fn law_target_data_names_recipient(r: DispatchRecord, role: PrincipalRole, target_ref: Seq<char>)
    ensures
        ({
            let d = dispatch_data_for_target_spec(r, role, target_ref);
            &&& d.len() == 18
            &&& forall|i: int| 0 <= i < 16 ==> record_field(r, (#[trigger] d[i]).0) == Some(d[i].1)
            &&& d[16] == ("target_role"@, role_key_spec(role))
            &&& d[17] == ("target_ref"@, trim(target_ref))
            &&& forall|i: int, j: int| 0 <= i < j < d.len() ==> (#[trigger] d[i]).0 != (#[trigger] d[j]).0
        }),
{
    law_dispatch_data_is_the_record(r);
    reveal_strlit("id");
    assert("id"@.len() == 2 && "id"@[0] == 'i');
    reveal_strlit("record_type");
    assert("record_type"@.len() == 11 && "record_type"@[0] == 'r');
    assert("record_type"@[5] == 'd');
    reveal_strlit("supplier_ref");
    assert("supplier_ref"@.len() == 12 && "supplier_ref"@[0] == 's');
    assert("supplier_ref"@[5] == 'i');
    reveal_strlit("supplier_name");
    assert("supplier_name"@.len() == 13 && "supplier_name"@[0] == 's');
    assert("supplier_name"@[5] == 'i');
    reveal_strlit("item_code");
    assert("item_code"@.len() == 9 && "item_code"@[0] == 'i');
    assert("item_code"@[5] == 'c');
    reveal_strlit("item_name");
    assert("item_name"@.len() == 9 && "item_name"@[0] == 'i');
    assert("item_name"@[5] == 'n');
    reveal_strlit("uom");
    assert("uom"@.len() == 3 && "uom"@[0] == 'u');
    reveal_strlit("sent_qty");
    assert("sent_qty"@.len() == 8 && "sent_qty"@[0] == 's');
    assert("sent_qty"@[5] == 'q');
    reveal_strlit("accepted_qty");
    assert("accepted_qty"@.len() == 12 && "accepted_qty"@[0] == 'a');
    assert("accepted_qty"@[5] == 't');
    reveal_strlit("amount");
    assert("amount"@.len() == 6 && "amount"@[0] == 'a');
    assert("amount"@[5] == 't');
    reveal_strlit("currency");
    assert("currency"@.len() == 8 && "currency"@[0] == 'c');
    assert("currency"@[5] == 'n');
    reveal_strlit("note");
    assert("note"@.len() == 4 && "note"@[0] == 'n');
    reveal_strlit("event_type");
    assert("event_type"@.len() == 10 && "event_type"@[0] == 'e');
    assert("event_type"@[5] == '_');
    reveal_strlit("highlight");
    assert("highlight"@.len() == 9 && "highlight"@[0] == 'h');
    assert("highlight"@[5] == 'i');
    reveal_strlit("status");
    assert("status"@.len() == 6 && "status"@[0] == 's');
    assert("status"@[5] == 's');
    reveal_strlit("created_label");
    assert("created_label"@.len() == 13 && "created_label"@[0] == 'c');
    assert("created_label"@[5] == 'e');
    reveal_strlit("target_role");
    assert("target_role"@.len() == 11 && "target_role"@[0] == 't');
    assert("target_role"@[5] == 't');
    reveal_strlit("target_ref");
    assert("target_ref"@.len() == 10 && "target_ref"@[0] == 't');
    assert("target_ref"@[5] == 't');
    let d = dispatch_data_for_target_spec(r, role, target_ref);
    let base = dispatch_data_spec(r);
    assert forall|i: int| 0 <= i < 16 implies record_field(r, (#[trigger] d[i]).0) == Some(d[i].1) by {
        assert(d[i] == base[i]);
    }
    assert forall|i: int, j: int| 0 <= i < j < d.len() implies (#[trigger] d[i]).0 != (#[trigger] d[j]).0 by {
        if j < 16 {
            assert(d[i] == base[i] && d[j] == base[j]);
        } else if i < 16 {
            assert(d[i] == base[i]);
        }
    }
}

} // verus!
