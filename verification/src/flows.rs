//! The request flows that alternate outside work (the session store, the
//! backend, the clock, push delivery) with the endpoint's own decisions.
//!
//! Each flow is a step function from a state and an event to the next state
//! and an action. The caller performs the action and hands back what it
//! gave as the next event, until the flow answers the request.
use vstd::prelude::*;

use crate::auth::require_notification_role;
use crate::events::{message_view, supplier_ack_message, PushMessage};
use crate::models::{DispatchRecord, Principal, PrincipalRole};
use crate::notifications::{is_supplier_ack, supplier_ack_id, supplier_ack_highlight, supplier_ack_record, supplier_ack_spec};
use crate::text::{chars_of, contains_chars, occurs_in, trim, trim_str};

verus! {

/// A refused request: its status, its message and, on the endpoints that
/// send one, its error code.
#[derive(Debug)]
pub struct Failure {
    pub status: u16,
    pub error: &'static str,
    pub code: Option<&'static str>,
}

/// A refusal without an error code.
pub open spec fn refusal(status: u16, error: &'static str) -> Failure {
    Failure { status, error, code: None }
}

fn refuse(status: u16, error: &'static str) -> (r: Failure)
    ensures
        r == refusal(status, error),
{
    Failure { status, error, code: None }
}

/// Whether a backend error text mentions `unauthorized`.
pub fn mentions_unauthorized(text: &str) -> (r: bool)
    ensures
        r == occurs_in(text@, "unauthorized"@),
{
    let t = chars_of(text);
    let n = chars_of("unauthorized");
    contains_chars(t.as_slice(), n.as_slice())
}

/// The failure of a notification request whose backend call gave nothing
/// (`None`) or an error text: `403 forbidden` when the text mentions
/// `unauthorized`, else `500` with `failure`.
pub open spec fn notification_refusal(error_text: Option<Seq<char>>, failure: &'static str) -> Failure {
    match error_text {
        Some(t) if occurs_in(t, "unauthorized"@) => refusal(403, "forbidden"),
        _ => refusal(500, failure),
    }
}

// ---------------------------------------------------------------------------
// Commenting on a notification
// ---------------------------------------------------------------------------

/// Where a comment on a notification stands.
#[derive(Debug)]
pub enum CommentState {
    /// The request as it came: whether it is a `POST`, its bearer token, its
    /// `receipt_id` parameter, and the comment's message (`None` when the
    /// body is not valid JSON).
    Received { is_post: bool, token: Option<String>, receipt_id: Option<String>, message: Option<String> },
    /// The session of the token is being looked up.
    Authorizing { receipt_id: Option<String>, message: Option<String> },
    /// The backend is adding the comment; `ack` tells whether it is a
    /// supplier's acknowledgment.
    Commenting { ack: bool },
    /// The clock is being read to date the acknowledgment of `record`.
    Dating { record: DispatchRecord },
    /// The acknowledgment is being sent.
    Notifying,
    /// The request is answered.
    Done,
}

/// What the caller reports back.
#[derive(Debug)]
pub enum CommentEvent {
    /// The request is handed over.
    Start,
    /// The session of the token, or `None` when there is none.
    Session(Option<Principal>),
    /// The backend's answer: the record of the notification's detail, none,
    /// or the text of its error.
    Commented(Result<Option<DispatchRecord>, String>),
    /// The clock, in Unix seconds.
    Clock(i64),
    /// The acknowledgment was handed to push delivery.
    Sent,
}

/// What the caller does next.
#[derive(Debug)]
pub enum CommentAction {
    /// Look up the session of this token.
    LookUpSession(String),
    /// Ask the backend to add the comment.
    AddComment { role: PrincipalRole, ref_: String, display_name: String, receipt_id: String, text: String },
    /// Read the clock.
    ReadClock,
    /// Send this push, with this record as its data.
    Notify { message: PushMessage, record: DispatchRecord },
    /// Answer with the notification's detail that the backend gave.
    RespondDetail,
    /// Answer with this refusal.
    Refuse(Failure),
    /// Nothing: the event does not belong to this state.
    Wait,
}

/// Whether `e` is what the flow waits for in `s`.
pub open spec fn comment_expects(s: CommentState, e: CommentEvent) -> bool {
    match (s, e) {
        (CommentState::Received { .. }, CommentEvent::Start) => true,
        (CommentState::Authorizing { .. }, CommentEvent::Session(_)) => true,
        (CommentState::Commenting { .. }, CommentEvent::Commented(_)) => true,
        (CommentState::Dating { .. }, CommentEvent::Clock(_)) => true,
        (CommentState::Notifying, CommentEvent::Sent) => true,
        _ => false,
    }
}

/// The acknowledgment push of `record` dated `now`: the acknowledgment
/// event of the record and the Werka notification that carries it.
pub open spec fn ack_push(record: DispatchRecord, now: i64, message: PushMessage, sent: DispatchRecord) -> bool {
    &&& sent.id@ == supplier_ack_id(record.id@, now)
    &&& sent.event_type@ == "supplier_ack"@
    &&& sent.highlight@ == supplier_ack_highlight()
    &&& sent.note@.len() == 0
    &&& sent.record_type@ == record.record_type@
    &&& sent.supplier_ref@ == record.supplier_ref@
    &&& sent.supplier_name@ == record.supplier_name@
    &&& sent.item_code@ == record.item_code@
    &&& sent.item_name@ == record.item_name@
    &&& sent.uom@ == record.uom@
    &&& sent.sent_qty@ == record.sent_qty@
    &&& sent.accepted_qty@ == record.accepted_qty@
    &&& sent.amount@ == record.amount@
    &&& sent.currency@ == record.currency@
    &&& sent.status@ == record.status@
    &&& sent.created_label@ == record.created_label@
    &&& message_view(message) == (
        "werka:werka"@,
        "Supplier tasdiqladi"@,
        supplier_ack_highlight(),
        PrincipalRole::Werka,
        "werka"@,
    )
}

/// One step of a comment on a notification.
pub open spec fn comment_next(s: CommentState, e: CommentEvent, r: (CommentState, CommentAction)) -> bool {
    if !comment_expects(s, e) {
        r == (s, CommentAction::Wait)
    } else {
        match (s, e) {
            (CommentState::Received { is_post, token, receipt_id, message }, _) => if !is_post {
                r == (CommentState::Done, CommentAction::Refuse(refusal(405, "method not allowed")))
            } else {
                match token {
                    None => r == (CommentState::Done, CommentAction::Refuse(refusal(401, "unauthorized"))),
                    Some(t) => r == (CommentState::Authorizing { receipt_id, message }, CommentAction::LookUpSession(t)),
                }
            },
            (CommentState::Authorizing { receipt_id, message }, CommentEvent::Session(p)) => match p {
                None => r == (CommentState::Done, CommentAction::Refuse(refusal(401, "unauthorized"))),
                Some(p) => if !(p.role == PrincipalRole::Supplier || p.role == PrincipalRole::Werka
                    || p.role == PrincipalRole::Customer) {
                    r == (CommentState::Done, CommentAction::Refuse(refusal(403, "forbidden")))
                } else {
                    match receipt_id {
                        Some(id) if trim(id@).len() > 0 => match message {
                            None => r == (CommentState::Done, CommentAction::Refuse(refusal(400, "invalid json"))),
                            Some(m) => r == (
                                CommentState::Commenting { ack: supplier_ack_spec(p.role, m@) },
                                CommentAction::AddComment {
                                    role: p.role,
                                    ref_: p.ref_,
                                    display_name: p.display_name,
                                    receipt_id: id,
                                    text: m,
                                },
                            ),
                        },
                        _ => r == (CommentState::Done, CommentAction::Refuse(refusal(400, "receipt_id is required"))),
                    }
                }
            },
            (CommentState::Commenting { ack }, CommentEvent::Commented(answer)) => match answer {
                Ok(Some(record)) => if ack {
                    r == (CommentState::Dating { record }, CommentAction::ReadClock)
                } else {
                    r == (CommentState::Done, CommentAction::RespondDetail)
                },
                Ok(None) => r == (
                    CommentState::Done,
                    CommentAction::Refuse(notification_refusal(None, "notification comment failed")),
                ),
                Err(text) => r == (
                    CommentState::Done,
                    CommentAction::Refuse(notification_refusal(Some(text@), "notification comment failed")),
                ),
            },
            (CommentState::Dating { record }, CommentEvent::Clock(now)) => {
                &&& r.0 == CommentState::Notifying
                &&& r.1 matches CommentAction::Notify { message, record: sent } && ack_push(record, now, message, sent)
            },
            _ => r == (CommentState::Done, CommentAction::RespondDetail),
        }
    }
}

fn comment_expected(s: &CommentState, e: &CommentEvent) -> (r: bool)
    ensures
        r == comment_expects(*s, *e),
{
    match (s, e) {
        (CommentState::Received { .. }, CommentEvent::Start) => true,
        (CommentState::Authorizing { .. }, CommentEvent::Session(_)) => true,
        (CommentState::Commenting { .. }, CommentEvent::Commented(_)) => true,
        (CommentState::Dating { .. }, CommentEvent::Clock(_)) => true,
        (CommentState::Notifying, CommentEvent::Sent) => true,
        _ => false,
    }
}

fn notification_failure_of(error_text: Option<&str>, failure: &'static str) -> (r: Failure)
    ensures
        r == notification_refusal(
            match error_text {
                Some(t) => Some(t@),
                None => None,
            },
            failure,
        ),
{
    match error_text {
        Some(t) => if mentions_unauthorized(t) {
            refuse(403, "forbidden")
        } else {
            refuse(500, failure)
        },
        None => refuse(500, failure),
    }
}

/// The next state and action of a comment on a notification.
pub fn comment_step(state: CommentState, event: CommentEvent) -> (r: (CommentState, CommentAction))
    ensures
        comment_next(state, event, r),
{
    if !comment_expected(&state, &event) {
        return (state, CommentAction::Wait);
    }
    match state {
        CommentState::Received { is_post, token, receipt_id, message } => {
            if !is_post {
                return (CommentState::Done, CommentAction::Refuse(refuse(405, "method not allowed")));
            }
            match token {
                None => (CommentState::Done, CommentAction::Refuse(refuse(401, "unauthorized"))),
                Some(t) => (CommentState::Authorizing { receipt_id, message }, CommentAction::LookUpSession(t)),
            }
        },
        CommentState::Authorizing { receipt_id, message } => {
            let p = match event {
                CommentEvent::Session(p) => p,
                _ => None,
            };
            match p {
                None => (CommentState::Done, CommentAction::Refuse(refuse(401, "unauthorized"))),
                Some(p) => {
                    if !require_notification_role(&p) {
                        return (CommentState::Done, CommentAction::Refuse(refuse(403, "forbidden")));
                    }
                    let id = match receipt_id {
                        Some(id) => id,
                        None => {
                            return (CommentState::Done, CommentAction::Refuse(refuse(400, "receipt_id is required")));
                        },
                    };
                    if trim_str(id.as_str()).len() == 0 {
                        return (CommentState::Done, CommentAction::Refuse(refuse(400, "receipt_id is required")));
                    }
                    match message {
                        None => (CommentState::Done, CommentAction::Refuse(refuse(400, "invalid json"))),
                        Some(m) => {
                            let ack = is_supplier_ack(p.role, m.as_str());
                            (
                                CommentState::Commenting { ack },
                                CommentAction::AddComment {
                                    role: p.role,
                                    ref_: p.ref_,
                                    display_name: p.display_name,
                                    receipt_id: id,
                                    text: m,
                                },
                            )
                        },
                    }
                },
            }
        },
        CommentState::Commenting { ack } => {
            let answer = match event {
                CommentEvent::Commented(a) => a,
                _ => Ok(None),
            };
            match answer {
                Ok(Some(record)) => if ack {
                    (CommentState::Dating { record }, CommentAction::ReadClock)
                } else {
                    (CommentState::Done, CommentAction::RespondDetail)
                },
                Ok(None) => (
                    CommentState::Done,
                    CommentAction::Refuse(notification_failure_of(None, "notification comment failed")),
                ),
                Err(text) => (
                    CommentState::Done,
                    CommentAction::Refuse(notification_failure_of(Some(text.as_str()), "notification comment failed")),
                ),
            }
        },
        CommentState::Dating { record } => {
            let now = match event {
                CommentEvent::Clock(n) => n,
                _ => 0,
            };
            let sent = supplier_ack_record(&record, now);
            let message = supplier_ack_message(&sent);
            (CommentState::Notifying, CommentAction::Notify { message, record: sent })
        },
        _ => (CommentState::Done, CommentAction::RespondDetail),
    }
}

} // verus!
