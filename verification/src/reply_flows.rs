//! The flows of answers that are announced to Werka: a customer's answer to
//! a delivery, a supplier's new dispatch, and a supplier's answer to an
//! unannounced receipt.
use vstd::prelude::*;

use crate::auth::require_supplier;
use crate::customer::CustomerFailure;
use crate::events::{
    customer_response_messages, dispatch_created_message, message_view, unannounced_response_message, PushMessage,
};
use crate::flows::{refusal, Failure};
use crate::models::{DispatchRecord, Principal, PrincipalRole};

verus! {

fn refuse(status: u16, error: &'static str) -> (r: Failure)
    ensures
        r == refusal(status, error),
{
    Failure { status, error, code: None }
}

// ---------------------------------------------------------------------------
// A customer's answer to a delivery
// ---------------------------------------------------------------------------

/// Where a customer's answer to a delivery stands. `R` is the answer as the
/// client sent it.
#[derive(Debug)]
pub enum RespondState<R> {
    /// The request as it came: whether it is a `POST`, its bearer token and
    /// its body (`None` when it is not valid JSON).
    Received { is_post: bool, token: Option<String>, request: Option<R> },
    /// The session of the token is being looked up.
    Authorizing { request: Option<R> },
    /// Customer access of `principal` is being checked.
    Checking { principal: Principal, request: Option<R> },
    /// The backend is recording the answer.
    Answering,
    /// Werka and the admin are being notified.
    Notifying,
    /// The request is answered.
    Done,
}

/// What the caller reports back.
#[derive(Debug)]
pub enum RespondEvent {
    Start,
    /// The session of the token, or `None` when there is none.
    Session(Option<Principal>),
    /// Whether the principal has customer access.
    Access(bool),
    /// The backend's answer: the record of the delivery's detail, nothing,
    /// or why it failed.
    Answered(Result<Option<DispatchRecord>, CustomerFailure>),
    /// The notifications were handed to push delivery.
    Sent,
}

/// What the caller does next.
#[derive(Debug)]
pub enum RespondAction<R> {
    LookUpSession(String),
    /// Check that this principal has customer access.
    CheckAccess(Principal),
    /// Ask the backend to record this principal's answer.
    Answer { principal: Principal, request: R },
    /// Send these pushes in order, each with the record as data.
    NotifyAll { messages: Vec<PushMessage>, record: DispatchRecord },
    /// Answer with the delivery's detail that the backend gave.
    RespondDetail,
    Refuse(Failure),
    /// Nothing: the event does not belong to this state.
    Wait,
}

/// Whether `e` is what the flow waits for in `s`.
pub open spec fn respond_expects<R>(s: RespondState<R>, e: RespondEvent) -> bool {
    match (s, e) {
        (RespondState::Received { .. }, RespondEvent::Start) => true,
        (RespondState::Authorizing { .. }, RespondEvent::Session(_)) => true,
        (RespondState::Checking { .. }, RespondEvent::Access(_)) => true,
        (RespondState::Answering, RespondEvent::Answered(_)) => true,
        (RespondState::Notifying, RespondEvent::Sent) => true,
        _ => false,
    }
}

/// The refusal of an answer the backend did not record.
pub open spec fn respond_refusal(failure: CustomerFailure) -> Failure {
    match failure {
        CustomerFailure::Unauthorized => refusal(403, "forbidden"),
        CustomerFailure::InvalidInput => refusal(400, "invalid input"),
        _ => refusal(500, "customer respond failed"),
    }
}

/// The notifications of a customer's answer: to Werka, then to the admin,
/// each with the record's note as text.
pub open spec fn respond_pushes(record: DispatchRecord, ms: Seq<PushMessage>) -> bool {
    &&& ms.len() == 2
    &&& message_view(ms[0]) == ("werka:werka"@, "Customer javob berdi"@, record.note@, PrincipalRole::Werka, "werka"@)
    &&& message_view(ms[1]) == ("admin:admin"@, "Customer javob berdi"@, record.note@, PrincipalRole::Admin, "admin"@)
}

/// One step of a customer's answer to a delivery.
pub open spec fn respond_next<R>(s: RespondState<R>, e: RespondEvent, r: (RespondState<R>, RespondAction<R>)) -> bool {
    if !respond_expects(s, e) {
        r == (s, RespondAction::<R>::Wait)
    } else {
        match (s, e) {
            (RespondState::Received { is_post, token, request }, _) => if !is_post {
                r == (RespondState::<R>::Done, RespondAction::<R>::Refuse(refusal(405, "method not allowed")))
            } else {
                match token {
                    None => r == (RespondState::<R>::Done, RespondAction::<R>::Refuse(refusal(401, "unauthorized"))),
                    Some(t) => r == (RespondState::Authorizing { request }, RespondAction::<R>::LookUpSession(t)),
                }
            },
            (RespondState::Authorizing { request }, RespondEvent::Session(p)) => match p {
                None => r == (RespondState::<R>::Done, RespondAction::<R>::Refuse(refusal(401, "unauthorized"))),
                Some(p) => r == (RespondState::Checking { principal: p, request }, RespondAction::<R>::CheckAccess(p)),
            },
            (RespondState::Checking { principal, request }, RespondEvent::Access(ok)) => if !ok {
                r == (RespondState::<R>::Done, RespondAction::<R>::Refuse(refusal(403, "forbidden")))
            } else {
                match request {
                    None => r == (RespondState::<R>::Done, RespondAction::<R>::Refuse(refusal(400, "invalid json"))),
                    Some(q) => r == (RespondState::<R>::Answering, RespondAction::Answer { principal, request: q }),
                }
            },
            (RespondState::Answering, RespondEvent::Answered(answer)) => match answer {
                Ok(Some(record)) => {
                    &&& r.0 == RespondState::<R>::Notifying
                    &&& r.1 matches RespondAction::NotifyAll { messages, record: sent } && sent == record
                        && respond_pushes(record, messages@)
                },
                Ok(None) => r == (RespondState::<R>::Done, RespondAction::<R>::Refuse(refusal(500, "customer respond failed"))),
                Err(f) => r == (RespondState::<R>::Done, RespondAction::<R>::Refuse(respond_refusal(f))),
            },
            _ => r == (RespondState::<R>::Done, RespondAction::<R>::RespondDetail),
        }
    }
}

fn respond_expected<R>(s: &RespondState<R>, e: &RespondEvent) -> (r: bool)
    ensures
        r == respond_expects(*s, *e),
{
    match (s, e) {
        (RespondState::Received { .. }, RespondEvent::Start) => true,
        (RespondState::Authorizing { .. }, RespondEvent::Session(_)) => true,
        (RespondState::Checking { .. }, RespondEvent::Access(_)) => true,
        (RespondState::Answering, RespondEvent::Answered(_)) => true,
        (RespondState::Notifying, RespondEvent::Sent) => true,
        _ => false,
    }
}

/// The next state and action of a customer's answer to a delivery.
pub fn customer_respond_step<R>(state: RespondState<R>, event: RespondEvent) -> (r: (RespondState<R>, RespondAction<R>))
    ensures
        respond_next(state, event, r),
{
    if !respond_expected(&state, &event) {
        return (state, RespondAction::Wait);
    }
    match state {
        RespondState::Received { is_post, token, request } => {
            if !is_post {
                return (RespondState::Done, RespondAction::Refuse(refuse(405, "method not allowed")));
            }
            match token {
                None => (RespondState::Done, RespondAction::Refuse(refuse(401, "unauthorized"))),
                Some(t) => (RespondState::Authorizing { request }, RespondAction::LookUpSession(t)),
            }
        },
        RespondState::Authorizing { request } => match event {
            RespondEvent::Session(Some(p)) => {
                let copy = Principal {
                    role: p.role,
                    display_name: p.display_name.clone(),
                    legal_name: p.legal_name.clone(),
                    ref_: p.ref_.clone(),
                    phone: p.phone.clone(),
                    avatar_url: p.avatar_url.clone(),
                };
                (RespondState::Checking { principal: p, request }, RespondAction::CheckAccess(copy))
            },
            _ => (RespondState::Done, RespondAction::Refuse(refuse(401, "unauthorized"))),
        },
        RespondState::Checking { principal, request } => {
            let ok = match event {
                RespondEvent::Access(b) => b,
                _ => false,
            };
            if !ok {
                return (RespondState::Done, RespondAction::Refuse(refuse(403, "forbidden")));
            }
            match request {
                None => (RespondState::Done, RespondAction::Refuse(refuse(400, "invalid json"))),
                Some(q) => (RespondState::Answering, RespondAction::Answer { principal, request: q }),
            }
        },
        RespondState::Answering => match event {
            RespondEvent::Answered(Ok(Some(record))) => {
                let messages = customer_response_messages(&record);
                (RespondState::Notifying, RespondAction::NotifyAll { messages, record })
            },
            RespondEvent::Answered(Err(f)) => {
                let failure = match f {
                    CustomerFailure::Unauthorized => refuse(403, "forbidden"),
                    CustomerFailure::InvalidInput => refuse(400, "invalid input"),
                    _ => refuse(500, "customer respond failed"),
                };
                (RespondState::Done, RespondAction::Refuse(failure))
            },
            _ => (RespondState::Done, RespondAction::Refuse(refuse(500, "customer respond failed"))),
        },
        _ => (RespondState::Done, RespondAction::RespondDetail),
    }
}

// ---------------------------------------------------------------------------
// A supplier's new dispatch
// ---------------------------------------------------------------------------

/// A new dispatch as the client sends it; the quantity is carried as `Q`.
#[derive(Debug)]
pub struct DispatchRequest<Q> {
    pub item_code: String,
    pub qty: Q,
}

/// Where a supplier's new dispatch stands.
#[derive(Debug)]
pub enum DispatchState<Q> {
    /// The request as it came: whether it is a `POST`, its bearer token and
    /// its body (`None` when it is not valid JSON).
    Received { is_post: bool, token: Option<String>, request: Option<DispatchRequest<Q>> },
    /// The session of the token is being looked up.
    Authorizing { request: Option<DispatchRequest<Q>> },
    /// The backend is creating the dispatch.
    Creating,
    /// Werka is being notified.
    Notifying,
    /// The request is answered.
    Done,
}

/// What the caller reports back.
#[derive(Debug)]
pub enum DispatchEvent {
    Start,
    /// The session of the token, or `None` when there is none.
    Session(Option<Principal>),
    /// The backend's answer: the created record and the rendering of its
    /// quantity as a whole number, or nothing (none created, or an error).
    Created(Option<(DispatchRecord, String)>),
    /// The notification was handed to push delivery.
    Sent,
}

/// What the caller does next.
#[derive(Debug)]
pub enum DispatchAction<Q> {
    LookUpSession(String),
    /// Ask the backend to create a dispatch of `qty` of `item_code` by this
    /// supplier.
    Create { supplier_ref: String, supplier_name: String, phone: String, item_code: String, qty: Q },
    /// Send this push, with the record as data.
    Notify { message: PushMessage, record: DispatchRecord },
    /// Answer with the created record.
    RespondRecord,
    Refuse(Failure),
    /// Nothing: the event does not belong to this state.
    Wait,
}

/// Whether `e` is what the flow waits for in `s`.
pub open spec fn dispatch_expects<Q>(s: DispatchState<Q>, e: DispatchEvent) -> bool {
    match (s, e) {
        (DispatchState::Received { .. }, DispatchEvent::Start) => true,
        (DispatchState::Authorizing { .. }, DispatchEvent::Session(_)) => true,
        (DispatchState::Creating, DispatchEvent::Created(_)) => true,
        (DispatchState::Notifying, DispatchEvent::Sent) => true,
        _ => false,
    }
}

/// One step of a supplier's new dispatch.
pub open spec fn dispatch_next<Q>(s: DispatchState<Q>, e: DispatchEvent, r: (DispatchState<Q>, DispatchAction<Q>)) -> bool {
    if !dispatch_expects(s, e) {
        r == (s, DispatchAction::<Q>::Wait)
    } else {
        match (s, e) {
            (DispatchState::Received { is_post, token, request }, _) => if !is_post {
                r == (DispatchState::<Q>::Done, DispatchAction::<Q>::Refuse(refusal(405, "method not allowed")))
            } else {
                match token {
                    None => r == (DispatchState::<Q>::Done, DispatchAction::<Q>::Refuse(refusal(401, "unauthorized"))),
                    Some(t) => r == (DispatchState::Authorizing { request }, DispatchAction::<Q>::LookUpSession(t)),
                }
            },
            (DispatchState::Authorizing { request }, DispatchEvent::Session(p)) => match p {
                None => r == (DispatchState::<Q>::Done, DispatchAction::<Q>::Refuse(refusal(401, "unauthorized"))),
                Some(p) => if p.role != PrincipalRole::Supplier {
                    r == (DispatchState::<Q>::Done, DispatchAction::<Q>::Refuse(refusal(403, "forbidden")))
                } else {
                    match request {
                        None => r == (DispatchState::<Q>::Done, DispatchAction::<Q>::Refuse(refusal(400, "invalid json"))),
                        Some(q) => r == (
                            DispatchState::<Q>::Creating,
                            DispatchAction::Create {
                                supplier_ref: p.ref_,
                                supplier_name: p.display_name,
                                phone: p.phone,
                                item_code: q.item_code,
                                qty: q.qty,
                            },
                        ),
                    }
                }
            },
            (DispatchState::Creating, DispatchEvent::Created(answer)) => match answer {
                Some((record, qty)) => {
                    &&& r.0 == DispatchState::<Q>::Notifying
                    &&& r.1 matches DispatchAction::Notify { message, record: sent } && sent == record
                        && message_view(message) == (
                        "werka:werka"@,
                        record.supplier_name@,
                        record.item_code@ + " \u{2022} "@ + qty@ + " "@ + record.uom@ + " qabul kutmoqda."@,
                        PrincipalRole::Werka,
                        "werka"@,
                    )
                },
                None => r == (DispatchState::<Q>::Done, DispatchAction::<Q>::Refuse(refusal(500, "dispatch create failed"))),
            },
            _ => r == (DispatchState::<Q>::Done, DispatchAction::<Q>::RespondRecord),
        }
    }
}

fn dispatch_expected<Q>(s: &DispatchState<Q>, e: &DispatchEvent) -> (r: bool)
    ensures
        r == dispatch_expects(*s, *e),
{
    match (s, e) {
        (DispatchState::Received { .. }, DispatchEvent::Start) => true,
        (DispatchState::Authorizing { .. }, DispatchEvent::Session(_)) => true,
        (DispatchState::Creating, DispatchEvent::Created(_)) => true,
        (DispatchState::Notifying, DispatchEvent::Sent) => true,
        _ => false,
    }
}

/// The next state and action of a supplier's new dispatch.
pub fn create_dispatch_step<Q>(state: DispatchState<Q>, event: DispatchEvent) -> (r: (DispatchState<Q>, DispatchAction<Q>))
    ensures
        dispatch_next(state, event, r),
{
    if !dispatch_expected(&state, &event) {
        return (state, DispatchAction::Wait);
    }
    match state {
        DispatchState::Received { is_post, token, request } => {
            if !is_post {
                return (DispatchState::Done, DispatchAction::Refuse(refuse(405, "method not allowed")));
            }
            match token {
                None => (DispatchState::Done, DispatchAction::Refuse(refuse(401, "unauthorized"))),
                Some(t) => (DispatchState::Authorizing { request }, DispatchAction::LookUpSession(t)),
            }
        },
        DispatchState::Authorizing { request } => match event {
            DispatchEvent::Session(Some(p)) => {
                if !require_supplier(&p) {
                    return (DispatchState::Done, DispatchAction::Refuse(refuse(403, "forbidden")));
                }
                match request {
                    None => (DispatchState::Done, DispatchAction::Refuse(refuse(400, "invalid json"))),
                    Some(q) => (
                        DispatchState::Creating,
                        DispatchAction::Create {
                            supplier_ref: p.ref_,
                            supplier_name: p.display_name,
                            phone: p.phone,
                            item_code: q.item_code,
                            qty: q.qty,
                        },
                    ),
                }
            },
            _ => (DispatchState::Done, DispatchAction::Refuse(refuse(401, "unauthorized"))),
        },
        DispatchState::Creating => match event {
            DispatchEvent::Created(Some((record, qty))) => {
                let message = dispatch_created_message(&record, qty.as_str());
                (DispatchState::Notifying, DispatchAction::Notify { message, record })
            },
            _ => (DispatchState::Done, DispatchAction::Refuse(refuse(500, "dispatch create failed"))),
        },
        _ => (DispatchState::Done, DispatchAction::RespondRecord),
    }
}

// ---------------------------------------------------------------------------
// A supplier's answer to an unannounced receipt
// ---------------------------------------------------------------------------

/// A supplier's answer to an unannounced receipt as the client sends it.
#[derive(Debug)]
pub struct UnannouncedAnswer {
    pub receipt_id: String,
    pub approve: bool,
    pub reason: String,
}

/// Where a supplier's answer to an unannounced receipt stands.
#[derive(Debug)]
pub enum UnannouncedState {
    /// The request as it came: whether it is a `POST`, its bearer token and
    /// its body (`None` when it is not valid JSON).
    Received { is_post: bool, token: Option<String>, request: Option<UnannouncedAnswer> },
    /// The session of the token is being looked up.
    Authorizing { request: Option<UnannouncedAnswer> },
    /// The backend is recording the answer.
    Answering,
    /// Werka is being notified.
    Notifying,
    /// The request is answered.
    Done,
}

/// What the caller reports back.
#[derive(Debug)]
pub enum UnannouncedEvent {
    Start,
    /// The session of the token, or `None` when there is none.
    Session(Option<Principal>),
    /// The backend's answer: the record of the receipt's detail, or nothing
    /// (none recorded, or an error).
    Answered(Option<DispatchRecord>),
    /// The notification was handed to push delivery.
    Sent,
}

/// What the caller does next.
#[derive(Debug)]
pub enum UnannouncedAction {
    LookUpSession(String),
    /// Ask the backend to record this supplier's answer.
    Answer { supplier_ref: String, supplier_name: String, receipt_id: String, approve: bool, reason: String },
    /// Send this push, with the record as data.
    Notify { message: PushMessage, record: DispatchRecord },
    /// Answer with the receipt's detail that the backend gave.
    RespondDetail,
    Refuse(Failure),
    /// Nothing: the event does not belong to this state.
    Wait,
}

/// Whether `e` is what the flow waits for in `s`.
pub open spec fn unannounced_expects(s: UnannouncedState, e: UnannouncedEvent) -> bool {
    match (s, e) {
        (UnannouncedState::Received { .. }, UnannouncedEvent::Start) => true,
        (UnannouncedState::Authorizing { .. }, UnannouncedEvent::Session(_)) => true,
        (UnannouncedState::Answering, UnannouncedEvent::Answered(_)) => true,
        (UnannouncedState::Notifying, UnannouncedEvent::Sent) => true,
        _ => false,
    }
}

/// One step of a supplier's answer to an unannounced receipt.
pub open spec fn unannounced_next(s: UnannouncedState, e: UnannouncedEvent, r: (UnannouncedState, UnannouncedAction)) -> bool {
    if !unannounced_expects(s, e) {
        r == (s, UnannouncedAction::Wait)
    } else {
        match (s, e) {
            (UnannouncedState::Received { is_post, token, request }, _) => if !is_post {
                r == (UnannouncedState::Done, UnannouncedAction::Refuse(refusal(405, "method not allowed")))
            } else {
                match token {
                    None => r == (UnannouncedState::Done, UnannouncedAction::Refuse(refusal(401, "unauthorized"))),
                    Some(t) => r == (UnannouncedState::Authorizing { request }, UnannouncedAction::LookUpSession(t)),
                }
            },
            (UnannouncedState::Authorizing { request }, UnannouncedEvent::Session(p)) => match p {
                None => r == (UnannouncedState::Done, UnannouncedAction::Refuse(refusal(401, "unauthorized"))),
                Some(p) => if p.role != PrincipalRole::Supplier {
                    r == (UnannouncedState::Done, UnannouncedAction::Refuse(refusal(403, "forbidden")))
                } else {
                    match request {
                        None => r == (UnannouncedState::Done, UnannouncedAction::Refuse(refusal(400, "invalid json"))),
                        Some(q) => r == (
                            UnannouncedState::Answering,
                            UnannouncedAction::Answer {
                                supplier_ref: p.ref_,
                                supplier_name: p.display_name,
                                receipt_id: q.receipt_id,
                                approve: q.approve,
                                reason: q.reason,
                            },
                        ),
                    }
                }
            },
            (UnannouncedState::Answering, UnannouncedEvent::Answered(answer)) => match answer {
                Some(record) => {
                    &&& r.0 == UnannouncedState::Notifying
                    &&& r.1 matches UnannouncedAction::Notify { message, record: sent } && sent == record
                        && message_view(message) == (
                        "werka:werka"@,
                        "Supplier javob berdi"@,
                        record.note@,
                        PrincipalRole::Werka,
                        "werka"@,
                    )
                },
                None => r == (
                    UnannouncedState::Done,
                    UnannouncedAction::Refuse(refusal(500, "supplier unannounced response failed")),
                ),
            },
            _ => r == (UnannouncedState::Done, UnannouncedAction::RespondDetail),
        }
    }
}

fn unannounced_expected(s: &UnannouncedState, e: &UnannouncedEvent) -> (r: bool)
    ensures
        r == unannounced_expects(*s, *e),
{
    match (s, e) {
        (UnannouncedState::Received { .. }, UnannouncedEvent::Start) => true,
        (UnannouncedState::Authorizing { .. }, UnannouncedEvent::Session(_)) => true,
        (UnannouncedState::Answering, UnannouncedEvent::Answered(_)) => true,
        (UnannouncedState::Notifying, UnannouncedEvent::Sent) => true,
        _ => false,
    }
}

/// The next state and action of a supplier's answer to an unannounced
/// receipt.
pub fn unannounced_respond_step(state: UnannouncedState, event: UnannouncedEvent) -> (r: (UnannouncedState, UnannouncedAction))
    ensures
        unannounced_next(state, event, r),
{
    if !unannounced_expected(&state, &event) {
        return (state, UnannouncedAction::Wait);
    }
    match state {
        UnannouncedState::Received { is_post, token, request } => {
            if !is_post {
                return (UnannouncedState::Done, UnannouncedAction::Refuse(refuse(405, "method not allowed")));
            }
            match token {
                None => (UnannouncedState::Done, UnannouncedAction::Refuse(refuse(401, "unauthorized"))),
                Some(t) => (UnannouncedState::Authorizing { request }, UnannouncedAction::LookUpSession(t)),
            }
        },
        UnannouncedState::Authorizing { request } => match event {
            UnannouncedEvent::Session(Some(p)) => {
                if !require_supplier(&p) {
                    return (UnannouncedState::Done, UnannouncedAction::Refuse(refuse(403, "forbidden")));
                }
                match request {
                    None => (UnannouncedState::Done, UnannouncedAction::Refuse(refuse(400, "invalid json"))),
                    Some(q) => (
                        UnannouncedState::Answering,
                        UnannouncedAction::Answer {
                            supplier_ref: p.ref_,
                            supplier_name: p.display_name,
                            receipt_id: q.receipt_id,
                            approve: q.approve,
                            reason: q.reason,
                        },
                    ),
                }
            },
            _ => (UnannouncedState::Done, UnannouncedAction::Refuse(refuse(401, "unauthorized"))),
        },
        UnannouncedState::Answering => match event {
            UnannouncedEvent::Answered(Some(record)) => {
                let message = unannounced_response_message(&record);
                (UnannouncedState::Notifying, UnannouncedAction::Notify { message, record })
            },
            _ => (
                UnannouncedState::Done,
                UnannouncedAction::Refuse(refuse(500, "supplier unannounced response failed")),
            ),
        },
        _ => (UnannouncedState::Done, UnannouncedAction::RespondDetail),
    }
}

} // verus!
