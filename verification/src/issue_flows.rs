//! The flows of Werka's customer issues: one issue, or a batch of them.
//!
//! Werka access is a capability that the caller checks (`Access`); the
//! backend creates the issues, and each created issue is announced to its
//! customer.
use vstd::prelude::*;

use crate::events::{customer_issue_message, message_view, PushMessage};
use crate::flows::{refusal, Failure};
use crate::models::Principal;
use crate::text::trim;
use crate::werka::{
    customer_issue_batch_input_from_request, customer_issue_input_from_request, issue_input,
    WerkaCustomerIssueCreateInput, WerkaCustomerIssueCreateRequest, WerkaPortError,
};

verus! {

/// What the announcement of an issued line reads of the backend's record:
/// the customer, the item, the rendering of the quantity and the unit.
#[derive(Debug)]
pub struct IssuedLine {
    pub customer_ref: String,
    pub item_code: String,
    pub qty: String,
    pub uom: String,
}

/// The announcement of `line` to its customer.
pub open spec fn issue_push(line: IssuedLine, m: PushMessage) -> bool {
    message_view(m) == (
        "customer:"@ + trim(line.customer_ref@),
        "Werka mahsulot jo'natdi"@,
        trim(line.item_code@) + " "@ + line.qty@ + " "@ + trim(line.uom@) + " jo'natildi"@,
        crate::models::PrincipalRole::Customer,
        line.customer_ref@,
    )
}

fn announce(line: &IssuedLine) -> (r: PushMessage)
    ensures
        issue_push(*line, r),
{
    customer_issue_message(line.customer_ref.as_str(), line.item_code.as_str(), line.qty.as_str(), line.uom.as_str())
}

/// The refusal of a single issue that the backend did not create (`None`
/// when it created nothing): a conflict for insufficient stock or a source
/// already issued, else a server error.
pub open spec fn issue_refusal(error: Option<WerkaPortError>) -> Failure {
    match error {
        Some(WerkaPortError::InsufficientStock) => Failure {
            status: 409,
            error: "insufficient stock",
            code: Some("insufficient_stock"),
        },
        Some(WerkaPortError::DuplicateCustomerIssueSource) => Failure {
            status: 409,
            error: "duplicate customer issue source",
            code: Some("duplicate_customer_issue_source"),
        },
        _ => refusal(500, "werka customer issue create failed"),
    }
}

fn issue_failure_of(error: Option<&WerkaPortError>) -> (r: Failure)
    ensures
        r == issue_refusal(
            match error {
                Some(e) => Some(*e),
                None => None,
            },
        ),
{
    match error {
        Some(WerkaPortError::InsufficientStock) => Failure {
            status: 409,
            error: "insufficient stock",
            code: Some("insufficient_stock"),
        },
        Some(WerkaPortError::DuplicateCustomerIssueSource) => Failure {
            status: 409,
            error: "duplicate customer issue source",
            code: Some("duplicate_customer_issue_source"),
        },
        _ => Failure { status: 500, error: "werka customer issue create failed", code: None },
    }
}

// ---------------------------------------------------------------------------
// One issue
// ---------------------------------------------------------------------------

/// Where a single customer issue stands.
#[derive(Debug)]
pub enum IssueState<Q> {
    /// The request as it came: whether it is a `POST`, its bearer token and
    /// its body (`None` when it is not valid JSON).
    Received { is_post: bool, token: Option<String>, request: Option<WerkaCustomerIssueCreateRequest<Q>> },
    /// The session of the token is being looked up.
    Authorizing { request: Option<WerkaCustomerIssueCreateRequest<Q>> },
    /// Werka access of the principal is being checked.
    Checking { request: Option<WerkaCustomerIssueCreateRequest<Q>> },
    /// The backend is creating the issue.
    Creating,
    /// The customer is being notified.
    Notifying,
    /// The request is answered.
    Done,
}

/// What the caller reports back.
#[derive(Debug)]
pub enum IssueEvent {
    Start,
    /// The session of the token, or `None` when there is none.
    Session(Option<Principal>),
    /// Whether the principal has Werka access.
    Access(bool),
    /// The backend's answer: the issued line, nothing, or its error.
    Created(Result<Option<IssuedLine>, WerkaPortError>),
    /// The announcement was handed to push delivery.
    Sent,
}

/// What the caller does next.
#[derive(Debug)]
pub enum IssueAction<Q> {
    LookUpSession(String),
    /// Check that this principal has Werka access.
    CheckAccess(Principal),
    /// Ask the backend to create this issue.
    Create(WerkaCustomerIssueCreateInput<Q>),
    /// Send this push, with the backend's record as its data.
    Notify(PushMessage),
    /// Answer with the record the backend gave.
    RespondRecord,
    Refuse(Failure),
    /// Nothing: the event does not belong to this state.
    Wait,
}

/// Whether `e` is what the flow waits for in `s`.
pub open spec fn issue_expects<Q>(s: IssueState<Q>, e: IssueEvent) -> bool {
    match (s, e) {
        (IssueState::Received { .. }, IssueEvent::Start) => true,
        (IssueState::Authorizing { .. }, IssueEvent::Session(_)) => true,
        (IssueState::Checking { .. }, IssueEvent::Access(_)) => true,
        (IssueState::Creating, IssueEvent::Created(_)) => true,
        (IssueState::Notifying, IssueEvent::Sent) => true,
        _ => false,
    }
}

/// One step of a single customer issue.
pub open spec fn issue_next<Q>(s: IssueState<Q>, e: IssueEvent, r: (IssueState<Q>, IssueAction<Q>)) -> bool {
    if !issue_expects(s, e) {
        r == (s, IssueAction::<Q>::Wait)
    } else {
        match (s, e) {
            (IssueState::Received { is_post, token, request }, _) => if !is_post {
                r == (IssueState::<Q>::Done, IssueAction::<Q>::Refuse(refusal(405, "method not allowed")))
            } else {
                match token {
                    None => r == (IssueState::<Q>::Done, IssueAction::<Q>::Refuse(refusal(401, "unauthorized"))),
                    Some(t) => r == (IssueState::Authorizing { request }, IssueAction::<Q>::LookUpSession(t)),
                }
            },
            (IssueState::Authorizing { request }, IssueEvent::Session(p)) => match p {
                None => r == (IssueState::<Q>::Done, IssueAction::<Q>::Refuse(refusal(401, "unauthorized"))),
                Some(p) => r == (IssueState::Checking { request }, IssueAction::<Q>::CheckAccess(p)),
            },
            (IssueState::Checking { request }, IssueEvent::Access(ok)) => if !ok {
                r == (IssueState::<Q>::Done, IssueAction::<Q>::Refuse(refusal(403, "forbidden")))
            } else {
                match request {
                    None => r == (IssueState::<Q>::Done, IssueAction::<Q>::Refuse(refusal(400, "invalid json"))),
                    Some(q) => r == (IssueState::<Q>::Creating, IssueAction::Create(issue_input(q))),
                }
            },
            (IssueState::Creating, IssueEvent::Created(answer)) => match answer {
                Ok(Some(line)) => {
                    &&& r.0 == IssueState::<Q>::Notifying
                    &&& r.1 matches IssueAction::Notify(m) && issue_push(line, m)
                },
                Ok(None) => r == (IssueState::<Q>::Done, IssueAction::<Q>::Refuse(issue_refusal(None))),
                Err(error) => r == (IssueState::<Q>::Done, IssueAction::<Q>::Refuse(issue_refusal(Some(error)))),
            },
            _ => r == (IssueState::<Q>::Done, IssueAction::<Q>::RespondRecord),
        }
    }
}

fn issue_expected<Q>(s: &IssueState<Q>, e: &IssueEvent) -> (r: bool)
    ensures
        r == issue_expects(*s, *e),
{
    match (s, e) {
        (IssueState::Received { .. }, IssueEvent::Start) => true,
        (IssueState::Authorizing { .. }, IssueEvent::Session(_)) => true,
        (IssueState::Checking { .. }, IssueEvent::Access(_)) => true,
        (IssueState::Creating, IssueEvent::Created(_)) => true,
        (IssueState::Notifying, IssueEvent::Sent) => true,
        _ => false,
    }
}

/// The next state and action of a single customer issue.
pub fn customer_issue_create_step<Q>(state: IssueState<Q>, event: IssueEvent) -> (r: (IssueState<Q>, IssueAction<Q>))
    ensures
        issue_next(state, event, r),
{
    if !issue_expected(&state, &event) {
        return (state, IssueAction::Wait);
    }
    match state {
        IssueState::Received { is_post, token, request } => {
            if !is_post {
                return (IssueState::Done, IssueAction::Refuse(Failure { status: 405, error: "method not allowed", code: None }));
            }
            match token {
                None => (IssueState::Done, IssueAction::Refuse(Failure { status: 401, error: "unauthorized", code: None })),
                Some(t) => (IssueState::Authorizing { request }, IssueAction::LookUpSession(t)),
            }
        },
        IssueState::Authorizing { request } => match event {
            IssueEvent::Session(Some(p)) => (IssueState::Checking { request }, IssueAction::CheckAccess(p)),
            _ => (IssueState::Done, IssueAction::Refuse(Failure { status: 401, error: "unauthorized", code: None })),
        },
        IssueState::Checking { request } => {
            let ok = match event {
                IssueEvent::Access(b) => b,
                _ => false,
            };
            if !ok {
                return (IssueState::Done, IssueAction::Refuse(Failure { status: 403, error: "forbidden", code: None }));
            }
            match request {
                None => (IssueState::Done, IssueAction::Refuse(Failure { status: 400, error: "invalid json", code: None })),
                Some(q) => (IssueState::Creating, IssueAction::Create(customer_issue_input_from_request(q))),
            }
        },
        IssueState::Creating => match event {
            IssueEvent::Created(Ok(Some(line))) => (IssueState::Notifying, IssueAction::Notify(announce(&line))),
            IssueEvent::Created(Err(error)) => (IssueState::Done, IssueAction::Refuse(issue_failure_of(Some(&error)))),
            _ => (IssueState::Done, IssueAction::Refuse(issue_failure_of(None))),
        },
        _ => (IssueState::Done, IssueAction::RespondRecord),
    }
}


// ---------------------------------------------------------------------------
// A batch of issues
// ---------------------------------------------------------------------------

/// A batch of customer issues as the client sends it.
#[derive(Debug)]
pub struct IssueBatchRequest<Q> {
    pub client_batch_id: String,
    pub lines: Vec<WerkaCustomerIssueCreateRequest<Q>>,
}

/// The backend input `i` of the batch line `q`: its customer, item and
/// quantity, with an empty source.
pub open spec fn batch_line_input<Q>(q: WerkaCustomerIssueCreateRequest<Q>, i: WerkaCustomerIssueCreateInput<Q>) -> bool {
    &&& i.customer_ref@ == q.customer_ref@
    &&& i.item_code@ == q.item_code@
    &&& i.qty == q.qty
    &&& i.source.barcode@.len() == 0
    &&& i.source.stock_entry_name@.len() == 0
    &&& i.source.line_index == 0
}

/// `ins` are the backend inputs of the batch lines `qs`, in order.
pub open spec fn batch_inputs<Q>(qs: Seq<WerkaCustomerIssueCreateRequest<Q>>, ins: Seq<WerkaCustomerIssueCreateInput<Q>>) -> bool {
    &&& ins.len() == qs.len()
    &&& forall|i: int| 0 <= i < qs.len() ==> batch_line_input(#[trigger] qs[i], ins[i])
}

/// `ms` announce the issued lines `ls`, in order.
pub open spec fn batch_pushes(ls: Seq<IssuedLine>, ms: Seq<PushMessage>) -> bool {
    &&& ms.len() == ls.len()
    &&& forall|i: int| 0 <= i < ls.len() ==> issue_push(#[trigger] ls[i], ms[i])
}

fn batch_inputs_of<Q>(lines: Vec<WerkaCustomerIssueCreateRequest<Q>>) -> (r: Vec<WerkaCustomerIssueCreateInput<Q>>)
    ensures
        batch_inputs(lines@, r@),
{
    let ghost orig = lines@;
    let mut rest = lines;
    let mut out: Vec<WerkaCustomerIssueCreateInput<Q>> = Vec::new();
    while rest.len() > 0
        invariant
            out@.len() + rest@.len() == orig.len(),
            rest@ == orig.subrange(out@.len() as int, orig.len() as int),
            forall|i: int| 0 <= i < out@.len() ==> batch_line_input(#[trigger] orig[i], out@[i]),
        decreases rest@.len(),
    {
        let ghost k = out@.len();
        let q = rest.remove(0);
        assert(q == orig[k as int]);
        out.push(customer_issue_batch_input_from_request(q));
        assert(rest@ =~= orig.subrange(out@.len() as int, orig.len() as int));
    }
    out
}

fn announce_all(lines: &Vec<IssuedLine>) -> (r: Vec<PushMessage>)
    ensures
        batch_pushes(lines@, r@),
{
    let mut out: Vec<PushMessage> = Vec::new();
    let mut i: usize = 0;
    while i < lines.len()
        invariant
            i <= lines@.len(),
            out@.len() == i,
            forall|j: int| 0 <= j < i ==> issue_push(#[trigger] lines@[j], out@[j]),
        decreases lines@.len() - i,
    {
        out.push(announce(&lines[i]));
        i = i + 1;
    }
    out
}

/// Where a batch of customer issues stands.
#[derive(Debug)]
pub enum BatchState<Q> {
    /// The request as it came: whether it is a `POST`, its bearer token and
    /// its body (`None` when it is not valid JSON).
    Received { is_post: bool, token: Option<String>, request: Option<IssueBatchRequest<Q>> },
    /// The session of the token is being looked up.
    Authorizing { request: Option<IssueBatchRequest<Q>> },
    /// Werka access of the principal is being checked.
    Checking { request: Option<IssueBatchRequest<Q>> },
    /// The backend is creating the batch.
    Creating,
    /// The customers are being notified.
    Notifying,
    /// The request is answered.
    Done,
}

/// What the caller reports back.
#[derive(Debug)]
pub enum BatchEvent {
    Start,
    /// The session of the token, or `None` when there is none.
    Session(Option<Principal>),
    /// Whether the principal has Werka access.
    Access(bool),
    /// The backend's answer: the lines it issued with a record, in order,
    /// nothing, or its error.
    Created(Result<Option<Vec<IssuedLine>>, WerkaPortError>),
    /// The announcements were handed to push delivery.
    Sent,
}

/// What the caller does next.
#[derive(Debug)]
pub enum BatchAction<Q> {
    LookUpSession(String),
    /// Check that this principal has Werka access.
    CheckAccess(Principal),
    /// Ask the backend to create these issues under this batch id.
    CreateBatch { client_batch_id: String, lines: Vec<WerkaCustomerIssueCreateInput<Q>> },
    /// Send these pushes in order, each with its line's record as data.
    NotifyAll(Vec<PushMessage>),
    /// Answer with the batch result the backend gave.
    RespondResult,
    Refuse(Failure),
    /// Nothing: the event does not belong to this state.
    Wait,
}

/// Whether `e` is what the flow waits for in `s`.
pub open spec fn batch_expects<Q>(s: BatchState<Q>, e: BatchEvent) -> bool {
    match (s, e) {
        (BatchState::Received { .. }, BatchEvent::Start) => true,
        (BatchState::Authorizing { .. }, BatchEvent::Session(_)) => true,
        (BatchState::Checking { .. }, BatchEvent::Access(_)) => true,
        (BatchState::Creating, BatchEvent::Created(_)) => true,
        (BatchState::Notifying, BatchEvent::Sent) => true,
        _ => false,
    }
}

/// One step of a batch of customer issues.
pub open spec fn batch_next<Q>(s: BatchState<Q>, e: BatchEvent, r: (BatchState<Q>, BatchAction<Q>)) -> bool {
    if !batch_expects(s, e) {
        r == (s, BatchAction::<Q>::Wait)
    } else {
        match (s, e) {
            (BatchState::Received { is_post, token, request }, _) => if !is_post {
                r == (BatchState::<Q>::Done, BatchAction::<Q>::Refuse(refusal(405, "method not allowed")))
            } else {
                match token {
                    None => r == (BatchState::<Q>::Done, BatchAction::<Q>::Refuse(refusal(401, "unauthorized"))),
                    Some(t) => r == (BatchState::Authorizing { request }, BatchAction::<Q>::LookUpSession(t)),
                }
            },
            (BatchState::Authorizing { request }, BatchEvent::Session(p)) => match p {
                None => r == (BatchState::<Q>::Done, BatchAction::<Q>::Refuse(refusal(401, "unauthorized"))),
                Some(p) => r == (BatchState::Checking { request }, BatchAction::<Q>::CheckAccess(p)),
            },
            (BatchState::Checking { request }, BatchEvent::Access(ok)) => if !ok {
                r == (BatchState::<Q>::Done, BatchAction::<Q>::Refuse(refusal(403, "forbidden")))
            } else {
                match request {
                    None => r == (BatchState::<Q>::Done, BatchAction::<Q>::Refuse(refusal(400, "invalid json"))),
                    Some(q) => if q.lines@.len() == 0 {
                        r == (BatchState::<Q>::Done, BatchAction::<Q>::Refuse(refusal(400, "lines are required")))
                    } else {
                        &&& r.0 == BatchState::<Q>::Creating
                        &&& r.1 matches BatchAction::CreateBatch { client_batch_id, lines }
                            && client_batch_id == q.client_batch_id && batch_inputs(q.lines@, lines@)
                    },
                }
            },
            (BatchState::Creating, BatchEvent::Created(answer)) => match answer {
                Ok(Some(ls)) => {
                    &&& r.0 == BatchState::<Q>::Notifying
                    &&& r.1 matches BatchAction::NotifyAll(ms) && batch_pushes(ls@, ms@)
                },
                _ => r == (
                    BatchState::<Q>::Done,
                    BatchAction::<Q>::Refuse(refusal(500, "werka customer issue create failed")),
                ),
            },
            _ => r == (BatchState::<Q>::Done, BatchAction::<Q>::RespondResult),
        }
    }
}

fn batch_expected<Q>(s: &BatchState<Q>, e: &BatchEvent) -> (r: bool)
    ensures
        r == batch_expects(*s, *e),
{
    match (s, e) {
        (BatchState::Received { .. }, BatchEvent::Start) => true,
        (BatchState::Authorizing { .. }, BatchEvent::Session(_)) => true,
        (BatchState::Checking { .. }, BatchEvent::Access(_)) => true,
        (BatchState::Creating, BatchEvent::Created(_)) => true,
        (BatchState::Notifying, BatchEvent::Sent) => true,
        _ => false,
    }
}

/// The next state and action of a batch of customer issues.
pub fn customer_issue_batch_create_step<Q>(state: BatchState<Q>, event: BatchEvent) -> (r: (BatchState<Q>, BatchAction<Q>))
    ensures
        batch_next(state, event, r),
{
    if !batch_expected(&state, &event) {
        return (state, BatchAction::Wait);
    }
    match state {
        BatchState::Received { is_post, token, request } => {
            if !is_post {
                return (BatchState::Done, BatchAction::Refuse(Failure { status: 405, error: "method not allowed", code: None }));
            }
            match token {
                None => (BatchState::Done, BatchAction::Refuse(Failure { status: 401, error: "unauthorized", code: None })),
                Some(t) => (BatchState::Authorizing { request }, BatchAction::LookUpSession(t)),
            }
        },
        BatchState::Authorizing { request } => match event {
            BatchEvent::Session(Some(p)) => (BatchState::Checking { request }, BatchAction::CheckAccess(p)),
            _ => (BatchState::Done, BatchAction::Refuse(Failure { status: 401, error: "unauthorized", code: None })),
        },
        BatchState::Checking { request } => {
            let ok = match event {
                BatchEvent::Access(b) => b,
                _ => false,
            };
            if !ok {
                return (BatchState::Done, BatchAction::Refuse(Failure { status: 403, error: "forbidden", code: None }));
            }
            match request {
                None => (BatchState::Done, BatchAction::Refuse(Failure { status: 400, error: "invalid json", code: None })),
                Some(q) => {
                    if q.lines.len() == 0 {
                        return (BatchState::Done, BatchAction::Refuse(Failure { status: 400, error: "lines are required", code: None }));
                    }
                    let IssueBatchRequest { client_batch_id, lines } = q;
                    let inputs = batch_inputs_of(lines);
                    (BatchState::Creating, BatchAction::CreateBatch { client_batch_id, lines: inputs })
                },
            }
        },
        BatchState::Creating => match event {
            BatchEvent::Created(Ok(Some(ls))) => (BatchState::Notifying, BatchAction::NotifyAll(announce_all(&ls))),
            _ => (BatchState::Done, BatchAction::Refuse(Failure { status: 500, error: "werka customer issue create failed", code: None })),
        },
        _ => (BatchState::Done, BatchAction::RespondResult),
    }
}

} // verus!
