use accord_mobile::calculate::CalculateOrderError;
use accord_mobile::customer::CustomerFailure;
use accord_mobile::flows::{comment_step, CommentAction, CommentEvent, CommentState, Failure};
use accord_mobile::issue_flows::{
    customer_issue_batch_create_step, customer_issue_create_step, BatchAction, BatchEvent, BatchState,
    IssueAction, IssueBatchRequest, IssueEvent, IssueState, IssuedLine,
};
use accord_mobile::map_flows::{
    production_map_save_with_order_step, template_error, MapSaveAction, MapSaveEvent, MapSaveRequest, MapSaveState,
};
use accord_mobile::models::{DispatchRecord, Principal, PrincipalRole};
use accord_mobile::order_templates::CalculateOrderTemplate;
use accord_mobile::production_map::{ProductionMapError, ProductionMapHeader};
use accord_mobile::reply_flows::{
    create_dispatch_step, customer_respond_step, unannounced_respond_step, DispatchAction, DispatchEvent,
    DispatchRequest, DispatchState, RespondAction, RespondEvent, RespondState, UnannouncedAction,
    UnannouncedAnswer, UnannouncedEvent, UnannouncedState,
};
use accord_mobile::upload_flows::{
    ai_search_suggestion_step, avatar_upload_step, AiSearchAction, AiSearchError, AiSearchEvent, AiSearchState,
    AvatarAction, AvatarEvent, AvatarState,
};
use accord_mobile::werka::{WerkaCustomerIssueCreateRequest, WerkaPortError};

fn principal(role: PrincipalRole, ref_: &str) -> Principal {
    Principal {
        role,
        display_name: "Ali".to_string(),
        legal_name: "Ali LLC".to_string(),
        ref_: ref_.to_string(),
        phone: "+998".to_string(),
        avatar_url: "/files/a.png".to_string(),
    }
}

fn record() -> DispatchRecord {
    DispatchRecord {
        id: " PR-001 ".to_string(),
        record_type: "receipt".to_string(),
        supplier_ref: "SUP-001".to_string(),
        supplier_name: "Supplier".to_string(),
        item_code: "ITEM-001".to_string(),
        item_name: "Rice".to_string(),
        uom: "Kg".to_string(),
        sent_qty: "10.0000".to_string(),
        accepted_qty: "0.0000".to_string(),
        amount: "0.0000".to_string(),
        currency: "UZS".to_string(),
        note: "Qabul qilindi".to_string(),
        event_type: "receipt".to_string(),
        highlight: String::new(),
        status: "pending".to_string(),
        created_label: "Bugun".to_string(),
    }
}

fn refused(f: &Failure, status: u16, error: &str) -> bool {
    f.status == status && f.error == error
}

fn comment_start(is_post: bool, token: Option<&str>, receipt: Option<&str>, message: Option<&str>) -> CommentState {
    CommentState::Received {
        is_post,
        token: token.map(str::to_string),
        receipt_id: receipt.map(str::to_string),
        message: message.map(str::to_string),
    }
}

#[test]
fn comment_flow_acknowledgment_is_dated_and_sent_to_werka() {
    let (s, a) = comment_step(comment_start(true, Some("tok"), Some("PR-001"), Some("  Tasdiqlayman ")), CommentEvent::Start);
    assert!(matches!(a, CommentAction::LookUpSession(ref t) if t == "tok"));
    let (s, a) = comment_step(s, CommentEvent::Session(Some(principal(PrincipalRole::Supplier, "SUP-001"))));
    match a {
        CommentAction::AddComment { role, ref_, receipt_id, text, .. } => {
            assert_eq!(role, PrincipalRole::Supplier);
            assert_eq!(ref_, "SUP-001");
            assert_eq!(receipt_id, "PR-001");
            assert_eq!(text, "  Tasdiqlayman ");
        }
        other => panic!("unexpected {other:?}"),
    }
    let (s, a) = comment_step(s, CommentEvent::Commented(Ok(Some(record()))));
    assert!(matches!(a, CommentAction::ReadClock));
    let (s, a) = comment_step(s, CommentEvent::Clock(1700000000));
    match a {
        CommentAction::Notify { message, record } => {
            assert_eq!(record.id, "supplier_ack:PR-001:1700000000");
            assert_eq!(record.event_type, "supplier_ack");
            assert_eq!(message.key, "werka:werka");
            assert_eq!(message.title, "Supplier tasdiqladi");
            assert_eq!(message.body, "Supplier mahsulotni qaytarganingizni tasdiqladi");
        }
        other => panic!("unexpected {other:?}"),
    }
    let (s, a) = comment_step(s, CommentEvent::Sent);
    assert!(matches!(a, CommentAction::RespondDetail));
    assert!(matches!(s, CommentState::Done));
}

#[test]
fn comment_flow_refusals() {
    let (_, a) = comment_step(comment_start(false, Some("tok"), Some("R"), Some("m")), CommentEvent::Start);
    assert!(matches!(a, CommentAction::Refuse(ref f) if refused(f, 405, "method not allowed")));
    let (_, a) = comment_step(comment_start(true, None, Some("R"), Some("m")), CommentEvent::Start);
    assert!(matches!(a, CommentAction::Refuse(ref f) if refused(f, 401, "unauthorized")));
    let (s, _) = comment_step(comment_start(true, Some("t"), Some("R"), Some("m")), CommentEvent::Start);
    let (_, a) = comment_step(s, CommentEvent::Session(Some(principal(PrincipalRole::Admin, "a"))));
    assert!(matches!(a, CommentAction::Refuse(ref f) if refused(f, 403, "forbidden")));
    let (s, _) = comment_step(comment_start(true, Some("t"), Some("  "), Some("m")), CommentEvent::Start);
    let (_, a) = comment_step(s, CommentEvent::Session(Some(principal(PrincipalRole::Werka, "w"))));
    assert!(matches!(a, CommentAction::Refuse(ref f) if refused(f, 400, "receipt_id is required")));
    let (s, _) = comment_step(comment_start(true, Some("t"), Some("R"), None), CommentEvent::Start);
    let (_, a) = comment_step(s, CommentEvent::Session(Some(principal(PrincipalRole::Werka, "w"))));
    assert!(matches!(a, CommentAction::Refuse(ref f) if refused(f, 400, "invalid json")));
    let (s, _) = comment_step(comment_start(true, Some("t"), Some("R"), Some("ok")), CommentEvent::Start);
    let (s, _) = comment_step(s, CommentEvent::Session(Some(principal(PrincipalRole::Werka, "w"))));
    let (_, a) = comment_step(s, CommentEvent::Commented(Err("backend: unauthorized".to_string())));
    assert!(matches!(a, CommentAction::Refuse(ref f) if refused(f, 403, "forbidden")));
    let (s, _) = comment_step(comment_start(true, Some("t"), Some("R"), Some("ok")), CommentEvent::Start);
    let (s, _) = comment_step(s, CommentEvent::Session(Some(principal(PrincipalRole::Werka, "w"))));
    let (_, a) = comment_step(s, CommentEvent::Commented(Ok(None)));
    assert!(matches!(a, CommentAction::Refuse(ref f) if refused(f, 500, "notification comment failed")));
}

#[test]
fn comment_flow_plain_comment_answers_without_push_and_ignores_stray_events() {
    let (s, a) = comment_step(comment_start(true, Some("t"), Some("R"), Some("salom")), CommentEvent::Sent);
    assert!(matches!(a, CommentAction::Wait));
    let (s, _) = comment_step(s, CommentEvent::Start);
    let (s, _) = comment_step(s, CommentEvent::Session(Some(principal(PrincipalRole::Supplier, "s"))));
    let (s, a) = comment_step(s, CommentEvent::Commented(Ok(Some(record()))));
    assert!(matches!(a, CommentAction::RespondDetail));
    assert!(matches!(s, CommentState::Done));
}

fn issue_request() -> WerkaCustomerIssueCreateRequest<f64> {
    WerkaCustomerIssueCreateRequest {
        customer_ref: "CUST-1".to_string(),
        item_code: "ITEM-1".to_string(),
        qty: 4.0,
        source_barcode: "BC".to_string(),
        source_stock_entry: "SE-1".to_string(),
        source_line_index: 2,
    }
}

fn issued() -> IssuedLine {
    IssuedLine {
        customer_ref: " CUST-1 ".to_string(),
        item_code: "ITEM-1".to_string(),
        qty: "4".to_string(),
        uom: "Kg".to_string(),
    }
}

#[test]
fn customer_issue_flow_creates_and_notifies_the_customer() {
    let start = IssueState::Received { is_post: true, token: Some("t".to_string()), request: Some(issue_request()) };
    let (s, _) = customer_issue_create_step(start, IssueEvent::Start);
    let (s, a) = customer_issue_create_step(s, IssueEvent::Session(Some(principal(PrincipalRole::Werka, "w"))));
    assert!(matches!(a, IssueAction::CheckAccess(_)));
    let (s, a) = customer_issue_create_step(s, IssueEvent::Access(true));
    match a {
        IssueAction::Create(input) => {
            assert_eq!(input.customer_ref, "CUST-1");
            assert_eq!(input.source.stock_entry_name, "SE-1");
            assert_eq!(input.source.line_index, 2);
        }
        other => panic!("unexpected {other:?}"),
    }
    let (s, a) = customer_issue_create_step(s, IssueEvent::Created(Ok(Some(issued()))));
    match a {
        IssueAction::Notify(m) => {
            assert_eq!(m.key, "customer:CUST-1");
            assert_eq!(m.body, "ITEM-1 4 Kg jo'natildi");
        }
        other => panic!("unexpected {other:?}"),
    }
    let (_, a) = customer_issue_create_step(s, IssueEvent::Sent);
    assert!(matches!(a, IssueAction::RespondRecord));
}

#[test]
fn customer_issue_flow_refusals() {
    let start = IssueState::Received { is_post: true, token: Some("t".to_string()), request: Some(issue_request()) };
    let (s, _) = customer_issue_create_step(start, IssueEvent::Start);
    let (s, _) = customer_issue_create_step(s, IssueEvent::Session(Some(principal(PrincipalRole::Werka, "w"))));
    let (_, a) = customer_issue_create_step(s, IssueEvent::Access(false));
    assert!(matches!(a, IssueAction::Refuse(ref f) if refused(f, 403, "forbidden")));
    let start = IssueState::Received { is_post: true, token: Some("t".to_string()), request: Some(issue_request()) };
    let (s, _) = customer_issue_create_step(start, IssueEvent::Start);
    let (s, _) = customer_issue_create_step(s, IssueEvent::Session(Some(principal(PrincipalRole::Werka, "w"))));
    let (s, _) = customer_issue_create_step(s, IssueEvent::Access(true));
    let (_, a) = customer_issue_create_step(s, IssueEvent::Created(Err(WerkaPortError::InsufficientStock)));
    match a {
        IssueAction::Refuse(f) => {
            assert!(refused(&f, 409, "insufficient stock"));
            assert_eq!(f.code, Some("insufficient_stock"));
        }
        other => panic!("unexpected {other:?}"),
    }
    let start: IssueState<f64> = IssueState::Received { is_post: true, token: Some("t".to_string()), request: None };
    let (s, _) = customer_issue_create_step(start, IssueEvent::Start);
    let (s, _) = customer_issue_create_step(s, IssueEvent::Session(Some(principal(PrincipalRole::Werka, "w"))));
    let (_, a) = customer_issue_create_step(s, IssueEvent::Access(true));
    assert!(matches!(a, IssueAction::Refuse(ref f) if refused(f, 400, "invalid json")));
}

#[test]
fn customer_issue_batch_flow() {
    let empty: IssueBatchRequest<f64> = IssueBatchRequest { client_batch_id: "b1".to_string(), lines: Vec::new() };
    let start = BatchState::Received { is_post: true, token: Some("t".to_string()), request: Some(empty) };
    let (s, _) = customer_issue_batch_create_step(start, BatchEvent::Start);
    let (s, _) = customer_issue_batch_create_step(s, BatchEvent::Session(Some(principal(PrincipalRole::Werka, "w"))));
    let (_, a) = customer_issue_batch_create_step(s, BatchEvent::Access(true));
    assert!(matches!(a, BatchAction::Refuse(ref f) if refused(f, 400, "lines are required")));

    let batch = IssueBatchRequest { client_batch_id: "b2".to_string(), lines: vec![issue_request(), issue_request()] };
    let start = BatchState::Received { is_post: true, token: Some("t".to_string()), request: Some(batch) };
    let (s, _) = customer_issue_batch_create_step(start, BatchEvent::Start);
    let (s, _) = customer_issue_batch_create_step(s, BatchEvent::Session(Some(principal(PrincipalRole::Werka, "w"))));
    let (s, a) = customer_issue_batch_create_step(s, BatchEvent::Access(true));
    match a {
        BatchAction::CreateBatch { client_batch_id, lines } => {
            assert_eq!(client_batch_id, "b2");
            assert_eq!(lines.len(), 2);
            assert_eq!(lines[1].item_code, "ITEM-1");
            assert!(lines[1].source.barcode.is_empty());
            assert_eq!(lines[1].source.line_index, 0);
        }
        other => panic!("unexpected {other:?}"),
    }
    let (s, a) = customer_issue_batch_create_step(s, BatchEvent::Created(Ok(Some(vec![issued(), issued()]))));
    match a {
        BatchAction::NotifyAll(ms) => {
            assert_eq!(ms.len(), 2);
            assert_eq!(ms[0].title, "Werka mahsulot jo'natdi");
        }
        other => panic!("unexpected {other:?}"),
    }
    let (_, a) = customer_issue_batch_create_step(s, BatchEvent::Sent);
    assert!(matches!(a, BatchAction::RespondResult));
}

#[test]
fn customer_respond_flow() {
    let start = RespondState::Received { is_post: true, token: Some("t".to_string()), request: Some(7u32) };
    let (s, _) = customer_respond_step(start, RespondEvent::Start);
    let (s, _) = customer_respond_step(s, RespondEvent::Session(Some(principal(PrincipalRole::Customer, "c"))));
    let (s, a) = customer_respond_step(s, RespondEvent::Access(true));
    assert!(matches!(a, RespondAction::Answer { request: 7, .. }));
    let (s, a) = customer_respond_step(s, RespondEvent::Answered(Ok(Some(record()))));
    match a {
        RespondAction::NotifyAll { messages, .. } => {
            assert_eq!(messages.len(), 2);
            assert_eq!(messages[0].key, "werka:werka");
            assert_eq!(messages[1].key, "admin:admin");
            assert_eq!(messages[1].body, "Qabul qilindi");
        }
        other => panic!("unexpected {other:?}"),
    }
    let (_, a) = customer_respond_step(s, RespondEvent::Sent);
    assert!(matches!(a, RespondAction::RespondDetail));

    let start = RespondState::Received { is_post: true, token: Some("t".to_string()), request: Some(7u32) };
    let (s, _) = customer_respond_step(start, RespondEvent::Start);
    let (s, _) = customer_respond_step(s, RespondEvent::Session(Some(principal(PrincipalRole::Customer, "c"))));
    let (s, _) = customer_respond_step(s, RespondEvent::Access(true));
    let (_, a) = customer_respond_step(s, RespondEvent::Answered(Err(CustomerFailure::InvalidInput)));
    assert!(matches!(a, RespondAction::Refuse(ref f) if refused(f, 400, "invalid input")));
}

#[test]
fn create_dispatch_flow() {
    let request = DispatchRequest { item_code: "ITEM-001".to_string(), qty: 10.0 };
    let start = DispatchState::Received { is_post: true, token: Some("t".to_string()), request: Some(request) };
    let (s, _) = create_dispatch_step(start, DispatchEvent::Start);
    let (s, a) = create_dispatch_step(s, DispatchEvent::Session(Some(principal(PrincipalRole::Supplier, "SUP-001"))));
    match a {
        DispatchAction::Create { supplier_ref, item_code, qty, .. } => {
            assert_eq!(supplier_ref, "SUP-001");
            assert_eq!(item_code, "ITEM-001");
            assert_eq!(qty, 10.0);
        }
        other => panic!("unexpected {other:?}"),
    }
    let (s, a) = create_dispatch_step(s, DispatchEvent::Created(Some((record(), "10".to_string()))));
    match a {
        DispatchAction::Notify { message, .. } => {
            assert_eq!(message.title, "Supplier");
            assert_eq!(message.body, "ITEM-001 \u{2022} 10 Kg qabul kutmoqda.");
        }
        other => panic!("unexpected {other:?}"),
    }
    let (_, a) = create_dispatch_step(s, DispatchEvent::Sent);
    assert!(matches!(a, DispatchAction::RespondRecord));

    let request = DispatchRequest { item_code: "X".to_string(), qty: 1.0 };
    let start = DispatchState::Received { is_post: true, token: Some("t".to_string()), request: Some(request) };
    let (s, _) = create_dispatch_step(start, DispatchEvent::Start);
    let (_, a) = create_dispatch_step(s, DispatchEvent::Session(Some(principal(PrincipalRole::Werka, "w"))));
    assert!(matches!(a, DispatchAction::Refuse(ref f) if refused(f, 403, "forbidden")));
}

#[test]
fn unannounced_respond_flow() {
    let answer = UnannouncedAnswer { receipt_id: "PR-9".to_string(), approve: false, reason: "late".to_string() };
    let start = UnannouncedState::Received { is_post: true, token: Some("t".to_string()), request: Some(answer) };
    let (s, _) = unannounced_respond_step(start, UnannouncedEvent::Start);
    let (s, a) = unannounced_respond_step(s, UnannouncedEvent::Session(Some(principal(PrincipalRole::Supplier, "S"))));
    assert!(matches!(a, UnannouncedAction::Answer { approve: false, ref receipt_id, .. } if receipt_id == "PR-9"));
    let (_, a) = unannounced_respond_step(s, UnannouncedEvent::Answered(None));
    assert!(matches!(a, UnannouncedAction::Refuse(ref f) if refused(f, 500, "supplier unannounced response failed")));
}

#[test]
fn avatar_upload_flow() {
    let body = b"--X\r\nContent-Disposition: form-data; name=\"avatar\"; filename=\"a.png\"\r\nContent-Type: image/png\r\n\r\nPNG\r\n--X--\r\n".to_vec();
    let start = AvatarState::Received {
        is_post: true,
        bearer: Some("tok".to_string()),
        content_type: "multipart/form-data; boundary=X".to_string(),
        body,
        host: Some("api.example".to_string()),
        proto: Some("https".to_string()),
    };
    let (s, _) = avatar_upload_step(start, AvatarEvent::Start);
    let (s, a) = avatar_upload_step(s, AvatarEvent::Session(Some(principal(PrincipalRole::Supplier, "SUP-1"))));
    match a {
        AvatarAction::Upload { upload, .. } => {
            assert_eq!(upload.filename, "a.png");
            assert_eq!(upload.content, b"PNG".to_vec());
        }
        other => panic!("unexpected {other:?}"),
    }
    let (s, a) = avatar_upload_step(s, AvatarEvent::Uploaded(Some(principal(PrincipalRole::Supplier, "SUP-1"))));
    assert!(matches!(a, AvatarAction::UpdateSession { ref token, .. } if token == "tok"));
    let (_, a) = avatar_upload_step(s, AvatarEvent::Updated);
    match a {
        AvatarAction::RespondPrincipal(p) => {
            assert_eq!(p.avatar_url, "https://api.example/v1/mobile/profile/avatar/view?token=tok");
        }
        other => panic!("unexpected {other:?}"),
    }

    let start = AvatarState::Received {
        is_post: true,
        bearer: Some("tok".to_string()),
        content_type: "text/plain".to_string(),
        body: Vec::new(),
        host: None,
        proto: None,
    };
    let (s, _) = avatar_upload_step(start, AvatarEvent::Start);
    let (_, a) = avatar_upload_step(s, AvatarEvent::Session(Some(principal(PrincipalRole::Werka, "w"))));
    assert!(matches!(a, AvatarAction::RefuseBody((400, ref e)) if e.error == "invalid multipart"));
}

#[test]
fn ai_search_suggestion_flow() {
    let body = b"--B\r\nContent-Disposition: form-data; name=\"image\"; filename=\"p.jpg\"\r\n\r\n\xFF\xD8\xFFdata\r\n--B--\r\n".to_vec();
    let start = AiSearchState::Received {
        is_post: true,
        token: Some("t".to_string()),
        content_type: "multipart/form-data; boundary=B".to_string(),
        body,
    };
    let (s, _) = ai_search_suggestion_step(start, AiSearchEvent::Start);
    let (s, _) = ai_search_suggestion_step(s, AiSearchEvent::Session(Some(principal(PrincipalRole::Werka, "w"))));
    let (s, a) = ai_search_suggestion_step(s, AiSearchEvent::Access(true));
    assert!(matches!(a, AiSearchAction::CheckConfigured));
    let (s, a) = ai_search_suggestion_step(s, AiSearchEvent::Configured(true));
    match a {
        AiSearchAction::Search { bytes, mime_type } => {
            assert_eq!(mime_type, "image/jpeg");
            assert_eq!(bytes.len(), 7);
        }
        other => panic!("unexpected {other:?}"),
    }
    let err = AiSearchError { code: "upstream".to_string(), message: "bad gateway".to_string() };
    let (_, a) = ai_search_suggestion_step(s, AiSearchEvent::Searched(Err(err)));
    assert!(matches!(a, AiSearchAction::RefuseSearch { status: 502, .. }));

    let start = AiSearchState::Received { is_post: false, token: None, content_type: String::new(), body: Vec::new() };
    let (_, a) = ai_search_suggestion_step(start, AiSearchEvent::Start);
    match a {
        AiSearchAction::Refuse(f) => {
            assert!(refused(&f, 405, "method not allowed"));
            assert_eq!(f.code, Some("method_not_allowed"));
        }
        other => panic!("unexpected {other:?}"),
    }
}

fn template(source_map_id: &str) -> CalculateOrderTemplate<f64> {
    CalculateOrderTemplate {
        id: "t1".to_string(),
        code: "Z-1".to_string(),
        name: "Bag".to_string(),
        saved_at: String::new(),
        order_number: String::new(),
        customer_ref: "CUST".to_string(),
        customer: "Acme".to_string(),
        item_code: "ITEM".to_string(),
        product: String::new(),
        status: "New".to_string(),
        material_display: String::new(),
        color: String::new(),
        image_id: String::new(),
        image_name: String::new(),
        image_mime: String::new(),
        image_size_bytes: 0,
        image_url: String::new(),
        width_mm: 530.0,
        waste_percent: 2.0,
        roll_count: None,
        width_mm_key: "530.000".to_string(),
        waste_percent_key: "2.000".to_string(),
        roll_count_key: String::new(),
        first_layer_material: String::new(),
        first_layer_micron: String::new(),
        second_layer_material: String::new(),
        second_layer_micron: String::new(),
        third_layer_material: String::new(),
        third_layer_micron: String::new(),
        note: String::new(),
        kg: 0.0,
        source_map_id: source_map_id.to_string(),
    }
}

fn header(id: &str) -> ProductionMapHeader {
    ProductionMapHeader {
        id: id.to_string(),
        product_code: "P".to_string(),
        title: "Map".to_string(),
        order_number: String::new(),
    }
}

fn map_save_until_saving(template: Option<CalculateOrderTemplate<f64>>, sheet: bool) -> MapSaveState<f64> {
    let request = MapSaveRequest { map: header(" map-1 "), template, sheet_order_map: sheet };
    let start = MapSaveState::Received { is_put: true, token: Some("t".to_string()), request: Some(request) };
    let (s, _) = production_map_save_with_order_step(start, MapSaveEvent::Start);
    let (s, _) = production_map_save_with_order_step(s, MapSaveEvent::Session(Some(principal(PrincipalRole::Admin, "adm"))));
    let (s, a) = production_map_save_with_order_step(s, MapSaveEvent::Access(true));
    let s = match a {
        MapSaveAction::ValidateTemplate(t) => production_map_save_with_order_step(s, MapSaveEvent::Validated(Ok(t))).0,
        _ => s,
    };
    let (s, a) = production_map_save_with_order_step(s, MapSaveEvent::Previous(Ok(false)));
    assert!(matches!(a, MapSaveAction::UpsertMap));
    s
}

#[test]
fn map_save_links_the_template_and_starts_integrations() {
    let request = MapSaveRequest { map: header(" map-1 "), template: Some(template("")), sheet_order_map: true };
    let start = MapSaveState::Received { is_put: true, token: Some("t".to_string()), request: Some(request) };
    let (s, _) = production_map_save_with_order_step(start, MapSaveEvent::Start);
    let (s, _) = production_map_save_with_order_step(s, MapSaveEvent::Session(Some(principal(PrincipalRole::Admin, "adm"))));
    let (s, a) = production_map_save_with_order_step(s, MapSaveEvent::Access(true));
    let t = match a {
        MapSaveAction::ValidateTemplate(t) => t,
        other => panic!("unexpected {other:?}"),
    };
    let (s, a) = production_map_save_with_order_step(s, MapSaveEvent::Validated(Ok(t)));
    assert!(matches!(a, MapSaveAction::ReadPrevious(ref id) if id == "map-1"));
    let (s, _) = production_map_save_with_order_step(s, MapSaveEvent::Previous(Ok(false)));
    let (s, a) = production_map_save_with_order_step(s, MapSaveEvent::Upserted(Ok(" map-1 ".to_string())));
    match a {
        MapSaveAction::UpsertTemplate { role, owner_ref, template } => {
            assert_eq!(role, PrincipalRole::Admin);
            assert_eq!(owner_ref, "adm");
            assert_eq!(template.source_map_id, "map-1");
            assert_eq!(template.code, "Z-1");
        }
        other => panic!("unexpected {other:?}"),
    }
    let (_, a) = production_map_save_with_order_step(s, MapSaveEvent::TemplateSaved(Ok(())));
    assert!(matches!(a, MapSaveAction::Respond { start_integrations: true, integration_template: None }));
}

#[test]
fn map_save_restores_the_map_when_the_template_fails() {
    let s = map_save_until_saving(Some(template("")), false);
    let (s, _) = production_map_save_with_order_step(s, MapSaveEvent::Upserted(Ok("map-1".to_string())));
    let (s, a) = production_map_save_with_order_step(s, MapSaveEvent::TemplateSaved(Err(CalculateOrderError::StoreFailed)));
    assert!(matches!(a, MapSaveAction::RestoreMap(ref id) if id == "map-1"));
    let (s, a) = production_map_save_with_order_step(s, MapSaveEvent::Restored);
    assert!(matches!(a, MapSaveAction::RefuseTemplate(CalculateOrderError::StoreFailed)));
    assert!(matches!(s, MapSaveState::Done));
}

#[test]
fn map_save_quick_template_clone_goes_to_integrations_unsaved() {
    let s = map_save_until_saving(Some(template("other-map")), true);
    let (_, a) = production_map_save_with_order_step(s, MapSaveEvent::Upserted(Ok("map-1".to_string())));
    match a {
        MapSaveAction::Respond { start_integrations, integration_template } => {
            assert!(start_integrations);
            assert_eq!(integration_template.expect("template handed on").source_map_id, "other-map");
        }
        other => panic!("unexpected {other:?}"),
    }
}

#[test]
fn map_save_refusals() {
    let request: MapSaveRequest<f64> = MapSaveRequest { map: header("m"), template: None, sheet_order_map: false };
    let start = MapSaveState::Received { is_put: false, token: Some("t".to_string()), request: Some(request) };
    let (s, _) = production_map_save_with_order_step(start, MapSaveEvent::Start);
    let (s, _) = production_map_save_with_order_step(s, MapSaveEvent::Session(Some(principal(PrincipalRole::Admin, "a"))));
    let (_, a) = production_map_save_with_order_step(s, MapSaveEvent::Access(true));
    assert!(matches!(a, MapSaveAction::Refuse(ref f) if refused(f, 405, "method not allowed")));
    let s = map_save_until_saving(None, true);
    let (_, a) = production_map_save_with_order_step(s, MapSaveEvent::Upserted(Err(ProductionMapError::DuplicateOrderNumber)));
    assert!(matches!(a, MapSaveAction::RefuseMap(ProductionMapError::DuplicateOrderNumber)));
}

#[test]
fn template_errors_are_answered() {
    let e = template_error(CalculateOrderError::InvalidInput("width is required".to_string()));
    assert_eq!((e.status, e.body.error.as_str()), (400, "width is required"));
    let e = template_error(CalculateOrderError::StoreFailed);
    assert_eq!((e.status, e.body.error.as_str()), (500, "calculate order save failed"));
}
