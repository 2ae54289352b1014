//! The flows of uploads: a profile avatar, and an image handed to Werka's
//! AI search.
use vstd::prelude::*;

use crate::api::ErrorResponse;
use crate::auth::{avatar_proxy_url, with_avatar_proxy};
use crate::flows::{refusal, Failure};
use crate::models::{Principal, PrincipalRole};
use crate::multipart::{
    ai_error_status, ai_error_status_spec, avatar_view, detect_image_mime_type, image_upload_spec,
    is_no_result, mime_type_spec, parse_image_upload, AvatarUpload, ImageUploadError,
};
use crate::profile::{avatar_request_spec, avatar_upload_request};
use crate::text::{eq_ignore_case, opt_string_text, trim};

verus! {

fn refuse(status: u16, error: &'static str) -> (r: Failure)
    ensures
        r == refusal(status, error),
{
    Failure { status, error, code: None }
}

fn copy_principal(p: &Principal) -> (r: Principal)
    ensures
        r == *p,
{
    Principal {
        role: p.role,
        display_name: p.display_name.clone(),
        legal_name: p.legal_name.clone(),
        ref_: p.ref_.clone(),
        phone: p.phone.clone(),
        avatar_url: p.avatar_url.clone(),
    }
}

fn opt_str(v: &Option<String>) -> (r: Option<&str>)
    ensures
        match *v {
            Some(s) => r matches Some(t) && t@ == s@,
            None => r is None,
        },
{
    match v {
        Some(s) => Some(s.as_str()),
        None => None,
    }
}

// ---------------------------------------------------------------------------
// A profile avatar
// ---------------------------------------------------------------------------

/// The scheme of a request with `X-Forwarded-Proto` value `proto`.
pub open spec fn scheme_text(proto: Option<String>) -> Seq<char> {
    match proto {
        Some(v) => if eq_ignore_case(trim(v@), "https"@) {
            "https"@
        } else {
            "http"@
        },
        None => "http"@,
    }
}

/// `r` is principal `p` as shown to the client: a supplier's avatar is
/// served through this server's token-protected avatar endpoint when the
/// request names a host; any other principal is shown as it is.
pub open spec fn shown_principal(
    p: Principal,
    host: Option<String>,
    proto: Option<String>,
    token: String,
    r: Principal,
) -> bool {
    let proxied = p.role == PrincipalRole::Supplier && trim(p.ref_@).len() > 0 && trim(p.avatar_url@).len() > 0
        && trim(opt_string_text(host)).len() > 0;
    &&& proxied ==> r == (Principal { avatar_url: r.avatar_url, ..p }) && r.avatar_url@ == avatar_proxy_url(
        scheme_text(proto),
        trim(opt_string_text(host)),
        token@,
    )
    &&& !proxied ==> r == p
}

/// Where an avatar upload stands. `host` and `proto` are the request's
/// `Host` and `X-Forwarded-Proto` values.
#[derive(Debug)]
pub enum AvatarState {
    /// The request as it came: whether it is a `POST`, its bearer token, its
    /// `Content-Type` value (empty when missing) and its body.
    Received {
        is_post: bool,
        bearer: Option<String>,
        content_type: String,
        body: Vec<u8>,
        host: Option<String>,
        proto: Option<String>,
    },
    /// The session of `token` is being looked up.
    Authorizing { token: String, content_type: String, body: Vec<u8>, host: Option<String>, proto: Option<String> },
    /// The profile service is storing the avatar.
    Uploading { token: String, host: Option<String>, proto: Option<String> },
    /// The session is being updated with the principal that came back.
    Updating { token: String, principal: Principal, host: Option<String>, proto: Option<String> },
    /// The request is answered.
    Done,
}

/// What the caller reports back.
#[derive(Debug)]
pub enum AvatarEvent {
    Start,
    /// The session of the token, or `None` when there is none.
    Session(Option<Principal>),
    /// The principal with its new avatar, or `None` when the upload failed.
    Uploaded(Option<Principal>),
    /// The session was updated.
    Updated,
}

/// What the caller does next.
#[derive(Debug)]
pub enum AvatarAction {
    LookUpSession(String),
    /// Store this avatar for this principal.
    Upload { principal: Principal, upload: AvatarUpload },
    /// Keep this principal in the session of this token.
    UpdateSession { token: String, principal: Principal },
    /// Answer with this principal.
    RespondPrincipal(Principal),
    /// Answer with this refusal of the upload's body.
    RefuseBody((u16, ErrorResponse)),
    Refuse(Failure),
    /// Nothing: the event does not belong to this state.
    Wait,
}

/// Whether `e` is what the flow waits for in `s`.
pub open spec fn avatar_expects(s: AvatarState, e: AvatarEvent) -> bool {
    match (s, e) {
        (AvatarState::Received { .. }, AvatarEvent::Start) => true,
        (AvatarState::Authorizing { .. }, AvatarEvent::Session(_)) => true,
        (AvatarState::Uploading { .. }, AvatarEvent::Uploaded(_)) => true,
        (AvatarState::Updating { .. }, AvatarEvent::Updated) => true,
        _ => false,
    }
}

/// One step of an avatar upload.
pub open spec fn avatar_next(s: AvatarState, e: AvatarEvent, r: (AvatarState, AvatarAction)) -> bool {
    if !avatar_expects(s, e) {
        r == (s, AvatarAction::Wait)
    } else {
        match (s, e) {
            (AvatarState::Received { is_post, bearer, content_type, body, host, proto }, _) => if !is_post {
                r == (AvatarState::Done, AvatarAction::Refuse(refusal(405, "method not allowed")))
            } else {
                match bearer {
                    None => r == (AvatarState::Done, AvatarAction::Refuse(refusal(401, "unauthorized"))),
                    Some(t) => r == (
                        AvatarState::Authorizing { token: t, content_type, body, host, proto },
                        AvatarAction::LookUpSession(t),
                    ),
                }
            },
            (AvatarState::Authorizing { token, content_type, body, host, proto }, AvatarEvent::Session(p)) => match p {
                None => r == (AvatarState::Done, AvatarAction::Refuse(refusal(401, "unauthorized"))),
                Some(p) => match avatar_request_spec(body@, content_type@) {
                    Err(m) => {
                        &&& r.0 == AvatarState::Done
                        &&& r.1 matches AvatarAction::RefuseBody(e) && e.0 == 400 && e.1.error@ == m
                    },
                    Ok(u) => {
                        &&& r.0 == (AvatarState::Uploading { token, host, proto })
                        &&& r.1 matches AvatarAction::Upload { principal, upload } && principal == p
                            && avatar_view(upload) == u
                    },
                },
            },
            (AvatarState::Uploading { token, host, proto }, AvatarEvent::Uploaded(current)) => match current {
                None => r == (AvatarState::Done, AvatarAction::Refuse(refusal(500, "avatar upload failed"))),
                Some(c) => r == (
                    AvatarState::Updating { token, principal: c, host, proto },
                    AvatarAction::UpdateSession { token, principal: c },
                ),
            },
            (AvatarState::Updating { token, principal, host, proto }, _) => {
                &&& r.0 == AvatarState::Done
                &&& r.1 matches AvatarAction::RespondPrincipal(shown) && shown_principal(principal, host, proto, token, shown)
            },
            _ => false,
        }
    }
}

fn avatar_expected(s: &AvatarState, e: &AvatarEvent) -> (r: bool)
    ensures
        r == avatar_expects(*s, *e),
{
    match (s, e) {
        (AvatarState::Received { .. }, AvatarEvent::Start) => true,
        (AvatarState::Authorizing { .. }, AvatarEvent::Session(_)) => true,
        (AvatarState::Uploading { .. }, AvatarEvent::Uploaded(_)) => true,
        (AvatarState::Updating { .. }, AvatarEvent::Updated) => true,
        _ => false,
    }
}

/// The next state and action of an avatar upload.
pub fn avatar_upload_step(state: AvatarState, event: AvatarEvent) -> (r: (AvatarState, AvatarAction))
    ensures
        avatar_next(state, event, r),
{
    if !avatar_expected(&state, &event) {
        return (state, AvatarAction::Wait);
    }
    match state {
        AvatarState::Received { is_post, bearer, content_type, body, host, proto } => {
            if !is_post {
                return (AvatarState::Done, AvatarAction::Refuse(refuse(405, "method not allowed")));
            }
            match bearer {
                None => (AvatarState::Done, AvatarAction::Refuse(refuse(401, "unauthorized"))),
                Some(t) => {
                    let lookup = t.clone();
                    (AvatarState::Authorizing { token: t, content_type, body, host, proto }, AvatarAction::LookUpSession(lookup))
                },
            }
        },
        AvatarState::Authorizing { token, content_type, body, host, proto } => match event {
            AvatarEvent::Session(Some(p)) => match avatar_upload_request(body.as_slice(), content_type.as_str()) {
                Err(e) => (AvatarState::Done, AvatarAction::RefuseBody(e)),
                Ok(upload) => (AvatarState::Uploading { token, host, proto }, AvatarAction::Upload { principal: p, upload }),
            },
            _ => (AvatarState::Done, AvatarAction::Refuse(refuse(401, "unauthorized"))),
        },
        AvatarState::Uploading { token, host, proto } => match event {
            AvatarEvent::Uploaded(Some(c)) => {
                let kept = copy_principal(&c);
                let t = token.clone();
                (AvatarState::Updating { token, principal: kept, host, proto }, AvatarAction::UpdateSession { token: t, principal: c })
            },
            _ => (AvatarState::Done, AvatarAction::Refuse(refuse(500, "avatar upload failed"))),
        },
        AvatarState::Updating { token, principal, host, proto } => {
            let h = opt_str(&host);
            let f = opt_str(&proto);
            let shown = with_avatar_proxy(h, f, principal, token.as_str());
            (AvatarState::Done, AvatarAction::RespondPrincipal(shown))
        },
        AvatarState::Done => (AvatarState::Done, AvatarAction::Wait),
    }
}

// ---------------------------------------------------------------------------
// An image for Werka's AI search
// ---------------------------------------------------------------------------

/// An error of the AI search service: its code and message.
#[derive(Debug)]
pub struct AiSearchError {
    pub code: String,
    pub message: String,
}

/// Where an AI search suggestion stands.
#[derive(Debug)]
pub enum AiSearchState {
    /// The request as it came: whether it is a `POST`, its bearer token, its
    /// `Content-Type` value (empty when missing) and its body.
    Received { is_post: bool, token: Option<String>, content_type: String, body: Vec<u8> },
    /// The session of the token is being looked up.
    Authorizing { content_type: String, body: Vec<u8> },
    /// Werka access of the principal is being checked.
    Checking { content_type: String, body: Vec<u8> },
    /// Whether the AI search is configured is being asked.
    Configuring { content_type: String, body: Vec<u8> },
    /// The AI search is looking at the image.
    Searching,
    /// The request is answered.
    Done,
}

/// What the caller reports back.
#[derive(Debug)]
pub enum AiSearchEvent {
    Start,
    /// The session of the token, or `None` when there is none.
    Session(Option<Principal>),
    /// Whether the principal has Werka access.
    Access(bool),
    /// Whether the AI search is configured.
    Configured(bool),
    /// The search's outcome: a suggestion (held by the caller), or its
    /// error.
    Searched(Result<(), AiSearchError>),
}

/// What the caller does next.
#[derive(Debug)]
pub enum AiSearchAction {
    LookUpSession(String),
    /// Check that this principal has Werka access.
    CheckAccess(Principal),
    /// Ask whether the AI search is configured.
    CheckConfigured,
    /// Search with this image of this MIME type.
    Search { bytes: Vec<u8>, mime_type: String },
    /// Answer with the suggestion that came back.
    RespondSuggestion,
    /// Answer with an empty suggestion.
    RespondEmpty,
    /// Answer with this status, the error's message and its code.
    RefuseSearch { status: u16, error: String, code: String },
    Refuse(Failure),
    /// Nothing: the event does not belong to this state.
    Wait,
}

/// The text of an optional text, empty when absent.
pub open spec fn opt_text_of(v: Option<Seq<char>>) -> Seq<char> {
    match v {
        Some(t) => t,
        None => Seq::empty(),
    }
}

/// A refusal with an error code.
pub open spec fn coded(status: u16, error: &'static str, code: &'static str) -> Failure {
    Failure { status, error, code: Some(code) }
}

/// Whether `e` is what the flow waits for in `s`.
pub open spec fn ai_expects(s: AiSearchState, e: AiSearchEvent) -> bool {
    match (s, e) {
        (AiSearchState::Received { .. }, AiSearchEvent::Start) => true,
        (AiSearchState::Authorizing { .. }, AiSearchEvent::Session(_)) => true,
        (AiSearchState::Checking { .. }, AiSearchEvent::Access(_)) => true,
        (AiSearchState::Configuring { .. }, AiSearchEvent::Configured(_)) => true,
        (AiSearchState::Searching, AiSearchEvent::Searched(_)) => true,
        _ => false,
    }
}

/// One step of an AI search suggestion.
pub open spec fn ai_next(s: AiSearchState, e: AiSearchEvent, r: (AiSearchState, AiSearchAction)) -> bool {
    if !ai_expects(s, e) {
        r == (s, AiSearchAction::Wait)
    } else {
        match (s, e) {
            (AiSearchState::Received { is_post, token, content_type, body }, _) => if !is_post {
                r == (AiSearchState::Done, AiSearchAction::Refuse(coded(405, "method not allowed", "method_not_allowed")))
            } else {
                match token {
                    None => r == (AiSearchState::Done, AiSearchAction::Refuse(refusal(401, "unauthorized"))),
                    Some(t) => r == (AiSearchState::Authorizing { content_type, body }, AiSearchAction::LookUpSession(t)),
                }
            },
            (AiSearchState::Authorizing { content_type, body }, AiSearchEvent::Session(p)) => match p {
                None => r == (AiSearchState::Done, AiSearchAction::Refuse(refusal(401, "unauthorized"))),
                Some(p) => r == (AiSearchState::Checking { content_type, body }, AiSearchAction::CheckAccess(p)),
            },
            (AiSearchState::Checking { content_type, body }, AiSearchEvent::Access(ok)) => if !ok {
                r == (AiSearchState::Done, AiSearchAction::Refuse(refusal(403, "forbidden")))
            } else {
                r == (AiSearchState::Configuring { content_type, body }, AiSearchAction::CheckConfigured)
            },
            (AiSearchState::Configuring { content_type, body }, AiSearchEvent::Configured(ok)) => if !ok {
                r == (
                    AiSearchState::Done,
                    AiSearchAction::Refuse(coded(503, "werka ai search is not configured", "not_configured")),
                )
            } else {
                match image_upload_spec(content_type@, body@) {
                    Err(ImageUploadError::InvalidUpload) => r == (
                        AiSearchState::Done,
                        AiSearchAction::Refuse(coded(400, "invalid image upload", "invalid_image")),
                    ),
                    Err(ImageUploadError::MissingImage) => r == (
                        AiSearchState::Done,
                        AiSearchAction::Refuse(coded(400, "image is required", "invalid_image")),
                    ),
                    Ok((bytes, filename, ct)) => {
                        &&& r.0 == AiSearchState::Searching
                        &&& r.1 matches AiSearchAction::Search { bytes: b, mime_type } && b@ == bytes
                            && mime_type@ == mime_type_spec(opt_text_of(filename), opt_text_of(ct), bytes)
                    },
                }
            },
            (AiSearchState::Searching, AiSearchEvent::Searched(outcome)) => match outcome {
                Ok(_) => r == (AiSearchState::Done, AiSearchAction::RespondSuggestion),
                Err(err) => if err.code@ == "no_result"@ {
                    r == (AiSearchState::Done, AiSearchAction::RespondEmpty)
                } else {
                    r == (
                        AiSearchState::Done,
                        AiSearchAction::RefuseSearch {
                            status: ai_error_status_spec(err.code@),
                            error: err.message,
                            code: err.code,
                        },
                    )
                },
            },
            _ => false,
        }
    }
}

fn ai_expected(s: &AiSearchState, e: &AiSearchEvent) -> (r: bool)
    ensures
        r == ai_expects(*s, *e),
{
    match (s, e) {
        (AiSearchState::Received { .. }, AiSearchEvent::Start) => true,
        (AiSearchState::Authorizing { .. }, AiSearchEvent::Session(_)) => true,
        (AiSearchState::Checking { .. }, AiSearchEvent::Access(_)) => true,
        (AiSearchState::Configuring { .. }, AiSearchEvent::Configured(_)) => true,
        (AiSearchState::Searching, AiSearchEvent::Searched(_)) => true,
        _ => false,
    }
}

fn opt_text_or_empty(v: &Option<String>) -> (r: &str)
    ensures
        r@ == opt_string_text(*v),
{
    match v {
        Some(s) => s.as_str(),
        None => {
            proof {
                reveal_strlit("");
            }
            ""
        },
    }
}

/// The next state and action of an AI search suggestion.
pub fn ai_search_suggestion_step(state: AiSearchState, event: AiSearchEvent) -> (r: (AiSearchState, AiSearchAction))
    ensures
        ai_next(state, event, r),
{
    if !ai_expected(&state, &event) {
        return (state, AiSearchAction::Wait);
    }
    match state {
        AiSearchState::Received { is_post, token, content_type, body } => {
            if !is_post {
                return (
                    AiSearchState::Done,
                    AiSearchAction::Refuse(Failure { status: 405, error: "method not allowed", code: Some("method_not_allowed") }),
                );
            }
            match token {
                None => (AiSearchState::Done, AiSearchAction::Refuse(refuse(401, "unauthorized"))),
                Some(t) => (AiSearchState::Authorizing { content_type, body }, AiSearchAction::LookUpSession(t)),
            }
        },
        AiSearchState::Authorizing { content_type, body } => match event {
            AiSearchEvent::Session(Some(p)) => (AiSearchState::Checking { content_type, body }, AiSearchAction::CheckAccess(p)),
            _ => (AiSearchState::Done, AiSearchAction::Refuse(refuse(401, "unauthorized"))),
        },
        AiSearchState::Checking { content_type, body } => match event {
            AiSearchEvent::Access(true) => (AiSearchState::Configuring { content_type, body }, AiSearchAction::CheckConfigured),
            _ => (AiSearchState::Done, AiSearchAction::Refuse(refuse(403, "forbidden"))),
        },
        AiSearchState::Configuring { content_type, body } => {
            let ok = match event {
                AiSearchEvent::Configured(b) => b,
                _ => false,
            };
            if !ok {
                return (
                    AiSearchState::Done,
                    AiSearchAction::Refuse(Failure {
                        status: 503,
                        error: "werka ai search is not configured",
                        code: Some("not_configured"),
                    }),
                );
            }
            match parse_image_upload(content_type.as_str(), body.as_slice()) {
                Err(ImageUploadError::InvalidUpload) => (
                    AiSearchState::Done,
                    AiSearchAction::Refuse(Failure { status: 400, error: "invalid image upload", code: Some("invalid_image") }),
                ),
                Err(ImageUploadError::MissingImage) => (
                    AiSearchState::Done,
                    AiSearchAction::Refuse(Failure { status: 400, error: "image is required", code: Some("invalid_image") }),
                ),
                Ok(upload) => {
                    let mime_type = detect_image_mime_type(
                        opt_text_or_empty(&upload.filename),
                        opt_text_or_empty(&upload.content_type),
                        upload.bytes_for_mime.as_slice(),
                    );
                    (AiSearchState::Searching, AiSearchAction::Search { bytes: upload.bytes, mime_type })
                },
            }
        },
        AiSearchState::Searching => match event {
            AiSearchEvent::Searched(Err(err)) => {
                if is_no_result(err.code.as_str()) {
                    (AiSearchState::Done, AiSearchAction::RespondEmpty)
                } else {
                    let status = ai_error_status(err.code.as_str());
                    (AiSearchState::Done, AiSearchAction::RefuseSearch { status, error: err.message, code: err.code })
                }
            },
            _ => (AiSearchState::Done, AiSearchAction::RespondSuggestion),
        },
        AiSearchState::Done => (AiSearchState::Done, AiSearchAction::Wait),
    }
}

} // verus!
