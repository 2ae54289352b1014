//! The profile endpoints: what an avatar upload request must hold, and which
//! token an avatar view is authorized by.
use vstd::prelude::*;

use crate::api::ErrorResponse;
use crate::auth::{bearer_token, bearer_token_spec};
use crate::multipart::{
    avatar_scan, avatar_view, AvatarUpload, boundary_spec, marker_spec, multipart_boundary,
    parse_avatar_multipart,
};
use crate::text::{owned, string_of, trim, trim_str};

verus! {

/// The largest avatar upload body accepted, in bytes.
pub const AVATAR_BODY_LIMIT: usize = 5242880;

fn error_body(status: u16, error: &str) -> (r: (u16, ErrorResponse))
    ensures
        r.0 == status,
        r.1.error@ == error@,
{
    (status, ErrorResponse { error: owned(error) })
}

/// What an avatar upload request gives: the upload, or the message of the
/// `400` that refuses it.
pub open spec fn avatar_request_spec(body: Seq<u8>, content_type: Seq<char>) -> Result<
    (Seq<char>, Seq<char>, Seq<u8>),
    Seq<char>,
> {
    if body.len() > AVATAR_BODY_LIMIT {
        Err("invalid multipart"@)
    } else {
        match boundary_spec(content_type) {
            None => Err("invalid multipart"@),
            Some(b) => match avatar_scan(body, marker_spec(b), 0) {
                None => Err("avatar is required"@),
                Some(u) => Ok(u),
            },
        }
    }
}

/// The avatar of an upload request with body `body` and `Content-Type`
/// value `content_type`; `400 "invalid multipart"` when the body is over the
/// limit or names no boundary, `400 "avatar is required"` when it holds no
/// avatar field.
pub fn avatar_upload_request(body: &[u8], content_type: &str) -> (r: Result<
    AvatarUpload,
    (u16, ErrorResponse),
>)
    ensures
        match avatar_request_spec(body@, content_type@) {
            Ok(u) => r matches Ok(x) && avatar_view(x) == u,
            Err(m) => r matches Err(e) && e.0 == 400 && e.1.error@ == m,
        },
{
    if body.len() > AVATAR_BODY_LIMIT {
        return Err(error_body(400, "invalid multipart"));
    }
    let boundary = match multipart_boundary(content_type) {
        Some(b) => b,
        None => {
            return Err(error_body(400, "invalid multipart"));
        },
    };
    match parse_avatar_multipart(body, boundary.as_str()) {
        Some(upload) => Ok(upload),
        None => Err(error_body(400, "avatar is required")),
    }
}

/// The token that authorizes an avatar view: the `token` query parameter,
/// trimmed, when it is not blank; else the bearer token of the request.
pub open spec fn avatar_view_token_spec(query_token: Option<&str>, authorization: Option<&str>) -> Option<
    Seq<char>,
> {
    match query_token {
        Some(t) if trim(t@).len() > 0 => Some(trim(t@)),
        _ => bearer_token_spec(authorization),
    }
}

/// The token an avatar view is authorized by, or `None` (answered `401`).
pub fn avatar_view_token(query_token: Option<&str>, authorization: Option<&str>) -> (r: Option<String>)
    ensures
        match avatar_view_token_spec(query_token, authorization) {
            Some(t) => r matches Some(s) && s@ == t,
            None => r is None,
        },
{
    match query_token {
        Some(t) => {
            let v = trim_str(t);
            if v.len() > 0 {
                return Some(string_of(v.as_slice()));
            }
        },
        None => {},
    }
    bearer_token(authorization)
}

} // verus!
