//! Who is calling: the bearer token of a request, role keys, role checks and
//! the proxied avatar URL of suppliers.
use vstd::prelude::*;

use crate::api::ErrorResponse;
use crate::decimal::digit_char;
use crate::models::{Principal, PrincipalRole};
use crate::text::{
    chars_eq_ignore_case, chars_of, eq_ignore_case, has_prefix, opt_chars, opt_text, owned,
    push_all, push_str_chars, slice_chars, starts_with_chars, string_of, trim, trim_chars,
};

verus! {

/// The key of a role in push keys, owner keys and push data.
pub open spec fn role_key_spec(role: PrincipalRole) -> Seq<char> {
    match role {
        PrincipalRole::Supplier => "supplier"@,
        PrincipalRole::Werka => "werka"@,
        PrincipalRole::Customer => "customer"@,
        PrincipalRole::Aparatchi => "aparatchi"@,
        PrincipalRole::Admin => "admin"@,
    }
}

/// The key of `role`.
pub fn role_key(role: &PrincipalRole) -> (r: &'static str)
    ensures
        r@ == role_key_spec(*role),
{
    match role {
        PrincipalRole::Supplier => "supplier",
        PrincipalRole::Werka => "werka",
        PrincipalRole::Customer => "customer",
        PrincipalRole::Aparatchi => "aparatchi",
        PrincipalRole::Admin => "admin",
    }
}

/// The token of an `Authorization` value: what follows `Bearer `, trimmed,
/// when that is not empty.
pub open spec fn bearer_token_spec(authorization: Option<&str>) -> Option<Seq<char>> {
    match authorization {
        Some(raw) => if has_prefix(raw@, "Bearer "@) && trim(raw@.skip(7)).len() > 0 {
            Some(trim(raw@.skip(7)))
        } else {
            None
        },
        None => None,
    }
}

/// The bearer token of a request, from its `Authorization` header value
/// (`None` when the header is absent or not visible ASCII).
pub fn bearer_token(authorization: Option<&str>) -> (r: Option<String>)
    ensures
        match bearer_token_spec(authorization) {
            Some(t) => r matches Some(s) && s@ == t,
            None => r is None,
        },
{
    let raw = match authorization {
        Some(raw) => raw,
        None => {
            return None;
        },
    };
    let v = chars_of(raw);
    let prefix = chars_of("Bearer ");
    assert(prefix@.len() == 7) by {
        reveal_strlit("Bearer ");
    }
    if !starts_with_chars(v.as_slice(), prefix.as_slice()) {
        return None;
    }
    let rest = slice_chars(v.as_slice(), 7, v.len());
    assert(rest@ =~= v@.skip(7));
    let t = trim_chars(rest.as_slice());
    if t.len() == 0 {
        None
    } else {
        Some(string_of(t.as_slice()))
    }
}

/// The scheme of the request: `https` when `X-Forwarded-Proto` says so (any
/// ASCII case, surrounding whitespace ignored), else `http`.
pub open spec fn request_scheme_spec(forwarded_proto: Option<&str>) -> Seq<char> {
    match forwarded_proto {
        Some(v) => if eq_ignore_case(trim(v@), "https"@) {
            "https"@
        } else {
            "http"@
        },
        None => "http"@,
    }
}

/// The scheme of the request, from its `X-Forwarded-Proto` header value.
pub fn request_scheme(forwarded_proto: Option<&str>) -> (r: &'static str)
    ensures
        r@ == request_scheme_spec(forwarded_proto),
{
    match forwarded_proto {
        Some(v) => {
            let t = trim_chars(chars_of(v).as_slice());
            let https = chars_of("https");
            if chars_eq_ignore_case(t.as_slice(), https.as_slice()) {
                "https"
            } else {
                "http"
            }
        },
        None => "http",
    }
}

/// Whether `b` is left as is by URL encoding: ASCII letters, digits and
/// `-`, `.`, `_`, `~`.
pub open spec fn is_unreserved(b: u8) -> bool {
    (0x30 <= b && b <= 0x39) || (0x41 <= b && b <= 0x5A) || (0x61 <= b && b <= 0x7A) || b == 0x2D
        || b == 0x2E || b == 0x5F || b == 0x7E
}

/// The upper-case hexadecimal digit for `d < 16`.
pub open spec fn hex_upper(d: nat) -> char {
    if d < 10 {
        digit_char(d)
    } else {
        ((('A' as u32) + d - 10) as u32) as char
    }
}

/// How one byte is URL-encoded: unreserved bytes as themselves, others as
/// `%` and two upper-case hex digits.
pub open spec fn percent_byte(b: u8) -> Seq<char> {
    if is_unreserved(b) {
        seq![b as char]
    } else {
        seq!['%', hex_upper((b / 16) as nat), hex_upper((b % 16) as nat)]
    }
}

/// The URL encoding of `bytes`.
pub open spec fn percent_encode(bytes: Seq<u8>) -> Seq<char>
    decreases bytes.len(),
{
    if bytes.len() == 0 {
        Seq::empty()
    } else {
        percent_encode(bytes.drop_last()) + percent_byte(bytes.last())
    }
}

/// `urlencoding::encode(s)`: every byte of the UTF-8 encoding of `s` except
/// ASCII letters, digits and `-`, `.`, `_`, `~` written as `%XX` with
/// upper-case hex digits. Claimed: exactly that.
#[verifier::external_body]
fn url_encode(s: &str) -> (r: String)
    ensures
        r@ == percent_encode(vstd::utf8::encode_utf8(s@)),
{
    urlencoding::encode(s).into_owned()
}

/// The avatar URL that the mobile API serves for a supplier's avatar.
pub open spec fn avatar_proxy_url(scheme: Seq<char>, host: Seq<char>, token: Seq<char>) -> Seq<char> {
    scheme + "://"@ + host + "/v1/mobile/profile/avatar/view?token="@ + percent_encode(
        vstd::utf8::encode_utf8(trim(token)),
    )
}

/// Whether a principal's avatar is served through the proxy: a supplier
/// with a reference and an avatar, on a request with a host.
pub open spec fn avatar_proxied(principal: Principal, host: Option<&str>) -> bool {
    principal.role == PrincipalRole::Supplier && trim(principal.ref_@).len() > 0 && trim(
        principal.avatar_url@,
    ).len() > 0 && trim(opt_text(host)).len() > 0
}

/// `principal` with a supplier's avatar URL pointed at the token-protected
/// avatar endpoint of this server; other principals are returned as they
/// are. `host` and `forwarded_proto` are the `Host` and `X-Forwarded-Proto`
/// header values of the request.
pub fn with_avatar_proxy(
    host: Option<&str>,
    forwarded_proto: Option<&str>,
    principal: Principal,
    token: &str,
) -> (r: Principal)
    ensures
        avatar_proxied(principal, host) ==> r == (Principal {
            avatar_url: r.avatar_url,
            ..principal
        }) && r.avatar_url@ == avatar_proxy_url(
            request_scheme_spec(forwarded_proto),
            trim(opt_text(host)),
            token@,
        ),
        !avatar_proxied(principal, host) ==> r == principal,
{
    let mut principal = principal;
    if principal.role != PrincipalRole::Supplier || trim_chars(
        chars_of(principal.ref_.as_str()).as_slice(),
    ).len() == 0 || trim_chars(chars_of(principal.avatar_url.as_str()).as_slice()).len() == 0 {
        return principal;
    }
    let h = trim_chars(opt_chars(host).as_slice());
    if h.len() == 0 {
        return principal;
    }
    let mut url = chars_of(request_scheme(forwarded_proto));
    push_str_chars(&mut url, "://");
    push_all(&mut url, h.as_slice());
    push_str_chars(&mut url, "/v1/mobile/profile/avatar/view?token=");
    let t = string_of(trim_chars(chars_of(token).as_slice()).as_slice());
    let enc = url_encode(t.as_str());
    push_str_chars(&mut url, enc.as_str());
    principal.avatar_url = string_of(url.as_slice());
    principal
}

/// Whether `principal` may read and comment on notifications: suppliers,
/// Werka and customers.
pub fn require_notification_role(principal: &Principal) -> (r: bool)
    ensures
        r == (principal.role == PrincipalRole::Supplier || principal.role == PrincipalRole::Werka
            || principal.role == PrincipalRole::Customer),
{
    match principal.role {
        PrincipalRole::Supplier | PrincipalRole::Werka | PrincipalRole::Customer => true,
        _ => false,
    }
}

/// Whether `principal` is a supplier.
pub fn require_supplier(principal: &Principal) -> (r: bool)
    ensures
        r == (principal.role == PrincipalRole::Supplier),
{
    principal.role == PrincipalRole::Supplier
}

/// Why a login failed.
#[derive(PartialEq, Eq, Structural, Clone, Copy, Debug)]
pub enum AuthError {
    InvalidCredentials,
    InvalidRole,
    Internal,
}

/// The answer to a failed login: `401 "invalid credentials"` for wrong
/// credentials or a role that may not sign in, `500 "internal error"`
/// otherwise.
pub fn login_error(error: AuthError) -> (r: (u16, ErrorResponse))
    ensures
        error != AuthError::Internal ==> r.0 == 401 && r.1.error@ == "invalid credentials"@,
        error == AuthError::Internal ==> r.0 == 500 && r.1.error@ == "internal error"@,
{
    match error {
        AuthError::InvalidCredentials | AuthError::InvalidRole => (
            401,
            ErrorResponse { error: owned("invalid credentials") },
        ),
        AuthError::Internal => (500, ErrorResponse { error: owned("internal error") }),
    }
}

} // verus!
