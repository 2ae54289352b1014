//! Helpers of the calculate endpoints: image types, file names on disk, image
//! ids and error bodies.
use vstd::prelude::*;

use crate::decimal::{decimal, push_decimal};
use crate::text::{chars_of, owned, string_of, trim, trim_chars, utf8_len, utf8_length};

verus! {

/// Error body of the calculate endpoints.
#[derive(Debug)]
pub struct CalculateErrorResponse {
    pub ok: bool,
    pub error: String,
    pub detail: String,
}

impl CalculateErrorResponse {
    /// A failure body with code `error` and message `detail`.
    pub fn new(error: &str, detail: &str) -> (r: Self)
        ensures
            !r.ok,
            r.error@ == error@,
            r.detail@ == detail@,
    {
        CalculateErrorResponse { ok: false, error: owned(error), detail: owned(detail) }
    }
}

/// The file extension stored for an accepted image MIME type.
pub open spec fn image_extension_spec(mime: Seq<char>) -> Option<Seq<char>> {
    if mime == "image/jpeg"@ || mime == "image/jpg"@ {
        Some("jpg"@)
    } else if mime == "image/png"@ {
        Some("png"@)
    } else if mime == "image/webp"@ {
        Some("webp"@)
    } else {
        None
    }
}

/// The accepted image types are exactly `image/png`, `image/webp`,
/// `image/jpeg` and `image/jpg`, and each is stored under the extension it
/// names: the type is `image/` followed by the extension, except that
/// `image/jpeg` is stored as `jpg` too.
pub proof fn law_image_extension_names_the_type(mime: Seq<char>)
    ensures
        image_extension_spec(mime) is Some <==> (mime == "image/png"@ || mime == "image/webp"@ || mime
            == "image/jpeg"@ || mime == "image/jpg"@),
        image_extension_spec(mime) matches Some(e) ==> mime == "image/"@ + e || (e == "jpg"@ && mime
            == "image/jpeg"@),
{
    reveal_strlit("image/png");
    assert("image/png"@.len() == 9 && "image/png"@[0] == 'i' && "image/png"@[1] == 'm' && "image/png"@[2] == 'a' && "image/png"@[3] == 'g' && "image/png"@[4] == 'e' && "image/png"@[5] == '/' && "image/png"@[6] == 'p' && "image/png"@[7] == 'n' && "image/png"@[8] == 'g');
    reveal_strlit("image/webp");
    assert("image/webp"@.len() == 10 && "image/webp"@[0] == 'i' && "image/webp"@[1] == 'm' && "image/webp"@[2] == 'a' && "image/webp"@[3] == 'g' && "image/webp"@[4] == 'e' && "image/webp"@[5] == '/' && "image/webp"@[6] == 'w' && "image/webp"@[7] == 'e' && "image/webp"@[8] == 'b' && "image/webp"@[9] == 'p');
    reveal_strlit("image/jpeg");
    assert("image/jpeg"@.len() == 10 && "image/jpeg"@[0] == 'i' && "image/jpeg"@[1] == 'm' && "image/jpeg"@[2] == 'a' && "image/jpeg"@[3] == 'g' && "image/jpeg"@[4] == 'e' && "image/jpeg"@[5] == '/' && "image/jpeg"@[6] == 'j' && "image/jpeg"@[7] == 'p' && "image/jpeg"@[8] == 'e' && "image/jpeg"@[9] == 'g');
    reveal_strlit("image/jpg");
    assert("image/jpg"@.len() == 9 && "image/jpg"@[0] == 'i' && "image/jpg"@[1] == 'm' && "image/jpg"@[2] == 'a' && "image/jpg"@[3] == 'g' && "image/jpg"@[4] == 'e' && "image/jpg"@[5] == '/' && "image/jpg"@[6] == 'j' && "image/jpg"@[7] == 'p' && "image/jpg"@[8] == 'g');
    reveal_strlit("png");
    assert("png"@.len() == 3 && "png"@[0] == 'p' && "png"@[1] == 'n' && "png"@[2] == 'g');
    reveal_strlit("webp");
    assert("webp"@.len() == 4 && "webp"@[0] == 'w' && "webp"@[1] == 'e' && "webp"@[2] == 'b' && "webp"@[3] == 'p');
    reveal_strlit("jpg");
    assert("jpg"@.len() == 3 && "jpg"@[0] == 'j' && "jpg"@[1] == 'p' && "jpg"@[2] == 'g');
    reveal_strlit("image/");
    assert("image/"@.len() == 6 && "image/"@[0] == 'i' && "image/"@[1] == 'm' && "image/"@[2] == 'a' && "image/"@[3] == 'g' && "image/"@[4] == 'e' && "image/"@[5] == '/');
    assert("image/"@ + "png"@ =~= "image/png"@);
    assert("image/"@ + "webp"@ =~= "image/webp"@);
    assert("image/"@ + "jpg"@ =~= "image/jpg"@);
}

fn text_is(v: &[char], lit: &str) -> (b: bool)
    ensures
        b == (v@ == lit@),
{
    let l = chars_of(lit);
    crate::text::chars_eq(v, l.as_slice())
}

/// The extension for an image MIME type; `None` for types not accepted.
pub fn image_extension(mime: &str) -> (r: Option<&'static str>)
    ensures
        match image_extension_spec(mime@) {
            Some(e) => r matches Some(s) && s@ == e,
            None => r is None,
        },
{
    let m = chars_of(mime);
    if text_is(m.as_slice(), "image/jpeg") || text_is(m.as_slice(), "image/jpg") {
        Some("jpg")
    } else if text_is(m.as_slice(), "image/png") {
        Some("png")
    } else if text_is(m.as_slice(), "image/webp") {
        Some("webp")
    } else {
        None
    }
}

/// Whether `c` may stand in a file name part as is: ASCII letters, digits,
/// `-` and `_`.
pub open spec fn is_safe_char(c: char) -> bool {
    ('a' <= c && c <= 'z') || ('A' <= c && c <= 'Z') || ('0' <= c && c <= '9') || c == '-' || c
        == '_'
}

/// `c` when it is safe, else `_`.
pub open spec fn safe_char(c: char) -> char {
    if is_safe_char(c) {
        c
    } else {
        '_'
    }
}

fn is_safe(c: char) -> (b: bool)
    ensures
        b == is_safe_char(c),
{
    ('a' <= c && c <= 'z') || ('A' <= c && c <= 'Z') || ('0' <= c && c <= '9') || c == '-' || c
        == '_'
}

/// `value` with every unsafe character replaced by `_`, for use as a
/// directory name.
pub fn safe_path_part(value: &str) -> (r: String)
    ensures
        r@ == value@.map_values(|c: char| safe_char(c)),
{
    let v = chars_of(value);
    let mut out: Vec<char> = Vec::new();
    let mut i: usize = 0;
    while i < v.len()
        invariant
            i <= v@.len(),
            out@ == v@.take(i as int).map_values(|c: char| safe_char(c)),
        decreases v@.len() - i,
    {
        let c = v[i];
        out.push(if is_safe(c) { c } else { '_' });
        assert(v@.take(i + 1).map_values(|c: char| safe_char(c)) =~= v@.take(i as int).map_values(
            |c: char| safe_char(c),
        ).push(safe_char(c)));
        i = i + 1;
    }
    assert(v@.take(v@.len() as int) =~= v@);
    string_of(out.as_slice())
}

/// Whether `c` is dropped from an uploaded file name: `/`, `\`, NUL, CR, LF.
pub open spec fn is_name_breaker(c: char) -> bool {
    c == '/' || c == '\\' || c == '\0' || c == '\r' || c == '\n'
}

/// `s` without the characters that break file names.
pub open spec fn drop_breakers(s: Seq<char>) -> Seq<char>
    decreases s.len(),
{
    if s.len() == 0 {
        Seq::empty()
    } else if is_name_breaker(s.last()) {
        drop_breakers(s.drop_last())
    } else {
        drop_breakers(s.drop_last()).push(s.last())
    }
}

/// An uploaded file name without path separators, NUL and line breaks,
/// trimmed.
pub fn clean_file_name(value: &str) -> (r: String)
    ensures
        r@ == trim(drop_breakers(value@)),
{
    let v = chars_of(value);
    let mut out: Vec<char> = Vec::new();
    let mut i: usize = 0;
    while i < v.len()
        invariant
            i <= v@.len(),
            out@ == drop_breakers(v@.take(i as int)),
        decreases v@.len() - i,
    {
        let c = v[i];
        assert(v@.take(i + 1).drop_last() =~= v@.take(i as int));
        if !(c == '/' || c == '\\' || c == '\0' || c == '\r' || c == '\n') {
            out.push(c);
        }
        i = i + 1;
    }
    assert(v@.take(v@.len() as int) =~= v@);
    let t = trim_chars(out.as_slice());
    string_of(t.as_slice())
}

/// Whether `value`, trimmed, is a usable image id: non-empty, at most 64
/// bytes, only safe characters.
pub open spec fn safe_image_id_spec(value: Seq<char>) -> bool {
    let t = trim(value);
    t.len() > 0 && utf8_len(t) <= 64 && forall|i: int| 0 <= i < t.len() ==> is_safe_char(#[trigger] t[i])
}

/// Whether `value` is a usable image id.
pub fn safe_image_id(value: &str) -> (b: bool)
    ensures
        b == safe_image_id_spec(value@),
{
    let v = chars_of(value);
    let t = trim_chars(v.as_slice());
    if t.len() == 0 {
        return false;
    }
    if utf8_length(t.as_slice()) > 64 {
        return false;
    }
    let mut i: usize = 0;
    while i < t.len()
        invariant
            i <= t@.len(),
            t@ == trim(value@),
            t@.len() > 0,
            utf8_len(t@) <= 64,
            forall|j: int| 0 <= j < i ==> is_safe_char(#[trigger] t@[j]),
        decreases t@.len() - i,
    {
        if !is_safe(t[i]) {
            assert(!is_safe_char(t@[i as int]));
            return false;
        }
        i = i + 1;
    }
    true
}

/// The current time in microseconds since the Unix epoch, 0 when the clock
/// is before the epoch (`SystemTime::now().duration_since(UNIX_EPOCH)`).
/// Nothing is claimed of the value.
#[verifier::external_body]
pub(crate) fn unix_micros() -> (r: u128) {
    std::time::SystemTime::now().duration_since(std::time::UNIX_EPOCH).map(
        |duration| duration.as_micros(),
    ).unwrap_or_default()
}

/// The image id for an upload made at `micros`: `img` and the decimal
/// micros.
pub fn image_id_at(micros: u128) -> (r: String)
    ensures
        r@ == "img"@ + decimal(micros as nat),
{
    let mut out = chars_of("img");
    push_decimal(&mut out, micros);
    string_of(out.as_slice())
}

/// A fresh image id: `img` and the current time in microseconds.
pub fn new_image_id() -> (r: String)
    ensures
        exists|m: u128| r@ == "img"@ + decimal(m as nat),
{
    let m = unix_micros();
    image_id_at(m)
}

/// Errors of the calculate order service.
#[derive(Debug)]
pub enum CalculateOrderError {
    InvalidInput(String),
    StoreFailed,
}

/// The status and body that answer a calculate order error: `400
/// invalid_input` with the service's message, or `500 store_failed`.
pub fn calculate_order_error(error: CalculateOrderError) -> (r: (u16, CalculateErrorResponse))
    ensures
        match error {
            CalculateOrderError::InvalidInput(d) => r.0 == 400 && !r.1.ok && r.1.error@ == "invalid_input"@
                && r.1.detail@ == d@,
            CalculateOrderError::StoreFailed => r.0 == 500 && !r.1.ok && r.1.error@ == "store_failed"@
                && r.1.detail@ == "store failed"@,
        },
{
    match error {
        CalculateOrderError::InvalidInput(detail) => (
            400,
            CalculateErrorResponse { ok: false, error: owned("invalid_input"), detail },
        ),
        CalculateOrderError::StoreFailed => (500, CalculateErrorResponse::new("store_failed", "store failed")),
    }
}

/// The largest calculate order image accepted, in bytes.
pub const MAX_IMAGE_BYTES: usize = 6291456;

/// Whether an uploaded image body of `len` bytes is accepted: `None` when it
/// is, else the message of the `400 invalid_input` that refuses it.
pub fn image_body_refusal(len: usize) -> (r: Option<&'static str>)
    ensures
        len == 0 ==> (r matches Some(m) && m@ == "rasm kerak"@),
        len > MAX_IMAGE_BYTES ==> (r matches Some(m) && m@ == "rasm hajmi katta"@),
        0 < len <= MAX_IMAGE_BYTES ==> r is None,
{
    if len == 0 {
        Some("rasm kerak")
    } else if len > MAX_IMAGE_BYTES {
        Some("rasm hajmi katta")
    } else {
        None
    }
}

/// The MIME type of an uploaded image: the first `;`-separated piece of the
/// `Content-Type` value (`image/jpeg` when absent), trimmed and
/// ASCII-lowercased.
pub open spec fn upload_mime_spec(content_type: Option<&str>) -> Seq<char> {
    let ct = match content_type {
        Some(c) => c@,
        None => "image/jpeg"@,
    };
    crate::text::ascii_lower_seq(trim(crate::text::split_on(ct, ';')[0]))
}

/// The MIME type of an uploaded image.
pub fn upload_mime(content_type: Option<&str>) -> (r: String)
    ensures
        r@ == upload_mime_spec(content_type),
{
    let ct = match content_type {
        Some(c) => chars_of(c),
        None => chars_of("image/jpeg"),
    };
    let pieces = crate::text::split_chars(ct.as_slice(), ';');
    let first = trim_chars(pieces[0].as_slice());
    let lower = crate::text::ascii_lowercase(first.as_slice());
    string_of(lower.as_slice())
}

/// The name shown for an uploaded image: the `X-File-Name` value cleaned,
/// or `rang.` and the extension when that is absent or empty once cleaned.
pub fn upload_file_name(file_name: Option<&str>, extension: &str) -> (r: String)
    ensures
        match file_name {
            Some(f) if trim(drop_breakers(f@)).len() > 0 => r@ == trim(drop_breakers(f@)),
            _ => r@ == "rang."@ + extension@,
        },
{
    match file_name {
        Some(f) => {
            let c = clean_file_name(f);
            if chars_of(c.as_str()).len() > 0 {
                return c;
            }
        },
        None => {},
    }
    let mut v = chars_of("rang.");
    crate::text::push_str_chars(&mut v, extension);
    string_of(v.as_slice())
}

/// The name of an image file on disk: its id, a dot and its extension.
pub fn stored_image_name(image_id: &str, extension: &str) -> (r: String)
    ensures
        r@ == image_id@ + "."@ + extension@,
{
    let mut v = chars_of(image_id);
    crate::text::push_str_chars(&mut v, ".");
    crate::text::push_str_chars(&mut v, extension);
    string_of(v.as_slice())
}

/// The URL an uploaded image is viewed at.
pub fn image_view_url(image_id: &str) -> (r: String)
    ensures
        r@ == "/v1/mobile/calculate/orders/image/view?id="@ + image_id@,
{
    let mut v = chars_of("/v1/mobile/calculate/orders/image/view?id=");
    crate::text::push_str_chars(&mut v, image_id);
    string_of(v.as_slice())
}

/// The files an image may be stored in, tried in order, with the MIME type
/// each is served as.
pub fn image_view_candidates(image_id: &str) -> (r: Vec<(String, &'static str)>)
    ensures
        r@.len() == 4,
        r@[0].0@ == image_id@ + "."@ + "jpg"@ && r@[0].1@ == "image/jpeg"@,
        r@[1].0@ == image_id@ + "."@ + "jpeg"@ && r@[1].1@ == "image/jpeg"@,
        r@[2].0@ == image_id@ + "."@ + "png"@ && r@[2].1@ == "image/png"@,
        r@[3].0@ == image_id@ + "."@ + "webp"@ && r@[3].1@ == "image/webp"@,
{
    let mut v: Vec<(String, &'static str)> = Vec::new();
    v.push((stored_image_name(image_id, "jpg"), "image/jpeg"));
    v.push((stored_image_name(image_id, "jpeg"), "image/jpeg"));
    v.push((stored_image_name(image_id, "png"), "image/png"));
    v.push((stored_image_name(image_id, "webp"), "image/webp"));
    v
}

/// The value of `key` in a query string: the first `&`-separated pair with
/// an `=` whose key is `key`, its value trimmed.
pub open spec fn query_value_in(pairs: Seq<Seq<char>>, key: Seq<char>) -> Option<Seq<char>>
    decreases pairs.len(),
{
    if pairs.len() == 0 {
        None
    } else {
        match crate::text::split_once(pairs[0], '=') {
            Some(kv) if kv.0 == key => Some(trim(kv.1)),
            _ => query_value_in(pairs.drop_first(), key),
        }
    }
}

/// The value of `key` in the request's query string, if any.
pub fn query_value(query: Option<&str>, key: &str) -> (r: Option<String>)
    ensures
        match query {
            None => r is None,
            Some(q) => match query_value_in(crate::text::split_on(q@, '&'), key@) {
                Some(v) => r matches Some(x) && x@ == v,
                None => r is None,
            },
        },
{
    let q = match query {
        Some(q) => q,
        None => {
            return None;
        },
    };
    let qc = chars_of(q);
    let pairs = crate::text::split_chars(qc.as_slice(), '&');
    let k = chars_of(key);
    let ghost pv = pairs@.map_values(|p: Vec<char>| p@);
    let mut i: usize = 0;
    assert(pv.subrange(0, pv.len() as int) =~= pv);
    while i < pairs.len()
        invariant
            i <= pairs@.len(),
            pv == pairs@.map_values(|p: Vec<char>| p@),
            pv == crate::text::split_on(q@, '&'),
            query == Some(q),
            k@ == key@,
            query_value_in(pv, key@) == query_value_in(pv.subrange(i as int, pv.len() as int), key@),
        decreases pairs@.len() - i,
    {
        let ghost rest = pv.subrange(i as int, pv.len() as int);
        assert(rest[0] == pairs@[i as int]@);
        assert(rest.drop_first() =~= pv.subrange(i + 1, pv.len() as int));
        match crate::text::split_once_chars(pairs[i].as_slice(), '=') {
            Some((rk, rv)) => {
                if crate::text::chars_eq(rk.as_slice(), k.as_slice()) {
                    assert(crate::text::split_once(rest[0], '=') == Some((rk@, rv@)));
                    assert(query_value_in(rest, key@) == Some(trim(rv@)));
                    let t = trim_chars(rv.as_slice());
                    return Some(string_of(t.as_slice()));
                }
            },
            None => {},
        }
        i = i + 1;
    }
    None
}

} // verus!
