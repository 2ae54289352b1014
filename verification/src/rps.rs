//! The RPS scale driver and batch endpoints: where a print request is sent,
//! how a driver's refusal is reported to the operator, and the error bodies
//! of the batch endpoints.
use vstd::prelude::*;

use crate::decimal::{decimal, push_decimal};
use crate::text::{
    chars_eq, chars_of, drop_trail, owned, push_str_chars, string_of, trim,
    trim_end_matches_char, trim_str,
};

verus! {

/// `reqwest::Url`, a parsed URL.
#[verifier::external_type_specification]
#[verifier::external_body]
pub struct ExUrl(reqwest::Url);

/// Error body of the RPS batch endpoints.
#[derive(Debug)]
pub struct RpsBatchErrorResponse {
    pub ok: bool,
    pub error: String,
    pub detail: String,
}

impl RpsBatchErrorResponse {
    /// A failed response with code `error` and message `detail`.
    pub fn new(error: &str, detail: &str) -> (r: Self)
        ensures
            !r.ok,
            r.error@ == error@,
            r.detail@ == detail@,
    {
        RpsBatchErrorResponse { ok: false, error: owned(error), detail: owned(detail) }
    }
}

/// Errors of the RPS batch service.
#[derive(Debug)]
pub enum RpsBatchServiceError {
    InvalidInput(String),
    BatchNotActive,
    StoreFailed,
}

/// The error code that a batch service error is reported under.
pub open spec fn batch_error_code(e: RpsBatchServiceError) -> Seq<char> {
    match e {
        RpsBatchServiceError::InvalidInput(_) => "invalid_input"@,
        RpsBatchServiceError::BatchNotActive => "batch_not_active"@,
        RpsBatchServiceError::StoreFailed => "batch_store_failed"@,
    }
}

impl RpsBatchServiceError {
    /// The error code of this error.
    pub fn code(&self) -> (r: &'static str)
        ensures
            r@ == batch_error_code(*self),
    {
        match self {
            RpsBatchServiceError::InvalidInput(_) => "invalid_input",
            RpsBatchServiceError::BatchNotActive => "batch_not_active",
            RpsBatchServiceError::StoreFailed => "batch_store_failed",
        }
    }

    /// The HTTP status that answers this error: 400 for invalid input, 409
    /// when no batch is active, 500 when the store failed.
    pub fn status(&self) -> (r: u16)
        ensures
            r == match *self {
                RpsBatchServiceError::InvalidInput(_) => 400u16,
                RpsBatchServiceError::BatchNotActive => 409u16,
                RpsBatchServiceError::StoreFailed => 500u16,
            },
    {
        match self {
            RpsBatchServiceError::InvalidInput(_) => 400,
            RpsBatchServiceError::BatchNotActive => 409,
            RpsBatchServiceError::StoreFailed => 500,
        }
    }
}

/// Errors of the scale driver port.
#[derive(Debug)]
pub enum GscalePortError {
    NotConfigured(String),
    InvalidInput(String),
    Driver(String),
}

/// The scheme of the URL that `reqwest::Url::parse` makes of `input`, or
/// `None` when `input` does not parse.
pub uninterp spec fn url_scheme_of(input: Seq<char>) -> Option<Seq<char>>;

/// The serialization (`Url::as_str`) of the URL that `reqwest::Url::parse`
/// makes of `input`, or `None` when `input` does not parse.
pub uninterp spec fn url_text_of(input: Seq<char>) -> Option<Seq<char>>;

/// Calls `reqwest::Url::parse` on `input` and, when it parses, reads the
/// URL's scheme with `Url::scheme` and its serialization with `Url::as_str`.
/// Trusted: the scheme and the text returned are the ones that
/// `url_scheme_of` and `url_text_of` name for `input`, and parsing fails
/// exactly where they are `None`. The text of a parse error is not stated.
#[verifier::external_body]
fn parse_url(input: &str) -> (r: Result<(reqwest::Url, String, String), String>)
    ensures
        match r {
            Ok(p) => url_scheme_of(input@) == Some(p.1@) && url_text_of(input@) == Some(p.2@),
            Err(_) => url_scheme_of(input@) is None && url_text_of(input@) is None,
        },
{
    match reqwest::Url::parse(input) {
        Ok(url) => {
            let scheme = url.scheme().to_string();
            let text = url.as_str().to_string();
            Ok((url, scheme, text))
        },
        Err(error) => Err(error.to_string()),
    }
}

/// A parsed driver URL and its text.
#[derive(Debug)]
pub struct DriverUrl {
    pub url: reqwest::Url,
    pub text: String,
}

/// The default driver URL as the client keeps it: trimmed, without
/// trailing slashes.
pub open spec fn normalized_driver_url(raw: Seq<char>) -> Seq<char> {
    drop_trail(trim(raw), '/')
}

/// `raw` trimmed and stripped of trailing slashes.
pub fn normalize_driver_url(raw: &str) -> (r: String)
    ensures
        r@ == normalized_driver_url(raw@),
{
    let t = trim_str(raw);
    let v = trim_end_matches_char(t.as_slice(), '/');
    string_of(v.as_slice())
}

/// The driver base URL of a print request: the request's own URL, trimmed,
/// or the client's default when the request names none.
pub open spec fn driver_base(default_url: Seq<char>, request_url: Seq<char>) -> Seq<char> {
    if trim(request_url).len() == 0 {
        default_url
    } else {
        trim(request_url)
    }
}

/// The text of the print endpoint under a driver base URL.
pub open spec fn print_target(base: Seq<char>) -> Seq<char> {
    drop_trail(base, '/') + "/v1/driver/print"@
}

/// Whether a scheme is one the driver may be reached by.
pub open spec fn web_scheme(scheme: Seq<char>) -> bool {
    scheme == "http"@ || scheme == "https"@
}

fn is_web_scheme(scheme: &str) -> (b: bool)
    ensures
        b == web_scheme(scheme@),
{
    let s = chars_of(scheme);
    let http = chars_of("http");
    let https = chars_of("https");
    chars_eq(s.as_slice(), http.as_slice()) || chars_eq(s.as_slice(), https.as_slice())
}

/// The URL that a print request is posted to: `/v1/driver/print` under the
/// request's driver URL, or under `default_driver_url` when the request names
/// none. Fails with `NotConfigured` when neither names one, and with
/// `InvalidInput` when the text does not parse as a URL or its scheme is not
/// `http` or `https`.
pub fn driver_print_url(default_driver_url: &str, request_driver_url: &str) -> (r: Result<
    DriverUrl,
    GscalePortError,
>)
    ensures
        ({
            let base = driver_base(default_driver_url@, request_driver_url@);
            let scheme = url_scheme_of(print_target(base));
            &&& (r matches Ok(u) ==> url_text_of(print_target(base)) == Some(u.text@) && scheme is Some
                && web_scheme(scheme->0))
            &&& (r matches Err(GscalePortError::NotConfigured(m)) <==> base.len() == 0)
            &&& (r matches Err(GscalePortError::NotConfigured(m)) ==> m@
                == "scale driver url is required"@)
            &&& base.len() > 0 ==> (r is Ok <==> (scheme is Some && web_scheme(scheme->0)))
            &&& (r matches Err(e) ==> !(e is Driver))
            &&& (base.len() > 0 && scheme is Some && !web_scheme(scheme->0)) ==> (r matches Err(
                GscalePortError::InvalidInput(m),
            ) && m@ == "scale driver url must be http or https"@)
        }),
{
    let request = trim_str(request_driver_url);
    let base = if request.len() == 0 {
        chars_of(default_driver_url)
    } else {
        request
    };
    if base.len() == 0 {
        return Err(GscalePortError::NotConfigured(owned("scale driver url is required")));
    }
    let mut target = trim_end_matches_char(base.as_slice(), '/');
    push_str_chars(&mut target, "/v1/driver/print");
    let text = string_of(target.as_slice());
    match parse_url(text.as_str()) {
        Err(detail) => Err(GscalePortError::InvalidInput(detail)),
        Ok((url, scheme, text)) => {
            if is_web_scheme(scheme.as_str()) {
                Ok(DriverUrl { url, text })
            } else {
                Err(
                    GscalePortError::InvalidInput(
                        owned("scale driver url must be http or https"),
                    ),
                )
            }
        },
    }
}

/// The operator's message for a driver that is busy with another print.
pub open spec fn driver_busy_message() -> Seq<char> {
    "Printer band. Boshqa mobile print qilmoqda, keyin qayta urining."@
}

/// The message of a failed print: the operator's busy message when the
/// driver reports `driver_busy`; else the first non-blank of the reply's
/// detail, error and status, trimmed; else the HTTP status code.
pub open spec fn print_error_detail_spec(
    error: Seq<char>,
    detail: Seq<char>,
    status: Seq<char>,
    http_status: u16,
) -> Seq<char> {
    if trim(error) == "driver_busy"@ {
        driver_busy_message()
    } else if trim(detail).len() > 0 {
        trim(detail)
    } else if trim(error).len() > 0 {
        trim(error)
    } else if trim(status).len() > 0 {
        trim(status)
    } else {
        "scale driver http "@ + decimal(http_status as nat)
    }
}

/// The message of a failed print, from the fields `error`, `detail` and
/// `status` of the driver's reply and the HTTP status of the response.
pub fn print_error_detail(error: &str, detail: &str, status: &str, http_status: u16) -> (r: String)
    ensures
        r@ == print_error_detail_spec(error@, detail@, status@, http_status),
{
    let e = trim_str(error);
    let busy = chars_of("driver_busy");
    if chars_eq(e.as_slice(), busy.as_slice()) {
        return owned("Printer band. Boshqa mobile print qilmoqda, keyin qayta urining.");
    }
    let d = trim_str(detail);
    if d.len() > 0 {
        return string_of(d.as_slice());
    }
    if e.len() > 0 {
        return string_of(e.as_slice());
    }
    let s = trim_str(status);
    if s.len() > 0 {
        return string_of(s.as_slice());
    }
    let mut out = chars_of("scale driver http ");
    push_decimal(&mut out, http_status as u128);
    string_of(out.as_slice())
}

} // verus!
