//! HTTP status codes.
use vstd::prelude::*;
use vstd::string::StringExecFns;
use crate::text::{decimal_digits, decimal_string};

verus! {

/// An HTTP status code.
#[derive(Debug, Clone, Copy, PartialEq, Eq, Structural)]
pub struct StatusCode(pub u16);

impl StatusCode {
    /// Status 100.
    #[allow(non_snake_case)]
    pub fn CONTINUE() -> (r: StatusCode)
        ensures
            r == StatusCode(100),
    {
        StatusCode(100)
    }
    /// Status 200.
    #[allow(non_snake_case)]
    pub fn OK() -> (r: StatusCode)
        ensures
            r == StatusCode(200),
    {
        StatusCode(200)
    }
    /// Status 201.
    #[allow(non_snake_case)]
    pub fn CREATED() -> (r: StatusCode)
        ensures
            r == StatusCode(201),
    {
        StatusCode(201)
    }
    /// Status 202.
    #[allow(non_snake_case)]
    pub fn ACCEPTED() -> (r: StatusCode)
        ensures
            r == StatusCode(202),
    {
        StatusCode(202)
    }
    /// Status 204.
    #[allow(non_snake_case)]
    pub fn NO_CONTENT() -> (r: StatusCode)
        ensures
            r == StatusCode(204),
    {
        StatusCode(204)
    }
    /// Status 301.
    #[allow(non_snake_case)]
    pub fn MOVED_PERMANENTLY() -> (r: StatusCode)
        ensures
            r == StatusCode(301),
    {
        StatusCode(301)
    }
    /// Status 302.
    #[allow(non_snake_case)]
    pub fn FOUND() -> (r: StatusCode)
        ensures
            r == StatusCode(302),
    {
        StatusCode(302)
    }
    /// Status 304.
    #[allow(non_snake_case)]
    pub fn NOT_MODIFIED() -> (r: StatusCode)
        ensures
            r == StatusCode(304),
    {
        StatusCode(304)
    }
    /// Status 400.
    #[allow(non_snake_case)]
    pub fn BAD_REQUEST() -> (r: StatusCode)
        ensures
            r == StatusCode(400),
    {
        StatusCode(400)
    }
    /// Status 401.
    #[allow(non_snake_case)]
    pub fn UNAUTHORIZED() -> (r: StatusCode)
        ensures
            r == StatusCode(401),
    {
        StatusCode(401)
    }
    /// Status 403.
    #[allow(non_snake_case)]
    pub fn FORBIDDEN() -> (r: StatusCode)
        ensures
            r == StatusCode(403),
    {
        StatusCode(403)
    }
    /// Status 404.
    #[allow(non_snake_case)]
    pub fn NOT_FOUND() -> (r: StatusCode)
        ensures
            r == StatusCode(404),
    {
        StatusCode(404)
    }
    /// Status 405.
    #[allow(non_snake_case)]
    pub fn METHOD_NOT_ALLOWED() -> (r: StatusCode)
        ensures
            r == StatusCode(405),
    {
        StatusCode(405)
    }
    /// Status 413.
    #[allow(non_snake_case)]
    pub fn PAYLOAD_TOO_LARGE() -> (r: StatusCode)
        ensures
            r == StatusCode(413),
    {
        StatusCode(413)
    }
    /// Status 415.
    #[allow(non_snake_case)]
    pub fn UNSUPPORTED_MEDIA_TYPE() -> (r: StatusCode)
        ensures
            r == StatusCode(415),
    {
        StatusCode(415)
    }
    /// Status 431.
    #[allow(non_snake_case)]
    pub fn REQUEST_HEADER_FIELDS_TOO_LARGE() -> (r: StatusCode)
        ensures
            r == StatusCode(431),
    {
        StatusCode(431)
    }
    /// Status 500.
    #[allow(non_snake_case)]
    pub fn INTERNAL_SERVER_ERROR() -> (r: StatusCode)
        ensures
            r == StatusCode(500),
    {
        StatusCode(500)
    }
    /// Status 501.
    #[allow(non_snake_case)]
    pub fn NOT_IMPLEMENTED() -> (r: StatusCode)
        ensures
            r == StatusCode(501),
    {
        StatusCode(501)
    }
    /// Status 503.
    #[allow(non_snake_case)]
    pub fn SERVICE_UNAVAILABLE() -> (r: StatusCode)
        ensures
            r == StatusCode(503),
    {
        StatusCode(503)
    }
    /// Status 505.
    #[allow(non_snake_case)]
    pub fn HTTP_VERSION_NOT_SUPPORTED() -> (r: StatusCode)
        ensures
            r == StatusCode(505),
    {
        StatusCode(505)
    }

    /// The numeric code.
    pub fn as_u16(&self) -> (r: u16)
        ensures
            r == self.0,
    {
        self.0
    }

    /// 2xx.
    pub fn is_success(&self) -> (r: bool)
        ensures
            r == (200 <= self.0 <= 299),
    {
        200 <= self.0 && self.0 <= 299
    }

    /// 4xx.
    pub fn is_client_error(&self) -> (r: bool)
        ensures
            r == (400 <= self.0 <= 499),
    {
        400 <= self.0 && self.0 <= 499
    }

    /// 5xx.
    pub fn is_server_error(&self) -> (r: bool)
        ensures
            r == (500 <= self.0 <= 599),
    {
        500 <= self.0 && self.0 <= 599
    }
}

/// The standard reason phrase of a status code (empty when not known).
pub open spec fn spec_reason_phrase(code: u16) -> Seq<char> {
    if code == 100 { "Continue"@ }
    else if code == 200 { "OK"@ }
    else if code == 201 { "Created"@ }
    else if code == 202 { "Accepted"@ }
    else if code == 204 { "No Content"@ }
    else if code == 301 { "Moved Permanently"@ }
    else if code == 302 { "Found"@ }
    else if code == 304 { "Not Modified"@ }
    else if code == 400 { "Bad Request"@ }
    else if code == 401 { "Unauthorized"@ }
    else if code == 403 { "Forbidden"@ }
    else if code == 404 { "Not Found"@ }
    else if code == 405 { "Method Not Allowed"@ }
    else if code == 413 { "Payload Too Large"@ }
    else if code == 415 { "Unsupported Media Type"@ }
    else if code == 431 { "Request Header Fields Too Large"@ }
    else if code == 500 { "Internal Server Error"@ }
    else if code == 501 { "Not Implemented"@ }
    else if code == 503 { "Service Unavailable"@ }
    else if code == 505 { "HTTP Version Not Supported"@ }
    else { Seq::empty() }
}

/// The text written for a status code: the number, then the reason phrase
/// when one is known.
pub open spec fn spec_status_text(code: u16) -> Seq<char> {
    if spec_reason_phrase(code).len() == 0 {
        decimal_digits(code as nat)
    } else {
        decimal_digits(code as nat) + " "@ + spec_reason_phrase(code)
    }
}

impl StatusCode {
    /// The standard reason phrase (empty when not known).
    pub fn reason_phrase(&self) -> (r: &'static str)
        ensures
            r@ == spec_reason_phrase(self.0),
    {
        let code = self.0;
        if code == 100 { "Continue" }
        else if code == 200 { "OK" }
        else if code == 201 { "Created" }
        else if code == 202 { "Accepted" }
        else if code == 204 { "No Content" }
        else if code == 301 { "Moved Permanently" }
        else if code == 302 { "Found" }
        else if code == 304 { "Not Modified" }
        else if code == 400 { "Bad Request" }
        else if code == 401 { "Unauthorized" }
        else if code == 403 { "Forbidden" }
        else if code == 404 { "Not Found" }
        else if code == 405 { "Method Not Allowed" }
        else if code == 413 { "Payload Too Large" }
        else if code == 415 { "Unsupported Media Type" }
        else if code == 431 { "Request Header Fields Too Large" }
        else if code == 500 { "Internal Server Error" }
        else if code == 501 { "Not Implemented" }
        else if code == 503 { "Service Unavailable" }
        else if code == 505 { "HTTP Version Not Supported" }
        else {
            proof {
                reveal_strlit("");
            }
            ""
        }
    }

    /// The number followed by the reason phrase, e.g. `200 OK`.
    pub fn to_string(&self) -> (r: String)
        ensures
            r@ == spec_status_text(self.0),
    {
        let mut s = decimal_string(self.0 as u64);
        let reason = self.reason_phrase();
        if !reason.is_empty() {
            s.append(" ");
            s.append(reason);
        }
        proof {
            reveal_strlit("");
        }
        s
    }
}

impl From<u16> for StatusCode {
    fn from(code: u16) -> (r: Self) {
        StatusCode(code)
    }
}

impl vstd::std_specs::convert::FromSpecImpl<u16> for StatusCode {
    open spec fn obeys_from_spec() -> bool {
        true
    }

    open spec fn from_spec(code: u16) -> Self {
        StatusCode(code)
    }
}

} // verus!
