//! Responses as plain values: status code, headers and a text or byte body.

use vstd::prelude::*;

verus! {

/// 200 OK.
pub const STATUS_OK: u16 = 200;
/// 400 Bad Request.
pub const STATUS_BAD_REQUEST: u16 = 400;
/// 403 Forbidden.
pub const STATUS_FORBIDDEN: u16 = 403;
/// 408 Request Timeout.
pub const STATUS_REQUEST_TIMEOUT: u16 = 408;
/// 500 Internal Server Error.
pub const STATUS_INTERNAL_SERVER_ERROR: u16 = 500;
/// 501 Not Implemented.
pub const STATUS_NOT_IMPLEMENTED: u16 = 501;

/// Content type of raw archive bytes.
pub const OCTET_STREAM: &'static str = "application/octet-stream";
/// Content type of the runtime's native binary snapshot.
pub const BSTOF_CONTENT_TYPE: &'static str = "application/bstof";
/// Name of the content-type header.
pub const CONTENT_TYPE: &'static str = "content-type";

/// A response: when `bytes_body` is present it is sent in place of `str_body`.
pub struct StofResponse {
    pub headers: Vec<(String, String)>,
    pub status: u16,
    pub str_body: String,
    pub bytes_body: Option<Vec<u8>>,
}

/// Whether `r` has status `status`, no headers, text body `body` and no bytes.
pub open spec fn is_text_reply(r: StofResponse, status: u16, body: Seq<char>) -> bool {
    r.status == status && r.headers@.len() == 0 && r.str_body@ == body && r.bytes_body is None
}

/// Whether `r` has status `status`, one content-type header `ctype`, an
/// empty text body and the bytes `bytes`.
pub open spec fn is_bytes_reply(r: StofResponse, status: u16, ctype: Seq<char>, bytes: Seq<u8>) -> bool {
    &&& r.status == status
    &&& r.headers@.len() == 1
    &&& r.headers@[0].0@ == CONTENT_TYPE@
    &&& r.headers@[0].1@ == ctype
    &&& r.str_body@.len() == 0
    &&& r.bytes_body matches Some(b) && b@ == bytes
}

fn content_type_header(ctype: &str) -> (r: Vec<(String, String)>)
    ensures
        r@.len() == 1,
        r@[0].0@ == CONTENT_TYPE@,
        r@[0].1@ == ctype@,
{
    let mut headers: Vec<(String, String)> = Vec::new();
    headers.push((CONTENT_TYPE.to_owned(), ctype.to_owned()));
    headers
}

impl StofResponse {
    /// Message response.
    pub fn msg(code: u16, message: &str) -> (r: Self)
        ensures
            is_text_reply(r, code, message@),
    {
        StofResponse { headers: Vec::new(), status: code, str_body: message.to_owned(), bytes_body: None }
    }

    /// Error response.
    pub fn error(code: u16, message: &str) -> (r: Self)
        ensures
            is_text_reply(r, code, message@),
    {
        StofResponse { headers: Vec::new(), status: code, str_body: message.to_owned(), bytes_body: None }
    }

    /// Text response with its own content type.
    pub fn text(code: u16, body: String, content_type: &str) -> (r: Self)
        ensures
            r.status == code,
            r.headers@.len() == 1,
            r.headers@[0].0@ == CONTENT_TYPE@,
            r.headers@[0].1@ == content_type@,
            r.str_body@ == body@,
            r.bytes_body is None,
    {
        StofResponse { headers: content_type_header(content_type), status: code, str_body: body, bytes_body: None }
    }

    /// Bytes response.
    pub fn bytes(code: u16, bytes: Vec<u8>) -> (r: Self)
        ensures
            is_bytes_reply(r, code, OCTET_STREAM@, bytes@),
    {
        StofResponse {
            headers: content_type_header(OCTET_STREAM),
            status: code,
            str_body: String::new(),
            bytes_body: Some(bytes),
        }
    }

    /// Native binary snapshot response.
    pub fn bstof(code: u16, bytes: Vec<u8>) -> (r: Self)
        ensures
            is_bytes_reply(r, code, BSTOF_CONTENT_TYPE@, bytes@),
    {
        StofResponse {
            headers: content_type_header(BSTOF_CONTENT_TYPE),
            status: code,
            str_body: String::new(),
            bytes_body: Some(bytes),
        }
    }
}

} // verus!
