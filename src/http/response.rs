//! Building HTTP responses and writing them out as text and bytes.

use vstd::prelude::*;
use vstd::utf8::{decode_utf8, encode_utf8, valid_utf8};
use crate::http::http_header::{HttpHeaders, headers_text, key_index};
use crate::text::{decimal, decimal_string};

verus! {

/// The statuses the server answers with.
#[derive(Debug, Clone, Copy, PartialEq, Eq, Structural)]
pub enum HttpStatus {
    OK,
    NotFound,
    MethodNotAllowed,
    ImATeapot,
    InternalServerError,
    HTTPVersionNotSupported,
}

pub open spec fn status_code(s: HttpStatus) -> u16 {
    match s {
        HttpStatus::OK => 200,
        HttpStatus::NotFound => 404,
        HttpStatus::MethodNotAllowed => 405,
        HttpStatus::ImATeapot => 418,
        HttpStatus::InternalServerError => 500,
        HttpStatus::HTTPVersionNotSupported => 505,
    }
}

pub open spec fn status_reason(s: HttpStatus) -> Seq<char> {
    match s {
        HttpStatus::OK => "OK"@,
        HttpStatus::NotFound => "Not Found"@,
        HttpStatus::MethodNotAllowed => "Method Not Allowed"@,
        HttpStatus::ImATeapot => "I'm a teapot"@,
        HttpStatus::InternalServerError => "Internal Server Error"@,
        HttpStatus::HTTPVersionNotSupported => "HTTP Version Not Supported"@,
    }
}

/// A status as it stands in a status line: `<code> <reason>`.
pub open spec fn status_text(s: HttpStatus) -> Seq<char> {
    decimal(status_code(s) as nat) + " "@ + status_reason(s)
}

impl HttpStatus {
    pub fn code(&self) -> (r: u16)
        ensures
            r == status_code(*self),
    {
        match self {
            HttpStatus::OK => 200,
            HttpStatus::NotFound => 404,
            HttpStatus::MethodNotAllowed => 405,
            HttpStatus::ImATeapot => 418,
            HttpStatus::InternalServerError => 500,
            HttpStatus::HTTPVersionNotSupported => 505,
        }
    }

    pub fn reason(&self) -> (r: &'static str)
        ensures
            r@ == status_reason(*self),
    {
        match self {
            HttpStatus::OK => "OK",
            HttpStatus::NotFound => "Not Found",
            HttpStatus::MethodNotAllowed => "Method Not Allowed",
            HttpStatus::ImATeapot => "I'm a teapot",
            HttpStatus::InternalServerError => "Internal Server Error",
            HttpStatus::HTTPVersionNotSupported => "HTTP Version Not Supported",
        }
    }

    /// The status as text: `<code> <reason>`.
    pub fn to_text(&self) -> (r: String)
        ensures
            r@ == status_text(*self),
    {
        let mut r = decimal_string(self.code() as usize);
        r.append(" ");
        r.append(self.reason());
        r
    }
}

/// Relies on `String::from_utf8`: the text a byte sequence encodes, if it is valid UTF-8.
#[verifier::external_body]
fn utf8_text(bytes: &Vec<u8>) -> (r: Option<String>)
    ensures
        valid_utf8(bytes@) ==> r is Some && r->0@ == decode_utf8(bytes@),
        !valid_utf8(bytes@) ==> r is None,
{
    String::from_utf8(bytes.clone()).ok()
}

/// An HTTP response.
#[derive(Debug)]
pub struct HttpResponse {
    version: String,
    status: HttpStatus,
    headers: HttpHeaders,
    body: Option<Vec<u8>>,
}

/// The first line and the headers of a response, with the blank line that ends them.
pub open spec fn head_text(version: Seq<char>, status: HttpStatus, headers: Seq<(Seq<char>, Seq<char>)>) -> Seq<char> {
    version + " "@ + status_text(status) + "\r\n"@ + headers_text(headers) + "\r\n"@
}

/// How a body is shown to a reader: its text if it is valid UTF-8, else a placeholder.
pub open spec fn body_display(body: Seq<u8>) -> Seq<char> {
    if valid_utf8(body) {
        decode_utf8(body)
    } else {
        "<binary data>"@
    }
}

/// The entries after setting `k` to `v`, as `HttpHeaders::add` does.
pub open spec fn with_header(e: Seq<(Seq<char>, Seq<char>)>, k: Seq<char>, v: Seq<char>) -> Seq<(Seq<char>, Seq<char>)> {
    match key_index(e, k) {
        Some(i) => e.update(i, (k, v)),
        None => e.push((k, v)),
    }
}

impl HttpResponse {
    pub closed spec fn spec_version(&self) -> Seq<char> {
        self.version@
    }

    pub closed spec fn spec_status(&self) -> HttpStatus {
        self.status
    }

    pub closed spec fn spec_headers(&self) -> Seq<(Seq<char>, Seq<char>)> {
        self.headers.entries()
    }

    pub closed spec fn spec_body(&self) -> Option<Seq<u8>> {
        match self.body {
            Some(b) => Some(b@),
            None => None,
        }
    }

    /// An HTTP/1.1 response without a body.
    pub fn new_empty(status: HttpStatus) -> (r: Self)
        ensures
            r.spec_version() == "HTTP/1.1"@,
            r.spec_status() == status,
            r.spec_headers() == seq![("Content-Length"@, "0"@)],
            r.spec_body() is None,
    {
        let mut headers = HttpHeaders::new();
        headers.add("Content-Length", "0");
        assert(headers.entries() =~= seq![("Content-Length"@, "0"@)]);
        HttpResponse { version: "HTTP/1.1".to_string(), status, headers, body: None }
    }

    /// An HTTP/1.1 response carrying `body`.
    pub fn new(status: HttpStatus, body: Vec<u8>) -> (r: Self)
        ensures
            r.spec_version() == "HTTP/1.1"@,
            r.spec_status() == status,
            r.spec_headers() == seq![("Content-Length"@, decimal(body@.len()))],
            r.spec_body() == Some(body@),
    {
        let mut headers = HttpHeaders::new();
        let n = decimal_string(body.len());
        headers.add("Content-Length", n.as_str());
        assert(headers.entries() =~= seq![("Content-Length"@, decimal(body@.len()))]);
        HttpResponse { version: "HTTP/1.1".to_string(), status, headers, body: Some(body) }
    }

    /// The same response with header `key` set to `value`.
    pub fn add_header(self, key: &str, value: &str) -> (r: Self)
        ensures
            r.spec_version() == self.spec_version(),
            r.spec_status() == self.spec_status(),
            r.spec_headers() == with_header(self.spec_headers(), key@, value@),
            r.spec_body() == self.spec_body(),
    {
        let mut r = self;
        r.add_header_inner(key, value);
        r
    }

    fn add_header_inner(&mut self, key: &str, value: &str)
        ensures
            final(self).spec_version() == old(self).spec_version(),
            final(self).spec_status() == old(self).spec_status(),
            final(self).spec_headers() == with_header(old(self).spec_headers(), key@, value@),
            final(self).spec_body() == old(self).spec_body(),
    {
        self.headers.add(key, value);
    }

    /// The response as text for a reader: its head, then its body (if any) and a line end.
    pub fn to_text(&self) -> (r: String)
        ensures
            r@ == head_text(self.spec_version(), self.spec_status(), self.spec_headers()) + match self.spec_body() {
                Some(b) => body_display(b) + "\r\n"@,
                None => Seq::empty(),
            },
    {
        let mut r = self.head();
        match &self.body {
            Some(b) => {
                match utf8_text(b) {
                    Some(t) => r.append(t.as_str()),
                    None => r.append("<binary data>"),
                }
                r.append("\r\n");
            },
            None => {
                assert(r@ + Seq::<char>::empty() =~= r@);
            },
        }
        r
    }

    fn head(&self) -> (r: String)
        ensures
            r@ == head_text(self.spec_version(), self.spec_status(), self.spec_headers()),
    {
        let mut r = self.version.clone();
        r.append(" ");
        r.append(self.status.to_text().as_str());
        r.append("\r\n");
        r.append(self.headers.to_text().as_str());
        r.append("\r\n");
        r
    }

    /// The bytes of the response's head: its first line and headers, UTF-8 encoded.
    fn start_bytes(&self) -> (r: Vec<u8>)
        ensures
            r@ == encode_utf8(head_text(self.spec_version(), self.spec_status(), self.spec_headers())),
    {
        self.head().as_str().as_bytes_vec()
    }

    /// Sets `Content-Length` to the size of the body and returns the bytes to send:
    /// the head, then the body.
    pub fn wire_bytes(&mut self) -> (r: Vec<u8>)
        ensures
            final(self).spec_version() == old(self).spec_version(),
            final(self).spec_status() == old(self).spec_status(),
            final(self).spec_body() == old(self).spec_body(),
            final(self).spec_headers() == with_header(
                old(self).spec_headers(),
                "Content-Length"@,
                decimal(match old(self).spec_body() { Some(b) => b.len(), None => 0 }),
            ),
            r@ == encode_utf8(head_text(final(self).spec_version(), final(self).spec_status(), final(self).spec_headers()))
                + match old(self).spec_body() { Some(b) => b, None => Seq::empty() },
    {
        let n: usize = match &self.body {
            Some(v) => v.len(),
            None => 0,
        };
        let len_text = decimal_string(n);
        self.add_header_inner("Content-Length", len_text.as_str());
        let mut bytes = self.start_bytes();
        match &self.body {
            Some(b) => {
                let mut body = b.clone();
                bytes.append(&mut body);
            },
            None => {
                assert(bytes@ + Seq::<u8>::empty() =~= bytes@);
            },
        }
        bytes
    }
}

} // verus!
