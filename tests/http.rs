use cracked_md::http::error::{Error, ErrorKind};
use cracked_md::http::fileserver::{content_type, extension, FileServer};
use cracked_md::http::http_header::HttpHeaders;
use cracked_md::http::logger::Level as ServerLevel;
use cracked_md::http::request::{HttpMethod, HttpRequest};
use cracked_md::http::response::{HttpResponse, HttpStatus};
use cracked_md::slogger::Level;

const CURL_GET: &str =
    "GET / HTTP/1.1\r\nHost: localhost:8080\r\nUser-Agent: curl/8.14.1\r\nAccept: */*\r\n\r\n";

#[test]
fn http_parse_method_get() {
    let s = CURL_GET;
    let req = HttpRequest::parse(s).unwrap();

    assert_eq!(req.method, HttpMethod::GET);
}

#[test]
fn http_parse_path_indexhtml() {
    let s = "GET /index.html HTTP/1.1\r\nHost: localhost:8080\r\nUser-Agent: curl/8.14.1\r\nAccept: */*\r\n\r\n";
    let req = HttpRequest::parse(s).unwrap();

    assert_eq!(req.path, "index.html");
}

#[test]
fn http_parse_version() {
    let s = CURL_GET;
    let req = HttpRequest::parse(s).unwrap();

    assert_eq!(req.version, "HTTP/1.1");
}

#[test]
fn http_parse_headers_len() {
    let s = CURL_GET;
    let req = HttpRequest::parse(s).unwrap();

    assert_eq!(req.headers.len(), 3);
}

#[test]
fn http_parse_useragent_header_curl() {
    let s = CURL_GET;
    let req = HttpRequest::parse(s).unwrap();

    assert_eq!(req.headers.get("User-Agent").unwrap(), "curl/8.14.1");
}

#[test]
fn http_parse_empty_should_fail() {
    let s = "";
    let req = HttpRequest::parse(s);

    assert!(req.is_err());
}

#[test]
fn http_parse_unsupported_method_delete() {
    let s = "DELETE / HTTP/1.1\r\nHost: localhost:8080\r\nUser-Agent: curl/8.14.1\r\nAccept: */*\r\n\r\n";
    let req = HttpRequest::parse(s);

    assert!(req.is_err());
}

#[test]
fn http_method_display() {
    let method = HttpMethod::GET;
    assert_eq!(method.name(), "GET")
}

#[test]
fn http_status_macro_display() {
    let stat = HttpStatus::ImATeapot;

    assert_eq!(stat.to_text(), "418 I'm a teapot");
}

#[test]
fn http_response_new_empty() {
    let resp = HttpResponse::new_empty(HttpStatus::ImATeapot);

    assert_eq!(
        resp.to_text(),
        "HTTP/1.1 418 I'm a teapot\r\nContent-Length: 0\r\n\r\n"
    );
}

#[test]
fn http_response_new_with_body() {
    let resp = HttpResponse::new(HttpStatus::ImATeapot, b"teapot".to_vec());

    assert_eq!(
        resp.to_text(),
        "HTTP/1.1 418 I'm a teapot\r\nContent-Length: 6\r\n\r\nteapot\r\n"
    );
}

#[test]
fn request_errors_name_what_is_missing() {
    let e = HttpRequest::parse("").unwrap_err();
    assert_eq!(e.kind(), ErrorKind::RequestParse);
    assert_eq!(e.message(), "RequestParse: expected request method");
    let e = HttpRequest::parse("DELETE / HTTP/1.1").unwrap_err();
    assert_eq!(e.message(), "UnsupportedHttpMethod: DELETE");
    let e = HttpRequest::parse("GET").unwrap_err();
    assert_eq!(e.message(), "RequestParse: expected request path");
    let e = HttpRequest::parse("GET /x").unwrap_err();
    assert_eq!(e.message(), "RequestParse: expected request version");
}

#[test]
fn request_line_words_and_headers() {
    let req = HttpRequest::parse("  GET \t//docs/a.css   HTTP/1.0 extra\r\nbad line\r\nA: 1\r\nA: 2: 3\r\n").unwrap();
    assert_eq!(req.path, "docs/a.css");
    assert_eq!(req.version, "HTTP/1.0");
    assert_eq!(req.headers.len(), 1);
    assert_eq!(req.headers.get("A").unwrap(), "2: 3");
    assert_eq!(req.headers.get("bad line"), None);
}

#[test]
fn headers_replace_and_render_in_order() {
    let mut h = HttpHeaders::new();
    h.add("B", "1");
    h.add("A", "2");
    h.add("B", "3");
    assert_eq!(h.len(), 2);
    assert_eq!(h.get("B").unwrap(), "3");
    assert_eq!(h.to_text(), "B: 3\r\nA: 2\r\n");
}

#[test]
fn response_bytes_carry_length_and_body() {
    let mut resp = HttpResponse::new(HttpStatus::OK, vec![0xff, 0x00]).add_header("Server", "stdsrv");
    assert_eq!(
        resp.to_text(),
        "HTTP/1.1 200 OK\r\nContent-Length: 2\r\nServer: stdsrv\r\n\r\n<binary data>\r\n"
    );
    let bytes = resp.wire_bytes();
    let mut expected = b"HTTP/1.1 200 OK\r\nContent-Length: 2\r\nServer: stdsrv\r\n\r\n".to_vec();
    expected.extend_from_slice(&[0xff, 0x00]);
    assert_eq!(bytes, expected);
}

#[test]
fn status_codes_and_reasons() {
    assert_eq!(HttpStatus::NotFound.code(), 404);
    assert_eq!(HttpStatus::HTTPVersionNotSupported.to_text(), "505 HTTP Version Not Supported");
    assert_eq!(HttpStatus::MethodNotAllowed.reason(), "Method Not Allowed");
}

#[test]
fn content_types_by_extension() {
    assert_eq!(content_type("index.html"), "text/html");
    assert_eq!(content_type("css/site.css"), "text/css");
    assert_eq!(content_type("a/b.JPG"), "text/plain");
    assert_eq!(content_type("a/b.jpeg"), "image/jpg");
    assert_eq!(content_type("docs/"), "text/html");
    assert_eq!(content_type(".hidden"), "text/html");
    assert_eq!(content_type(""), "text/html");
    assert_eq!(extension("a.tar.gz"), Some("gz".to_string()));
    assert_eq!(extension("dir.d/file"), None);
    assert_eq!(extension(".."), None);
}

#[test]
fn file_server_decisions() {
    assert_eq!(
        FileServer::new("site", false).err().unwrap().message(),
        "DirNotFound: site"
    );
    let server = FileServer::new("site", true).ok().unwrap();
    assert_eq!(server.root(), "site");

    let old = HttpRequest::parse("GET / HTTP/1.0\r\n").unwrap();
    let early = server.check_request(&old).unwrap();
    assert_eq!(
        early.to_text(),
        "HTTP/1.1 505 HTTP Version Not Supported\r\nContent-Length: 0\r\n\r\n"
    );
    let ok = HttpRequest::parse("GET /a.json HTTP/1.1\r\n").unwrap();
    assert!(server.check_request(&ok).is_none());

    let found = server.file_response(&ok.path, Some(b"{}".to_vec()));
    assert_eq!(
        found.to_text(),
        "HTTP/1.1 200 OK\r\nContent-Length: 2\r\nContent-Type: application/json\r\n\r\n{}\r\n"
    );
    let missing = server.file_response(&ok.path, None);
    assert_eq!(
        missing.to_text(),
        "HTTP/1.1 404 Not Found\r\nContent-Length: 0\r\nConnection: close\r\n\r\n"
    );
}

#[test]
fn error_new_keeps_kind_and_message() {
    let e = Error::new(ErrorKind::TcpBind, "port in use");
    assert_eq!(e.kind(), ErrorKind::TcpBind);
    assert_eq!(e.message(), "TcpBind: port in use");
}

#[test]
fn log_levels() {
    assert!(Level::Error.enabled(Level::Info));
    assert!(Level::Info.enabled(Level::Info));
    assert!(!Level::Debug.enabled(Level::Info));
    assert_eq!(Level::Warn.label(), "\x1b[1;33m[WARN]\x1b[0m");
    assert!(!ServerLevel::Debug.shown(false));
    assert!(ServerLevel::Debug.shown(true));
    assert!(ServerLevel::Warn.shown(false));
    assert_eq!(ServerLevel::Info.label(), "\x1b[0;32m[INFO]\x1b[0m");
}
