//! The decisions of a server that answers each request with the contents of a file.

use vstd::prelude::*;
use crate::http::error::{Error, ErrorKind};
use crate::http::request::{HttpMethod, HttpRequest};
use crate::http::response::{HttpResponse, HttpStatus, with_header};
use crate::text::{chars_of, decimal};

verus! {

/// The index just past the last character of `p[..end]` that is not `/`, or 0.
pub open spec fn trim_slashes_end(p: Seq<char>, end: int) -> int
    decreases end,
{
    if end > 0 && p[end - 1] == '/' {
        trim_slashes_end(p, end - 1)
    } else {
        end
    }
}

/// The index of the last `c` in `p[..end]`, if any.
pub open spec fn last_index(p: Seq<char>, end: int, c: char) -> Option<int>
    decreases end,
{
    if end <= 0 {
        None
    } else if p[end - 1] == c {
        Some(end - 1)
    } else {
        last_index(p, end - 1, c)
    }
}

pub proof fn lemma_last_index(p: Seq<char>, end: int, c: char)
    ensures
        last_index(p, end, c) is Some ==> 0 <= last_index(p, end, c)->0 < end,
    decreases end,
{
    if end > 0 && p[end - 1] != c {
        lemma_last_index(p, end - 1, c);
    }
}

pub proof fn lemma_trim_slashes_end(p: Seq<char>, end: int)
    requires
        0 <= end,
    ensures
        0 <= trim_slashes_end(p, end) <= end,
    decreases end,
{
    if end > 0 && p[end - 1] == '/' {
        lemma_trim_slashes_end(p, end - 1);
    }
}

/// The last component of a path: what follows its last `/`, trailing `/` ignored.
pub open spec fn file_name(p: Seq<char>) -> Seq<char> {
    let end = trim_slashes_end(p, p.len() as int);
    match last_index(p, end, '/') {
        Some(k) => p.subrange(k + 1, end),
        None => p.subrange(0, end),
    }
}

/// The extension of a path: what follows the last `.` of its file name, unless that
/// `.` begins the name or the name is `..`.
pub open spec fn extension_of(p: Seq<char>) -> Option<Seq<char>> {
    let name = file_name(p);
    if name == ".."@ {
        None
    } else {
        match last_index(name, name.len() as int, '.') {
            Some(k) => if k == 0 {
                None
            } else {
                Some(name.subrange(k + 1, name.len() as int))
            },
            None => None,
        }
    }
}

/// The media type served for a file with extension `ext`.
pub open spec fn content_type_of(ext: Option<Seq<char>>) -> Seq<char> {
    match ext {
        None => "text/html"@,
        Some(e) => if e == "html"@ || e == "htm"@ {
            "text/html"@
        } else if e == "css"@ {
            "text/css"@
        } else if e == "js"@ {
            "text/javascript"@
        } else if e == "pdf"@ {
            "application/pdf"@
        } else if e == "json"@ {
            "application/json"@
        } else if e == "xml"@ {
            "application/xml"@
        } else if e == "gif"@ {
            "image/gif"@
        } else if e == "jpeg"@ || e == "jpg"@ {
            "image/jpg"@
        } else if e == "png"@ {
            "image/png"@
        } else {
            "text/plain"@
        },
    }
}

fn last_index_of(p: &Vec<char>, end: usize, c: char) -> (r: Option<usize>)
    requires
        end <= p.len(),
    ensures
        match r {
            Some(k) => last_index(p@, end as int, c) == Some(k as int) && k < end,
            None => last_index(p@, end as int, c) is None,
        },
{
    proof {
        lemma_last_index(p@, end as int, c);
    }
    let mut e = end;
    while e > 0
        invariant
            e <= end <= p.len(),
            last_index(p@, end as int, c) == last_index(p@, e as int, c),
        decreases e,
    {
        if p[e - 1] == c {
            return Some(e - 1);
        }
        e = e - 1;
    }
    None
}

/// The extension of `path`, as `extension_of` describes.
pub fn extension(path: &str) -> (r: Option<String>)
    ensures
        match extension_of(path@) {
            Some(e) => r is Some && r->0@ == e,
            None => r is None,
        },
{
    let p = chars_of(path);
    let mut end = p.len();
    while end > 0 && p[end - 1] == '/'
        invariant
            end <= p.len(),
            p@ == path@,
            trim_slashes_end(p@, p@.len() as int) == trim_slashes_end(p@, end as int),
        decreases end,
    {
        end = end - 1;
    }
    proof {
        lemma_trim_slashes_end(p@, p@.len() as int);
    }
    let start = match last_index_of(&p, end, '/') {
        Some(k) => k + 1,
        None => 0,
    };
    let name = crate::text::string_of(&p, start, end);
    let n = chars_of(name.as_str());
    assert(name@ == file_name(path@));
    if name == "..".to_string() {
        return None;
    }
    match last_index_of(&n, n.len(), '.') {
        Some(k) => if k == 0 {
            None
        } else {
            Some(crate::text::string_of(&n, k + 1, n.len()))
        },
        None => None,
    }
}

/// The media type served for `path`.
pub fn content_type(path: &str) -> (r: &'static str)
    ensures
        r@ == content_type_of(extension_of(path@)),
{
    match extension(path) {
        None => "text/html",
        Some(e) => {
            if e == "html".to_string() || e == "htm".to_string() {
                "text/html"
            } else if e == "css".to_string() {
                "text/css"
            } else if e == "js".to_string() {
                "text/javascript"
            } else if e == "pdf".to_string() {
                "application/pdf"
            } else if e == "json".to_string() {
                "application/json"
            } else if e == "xml".to_string() {
                "application/xml"
            } else if e == "gif".to_string() {
                "image/gif"
            } else if e == "jpeg".to_string() || e == "jpg".to_string() {
                "image/jpg"
            } else if e == "png".to_string() {
                "image/png"
            } else {
                "text/plain"
            }
        },
    }
}

/// A server of the files under a root directory.
pub struct FileServer {
    root: String,
}

impl FileServer {
    pub closed spec fn spec_root(&self) -> Seq<char> {
        self.root@
    }

    /// A server of the files under `root`; `root_is_dir` tells whether that directory
    /// exists. Fails with `DirNotFound`, naming the root, when it does not.
    pub fn new(root: &str, root_is_dir: bool) -> (r: Result<FileServer, Error>)
        ensures
            root_is_dir ==> r is Ok && r->Ok_0.spec_root() == root@,
            !root_is_dir ==> r is Err && r->Err_0.spec_kind() == ErrorKind::DirNotFound
                && r->Err_0.spec_msg() == root@,
    {
        if !root_is_dir {
            return Err(Error::new(ErrorKind::DirNotFound, root));
        }
        Ok(FileServer { root: root.to_string() })
    }

    /// The directory the files are served from.
    pub fn root(&self) -> (r: &str)
        ensures
            r@ == self.spec_root(),
    {
        self.root.as_str()
    }

    /// The answer owed to a request before any file is looked at: `505` for a version
    /// other than `HTTP/1.1`, `405` for a method other than `GET`; `None` when the file
    /// should be looked up.
    pub fn check_request(&self, req: &HttpRequest) -> (r: Option<HttpResponse>)
        ensures
            req.version@ != "HTTP/1.1"@ ==> r is Some && r->0.spec_status() == HttpStatus::HTTPVersionNotSupported
                && r->0.spec_headers() == seq![("Content-Length"@, "0"@)] && r->0.spec_body() is None,
            req.version@ == "HTTP/1.1"@ && req.method != HttpMethod::GET ==> r is Some
                && r->0.spec_status() == HttpStatus::MethodNotAllowed,
            req.version@ == "HTTP/1.1"@ && req.method == HttpMethod::GET ==> r is None,
    {
        if req.version != "HTTP/1.1".to_string() {
            return Some(HttpResponse::new_empty(HttpStatus::HTTPVersionNotSupported));
        }
        match req.method {
            HttpMethod::GET => None,
        }
    }

    /// The answer to a request for `path` whose file holds `contents`, or that was not
    /// found: `200` with the file and its media type, or `404` that closes the connection.
    pub fn file_response(&self, path: &str, contents: Option<Vec<u8>>) -> (r: HttpResponse)
        ensures
            r.spec_version() == "HTTP/1.1"@,
            match contents {
                Some(c) => r.spec_status() == HttpStatus::OK && r.spec_body() == Some(c@)
                    && r.spec_headers() == with_header(
                        seq![("Content-Length"@, decimal(c@.len()))],
                        "Content-Type"@,
                        content_type_of(extension_of(path@)),
                    ),
                None => r.spec_status() == HttpStatus::NotFound && r.spec_body() is None
                    && r.spec_headers() == with_header(seq![("Content-Length"@, "0"@)], "Connection"@, "close"@),
            },
    {
        let ty = content_type(path);
        match contents {
            Some(c) => HttpResponse::new(HttpStatus::OK, c).add_header("Content-Type", ty),
            None => HttpResponse::new_empty(HttpStatus::NotFound).add_header("Connection", "close"),
        }
    }
}

/// Something that answers requests.
pub trait Responder {
    fn respond(&self, req: HttpRequest) -> HttpResponse;
}

} // verus!
