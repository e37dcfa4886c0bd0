//! Parsing HTTP requests from their text.

use vstd::prelude::*;
use crate::http::error::{Error, ErrorKind};
use crate::http::http_header::{HttpHeaders, headers_text};
use crate::http::response::with_header;
use crate::parser::block::is_white_space;
use crate::text::{chars_of, string_of};

verus! {

/// The request methods the server supports.
#[derive(Debug, Clone, Copy, PartialEq, Eq, Structural)]
pub enum HttpMethod {
    GET,
}

impl HttpMethod {
    /// The method named `value`, or an `UnsupportedHttpMethod` error carrying the name.
    pub fn from_name(value: &str) -> (r: Result<HttpMethod, Error>)
        ensures
            value@ == "GET"@ ==> r == Ok::<HttpMethod, Error>(HttpMethod::GET),
            value@ != "GET"@ ==> r is Err && r->Err_0.spec_kind() == ErrorKind::UnsupportedHttpMethod
                && r->Err_0.spec_msg() == value@,
    {
        if value.to_string() == "GET".to_string() {
            Ok(HttpMethod::GET)
        } else {
            Err(Error::new(ErrorKind::UnsupportedHttpMethod, value))
        }
    }

    /// The name of the method, as it is written in a request.
    pub fn name(&self) -> (r: &'static str)
        ensures
            r@ == "GET"@,
    {
        "GET"
    }
}

/// The index of the first `"\r\n"` at or after `i` in `s`.
pub open spec fn find_crlf(s: Seq<char>, i: int) -> Option<int>
    decreases s.len() - i,
{
    if i < 0 || i + 1 >= s.len() {
        None
    } else if s[i] == '\r' && s[i + 1] == '\n' {
        Some(i)
    } else {
        find_crlf(s, i + 1)
    }
}

pub proof fn lemma_find_crlf(s: Seq<char>, i: int)
    requires
        0 <= i,
    ensures
        match find_crlf(s, i) {
            Some(k) => i <= k && k + 1 < s.len() && s[k] == '\r' && s[k + 1] == '\n',
            None => true,
        },
    decreases s.len() - i,
{
    if i + 1 < s.len() && !(s[i] == '\r' && s[i + 1] == '\n') {
        lemma_find_crlf(s, i + 1);
    }
}

/// The bounds of the pieces of `s` from `start` on, split at each `"\r\n"`.
pub open spec fn crlf_bounds(s: Seq<char>, start: int) -> Seq<(int, int)>
    decreases s.len() + 1 - start,
{
    if start < 0 || start > s.len() {
        Seq::empty()
    } else {
        match find_crlf(s, start) {
            None => seq![(start, s.len() as int)],
            Some(k) => {
                proof {
                    lemma_find_crlf(s, start);
                }
                seq![(start, k)] + crlf_bounds(s, k + 2)
            },
        }
    }
}

/// The first index at or after `i`, and before `hi`, of a character that is not white space.
pub open spec fn skip_space(s: Seq<char>, i: int, hi: int) -> int
    decreases hi - i,
{
    if 0 <= i < hi && is_white_space(s[i]) {
        skip_space(s, i + 1, hi)
    } else {
        i
    }
}

/// The first index at or after `i`, and before `hi`, of a white space character.
pub open spec fn word_end(s: Seq<char>, i: int, hi: int) -> int
    decreases hi - i,
{
    if 0 <= i < hi && !is_white_space(s[i]) {
        word_end(s, i + 1, hi)
    } else {
        i
    }
}

pub proof fn lemma_skip_space(s: Seq<char>, i: int, hi: int)
    requires
        0 <= i <= hi,
    ensures
        i <= skip_space(s, i, hi) <= hi,
        skip_space(s, i, hi) < hi ==> !is_white_space(s[skip_space(s, i, hi)]),
    decreases hi - i,
{
    if i < hi && is_white_space(s[i]) {
        lemma_skip_space(s, i + 1, hi);
    }
}

pub proof fn lemma_word_end(s: Seq<char>, i: int, hi: int)
    requires
        0 <= i <= hi,
    ensures
        i <= word_end(s, i, hi) <= hi,
        i < hi && !is_white_space(s[i]) ==> i < word_end(s, i, hi),
    decreases hi - i,
{
    if i < hi && !is_white_space(s[i]) {
        lemma_word_end(s, i + 1, hi);
    }
}

/// The bounds of the words of `s[i..hi]`: the maximal runs of characters that are not
/// white space.
pub open spec fn word_bounds(s: Seq<char>, i: int, hi: int) -> Seq<(int, int)>
    decreases hi - i,
{
    if i < 0 || i >= hi {
        Seq::empty()
    } else {
        proof {
            lemma_skip_space(s, i, hi);
        }
        let j = skip_space(s, i, hi);
        if j >= hi {
            Seq::empty()
        } else {
            proof {
                lemma_word_end(s, j, hi);
            }
            let e = word_end(s, j, hi);
            seq![(j, e)] + word_bounds(s, e, hi)
        }
    }
}

/// The index of the first `": "` within `s[i..hi]`.
pub open spec fn find_colon_space(s: Seq<char>, i: int, hi: int) -> Option<int>
    decreases hi - i,
{
    if i < 0 || i + 1 >= hi {
        None
    } else if s[i] == ':' && s[i + 1] == ' ' {
        Some(i)
    } else {
        find_colon_space(s, i + 1, hi)
    }
}

/// The headers set by the lines `1..n` of a request: each line holding `": "` sets the
/// name before its first `": "` to the value after it.
pub open spec fn request_headers(s: Seq<char>, lines: Seq<(int, int)>, n: int) -> Seq<(Seq<char>, Seq<char>)>
    decreases n,
{
    if n <= 1 {
        Seq::empty()
    } else {
        let e = request_headers(s, lines, n - 1);
        let (a, b) = lines[n - 1];
        match find_colon_space(s, a, b) {
            Some(k) => with_header(e, s.subrange(a, k), s.subrange(k + 2, b)),
            None => e,
        }
    }
}

/// `p` without its leading `/` characters.
pub open spec fn strip_slashes(p: Seq<char>) -> Seq<char>
    decreases p.len(),
{
    if p.len() > 0 && p[0] == '/' {
        strip_slashes(p.drop_first())
    } else {
        p
    }
}

/// What a parsed request holds: its path, its version and its headers.
pub struct RequestModel {
    pub path: Seq<char>,
    pub version: Seq<char>,
    pub headers: Seq<(Seq<char>, Seq<char>)>,
}

/// The result of reading the request line `s[lo..hi]`: its path (without leading `/`)
/// and version, or the kind and message of the error.
pub open spec fn request_line_spec(s: Seq<char>, lo: int, hi: int) -> Result<(Seq<char>, Seq<char>), (ErrorKind, Seq<char>)> {
    let words = word_bounds(s, lo, hi);
    if words.len() == 0 {
        Err((ErrorKind::RequestParse, "expected request method"@))
    } else if s.subrange(words[0].0, words[0].1) != "GET"@ {
        Err((ErrorKind::UnsupportedHttpMethod, s.subrange(words[0].0, words[0].1)))
    } else if words.len() < 2 {
        Err((ErrorKind::RequestParse, "expected request path"@))
    } else if words.len() < 3 {
        Err((ErrorKind::RequestParse, "expected request version"@))
    } else {
        Ok((strip_slashes(s.subrange(words[1].0, words[1].1)), s.subrange(words[2].0, words[2].1)))
    }
}

/// The result of parsing the text `s` of a request: the request, or the kind and
/// message of the error.
pub open spec fn request_spec(s: Seq<char>) -> Result<RequestModel, (ErrorKind, Seq<char>)> {
    let lines = crlf_bounds(s, 0);
    match request_line_spec(s, lines[0].0, lines[0].1) {
        Err(e) => Err(e),
        Ok(pv) => Ok(
            RequestModel { path: pv.0, version: pv.1, headers: request_headers(s, lines, lines.len() as int) },
        ),
    }
}

/// A request. The path is relative: the leading `/` characters are removed.
#[derive(Debug)]
pub struct HttpRequest {
    pub method: HttpMethod,
    pub path: String,
    pub version: String,
    pub headers: HttpHeaders,
}

/// The bounds as integers.
pub open spec fn bounds_view(v: Seq<(usize, usize)>) -> Seq<(int, int)> {
    v.map_values(|p: (usize, usize)| (p.0 as int, p.1 as int))
}

/// The bounds of the pieces of `v`, split at each `"\r\n"`.
fn crlf_pieces(v: &Vec<char>) -> (r: Vec<(usize, usize)>)
    ensures
        bounds_view(r@) == crlf_bounds(v@, 0),
        r@.len() >= 1,
        forall|m: int| 0 <= m < r@.len() ==> (#[trigger] r@[m]).0 <= r@[m].1 <= v@.len(),
{
    let ghost s = v@;
    let mut out: Vec<(usize, usize)> = Vec::new();
    let mut start: usize = 0;
    let mut i: usize = 0;
    while i < v.len() && i + 1 < v.len()
        invariant
            s == v@,
            start <= i <= v.len(),
            start <= s.len(),
            find_crlf(s, start as int) == find_crlf(s, i as int),
            crlf_bounds(s, 0) == bounds_view(out@) + crlf_bounds(s, start as int),
            forall|m: int| 0 <= m < out@.len() ==> (#[trigger] out@[m]).0 <= out@[m].1 <= v@.len(),
        decreases v.len() - i,
    {
        if v[i] == '\r' && v[i + 1] == '\n' {
            proof {
                assert(crlf_bounds(s, start as int) == seq![(start as int, i as int)] + crlf_bounds(s, i + 2));
                assert(bounds_view(out@.push((start, i))) =~= bounds_view(out@).push((start as int, i as int)));
                assert(bounds_view(out@) + (seq![(start as int, i as int)] + crlf_bounds(s, i + 2)) =~= bounds_view(out@).push((start as int, i as int)) + crlf_bounds(s, i + 2));
            }
            out.push((start, i));
            start = i + 2;
            i = i + 2;
        } else {
            i = i + 1;
        }
    }
    proof {
        assert(find_crlf(s, i as int) is None);
        assert(crlf_bounds(s, start as int) == seq![(start as int, s.len() as int)]);
        assert(bounds_view(out@.push((start, v.len()))) =~= bounds_view(out@) + seq![(start as int, s.len() as int)]);
    }
    out.push((start, v.len()));
    out
}

/// The bounds of the words of `v[lo..hi]`.
fn words_in(v: &Vec<char>, lo: usize, hi: usize) -> (r: Vec<(usize, usize)>)
    requires
        lo <= hi <= v.len(),
    ensures
        bounds_view(r@) == word_bounds(v@, lo as int, hi as int),
        forall|m: int| 0 <= m < r@.len() ==> lo <= (#[trigger] r@[m]).0 <= r@[m].1 <= hi,
{
    let ghost s = v@;
    let mut out: Vec<(usize, usize)> = Vec::new();
    let mut i: usize = lo;
    loop
        invariant
            s == v@,
            lo <= i <= hi <= v.len(),
            word_bounds(s, lo as int, hi as int) == bounds_view(out@) + word_bounds(s, i as int, hi as int),
            forall|m: int| 0 <= m < out@.len() ==> lo <= (#[trigger] out@[m]).0 <= out@[m].1 <= hi,
        decreases hi - i,
    {
        let mut j = i;
        while j < hi && is_white_space_char(v[j])
            invariant
                i <= j <= hi <= v.len(),
                skip_space(s, i as int, hi as int) == skip_space(s, j as int, hi as int),
                s == v@,
            decreases hi - j,
        {
            j = j + 1;
        }
        if j >= hi {
            assert(bounds_view(out@) + Seq::<(int, int)>::empty() =~= bounds_view(out@));
            return out;
        }
        let mut e = j;
        while e < hi && !is_white_space_char(v[e])
            invariant
                j <= e <= hi <= v.len(),
                word_end(s, j as int, hi as int) == word_end(s, e as int, hi as int),
                s == v@,
            decreases hi - e,
        {
            e = e + 1;
        }
        proof {
            lemma_word_end(s, j as int, hi as int);
            assert(word_bounds(s, i as int, hi as int) == seq![(j as int, e as int)] + word_bounds(s, e as int, hi as int));
            assert(bounds_view(out@.push((j, e))) =~= bounds_view(out@).push((j as int, e as int)));
            assert(bounds_view(out@) + (seq![(j as int, e as int)] + word_bounds(s, e as int, hi as int)) =~= bounds_view(out@).push((j as int, e as int)) + word_bounds(s, e as int, hi as int));
        }
        out.push((j, e));
        i = e;
    }
}

fn is_white_space_char(c: char) -> (r: bool)
    ensures
        r == is_white_space(c),
{
    let u = c as u32;
    (0x9 <= u && u <= 0xd) || u == 0x20 || u == 0x85 || u == 0xa0 || u == 0x1680 || (0x2000 <= u
        && u <= 0x200a) || u == 0x2028 || u == 0x2029 || u == 0x202f || u == 0x205f || u == 0x3000
}

/// The index of the first `": "` within `v[lo..hi]`.
fn colon_space_in(v: &Vec<char>, lo: usize, hi: usize) -> (r: Option<usize>)
    requires
        lo <= hi <= v.len(),
    ensures
        match find_colon_space(v@, lo as int, hi as int) {
            Some(k) => r == Some(k as usize) && lo <= k && k + 2 <= hi,
            None => r is None,
        },
{
    let mut i = lo;
    while i < hi && i + 1 < hi
        invariant
            lo <= i <= hi <= v.len(),
            find_colon_space(v@, lo as int, hi as int) == find_colon_space(v@, i as int, hi as int),
        decreases hi - i,
    {
        if v[i] == ':' && v[i + 1] == ' ' {
            return Some(i);
        }
        i = i + 1;
    }
    None
}

/// Reads the request line `v[lo..hi]`: its method, path and version.
fn request_line(v: &Vec<char>, lo: usize, hi: usize) -> (r: Result<(HttpMethod, String, String), Error>)
    requires
        lo <= hi <= v.len(),
    ensures
        match r {
            Ok(t) => request_line_spec(v@, lo as int, hi as int) == Ok::<_, (ErrorKind, Seq<char>)>((t.1@, t.2@))
                && t.0 == HttpMethod::GET,
            Err(e) => request_line_spec(v@, lo as int, hi as int) == Err::<(Seq<char>, Seq<char>), _>(
                (e.spec_kind(), e.spec_msg()),
            ),
        },
{
    let words = words_in(v, lo, hi);
    if words.len() == 0 {
        return Err(Error::new(ErrorKind::RequestParse, "expected request method"));
    }
    let (a, b) = words[0];
    let name = string_of(v, a, b);
    let method = match HttpMethod::from_name(name.as_str()) {
        Ok(m) => m,
        Err(e) => return Err(e),
    };
    if words.len() < 2 {
        return Err(Error::new(ErrorKind::RequestParse, "expected request path"));
    }
    if words.len() < 3 {
        return Err(Error::new(ErrorKind::RequestParse, "expected request version"));
    }
    let (pa, pb) = words[1];
    let mut ps = pa;
    while ps < pb && v[ps] == '/'
        invariant
            pa <= ps <= pb <= v.len(),
            strip_slashes(v@.subrange(pa as int, pb as int)) == strip_slashes(v@.subrange(ps as int, pb as int)),
        decreases pb - ps,
    {
        assert(v@.subrange(ps as int, pb as int).drop_first() =~= v@.subrange(ps + 1, pb as int));
        ps = ps + 1;
    }
    assert(ps < pb ==> v@.subrange(ps as int, pb as int)[0] != '/');
    let path = string_of(v, ps, pb);
    let (va, vb) = words[2];
    let version = string_of(v, va, vb);
    Ok((method, path, version))
}

impl HttpRequest {
    /// Starts a request from its request line `<method> <path> <version>`, as it is
    /// read from a connection (its line ending is white space and is ignored); the
    /// headers are added line by line with `add_header_line`.
    pub fn from_request_line(line: &str) -> (r: Result<HttpRequest, Error>)
        ensures
            match r {
                Ok(req) => request_line_spec(line@, 0, line@.len() as int) == Ok::<_, (ErrorKind, Seq<char>)>(
                    (req.path@, req.version@),
                ) && req.method == HttpMethod::GET && req.headers.entries().len() == 0,
                Err(e) => request_line_spec(line@, 0, line@.len() as int) == Err::<(Seq<char>, Seq<char>), _>(
                    (e.spec_kind(), e.spec_msg()),
                ),
            },
    {
        let v = chars_of(line);
        match request_line(&v, 0, v.len()) {
            Ok((method, path, version)) => Ok(HttpRequest { method, path, version, headers: HttpHeaders::new() }),
            Err(e) => Err(e),
        }
    }

    /// Takes one header line as read from a connection, line ending included. Returns
    /// `false`, changing nothing, for the line that ends the headers (`"\r\n"`, or
    /// nothing at the end of the input); otherwise a line holding `": "` sets the name
    /// before its first `": "` to the rest of the line, and `true` is returned.
    pub fn add_header_line(&mut self, line: &str) -> (r: bool)
        ensures
            r == !(line@ == "\r\n"@ || line@.len() == 0),
            final(self).method == old(self).method,
            final(self).path == old(self).path,
            final(self).version == old(self).version,
            !r ==> final(self).headers.entries() == old(self).headers.entries(),
            r ==> final(self).headers.entries() == match find_colon_space(line@, 0, line@.len() as int) {
                Some(k) => with_header(
                    old(self).headers.entries(),
                    line@.subrange(0, k),
                    line@.subrange(k + 2, line@.len() as int),
                ),
                None => old(self).headers.entries(),
            },
    {
        if line.to_string() == "\r\n".to_string() || line.is_empty() {
            return false;
        }
        let v = chars_of(line);
        match colon_space_in(&v, 0, v.len()) {
            Some(k) => {
                let key = string_of(&v, 0, k);
                let value = string_of(&v, k + 2, v.len());
                self.headers.add(key.as_str(), value.as_str());
            },
            None => {},
        }
        true
    }

    /// The request as text for a reader: `<method> <path> <version>`, a line end, then
    /// the headers.
    pub fn to_text(&self) -> (r: String)
        ensures
            r@ == "GET"@ + " "@ + self.path@ + " "@ + self.version@ + "\n"@ + headers_text(self.headers.entries()),
    {
        let mut r = self.method.name().to_string();
        r.append(" ");
        r.append(self.path.as_str());
        r.append(" ");
        r.append(self.version.as_str());
        r.append("\n");
        r.append(self.headers.to_text().as_str());
        r
    }

    /// Parses the text of a request: a request line `<method> <path> <version>`, then
    /// header lines `<name>: <value>`, separated by `"\r\n"`. Lines without `": "` are
    /// ignored.
    pub fn parse(s: &str) -> (r: Result<HttpRequest, Error>)
        ensures
            match r {
                Ok(req) => request_spec(s@) == Ok::<RequestModel, (ErrorKind, Seq<char>)>(
                    RequestModel { path: req.path@, version: req.version@, headers: req.headers.entries() },
                ) && req.method == HttpMethod::GET,
                Err(e) => request_spec(s@) == Err::<RequestModel, (ErrorKind, Seq<char>)>((e.spec_kind(), e.spec_msg())),
            },
    {
        let v = chars_of(s);
        let lines = crlf_pieces(&v);
        let (lo, hi) = lines[0];
        let (method, path, version) = match request_line(&v, lo, hi) {
            Ok(t) => t,
            Err(e) => return Err(e),
        };
        let mut headers = HttpHeaders::new();
        let mut n: usize = 1;
        while n < lines.len()
            invariant
                1 <= n <= lines@.len(),
                bounds_view(lines@) == crlf_bounds(v@, 0),
                forall|m: int| 0 <= m < lines@.len() ==> (#[trigger] lines@[m]).0 <= lines@[m].1 <= v@.len(),
                headers.entries() == request_headers(v@, crlf_bounds(v@, 0), n as int),
            decreases lines.len() - n,
        {
            let (a, b) = lines[n];
            match colon_space_in(&v, a, b) {
                Some(k) => {
                    let key = string_of(&v, a, k);
                    let value = string_of(&v, k + 2, b);
                    headers.add(key.as_str(), value.as_str());
                },
                None => {},
            }
            n = n + 1;
        }
        Ok(HttpRequest { method, path, version, headers })
    }
}

} // verus!
