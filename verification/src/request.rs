//! The request parser: raw request bytes become a structured request with a
//! method, a path, headers and a body, or a parse error. The input is split on
//! CRLF into lines; line 0 is the start line, lines from index 2 up to the
//! first empty line are header lines, and the non-empty lines after that
//! boundary are body content with trailing NUL padding stripped.

use vstd::prelude::*;
use crate::bytes::{
    spec_split1, spec_split2, spec_trim_nul, split1, split2, subvec, trim_nul,
};

verus! {

/// Carriage return, the first byte of the CRLF line terminator.
pub const CR: u8 = 13;

/// Line feed, the second byte of the CRLF line terminator.
pub const LF: u8 = 10;

/// The space that separates the start-line tokens.
pub const SP: u8 = 32;

/// The colon of the `": "` separator inside a header line.
pub const COLON: u8 = 58;

/// A recognized request method.
#[derive(Clone, Copy, PartialEq, Eq, Structural, Debug)]
pub enum HTTPMethod {
    GET,
    POST,
}

/// The byte spelling of a method token.
pub open spec fn spec_method_token(m: HTTPMethod) -> Seq<u8> {
    match m {
        HTTPMethod::GET => seq![71u8, 69u8, 84u8],
        HTTPMethod::POST => seq![80u8, 79u8, 83u8, 84u8],
    }
}

/// The method a token denotes, if it denotes one.
pub open spec fn spec_method_of(token: Seq<u8>) -> Option<HTTPMethod> {
    if token == spec_method_token(HTTPMethod::GET) {
        Some(HTTPMethod::GET)
    } else if token == spec_method_token(HTTPMethod::POST) {
        Some(HTTPMethod::POST)
    } else {
        None
    }
}

impl HTTPMethod {
    /// Match a start-line token against the recognized methods.
    pub fn from_token(token: &Vec<u8>) -> (r: Result<HTTPMethod, ()>)
        ensures
            match r {
                Ok(m) => spec_method_of(token@) == Some(m),
                Err(_) => spec_method_of(token@) is None,
            },
    {
        if token.len() == 3 && token[0] == 71 && token[1] == 69 && token[2] == 84 {
            proof {
                assert(token@ =~= spec_method_token(HTTPMethod::GET));
            }
            Ok(HTTPMethod::GET)
        } else if token.len() == 4 && token[0] == 80 && token[1] == 79 && token[2] == 83
            && token[3] == 84 {
            proof {
                assert(token@ =~= spec_method_token(HTTPMethod::POST));
            }
            Ok(HTTPMethod::POST)
        } else {
            proof {
                if token@ == spec_method_token(HTTPMethod::GET) {
                    assert(token@.len() == 3 && token@[0] == 71 && token@[1] == 69 && token@[2]
                        == 84);
                }
                if token@ == spec_method_token(HTTPMethod::POST) {
                    assert(token@.len() == 4 && token@[0] == 80 && token@[1] == 79 && token@[2]
                        == 83 && token@[3] == 84);
                }
            }
            Err(())
        }
    }
}

/// Why a raw buffer failed to parse as a request.
#[derive(Clone, Copy, PartialEq, Eq, Structural, Debug)]
pub enum ParseError {
    /// Fewer than two CRLF-separated lines, or a start line that does not
    /// split into exactly three space-separated tokens.
    Malformed,
    /// The method token is not one of the recognized methods.
    UnknownMethod,
}

/// One header: a name and a value.
pub struct Header {
    pub name: Vec<u8>,
    pub value: Vec<u8>,
}

/// The mathematical shape of a header.
pub ghost struct HeaderView {
    pub name: Seq<u8>,
    pub value: Seq<u8>,
}

impl View for Header {
    type V = HeaderView;

    open spec fn view(&self) -> HeaderView {
        HeaderView { name: self.name@, value: self.value@ }
    }
}

impl DeepView for Header {
    type V = HeaderView;

    open spec fn deep_view(&self) -> HeaderView {
        self@
    }
}

/// A parsed request.
pub struct HTTPRequest {
    pub method: HTTPMethod,
    pub path: Vec<u8>,
    pub headers: Vec<Header>,
    pub body: Vec<u8>,
}

/// The mathematical shape of a request.
pub ghost struct RequestView {
    pub method: HTTPMethod,
    pub path: Seq<u8>,
    pub headers: Seq<HeaderView>,
    pub body: Seq<u8>,
}

impl View for HTTPRequest {
    type V = RequestView;

    open spec fn view(&self) -> RequestView {
        RequestView {
            method: self.method,
            path: self.path@,
            headers: self.headers.deep_view(),
            body: self.body@,
        }
    }
}

/// The value of the last header with the given name, if any: a later
/// occurrence of a duplicate name wins, as it would in a map filled in order.
pub open spec fn spec_lookup_header(hs: Seq<HeaderView>, name: Seq<u8>) -> Option<Seq<u8>>
    decreases hs.len(),
{
    if hs.len() == 0 {
        None
    } else if hs.last().name == name {
        Some(hs.last().value)
    } else {
        spec_lookup_header(hs.drop_last(), name)
    }
}

impl HTTPRequest {
    /// The value of the last header named `name`, copied out, if any.
    pub fn header(&self, name: &Vec<u8>) -> (r: Option<Vec<u8>>)
        ensures
            match r {
                Some(v) => spec_lookup_header(self@.headers, name@) == Some(v@),
                None => spec_lookup_header(self@.headers, name@) is None,
            },
    {
        let ghost hv = self@.headers;
        let mut i: usize = self.headers.len();
        proof {
            assert(hv.subrange(0, i as int) =~= hv);
        }
        while i > 0
            invariant
                0 <= i <= self.headers@.len(),
                hv == self@.headers,
                hv.len() == self.headers@.len(),
                spec_lookup_header(hv, name@) == spec_lookup_header(
                    hv.subrange(0, i as int),
                    name@,
                ),
            decreases i,
        {
            proof {
                assert(hv.subrange(0, i as int).last() == hv[i - 1]);
                assert(hv.subrange(0, i as int).drop_last() =~= hv.subrange(0, i - 1));
            }
            if crate::bytes::bytes_eq(&self.headers[i - 1].name, name) {
                let v = crate::bytes::copy_vec(&self.headers[i - 1].value);
                return Some(v);
            }
            i = i - 1;
        }
        proof {
            assert(hv.subrange(0, 0) =~= Seq::<HeaderView>::empty());
        }
        None
    }
}

/// The header a single header line contributes: a line that splits on `": "`
/// into exactly two parts yields that pair; any other line is skipped.
pub open spec fn spec_header_of_line(line: Seq<u8>) -> Seq<HeaderView> {
    let parts = spec_split2(line, COLON, SP);
    if parts.len() == 2 {
        seq![HeaderView { name: parts[0], value: parts[1] }]
    } else {
        Seq::empty()
    }
}

/// The headers contributed by the lines from index `i` up to the first empty
/// line (or the end); header lines begin at index 2 of the line list.
pub open spec fn spec_headers_from(lines: Seq<Seq<u8>>, i: int) -> Seq<HeaderView>
    decreases lines.len() - i,
{
    if i < 0 || i >= lines.len() {
        Seq::empty()
    } else if lines[i].len() == 0 {
        Seq::empty()
    } else {
        spec_header_of_line(lines[i]) + spec_headers_from(lines, i + 1)
    }
}

/// The index of the first empty line at or after `i`, or the number of lines
/// when there is none: the boundary between headers and body.
pub open spec fn spec_boundary_from(lines: Seq<Seq<u8>>, i: int) -> int
    decreases lines.len() - i,
{
    if i < 0 || i >= lines.len() {
        lines.len() as int
    } else if lines[i].len() == 0 {
        i
    } else {
        spec_boundary_from(lines, i + 1)
    }
}

/// The body: the non-empty lines from index `i` on, each with its trailing
/// NUL padding stripped, concatenated in order.
pub open spec fn spec_body_from(lines: Seq<Seq<u8>>, i: int) -> Seq<u8>
    decreases lines.len() - i,
{
    if i < 0 || i >= lines.len() {
        Seq::empty()
    } else if lines[i].len() == 0 {
        spec_body_from(lines, i + 1)
    } else {
        spec_trim_nul(lines[i]) + spec_body_from(lines, i + 1)
    }
}

/// What parsing a raw buffer yields. The buffer is split on CRLF into lines;
/// fewer than two lines is malformed, a start line without exactly three
/// space-separated tokens is malformed, an unrecognized method token is an
/// unknown method; otherwise the request's path is the second token, its
/// headers come from the lines between index 2 and the first empty line, and
/// its body from the non-empty lines after that boundary.
pub open spec fn spec_parse(raw: Seq<u8>) -> Result<RequestView, ParseError> {
    let lines = spec_split2(raw, CR, LF);
    if lines.len() < 2 {
        Err(ParseError::Malformed)
    } else {
        let start = spec_split1(lines[0], SP);
        if start.len() != 3 {
            Err(ParseError::Malformed)
        } else {
            match spec_method_of(start[0]) {
                None => Err(ParseError::UnknownMethod),
                Some(m) => Ok(
                    RequestView {
                        method: m,
                        path: start[1],
                        headers: spec_headers_from(lines, 2),
                        body: spec_body_from(lines, spec_boundary_from(lines, 2)),
                    },
                ),
            }
        }
    }
}

/// Parse a raw request buffer into a structured request, as `spec_parse`
/// describes, never panicking on any input.
pub fn parse_request_str(raw: &Vec<u8>) -> (r: Result<HTTPRequest, ParseError>)
    ensures
        match r {
            Ok(req) => spec_parse(raw@) == Ok::<RequestView, ParseError>(req@),
            Err(e) => spec_parse(raw@) == Err::<RequestView, ParseError>(e),
        },
{
    let lines = split2(raw, CR, LF);
    let ghost lv = lines.deep_view();
    if lines.len() < 2 {
        return Err(ParseError::Malformed);
    }
    let start = split1(&lines[0], SP);
    proof {
        assert(lines[0].deep_view() == lv[0]);
        assert(lines[0]@ =~= lv[0]);
    }
    if start.len() != 3 {
        return Err(ParseError::Malformed);
    }
    proof {
        assert(start[0].deep_view() == spec_split1(lv[0], SP)[0]);
        assert(start[0]@ =~= spec_split1(lv[0], SP)[0]);
        assert(start[1]@ =~= spec_split1(lv[0], SP)[1]);
    }
    let method = match HTTPMethod::from_token(&start[0]) {
        Ok(m) => m,
        Err(()) => {
            return Err(ParseError::UnknownMethod);
        },
    };
    let path = subvec(&start[1], 0, start[1].len());
    proof {
        assert(path@ =~= spec_split1(lv[0], SP)[1]);
    }

    let mut headers: Vec<Header> = Vec::new();
    let mut body: Vec<u8> = Vec::new();
    let mut in_body = false;
    let ghost mut boundary: int = 0;
    let mut i: usize = 2;
    while i < lines.len()
        invariant
            2 <= i <= lines@.len(),
            lv == lines.deep_view(),
            lv.len() == lines@.len(),
            !in_body ==> {
                &&& forall|j: int| 2 <= j < i ==> lv[j].len() != 0
                &&& headers.deep_view() + spec_headers_from(lv, i as int) == spec_headers_from(
                    lv,
                    2,
                )
                &&& body@.len() == 0
            },
            in_body ==> {
                &&& 2 <= boundary < i
                &&& spec_boundary_from(lv, 2) == boundary
                &&& headers.deep_view() == spec_headers_from(lv, 2)
                &&& body@ + spec_body_from(lv, i as int) == spec_body_from(lv, boundary)
            },
        decreases lines@.len() - i,
    {
        proof {
            assert(lines[i as int].deep_view() == lv[i as int]);
            assert(lines[i as int]@ =~= lv[i as int]);
        }
        if lines[i].len() == 0 {
            if !in_body {
                in_body = true;
                proof {
                    boundary = i as int;
                    lemma_boundary_here(lv, 2, i as int);
                }
            }
        } else if in_body {
            let mut piece = trim_nul(&lines[i]);
            body.append(&mut piece);
        } else {
            let parts = split2(&lines[i], COLON, SP);
            if parts.len() == 2 {
                let name = subvec(&parts[0], 0, parts[0].len());
                let value = subvec(&parts[1], 0, parts[1].len());
                proof {
                    assert(name@ =~= spec_split2(lv[i as int], COLON, SP)[0]);
                    assert(value@ =~= spec_split2(lv[i as int], COLON, SP)[1]);
                }
                let ghost old_headers = headers.deep_view();
                headers.push(Header { name, value });
                proof {
                    assert(headers.deep_view() =~= old_headers + spec_header_of_line(
                        lv[i as int],
                    ));
                }
            }
        }
        i = i + 1;
    }
    proof {
        assert(spec_headers_from(lv, lv.len() as int) =~= Seq::<HeaderView>::empty());
        assert(spec_body_from(lv, lv.len() as int) =~= Seq::<u8>::empty());
        if !in_body {
            lemma_boundary_none(lv, 2, i as int);
            assert(headers.deep_view() + Seq::<HeaderView>::empty() =~= headers.deep_view());
            assert(body@ =~= Seq::<u8>::empty());
        } else {
            assert(body@ + Seq::<u8>::empty() =~= body@);
        }
    }
    let request = HTTPRequest { method, path, headers, body };
    proof {
        assert(spec_parse(raw@) == Ok::<RequestView, ParseError>(request@));
    }
    Ok(request)
}

/// When every line in `[s, e)` is non-empty and line `e` is empty, `e` is the
/// header/body boundary counted from `s`.
proof fn lemma_boundary_here(lines: Seq<Seq<u8>>, s: int, e: int)
    requires
        0 <= s <= e < lines.len(),
        lines[e].len() == 0,
        forall|j: int| s <= j < e ==> lines[j].len() != 0,
    ensures
        spec_boundary_from(lines, s) == e,
    decreases e - s,
{
    if s < e {
        lemma_boundary_here(lines, s + 1, e);
    }
}

/// When every line in `[s, e)` is non-empty and `e` is the end of the lines,
/// the boundary counted from `s` is the end.
proof fn lemma_boundary_none(lines: Seq<Seq<u8>>, s: int, e: int)
    requires
        0 <= s <= e == lines.len(),
        forall|j: int| s <= j < e ==> lines[j].len() != 0,
    ensures
        spec_boundary_from(lines, s) == lines.len(),
    decreases e - s,
{
    if s < e {
        lemma_boundary_none(lines, s + 1, e);
    }
}

} // verus!
