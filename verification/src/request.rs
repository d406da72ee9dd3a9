//! The request model and its parser: one bounded byte window in, one
//! structured request out, or the first failure met, in a fixed order.
use vstd::prelude::*;
use vstd::utf8::valid_utf8;

use crate::bytes::{
    colon_sp, colon_sp_bytes, crlf, crlf_bytes, crlfcrlf, crlfcrlf_bytes, find_first,
    lemma_find_from, matches_at, scan_non_ws, scan_ws, skip_non_ws, skip_ws, spec_find, to_vec,
};
use crate::errors::ParseError;
use crate::headers::{spec_insert, HeaderMap};
use crate::method::{method_of_token, Method};
use crate::utf8check::check_utf8;

verus! {

/// The mathematical content of a request.
#[verifier::ext_equal]
pub struct RequestView {
    pub method: Method,
    pub path: Seq<u8>,
    pub headers: Seq<(Seq<u8>, Seq<u8>)>,
    pub body: Seq<u8>,
}

/// A parsed request: one method, one path taken verbatim, the header
/// mapping, and the raw remainder of the window as the body.
#[derive(Debug)]
pub struct Request {
    pub method: Method,
    pub path: Vec<u8>,
    pub headers: HeaderMap,
    pub body: Vec<u8>,
}

impl View for Request {
    type V = RequestView;

    open spec fn view(&self) -> RequestView {
        RequestView {
            method: self.method,
            path: self.path@,
            headers: self.headers@,
            body: self.body@,
        }
    }
}

/// Folds the header lines of `region` over the accumulated entries:
/// each line up to the next terminator splits once on `": "`, and a line
/// without the separator stops everything with `MalformedHeaderLine`.
pub open spec fn spec_headers_from(region: Seq<u8>, acc: Seq<(Seq<u8>, Seq<u8>)>) -> Result<
    Seq<(Seq<u8>, Seq<u8>)>,
    ParseError,
>
    decreases region.len(),
    via spec_headers_from_dec
{
    if region.len() == 0 {
        Ok(acc)
    } else {
        let line = match spec_find(region, crlf()) {
            Some(k) => region.subrange(0, k),
            None => region,
        };
        let rest = match spec_find(region, crlf()) {
            Some(k) => region.subrange(k + 2, region.len() as int),
            None => Seq::<u8>::empty(),
        };
        match spec_find(line, colon_sp()) {
            None => Err(ParseError::MalformedHeaderLine),
            Some(k2) => spec_headers_from(
                rest,
                spec_insert(acc, line.subrange(0, k2), line.subrange(k2 + 2, line.len() as int)),
            ),
        }
    }
}

#[via_fn]
proof fn spec_headers_from_dec(region: Seq<u8>, acc: Seq<(Seq<u8>, Seq<u8>)>) {
    if region.len() > 0 {
        lemma_find_from(region, crlf(), 0);
    }
}

/// What one byte window parses to: the checks run in a fixed order and the
/// first violated expectation names the error.
pub open spec fn spec_parse(w: Seq<u8>) -> Result<RequestView, ParseError> {
    if !valid_utf8(w) {
        Err(ParseError::EncodingError)
    } else {
        match spec_find(w, crlf()) {
            None => Err(ParseError::MalformedRequestLine),
            Some(r) => {
                let line = w.subrange(0, r);
                let a = skip_ws(line, 0);
                if a >= line.len() {
                    Err(ParseError::MalformedRequestLine)
                } else {
                    let b = skip_non_ws(line, a);
                    match method_of_token(line.subrange(a, b)) {
                        None => Err(ParseError::InvalidMethod),
                        Some(m) => {
                            let c = skip_ws(line, b);
                            if c >= line.len() {
                                Err(ParseError::MalformedRequestLine)
                            } else {
                                let d = skip_non_ws(line, c);
                                match spec_find(w, crlfcrlf()) {
                                    None => Err(ParseError::MalformedHeaders),
                                    Some(h) => {
                                        let region = if h == r {
                                            Seq::<u8>::empty()
                                        } else {
                                            w.subrange(r + 2, h)
                                        };
                                        match spec_headers_from(region, Seq::empty()) {
                                            Err(e) => Err(e),
                                            Ok(entries) => Ok(
                                                RequestView {
                                                    method: m,
                                                    path: line.subrange(c, d),
                                                    headers: entries,
                                                    body: w.subrange(h + 4, w.len() as int),
                                                },
                                            ),
                                        }
                                    },
                                }
                            }
                        },
                    }
                }
            },
        }
    }
}

/// The view of a parse outcome.
pub open spec fn parse_result_view(r: Result<Request, ParseError>) -> Result<
    RequestView,
    ParseError,
> {
    match r {
        Ok(q) => Ok(q@),
        Err(e) => Err(e),
    }
}

/// The blank-line marker stands at the request line's own terminator or at
/// least a full line beyond it.
proof fn lemma_marker_after_line(w: Seq<u8>, r: int, h: int)
    requires
        spec_find(w, crlf()) == Some(r),
        spec_find(w, crlfcrlf()) == Some(h),
    ensures
        0 <= r,
        r + 2 <= w.len(),
        h + 4 <= w.len(),
        h == r || r + 2 <= h,
{
    lemma_find_from(w, crlf(), 0);
    lemma_find_from(w, crlfcrlf(), 0);
    assert(matches_at(w, crlf(), h)) by {
        assert(w[h + 0] == crlfcrlf()[0]);
        assert(w[h + 1] == crlfcrlf()[1]);
    }
    if h < r {
        assert(!matches_at(w, crlf(), h));
    }
    if h == r + 1 {
        assert(w[r + 1] == crlf()[1]);
        assert(w[h + 0] == crlfcrlf()[0]);
    }
}

impl Request {
    /// An empty request: GET, empty path, no headers, empty body.
    pub fn new() -> (r: Request)
        ensures
            r@ == (RequestView {
                method: Method::GET,
                path: Seq::<u8>::empty(),
                headers: Seq::<(Seq<u8>, Seq<u8>)>::empty(),
                body: Seq::<u8>::empty(),
            }),
    {
        let r = Request {
            method: Method::GET,
            path: Vec::new(),
            headers: HeaderMap::new(),
            body: Vec::new(),
        };
        assert(r@ =~= (RequestView {
            method: Method::GET,
            path: Seq::<u8>::empty(),
            headers: Seq::<(Seq<u8>, Seq<u8>)>::empty(),
            body: Seq::<u8>::empty(),
        }));
        r
    }

    /// Parses one bounded read window, exactly as `spec_parse` describes it.
    #[verifier::loop_isolation(false)]
    pub fn parse(window: &[u8]) -> (r: Result<Request, ParseError>)
        ensures
            parse_result_view(r) == spec_parse(window@),
    {
        if !check_utf8(window) {
            return Err(ParseError::EncodingError);
        }
        let crlf_v = crlf_bytes();
        let r_idx = match find_first(window, crlf_v.as_slice()) {
            None => {
                return Err(ParseError::MalformedRequestLine);
            },
            Some(r_idx) => r_idx,
        };
        proof {
            lemma_find_from(window@, crlf(), 0);
        }
        let line: &[u8] = &window[0..r_idx];
        let a = scan_ws(line, 0);
        if a == line.len() {
            return Err(ParseError::MalformedRequestLine);
        }
        let b = scan_non_ws(line, a);
        let m = match Method::from_str(&line[a..b]) {
            Err(e) => {
                return Err(e);
            },
            Ok(m) => m,
        };
        let c = scan_ws(line, b);
        if c == line.len() {
            return Err(ParseError::MalformedRequestLine);
        }
        let d = scan_non_ws(line, c);
        let path = to_vec(&line[c..d]);
        let crlf2_v = crlfcrlf_bytes();
        let h_idx = match find_first(window, crlf2_v.as_slice()) {
            None => {
                return Err(ParseError::MalformedHeaders);
            },
            Some(h_idx) => h_idx,
        };
        proof {
            lemma_marker_after_line(window@, r_idx as int, h_idx as int);
        }
        let region: &[u8] = if h_idx == r_idx {
            &window[0..0]
        } else {
            &window[r_idx + 2..h_idx]
        };
        let ghost region_view = if h_idx == r_idx {
            Seq::<u8>::empty()
        } else {
            window@.subrange(r_idx + 2, h_idx as int)
        };
        assert(region@ =~= region_view);
        let mut headers = HeaderMap::new();
        let mut rest: &[u8] = region;
        loop
            invariant
                spec_headers_from(region_view, Seq::empty()) == spec_headers_from(
                    rest@,
                    headers@,
                ),
            decreases rest@.len(),
        {
            if rest.len() == 0 {
                break ;
            }
            let crlf_l = crlf_bytes();
            let found = find_first(rest, crlf_l.as_slice());
            proof {
                if found is Some {
                    lemma_find_from(rest@, crlf(), 0);
                }
            }
            let line_h: &[u8] = match found {
                Some(k) => &rest[0..k],
                None => rest,
            };
            let next_rest: &[u8] = match found {
                Some(k) => &rest[k + 2..rest.len()],
                None => &rest[0..0],
            };
            let ghost spec_line = match spec_find(rest@, crlf()) {
                Some(k) => rest@.subrange(0, k),
                None => rest@,
            };
            let ghost spec_rest = match spec_find(rest@, crlf()) {
                Some(k) => rest@.subrange(k + 2, rest@.len() as int),
                None => Seq::<u8>::empty(),
            };
            assert(line_h@ == spec_line);
            assert(next_rest@ =~= spec_rest);
            let cs = colon_sp_bytes();
            match find_first(line_h, cs.as_slice()) {
                None => {
                    assert(spec_headers_from(rest@, headers@) == Err::<
                        Seq<(Seq<u8>, Seq<u8>)>,
                        ParseError,
                    >(ParseError::MalformedHeaderLine));
                    return Err(ParseError::MalformedHeaderLine);
                },
                Some(k2) => {
                    proof {
                        lemma_find_from(line_h@, colon_sp(), 0);
                    }
                    let ghost h_before = headers@;
                    let ghost rest_before = rest@;
                    let nm = to_vec(&line_h[0..k2]);
                    let val = to_vec(&line_h[k2 + 2..line_h.len()]);
                    headers.insert(nm, val);
                    assert(spec_headers_from(rest_before, h_before) == spec_headers_from(
                        spec_rest,
                        headers@,
                    ));
                },
            }
            rest = next_rest;
        }
        proof {
            lemma_marker_after_line(window@, r_idx as int, h_idx as int);
        }
        let wn = window.len();
        let body = to_vec(&window[h_idx + 4..wn]);
        let req = Request { method: m, path, headers, body };
        proof {
            let specres = spec_parse(window@);
            assert(specres is Ok);
            assert(req@ =~= specres->Ok_0);
        }
        Ok(req)
    }
}

} // verus!
