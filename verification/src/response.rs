//! The response model, the builder that derives a response from a parsed
//! request, and the serializer that renders it to wire bytes.
use vstd::prelude::*;

use crate::bytes::{
    colon_sp, crlf, crlf_bytes, crlfcrlf, dec_rep, lemma_dec_rep_digits, lemma_find_from,
    lemma_find_is_first, matches_at, push_bytes, spec_find, u64_to_dec,
};
use crate::headers::{
    lemma_insert_missing, lemma_lookup_last, lemma_lookup_skip, spec_lookup, HeaderMap,
};
use crate::method::{implied_code, Method};
use crate::request::{Request, RequestView};
use crate::status::{is_registered, reason_of, HttpStatus};
use crate::text::{
    acao_name, acao_name_bytes, acma_name, acma_name_bytes, acrh_name, acrh_name_bytes, acrm_name,
    acrm_name_bytes, body_prefix, body_prefix_bytes, cl_name, cl_name_bytes, conn_content,
    conn_content_bytes, ct_name, ct_name_bytes, ct_value, ct_value_bytes, date_content,
    date_content_bytes, http_prefix, http_prefix_bytes, max_age, max_age_bytes, server_content,
    server_content_bytes, star, star_bytes,
};

verus! {

/// The mathematical content of a response.
#[verifier::ext_equal]
pub struct ResponseView {
    pub status: HttpStatus,
    pub headers: Seq<(Seq<u8>, Seq<u8>)>,
    pub body: Seq<u8>,
}

/// A response: status, header mapping, body.
#[derive(Debug)]
pub struct Response {
    pub status: HttpStatus,
    pub headers: HeaderMap,
    pub body: Vec<u8>,
}

impl View for Response {
    type V = ResponseView;

    open spec fn view(&self) -> ResponseView {
        ResponseView { status: self.status, headers: self.headers@, body: self.body@ }
    }
}

/// The body the builder gives every response: the fixed template echoing
/// the request path.
pub open spec fn built_body(req: RequestView) -> Seq<u8> {
    body_prefix() + req.path
}

/// The headers the builder sets: Content-Type and Content-Length always,
/// and the four fixed CORS headers exactly for a preflight.
pub open spec fn built_headers(req: RequestView) -> Seq<(Seq<u8>, Seq<u8>)> {
    let base = seq![
        (ct_name(), ct_value()),
        (cl_name(), dec_rep(built_body(req).len())),
    ];
    if req.method == Method::OPTIONS {
        base + seq![
            (acrm_name(), star()),
            (acrh_name(), star()),
            (acao_name(), star()),
            (acma_name(), max_age()),
        ]
    } else {
        base
    }
}

/// What the builder derives from a request: status from the method alone,
/// the template body, and the headers above.
pub open spec fn spec_build(req: RequestView) -> ResponseView {
    ResponseView {
        status: HttpStatus { code: implied_code(req.method) },
        headers: built_headers(req),
        body: built_body(req),
    }
}

/// One rendered header line, without its terminator.
pub open spec fn header_line(e: (Seq<u8>, Seq<u8>)) -> Seq<u8> {
    e.0 + colon_sp() + e.1
}

/// The status line, without its terminator.
pub open spec fn status_line_content(s: HttpStatus) -> Seq<u8> {
    http_prefix() + dec_rep(s.code as nat) + seq![' ' as u8] + reason_of(s.code)
}

/// Every line of the serialized head, in order: the status line, the three
/// fixed lines, then the response's own headers.
pub open spec fn format_lines(r: ResponseView) -> Seq<Seq<u8>> {
    seq![status_line_content(r.status), date_content(), server_content(), conn_content()]
        + r.headers.map_values(|e: (Seq<u8>, Seq<u8>)| header_line(e))
}

/// Lines joined, each closed by its terminator.
pub open spec fn lines_block(ls: Seq<Seq<u8>>) -> Seq<u8>
    decreases ls.len(),
{
    if ls.len() == 0 {
        Seq::empty()
    } else {
        ls[0] + crlf() + lines_block(ls.drop_first())
    }
}

/// The full wire rendering: the head, a blank line, then the body verbatim.
pub open spec fn spec_format(r: ResponseView) -> Seq<u8> {
    lines_block(format_lines(r)) + crlf() + r.body
}

/// Appending a line extends the block by that line and its terminator.
proof fn lemma_lines_block_snoc(ls: Seq<Seq<u8>>, l: Seq<u8>)
    ensures
        lines_block(ls.push(l)) == lines_block(ls) + l + crlf(),
    decreases ls.len(),
{
    if ls.len() == 0 {
        assert(ls.push(l).drop_first() =~= Seq::<Seq<u8>>::empty());
        assert(lines_block(Seq::<Seq<u8>>::empty()) == Seq::<u8>::empty());
        assert(lines_block(ls.push(l)) =~= lines_block(ls) + l + crlf());
    } else {
        assert(ls.push(l).drop_first() =~= ls.drop_first().push(l));
        lemma_lines_block_snoc(ls.drop_first(), l);
        assert(lines_block(ls.push(l)) =~= lines_block(ls) + l + crlf());
    }
}

impl Response {
    /// An empty response: 200 OK, no headers, empty body.
    pub fn new() -> (r: Response)
        ensures
            r@ == (ResponseView {
                status: HttpStatus { code: 200u16 },
                headers: Seq::<(Seq<u8>, Seq<u8>)>::empty(),
                body: Seq::<u8>::empty(),
            }),
    {
        let r = Response { status: HttpStatus::ok(), headers: HeaderMap::new(), body: Vec::new() };
        assert(r@ =~= (ResponseView {
            status: HttpStatus { code: 200u16 },
            headers: Seq::<(Seq<u8>, Seq<u8>)>::empty(),
            body: Seq::<u8>::empty(),
        }));
        r
    }

    /// Overwrites this response with what the builder derives from
    /// `request`, exactly as `spec_build` describes it.
    pub fn set_response(&mut self, request: &Request)
        ensures
            final(self)@ == spec_build(request@),
    {
        let mut body = body_prefix_bytes();
        push_bytes(&mut body, request.path.as_slice());
        assert(body@ == built_body(request@));
        let mut headers = HeaderMap::new();
        headers.insert(ct_name_bytes(), ct_value_bytes());
        proof {
            lemma_name_lens();
            lemma_insert_missing(Seq::empty(), ct_name(), ct_value());
            assert(headers@ =~= seq![(ct_name(), ct_value())]);
        }
        let body_len = u64_to_dec(body.len() as u64);
        let ghost v = dec_rep(built_body(request@).len());
        let ghost h1 = seq![(ct_name(), ct_value())];
        headers.insert(cl_name_bytes(), body_len);
        proof {
            assert forall|k: int| 0 <= k < h1.len() implies h1[k].0 != cl_name() by {
                assert(h1[0].0 == ct_name());
            }
            lemma_insert_missing(h1, cl_name(), v);
            assert(headers@ =~= h1.push((cl_name(), v)));
        }
        let ghost h2 = h1.push((cl_name(), v));
        assert(h2 =~= seq![(ct_name(), ct_value()), (cl_name(), v)]);
        if request.method.is_preflight() {
            headers.insert(acrm_name_bytes(), star_bytes());
            proof {
                assert forall|k: int| 0 <= k < h2.len() implies h2[k].0 != acrm_name() by {
                    if k == 0 {
                        assert(h2[0].0 == ct_name());
                    } else {
                        assert(h2[1].0 == cl_name());
                    }
                }
                lemma_insert_missing(h2, acrm_name(), star());
            }
            let ghost h3 = h2.push((acrm_name(), star()));
            headers.insert(acrh_name_bytes(), star_bytes());
            proof {
                assert forall|k: int| 0 <= k < h3.len() implies h3[k].0 != acrh_name() by {
                    if k == 0 {
                        assert(h3[0].0 == ct_name());
                    } else if k == 1 {
                        assert(h3[1].0 == cl_name());
                    } else {
                        assert(h3[2].0 == acrm_name());
                    }
                }
                lemma_insert_missing(h3, acrh_name(), star());
            }
            let ghost h4 = h3.push((acrh_name(), star()));
            headers.insert(acao_name_bytes(), star_bytes());
            proof {
                assert forall|k: int| 0 <= k < h4.len() implies h4[k].0 != acao_name() by {
                    if k == 0 {
                        assert(h4[0].0 == ct_name());
                    } else if k == 1 {
                        assert(h4[1].0 == cl_name());
                    } else if k == 2 {
                        assert(h4[2].0 == acrm_name());
                    } else {
                        assert(h4[3].0 == acrh_name());
                    }
                }
                lemma_insert_missing(h4, acao_name(), star());
            }
            let ghost h5 = h4.push((acao_name(), star()));
            headers.insert(acma_name_bytes(), max_age_bytes());
            proof {
                assert forall|k: int| 0 <= k < h5.len() implies h5[k].0 != acma_name() by {
                    if k == 0 {
                        assert(h5[0].0 == ct_name());
                    } else if k == 1 {
                        assert(h5[1].0 == cl_name());
                    } else if k == 2 {
                        assert(h5[2].0 == acrm_name());
                    } else if k == 3 {
                        assert(h5[3].0 == acrh_name());
                    } else {
                        assert(h5[4].0 == acao_name());
                    }
                }
                lemma_insert_missing(h5, acma_name(), max_age());
                assert(headers@ =~= built_headers(request@));
            }
        }
        self.status = request.method.to_status();
        self.headers = headers;
        self.body = body;
        assert(final(self)@ =~= spec_build(request@));
    }

    /// Renders the response to wire bytes, exactly as `spec_format`
    /// describes it: status line, Date, Server, Connection, the response's
    /// own headers, a blank line, the body.
    #[verifier::loop_isolation(false)]
    pub fn format(&self) -> (out: Vec<u8>)
        requires
            is_registered(self.status.code),
        ensures
            out@ == spec_format(self@),
    {
        let mut out: Vec<u8> = Vec::new();
        let ghost mut ls = Seq::<Seq<u8>>::empty();
        // status line
        let pre = http_prefix_bytes();
        push_bytes(&mut out, pre.as_slice());
        let code_dec = u64_to_dec(self.status.get_code() as u64);
        push_bytes(&mut out, code_dec.as_slice());
        out.push(' ' as u8);
        let msg = self.status.get_message();
        push_bytes(&mut out, msg.as_slice());
        let crlf_v = crlf_bytes();
        push_bytes(&mut out, crlf_v.as_slice());
        proof {
            lemma_lines_block_snoc(ls, status_line_content(self.status));
            assert(lines_block(Seq::<Seq<u8>>::empty()) == Seq::<u8>::empty());
            ls = ls.push(status_line_content(self.status));
            assert(out@ =~= lines_block(ls));
        }
        // the three fixed lines
        let date = date_content_bytes();
        push_bytes(&mut out, date.as_slice());
        push_bytes(&mut out, crlf_v.as_slice());
        proof {
            lemma_lines_block_snoc(ls, date_content());
            ls = ls.push(date_content());
            assert(out@ =~= lines_block(ls));
        }
        let server = server_content_bytes();
        push_bytes(&mut out, server.as_slice());
        push_bytes(&mut out, crlf_v.as_slice());
        proof {
            lemma_lines_block_snoc(ls, server_content());
            ls = ls.push(server_content());
            assert(out@ =~= lines_block(ls));
        }
        let conn = conn_content_bytes();
        push_bytes(&mut out, conn.as_slice());
        push_bytes(&mut out, crlf_v.as_slice());
        proof {
            lemma_lines_block_snoc(ls, conn_content());
            ls = ls.push(conn_content());
            assert(out@ =~= lines_block(ls));
        }
        // the response's own headers, in mapping order
        let n = self.headers.len();
        let cs = crate::bytes::colon_sp_bytes();
        let mut i: usize = 0;
        assert(ls =~= format_lines(self@).take(4));
        while i < n
            invariant
                0 <= i <= n,
                n == self@.headers.len(),
                ls == format_lines(self@).take(4 + i as int),
                out@ == lines_block(ls),
            decreases n - i,
        {
            let (name, value) = self.headers.entry_at(i);
            push_bytes(&mut out, name.as_slice());
            push_bytes(&mut out, cs.as_slice());
            push_bytes(&mut out, value.as_slice());
            push_bytes(&mut out, crlf_v.as_slice());
            proof {
                let e = self@.headers[i as int];
                lemma_lines_block_snoc(ls, header_line(e));
                ls = ls.push(header_line(e));
                assert(format_lines(self@)[4 + i as int] == header_line(e));
                assert(ls =~= format_lines(self@).take(4 + i as int + 1));
                assert(out@ =~= lines_block(ls));
            }
            i += 1;
        }
        assert(ls =~= format_lines(self@));
        // blank line, then the body verbatim
        push_bytes(&mut out, crlf_v.as_slice());
        push_bytes(&mut out, self.body.as_slice());
        assert(out@ =~= spec_format(self@));
        out
    }
}

/// The distinct lengths of the built header names, which tell them apart.
proof fn lemma_name_lens()
    ensures
        ct_name().len() == 12,
        cl_name().len() == 14,
        acrm_name().len() == 29,
        acrh_name().len() == 30,
        acao_name().len() == 27,
        acma_name().len() == 22,
{
}

/// Content-Length in a built response is the decimal byte length of its
/// body, for every request.
pub proof fn lemma_content_length_exact(req: RequestView)
    ensures
        spec_lookup(spec_build(req).headers, cl_name()) == Some(
            dec_rep(spec_build(req).body.len()),
        ),
{
    let hs = built_headers(req);
    let cl = cl_name();
    let v = dec_rep(built_body(req).len());
    lemma_name_lens();
    if req.method == Method::OPTIONS {
        assert(hs.len() == 6);
        assert(hs.last() == (acma_name(), max_age()));
        lemma_lookup_skip(hs, cl);
        let h5 = hs.drop_last();
        assert(h5.last() == hs[4] && hs[4] == (acao_name(), star()));
        lemma_lookup_skip(h5, cl);
        let h4 = h5.drop_last();
        assert(h4.last() == hs[3] && hs[3] == (acrh_name(), star()));
        lemma_lookup_skip(h4, cl);
        let h3 = h4.drop_last();
        assert(h3.last() == hs[2] && hs[2] == (acrm_name(), star()));
        lemma_lookup_skip(h3, cl);
        let h2 = h3.drop_last();
        assert(h2.last() == hs[1] && hs[1] == (cl, v));
        lemma_lookup_last(h2, cl);
    } else {
        assert(hs.len() == 2);
        assert(hs.last() == (cl, v));
        lemma_lookup_last(hs, cl);
    }
}

/// No entry of a non-preflight response's headers is named `nm`, for a name
/// other than the two always-set ones.
proof fn lemma_base_lookup_none(req: RequestView, nm: Seq<u8>)
    requires
        req.method != Method::OPTIONS,
        nm != ct_name(),
        nm != cl_name(),
    ensures
        spec_lookup(built_headers(req), nm) is None,
{
    let hs = built_headers(req);
    assert(hs.len() == 2);
    assert(hs.last() == (cl_name(), dec_rep(built_body(req).len())));
    lemma_lookup_skip(hs, nm);
    let h1 = hs.drop_last();
    assert(h1.last() == hs[0] && hs[0] == (ct_name(), ct_value()));
    lemma_lookup_skip(h1, nm);
    let h0 = h1.drop_last();
    assert(h0.len() == 0);
}

/// A non-preflight response carries none of the four CORS headers.
pub proof fn lemma_cors_absent(req: RequestView)
    requires
        req.method != Method::OPTIONS,
    ensures
        spec_lookup(spec_build(req).headers, acrm_name()) is None,
        spec_lookup(spec_build(req).headers, acrh_name()) is None,
        spec_lookup(spec_build(req).headers, acao_name()) is None,
        spec_lookup(spec_build(req).headers, acma_name()) is None,
{
    lemma_name_lens();
    lemma_base_lookup_none(req, acrm_name());
    lemma_base_lookup_none(req, acrh_name());
    lemma_base_lookup_none(req, acao_name());
    lemma_base_lookup_none(req, acma_name());
}

/// A preflight response carries all four CORS headers with their fixed
/// values.
pub proof fn lemma_cors_present(req: RequestView)
    requires
        req.method == Method::OPTIONS,
    ensures
        spec_lookup(spec_build(req).headers, acrm_name()) == Some(star()),
        spec_lookup(spec_build(req).headers, acrh_name()) == Some(star()),
        spec_lookup(spec_build(req).headers, acao_name()) == Some(star()),
        spec_lookup(spec_build(req).headers, acma_name()) == Some(max_age()),
{
    let hs = built_headers(req);
    lemma_name_lens();
    assert(hs.len() == 6);
    assert(hs.last() == (acma_name(), max_age()));
    let h5 = hs.drop_last();
    assert(h5.last() == hs[4] && hs[4] == (acao_name(), star()));
    let h4 = h5.drop_last();
    assert(h4.last() == hs[3] && hs[3] == (acrh_name(), star()));
    let h3 = h4.drop_last();
    assert(h3.last() == hs[2] && hs[2] == (acrm_name(), star()));
    // Access-Control-Max-Age is the last entry
    lemma_lookup_last(hs, acma_name());
    // Access-Control-Allow-Origin sits one before it
    lemma_lookup_skip(hs, acao_name());
    lemma_lookup_last(h5, acao_name());
    // Access-Control-Request-Headers, one further
    lemma_lookup_skip(hs, acrh_name());
    lemma_lookup_skip(h5, acrh_name());
    lemma_lookup_last(h4, acrh_name());
    // Access-Control-Request-Method, one further still
    lemma_lookup_skip(hs, acrm_name());
    lemma_lookup_skip(h5, acrm_name());
    lemma_lookup_skip(h4, acrm_name());
    lemma_lookup_last(h3, acrm_name());
}

/// Free of the two bytes that form line terminators.
pub open spec fn text_ok(s: Seq<u8>) -> bool {
    forall|j: int| 0 <= j < s.len() ==> s[j] != 13 && s[j] != 10
}

/// A line the serializer may emit on its own: nonempty and terminator-free.
pub open spec fn line_ok(l: Seq<u8>) -> bool {
    l.len() > 0 && text_ok(l)
}

/// Headers whose rendering cannot fake a blank line.
pub open spec fn headers_text_ok(entries: Seq<(Seq<u8>, Seq<u8>)>) -> bool {
    forall|i: int|
        0 <= i < entries.len() ==> text_ok(#[trigger] entries[i].0) && text_ok(entries[i].1)
}

/// In a block of well-formed lines followed by a blank line, the first
/// blank-line marker stands exactly where the block ends.
proof fn lemma_block_marker(ls: Seq<Seq<u8>>, body: Seq<u8>)
    requires
        ls.len() > 0,
        forall|i: int| 0 <= i < ls.len() ==> line_ok(#[trigger] ls[i]),
    ensures
        spec_find(lines_block(ls) + crlf() + body, crlfcrlf()) == Some(
            lines_block(ls).len() - 2,
        ),
    decreases ls.len(),
{
    let p = crlfcrlf();
    let w = lines_block(ls) + crlf() + body;
    let l0 = ls[0];
    let blk = lines_block(ls);
    assert(blk == l0 + crlf() + lines_block(ls.drop_first()));
    if ls.len() == 1 {
        assert(ls.drop_first() =~= Seq::<Seq<u8>>::empty());
        assert(lines_block(Seq::<Seq<u8>>::empty()) == Seq::<u8>::empty());
        assert(w =~= l0 + crlf() + (crlf() + body));
        let m = l0.len() as int;
        assert(matches_at(w, p, m)) by {
            assert(w[m + 0] == 13 && w[m + 1] == 10 && w[m + 2] == 13 && w[m + 3] == 10);
        }
        assert forall|j: int| 0 <= j < m implies !matches_at(w, p, j) by {
            assert(w[j] == l0[j]);
            assert(w[j] != 13);
            if matches_at(w, p, j) {
                assert(w[j + 0] == p[0]);
            }
        }
        lemma_find_is_first(w, p, m);
        assert(m == blk.len() - 2);
    } else {
        let rest = ls.drop_first();
        assert forall|i: int| 0 <= i < rest.len() implies line_ok(#[trigger] rest[i]) by {
            assert(rest[i] == ls[i + 1]);
        }
        let rw = lines_block(rest) + crlf() + body;
        lemma_block_marker(rest, body);
        let mr = lines_block(rest).len() - 2;
        lemma_find_from(rw, p, 0);
        assert(matches_at(rw, p, mr));
        assert(lines_block(rest) == rest[0] + crlf() + lines_block(rest.drop_first()));
        assert(lines_block(rest).len() >= 2);
        assert(rest[0].len() > 0);
        assert(rw[0] == rest[0][0]);
        assert(rw[0] != 13);
        let off = l0.len() + 2;
        assert(w =~= (l0 + crlf()) + rw);
        let m = off + mr;
        assert(matches_at(w, p, m)) by {
            assert forall|k: int| 0 <= k < 4 implies w[m + k] == p[k] by {
                assert(w[m + k] == rw[mr + k]);
            }
        }
        assert forall|j: int| 0 <= j < m implies !matches_at(w, p, j) by {
            if j < l0.len() {
                assert(w[j] == l0[j]);
                assert(w[j] != 13);
                if matches_at(w, p, j) {
                    assert(w[j + 0] == p[0]);
                }
            } else if j == l0.len() {
                assert(w[j + 2] == rw[0]);
                if matches_at(w, p, j) {
                    assert(w[j + 2] == p[2]);
                }
            } else if j == l0.len() + 1 {
                assert(w[j] == 10);
                if matches_at(w, p, j) {
                    assert(w[j + 0] == p[0]);
                }
            } else {
                assert(j - off < mr);
                assert(!matches_at(rw, p, j - off));
                if matches_at(w, p, j) {
                    assert(matches_at(rw, p, j - off)) by {
                        assert forall|k: int| 0 <= k < 4 implies rw[j - off + k] == p[k] by {
                            assert(rw[j - off + k] == w[j + k]);
                        }
                    }
                }
            }
        }
        lemma_find_is_first(w, p, m);
        assert(m == blk.len() - 2);
    }
}

/// Serializing and re-locating the blank-line marker recovers exactly the
/// body, for every response whose header names and values are free of
/// terminator bytes.
pub proof fn lemma_format_round_trip(r: ResponseView)
    requires
        headers_text_ok(r.headers),
        is_registered(r.status.code),
    ensures
        ({
            let w = spec_format(r);
            let found = spec_find(w, crlfcrlf());
            &&& found is Some
            &&& w.subrange(found->Some_0 + 4, w.len() as int) == r.body
        }),
{
    let fl = format_lines(r);
    let hl = r.headers.map_values(|e: (Seq<u8>, Seq<u8>)| header_line(e));
    assert(fl.len() == 4 + r.headers.len());
    assert(text_ok(http_prefix()));
    assert(text_ok(date_content()));
    assert(text_ok(server_content()));
    assert(text_ok(conn_content()));
    assert(text_ok(colon_sp()));
    assert(text_ok(reason_of(r.status.code)));
    lemma_dec_rep_digits(r.status.code as nat);
    assert(text_ok(dec_rep(r.status.code as nat)));
    assert forall|i: int| 0 <= i < fl.len() implies line_ok(#[trigger] fl[i]) by {
        if i == 0 {
            assert(fl[0] == status_line_content(r.status));
            lemma_text_ok_cat(http_prefix(), dec_rep(r.status.code as nat));
            lemma_text_ok_cat(http_prefix() + dec_rep(r.status.code as nat), seq![' ' as u8]);
            lemma_text_ok_cat(
                http_prefix() + dec_rep(r.status.code as nat) + seq![' ' as u8],
                reason_of(r.status.code),
            );
        } else if i < 4 {
        } else {
            assert(fl[i] == header_line(r.headers[i - 4]));
            let e = r.headers[i - 4];
            assert(text_ok(e.0) && text_ok(e.1));
            lemma_text_ok_cat(e.0, colon_sp());
            lemma_text_ok_cat(e.0 + colon_sp(), e.1);
        }
    }
    lemma_block_marker(fl, r.body);
    let blk = lines_block(fl);
    let w = spec_format(r);
    assert(w.subrange(blk.len() - 2 + 4, w.len() as int) =~= r.body);
}

/// Terminator-free parts join into a terminator-free whole.
proof fn lemma_text_ok_cat(a: Seq<u8>, b: Seq<u8>)
    requires
        text_ok(a),
        text_ok(b),
    ensures
        text_ok(a + b),
{
    assert forall|j: int| 0 <= j < (a + b).len() implies (a + b)[j] != 13 && (a + b)[j] != 10 by {
        if j < a.len() {
            assert((a + b)[j] == a[j]);
        } else {
            assert((a + b)[j] == b[j - a.len()]);
        }
    }
}

/// The round trip holds of every response the builder makes: its headers
/// are terminator-free and its status is registered.
pub proof fn lemma_built_round_trip(req: RequestView)
    ensures
        ({
            let w = spec_format(spec_build(req));
            let found = spec_find(w, crlfcrlf());
            &&& found is Some
            &&& w.subrange(found->Some_0 + 4, w.len() as int) == spec_build(req).body
        }),
{
    let hs = built_headers(req);
    lemma_dec_rep_digits(built_body(req).len());
    assert(text_ok(ct_name()) && text_ok(ct_value()));
    assert(text_ok(cl_name()));
    assert(text_ok(acrm_name()) && text_ok(acrh_name()));
    assert(text_ok(acao_name()) && text_ok(acma_name()));
    assert(text_ok(star()) && text_ok(max_age()));
    assert(text_ok(dec_rep(built_body(req).len())));
    assert forall|i: int|
        0 <= i < hs.len() implies text_ok(#[trigger] hs[i].0) && text_ok(hs[i].1) by {
        if req.method == Method::OPTIONS {
            assert(hs.len() == 6);
            if i == 0 {
                assert(hs[0] == (ct_name(), ct_value()));
            } else if i == 1 {
                assert(hs[1] == (cl_name(), dec_rep(built_body(req).len())));
            } else if i == 2 {
                assert(hs[2] == (acrm_name(), star()));
            } else if i == 3 {
                assert(hs[3] == (acrh_name(), star()));
            } else if i == 4 {
                assert(hs[4] == (acao_name(), star()));
            } else {
                assert(hs[5] == (acma_name(), max_age()));
            }
        } else {
            if i == 0 {
                assert(hs[0] == (ct_name(), ct_value()));
            } else {
                assert(hs[1] == (cl_name(), dec_rep(built_body(req).len())));
            }
        }
    }
    lemma_format_round_trip(spec_build(req));
}

} // verus!
