//! Byte-sequence primitives shared by the parser and the serializer:
//! substring search, whitespace scanning, and decimal rendering.
use vstd::prelude::*;

verus! {

/// The line terminator `\r\n`.
pub open spec fn crlf() -> Seq<u8> {
    seq!['\r' as u8, '\n' as u8]
}

/// The blank-line marker `\r\n\r\n` that ends a header block.
pub open spec fn crlfcrlf() -> Seq<u8> {
    seq!['\r' as u8, '\n' as u8, '\r' as u8, '\n' as u8]
}

/// The header name/value separator `": "`.
pub open spec fn colon_sp() -> Seq<u8> {
    seq![':' as u8, ' ' as u8]
}

/// True when `pat` occurs in `s` starting at index `i`.
pub open spec fn matches_at(s: Seq<u8>, pat: Seq<u8>, i: int) -> bool {
    &&& 0 <= i
    &&& i + pat.len() <= s.len()
    &&& forall|k: int| 0 <= k < pat.len() ==> s[i + k] == pat[k]
}

/// Index of the first occurrence of `pat` in `s` at or after `i`, if any.
pub open spec fn spec_find_from(s: Seq<u8>, pat: Seq<u8>, i: int) -> Option<int>
    decreases s.len() - i,
{
    if i + pat.len() > s.len() {
        None
    } else if matches_at(s, pat, i) {
        Some(i)
    } else {
        spec_find_from(s, pat, i + 1)
    }
}

/// Index of the first occurrence of `pat` in `s`, if any.
pub open spec fn spec_find(s: Seq<u8>, pat: Seq<u8>) -> Option<int> {
    spec_find_from(s, pat, 0)
}

/// A found index is a match and nothing before it (from the start of the
/// search) matches; a missed search has no match anywhere after the start.
pub proof fn lemma_find_from(s: Seq<u8>, pat: Seq<u8>, i: int)
    requires
        0 <= i,
    ensures
        match spec_find_from(s, pat, i) {
            Some(j) => i <= j && matches_at(s, pat, j) && (forall|k: int|
                i <= k < j ==> !matches_at(s, pat, k)),
            None => forall|k: int| i <= k ==> !matches_at(s, pat, k),
        },
    decreases s.len() - i,
{
    if i + pat.len() > s.len() {
        assert forall|k: int| i <= k implies !matches_at(s, pat, k) by {}
    } else if matches_at(s, pat, i) {
    } else {
        lemma_find_from(s, pat, i + 1);
    }
}

/// A match before which nothing matches is exactly what `spec_find` returns.
pub proof fn lemma_find_is_first(s: Seq<u8>, pat: Seq<u8>, m: int)
    requires
        matches_at(s, pat, m),
        forall|k: int| 0 <= k < m ==> !matches_at(s, pat, k),
    ensures
        spec_find(s, pat) == Some(m),
{
    lemma_find_from(s, pat, 0);
    match spec_find_from(s, pat, 0) {
        Some(j) => {
            if j < m {
                assert(!matches_at(s, pat, j));
            }
            if m < j {
                assert(!matches_at(s, pat, m));
            }
        },
        None => {
            assert(!matches_at(s, pat, m));
        },
    }
}

/// ASCII whitespace, the separator of the request-line tokens.
pub open spec fn is_ws(b: u8) -> bool {
    b == 32 || (9 <= b <= 13)
}

/// First index at or after `i` holding a non-whitespace byte, or the length.
pub open spec fn skip_ws(s: Seq<u8>, i: int) -> int
    decreases s.len() - i,
{
    if i < 0 || i >= s.len() {
        i
    } else if is_ws(s[i]) {
        skip_ws(s, i + 1)
    } else {
        i
    }
}

/// First index at or after `i` holding a whitespace byte, or the length.
pub open spec fn skip_non_ws(s: Seq<u8>, i: int) -> int
    decreases s.len() - i,
{
    if i < 0 || i >= s.len() {
        i
    } else if !is_ws(s[i]) {
        skip_non_ws(s, i + 1)
    } else {
        i
    }
}

/// The shortest decimal rendering of `n` in ASCII digits.
pub open spec fn dec_rep(n: nat) -> Seq<u8>
    decreases n,
{
    if n < 10 {
        seq![(48 + n) as u8]
    } else {
        dec_rep(n / 10).push((48 + n % 10) as u8)
    }
}

/// Decimal renderings are nonempty and hold ASCII digits only.
pub proof fn lemma_dec_rep_digits(n: nat)
    ensures
        dec_rep(n).len() >= 1,
        forall|i: int| 0 <= i < dec_rep(n).len() ==> 48 <= #[trigger] dec_rep(n)[i] <= 57,
    decreases n,
{
    if n >= 10 {
        lemma_dec_rep_digits(n / 10);
    }
}

/// The line terminator, as runtime bytes.
pub fn crlf_bytes() -> (r: Vec<u8>)
    ensures
        r@ == crlf(),
{
    let v: Vec<u8> = vec!['\r' as u8, '\n' as u8];
    assert(v@ =~= crlf());
    v
}

/// The blank-line marker, as runtime bytes.
pub fn crlfcrlf_bytes() -> (r: Vec<u8>)
    ensures
        r@ == crlfcrlf(),
{
    let v: Vec<u8> = vec!['\r' as u8, '\n' as u8, '\r' as u8, '\n' as u8];
    assert(v@ =~= crlfcrlf());
    v
}

/// The header separator `": "`, as runtime bytes.
pub fn colon_sp_bytes() -> (r: Vec<u8>)
    ensures
        r@ == colon_sp(),
{
    let v: Vec<u8> = vec![':' as u8, ' ' as u8];
    assert(v@ =~= colon_sp());
    v
}

/// Byte-for-byte equality of two slices.
pub fn bytes_eq(a: &[u8], b: &[u8]) -> (r: bool)
    ensures
        r == (a@ == b@),
{
    if a.len() != b.len() {
        assert(a@ != b@) by {
            assert(a@.len() != b@.len());
        }
        return false;
    }
    let n = a.len();
    let mut i: usize = 0;
    while i < n
        invariant
            0 <= i <= n,
            n == a@.len() == b@.len(),
            forall|k: int| 0 <= k < i ==> a@[k] == b@[k],
        decreases n - i,
    {
        if a[i] != b[i] {
            return false;
        }
        i += 1;
    }
    assert(a@ =~= b@);
    true
}

/// First occurrence of `pat` in `s`, as `spec_find` describes it.
pub fn find_first(s: &[u8], pat: &[u8]) -> (r: Option<usize>)
    ensures
        match r {
            Some(j) => spec_find(s@, pat@) == Some(j as int),
            None => spec_find(s@, pat@) is None,
        },
{
    let n = s.len();
    let plen = pat.len();
    if plen > n {
        proof {
            lemma_find_none_when_short(s@, pat@, 0);
        }
        return None;
    }
    let mut i: usize = 0;
    while i <= n - plen
        invariant
            0 <= i,
            i + plen <= n + 1,
            plen <= n,
            n == s@.len(),
            plen == pat@.len(),
            spec_find(s@, pat@) == spec_find_from(s@, pat@, i as int),
        decreases n - i,
    {
        let here = &s[i..i + plen];
        if bytes_eq(here, pat) {
            proof {
                lemma_matches_at_subrange(s@, pat@, i as int);
            }
            assert(spec_find_from(s@, pat@, i as int) == Some(i as int));
            return Some(i);
        }
        proof {
            lemma_matches_at_subrange(s@, pat@, i as int);
        }
        assert(spec_find_from(s@, pat@, i as int) == spec_find_from(s@, pat@, i as int + 1));
        i += 1;
    }
    assert(spec_find_from(s@, pat@, i as int) is None);
    None
}

/// Matching at `i` is equality of the window starting at `i` with the pattern.
pub proof fn lemma_matches_at_subrange(s: Seq<u8>, pat: Seq<u8>, i: int)
    requires
        0 <= i,
        i + pat.len() <= s.len(),
    ensures
        matches_at(s, pat, i) == (s.subrange(i, i + pat.len()) == pat),
{
    if s.subrange(i, i + pat.len()) == pat {
        assert forall|k: int| 0 <= k < pat.len() implies s[i + k] == pat[k] by {
            assert(s.subrange(i, i + pat.len())[k] == s[i + k]);
        }
    }
    if matches_at(s, pat, i) {
        assert(s.subrange(i, i + pat.len()) =~= pat);
    }
}

proof fn lemma_find_none_when_short(s: Seq<u8>, pat: Seq<u8>, i: int)
    requires
        pat.len() > s.len(),
        0 <= i,
    ensures
        spec_find_from(s, pat, i) is None,
{
}

/// Advances past ASCII whitespace, as `skip_ws` describes it.
pub fn scan_ws(s: &[u8], from: usize) -> (r: usize)
    requires
        from <= s@.len(),
    ensures
        r as int == skip_ws(s@, from as int),
        from <= r <= s@.len(),
{
    let n = s.len();
    let mut i = from;
    while i < n && is_ws_byte(s[i])
        invariant
            from <= i <= n,
            n == s@.len(),
            skip_ws(s@, from as int) == skip_ws(s@, i as int),
        decreases n - i,
    {
        i += 1;
    }
    i
}

/// Advances past non-whitespace, as `skip_non_ws` describes it.
pub fn scan_non_ws(s: &[u8], from: usize) -> (r: usize)
    requires
        from <= s@.len(),
    ensures
        r as int == skip_non_ws(s@, from as int),
        from <= r <= s@.len(),
{
    let n = s.len();
    let mut i = from;
    while i < n && !is_ws_byte(s[i])
        invariant
            from <= i <= n,
            n == s@.len(),
            skip_non_ws(s@, from as int) == skip_non_ws(s@, i as int),
        decreases n - i,
    {
        i += 1;
    }
    i
}

fn is_ws_byte(b: u8) -> (r: bool)
    ensures
        r == is_ws(b),
{
    b == 32 || (9 <= b && b <= 13)
}

/// Appends a slice to a byte vector.
pub fn push_bytes(out: &mut Vec<u8>, s: &[u8])
    ensures
        final(out)@ == old(out)@ + s@,
{
    out.extend_from_slice(s);
    assert(final(out)@ =~= old(out)@ + s@);
}

/// Copies a slice into a fresh vector.
pub fn to_vec(s: &[u8]) -> (r: Vec<u8>)
    ensures
        r@ == s@,
{
    let mut v: Vec<u8> = Vec::new();
    push_bytes(&mut v, s);
    assert(v@ =~= s@);
    v
}

/// Renders `n` in decimal ASCII, as `dec_rep` describes it.
pub fn u64_to_dec(n: u64) -> (r: Vec<u8>)
    ensures
        r@ == dec_rep(n as nat),
    decreases n,
{
    if n < 10 {
        let mut v: Vec<u8> = Vec::new();
        v.push(48 + n as u8);
        assert(v@ =~= dec_rep(n as nat));
        v
    } else {
        let q = n / 10;
        let d = n % 10;
        assert(q < n) by (nonlinear_arith)
            requires
                n >= 10,
                q == n / 10,
        ;
        let mut v = u64_to_dec(q);
        v.push(48 + d as u8);
        assert(n as nat / 10 == q as nat && n as nat % 10 == d as nat);
        assert(v@ =~= dec_rep(n as nat));
        v
    }
}

} // verus!
