//! The fixed wire text of the response: the status-line prefix, the fixed
//! header lines, the built header names and values, and the body template.
use vstd::prelude::*;

verus! {

/// The fixed body template prefix; the request path follows it. (`"Hello, path: "`)
pub open spec fn body_prefix() -> Seq<u8> {
    seq![
        'H' as u8,
        'e' as u8,
        'l' as u8,
        'l' as u8,
        'o' as u8,
        ',' as u8,
        ' ' as u8,
        'p' as u8,
        'a' as u8,
        't' as u8,
        'h' as u8,
        ':' as u8,
        ' ' as u8,
    ]
}

/// `body_prefix`, as runtime bytes.
pub fn body_prefix_bytes() -> (r: Vec<u8>)
    ensures
        r@ == body_prefix(),
{
    let v: Vec<u8> = vec![
        'H' as u8,
        'e' as u8,
        'l' as u8,
        'l' as u8,
        'o' as u8,
        ',' as u8,
        ' ' as u8,
        'p' as u8,
        'a' as u8,
        't' as u8,
        'h' as u8,
        ':' as u8,
        ' ' as u8,
    ];
    assert(v@ =~= body_prefix());
    v
}

/// The status-line prefix. (`"HTTP/1.1 "`)
pub open spec fn http_prefix() -> Seq<u8> {
    seq![
        'H' as u8,
        'T' as u8,
        'T' as u8,
        'P' as u8,
        '/' as u8,
        '1' as u8,
        '.' as u8,
        '1' as u8,
        ' ' as u8,
    ]
}

/// `http_prefix`, as runtime bytes.
pub fn http_prefix_bytes() -> (r: Vec<u8>)
    ensures
        r@ == http_prefix(),
{
    let v: Vec<u8> = vec![
        'H' as u8,
        'T' as u8,
        'T' as u8,
        'P' as u8,
        '/' as u8,
        '1' as u8,
        '.' as u8,
        '1' as u8,
        ' ' as u8,
    ];
    assert(v@ =~= http_prefix());
    v
}

/// The fixed placeholder Date header line. (`"Date: Fri, 31 Dec 1999 23:59:59 GMT"`)
pub open spec fn date_content() -> Seq<u8> {
    seq![
        'D' as u8,
        'a' as u8,
        't' as u8,
        'e' as u8,
        ':' as u8,
        ' ' as u8,
        'F' as u8,
        'r' as u8,
        'i' as u8,
        ',' as u8,
        ' ' as u8,
        '3' as u8,
        '1' as u8,
        ' ' as u8,
        'D' as u8,
        'e' as u8,
        'c' as u8,
        ' ' as u8,
        '1' as u8,
        '9' as u8,
        '9' as u8,
        '9' as u8,
        ' ' as u8,
        '2' as u8,
        '3' as u8,
        ':' as u8,
        '5' as u8,
        '9' as u8,
        ':' as u8,
        '5' as u8,
        '9' as u8,
        ' ' as u8,
        'G' as u8,
        'M' as u8,
        'T' as u8,
    ]
}

/// `date_content`, as runtime bytes.
pub fn date_content_bytes() -> (r: Vec<u8>)
    ensures
        r@ == date_content(),
{
    let v: Vec<u8> = vec![
        'D' as u8,
        'a' as u8,
        't' as u8,
        'e' as u8,
        ':' as u8,
        ' ' as u8,
        'F' as u8,
        'r' as u8,
        'i' as u8,
        ',' as u8,
        ' ' as u8,
        '3' as u8,
        '1' as u8,
        ' ' as u8,
        'D' as u8,
        'e' as u8,
        'c' as u8,
        ' ' as u8,
        '1' as u8,
        '9' as u8,
        '9' as u8,
        '9' as u8,
        ' ' as u8,
        '2' as u8,
        '3' as u8,
        ':' as u8,
        '5' as u8,
        '9' as u8,
        ':' as u8,
        '5' as u8,
        '9' as u8,
        ' ' as u8,
        'G' as u8,
        'M' as u8,
        'T' as u8,
    ];
    assert(v@ =~= date_content());
    v
}

/// The fixed Server identifier line. (`"Server: Rust Server"`)
pub open spec fn server_content() -> Seq<u8> {
    seq![
        'S' as u8,
        'e' as u8,
        'r' as u8,
        'v' as u8,
        'e' as u8,
        'r' as u8,
        ':' as u8,
        ' ' as u8,
        'R' as u8,
        'u' as u8,
        's' as u8,
        't' as u8,
        ' ' as u8,
        'S' as u8,
        'e' as u8,
        'r' as u8,
        'v' as u8,
        'e' as u8,
        'r' as u8,
    ]
}

/// `server_content`, as runtime bytes.
pub fn server_content_bytes() -> (r: Vec<u8>)
    ensures
        r@ == server_content(),
{
    let v: Vec<u8> = vec![
        'S' as u8,
        'e' as u8,
        'r' as u8,
        'v' as u8,
        'e' as u8,
        'r' as u8,
        ':' as u8,
        ' ' as u8,
        'R' as u8,
        'u' as u8,
        's' as u8,
        't' as u8,
        ' ' as u8,
        'S' as u8,
        'e' as u8,
        'r' as u8,
        'v' as u8,
        'e' as u8,
        'r' as u8,
    ];
    assert(v@ =~= server_content());
    v
}

/// The line that announces the one-request-per-connection policy. (`"Connection: close"`)
pub open spec fn conn_content() -> Seq<u8> {
    seq![
        'C' as u8,
        'o' as u8,
        'n' as u8,
        'n' as u8,
        'e' as u8,
        'c' as u8,
        't' as u8,
        'i' as u8,
        'o' as u8,
        'n' as u8,
        ':' as u8,
        ' ' as u8,
        'c' as u8,
        'l' as u8,
        'o' as u8,
        's' as u8,
        'e' as u8,
    ]
}

/// `conn_content`, as runtime bytes.
pub fn conn_content_bytes() -> (r: Vec<u8>)
    ensures
        r@ == conn_content(),
{
    let v: Vec<u8> = vec![
        'C' as u8,
        'o' as u8,
        'n' as u8,
        'n' as u8,
        'e' as u8,
        'c' as u8,
        't' as u8,
        'i' as u8,
        'o' as u8,
        'n' as u8,
        ':' as u8,
        ' ' as u8,
        'c' as u8,
        'l' as u8,
        'o' as u8,
        's' as u8,
        'e' as u8,
    ];
    assert(v@ =~= conn_content());
    v
}

/// The Content-Type header name. (`"Content-Type"`)
pub open spec fn ct_name() -> Seq<u8> {
    seq![
        'C' as u8,
        'o' as u8,
        'n' as u8,
        't' as u8,
        'e' as u8,
        'n' as u8,
        't' as u8,
        '-' as u8,
        'T' as u8,
        'y' as u8,
        'p' as u8,
        'e' as u8,
    ]
}

/// `ct_name`, as runtime bytes.
pub fn ct_name_bytes() -> (r: Vec<u8>)
    ensures
        r@ == ct_name(),
{
    let v: Vec<u8> = vec![
        'C' as u8,
        'o' as u8,
        'n' as u8,
        't' as u8,
        'e' as u8,
        'n' as u8,
        't' as u8,
        '-' as u8,
        'T' as u8,
        'y' as u8,
        'p' as u8,
        'e' as u8,
    ];
    assert(v@ =~= ct_name());
    v
}

/// The fixed Content-Type value. (`"text/plain"`)
pub open spec fn ct_value() -> Seq<u8> {
    seq![
        't' as u8,
        'e' as u8,
        'x' as u8,
        't' as u8,
        '/' as u8,
        'p' as u8,
        'l' as u8,
        'a' as u8,
        'i' as u8,
        'n' as u8,
    ]
}

/// `ct_value`, as runtime bytes.
pub fn ct_value_bytes() -> (r: Vec<u8>)
    ensures
        r@ == ct_value(),
{
    let v: Vec<u8> = vec![
        't' as u8,
        'e' as u8,
        'x' as u8,
        't' as u8,
        '/' as u8,
        'p' as u8,
        'l' as u8,
        'a' as u8,
        'i' as u8,
        'n' as u8,
    ];
    assert(v@ =~= ct_value());
    v
}

/// The Content-Length header name. (`"Content-Length"`)
pub open spec fn cl_name() -> Seq<u8> {
    seq![
        'C' as u8,
        'o' as u8,
        'n' as u8,
        't' as u8,
        'e' as u8,
        'n' as u8,
        't' as u8,
        '-' as u8,
        'L' as u8,
        'e' as u8,
        'n' as u8,
        'g' as u8,
        't' as u8,
        'h' as u8,
    ]
}

/// `cl_name`, as runtime bytes.
pub fn cl_name_bytes() -> (r: Vec<u8>)
    ensures
        r@ == cl_name(),
{
    let v: Vec<u8> = vec![
        'C' as u8,
        'o' as u8,
        'n' as u8,
        't' as u8,
        'e' as u8,
        'n' as u8,
        't' as u8,
        '-' as u8,
        'L' as u8,
        'e' as u8,
        'n' as u8,
        'g' as u8,
        't' as u8,
        'h' as u8,
    ];
    assert(v@ =~= cl_name());
    v
}

/// A CORS preflight header name. (`"Access-Control-Request-Method"`)
pub open spec fn acrm_name() -> Seq<u8> {
    seq![
        'A' as u8,
        'c' as u8,
        'c' as u8,
        'e' as u8,
        's' as u8,
        's' as u8,
        '-' as u8,
        'C' as u8,
        'o' as u8,
        'n' as u8,
        't' as u8,
        'r' as u8,
        'o' as u8,
        'l' as u8,
        '-' as u8,
        'R' as u8,
        'e' as u8,
        'q' as u8,
        'u' as u8,
        'e' as u8,
        's' as u8,
        't' as u8,
        '-' as u8,
        'M' as u8,
        'e' as u8,
        't' as u8,
        'h' as u8,
        'o' as u8,
        'd' as u8,
    ]
}

/// `acrm_name`, as runtime bytes.
pub fn acrm_name_bytes() -> (r: Vec<u8>)
    ensures
        r@ == acrm_name(),
{
    let v: Vec<u8> = vec![
        'A' as u8,
        'c' as u8,
        'c' as u8,
        'e' as u8,
        's' as u8,
        's' as u8,
        '-' as u8,
        'C' as u8,
        'o' as u8,
        'n' as u8,
        't' as u8,
        'r' as u8,
        'o' as u8,
        'l' as u8,
        '-' as u8,
        'R' as u8,
        'e' as u8,
        'q' as u8,
        'u' as u8,
        'e' as u8,
        's' as u8,
        't' as u8,
        '-' as u8,
        'M' as u8,
        'e' as u8,
        't' as u8,
        'h' as u8,
        'o' as u8,
        'd' as u8,
    ];
    assert(v@ =~= acrm_name());
    v
}

/// A CORS preflight header name. (`"Access-Control-Request-Headers"`)
pub open spec fn acrh_name() -> Seq<u8> {
    seq![
        'A' as u8,
        'c' as u8,
        'c' as u8,
        'e' as u8,
        's' as u8,
        's' as u8,
        '-' as u8,
        'C' as u8,
        'o' as u8,
        'n' as u8,
        't' as u8,
        'r' as u8,
        'o' as u8,
        'l' as u8,
        '-' as u8,
        'R' as u8,
        'e' as u8,
        'q' as u8,
        'u' as u8,
        'e' as u8,
        's' as u8,
        't' as u8,
        '-' as u8,
        'H' as u8,
        'e' as u8,
        'a' as u8,
        'd' as u8,
        'e' as u8,
        'r' as u8,
        's' as u8,
    ]
}

/// `acrh_name`, as runtime bytes.
pub fn acrh_name_bytes() -> (r: Vec<u8>)
    ensures
        r@ == acrh_name(),
{
    let v: Vec<u8> = vec![
        'A' as u8,
        'c' as u8,
        'c' as u8,
        'e' as u8,
        's' as u8,
        's' as u8,
        '-' as u8,
        'C' as u8,
        'o' as u8,
        'n' as u8,
        't' as u8,
        'r' as u8,
        'o' as u8,
        'l' as u8,
        '-' as u8,
        'R' as u8,
        'e' as u8,
        'q' as u8,
        'u' as u8,
        'e' as u8,
        's' as u8,
        't' as u8,
        '-' as u8,
        'H' as u8,
        'e' as u8,
        'a' as u8,
        'd' as u8,
        'e' as u8,
        'r' as u8,
        's' as u8,
    ];
    assert(v@ =~= acrh_name());
    v
}

/// A CORS preflight header name. (`"Access-Control-Allow-Origin"`)
pub open spec fn acao_name() -> Seq<u8> {
    seq![
        'A' as u8,
        'c' as u8,
        'c' as u8,
        'e' as u8,
        's' as u8,
        's' as u8,
        '-' as u8,
        'C' as u8,
        'o' as u8,
        'n' as u8,
        't' as u8,
        'r' as u8,
        'o' as u8,
        'l' as u8,
        '-' as u8,
        'A' as u8,
        'l' as u8,
        'l' as u8,
        'o' as u8,
        'w' as u8,
        '-' as u8,
        'O' as u8,
        'r' as u8,
        'i' as u8,
        'g' as u8,
        'i' as u8,
        'n' as u8,
    ]
}

/// `acao_name`, as runtime bytes.
pub fn acao_name_bytes() -> (r: Vec<u8>)
    ensures
        r@ == acao_name(),
{
    let v: Vec<u8> = vec![
        'A' as u8,
        'c' as u8,
        'c' as u8,
        'e' as u8,
        's' as u8,
        's' as u8,
        '-' as u8,
        'C' as u8,
        'o' as u8,
        'n' as u8,
        't' as u8,
        'r' as u8,
        'o' as u8,
        'l' as u8,
        '-' as u8,
        'A' as u8,
        'l' as u8,
        'l' as u8,
        'o' as u8,
        'w' as u8,
        '-' as u8,
        'O' as u8,
        'r' as u8,
        'i' as u8,
        'g' as u8,
        'i' as u8,
        'n' as u8,
    ];
    assert(v@ =~= acao_name());
    v
}

/// A CORS preflight header name. (`"Access-Control-Max-Age"`)
pub open spec fn acma_name() -> Seq<u8> {
    seq![
        'A' as u8,
        'c' as u8,
        'c' as u8,
        'e' as u8,
        's' as u8,
        's' as u8,
        '-' as u8,
        'C' as u8,
        'o' as u8,
        'n' as u8,
        't' as u8,
        'r' as u8,
        'o' as u8,
        'l' as u8,
        '-' as u8,
        'M' as u8,
        'a' as u8,
        'x' as u8,
        '-' as u8,
        'A' as u8,
        'g' as u8,
        'e' as u8,
    ]
}

/// `acma_name`, as runtime bytes.
pub fn acma_name_bytes() -> (r: Vec<u8>)
    ensures
        r@ == acma_name(),
{
    let v: Vec<u8> = vec![
        'A' as u8,
        'c' as u8,
        'c' as u8,
        'e' as u8,
        's' as u8,
        's' as u8,
        '-' as u8,
        'C' as u8,
        'o' as u8,
        'n' as u8,
        't' as u8,
        'r' as u8,
        'o' as u8,
        'l' as u8,
        '-' as u8,
        'M' as u8,
        'a' as u8,
        'x' as u8,
        '-' as u8,
        'A' as u8,
        'g' as u8,
        'e' as u8,
    ];
    assert(v@ =~= acma_name());
    v
}

/// The wildcard CORS value. (`"*"`)
pub open spec fn star() -> Seq<u8> {
    seq![
        '*' as u8,
    ]
}

/// `star`, as runtime bytes.
pub fn star_bytes() -> (r: Vec<u8>)
    ensures
        r@ == star(),
{
    let v: Vec<u8> = vec![
        '*' as u8,
    ];
    assert(v@ =~= star());
    v
}

/// The fixed CORS max-age value. (`"86400"`)
pub open spec fn max_age() -> Seq<u8> {
    seq![
        '8' as u8,
        '6' as u8,
        '4' as u8,
        '0' as u8,
        '0' as u8,
    ]
}

/// `max_age`, as runtime bytes.
pub fn max_age_bytes() -> (r: Vec<u8>)
    ensures
        r@ == max_age(),
{
    let v: Vec<u8> = vec![
        '8' as u8,
        '6' as u8,
        '4' as u8,
        '0' as u8,
        '0' as u8,
    ];
    assert(v@ =~= max_age());
    v
}

} // verus!
