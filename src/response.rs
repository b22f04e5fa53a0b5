//! The bytes that the proxy writes back to a client.
use vstd::prelude::*;
use vstd::string::StringSliceAdditionalSpecFns;

verus! {

/// ASCII decimal digits of `n`, most significant first, without leading zeros.
pub open spec fn decimal(n: nat) -> Seq<u8>
    decreases n,
{
    if n < 10 {
        seq![(48 + n) as u8]
    } else {
        decimal(n / 10) + seq![(48 + n % 10) as u8]
    }
}

/// The value of the `X-Cache` header.
pub open spec fn cache_label(hit: bool) -> Seq<u8> {
    if hit {
        "HIT".spec_bytes()
    } else {
        "MISS".spec_bytes()
    }
}

/// Status line and headers of a successful response whose body has `len` bytes.
pub open spec fn ok_head(len: nat, hit: bool) -> Seq<u8> {
    "HTTP/1.1 200 OK\r\nContent-Length: ".spec_bytes() + decimal(len)
        + "\r\nContent-Type: application/octet-stream\r\nX-Cache: ".spec_bytes() + cache_label(
        hit,
    ) + "\r\n\r\n".spec_bytes()
}

/// A successful response carrying `body`.
pub open spec fn ok_response(body: Seq<u8>, hit: bool) -> Seq<u8> {
    ok_head(body.len(), hit) + body
}

/// The response sent when the origin could not be reached.
pub open spec fn error_response() -> Seq<u8> {
    "HTTP/1.1 500 Internal Server Error\r\n\r\n".spec_bytes()
}

/// Appends the decimal digits of `n` to `out`.
pub fn push_decimal(out: &mut Vec<u8>, n: usize)
    ensures
        final(out)@ == old(out)@ + decimal(n as nat),
    decreases n,
{
    if n >= 10 {
        push_decimal(out, n / 10);
    }
    out.push((48 + n % 10) as u8);
    assert(final(out)@ =~= old(out)@ + decimal(n as nat));
}

/// A `200 OK` response carrying `body`, marked as a cache hit or miss.
pub fn send_response(body: Vec<u8>, cached: bool) -> (r: Vec<u8>)
    ensures
        r@ == ok_response(body@, cached),
{
    let mut body = body;
    let ghost b = body@;
    let mut out = "HTTP/1.1 200 OK\r\nContent-Length: ".as_bytes_vec();
    push_decimal(&mut out, body.len());
    let mut mid = "\r\nContent-Type: application/octet-stream\r\nX-Cache: ".as_bytes_vec();
    out.append(&mut mid);
    let mut label = if cached {
        "HIT".as_bytes_vec()
    } else {
        "MISS".as_bytes_vec()
    };
    out.append(&mut label);
    let mut end = "\r\n\r\n".as_bytes_vec();
    out.append(&mut end);
    out.append(&mut body);
    assert(out@ =~= ok_response(b, cached));
    out
}

/// The `500 Internal Server Error` response, with no headers and no body.
pub fn error_response_bytes() -> (r: Vec<u8>)
    ensures
        r@ == error_response(),
{
    "HTTP/1.1 500 Internal Server Error\r\n\r\n".as_bytes_vec()
}

} // verus!
