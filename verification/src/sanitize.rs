//! Response sanitization.
//!
//! An upstream HTTP response is stripped to a minimal safe form: the status
//! and the body pass through unchanged, the headers are replaced wholesale
//! by a fixed hardened set, and a response with a status other than 200
//! yields a diagnostic line for the caller to log — advisory only, the
//! returned response is the same either way.

use crate::dec::digits_of;
use vstd::prelude::*;
use vstd::slice::slice_to_vec;
use vstd::string::StringExecFns;

verus! {

/// One HTTP header.
pub struct Header {
    pub name: String,
    pub value: String,
}

/// An HTTP response as the sanitizer sees it.
pub struct HttpReply {
    pub status: u16,
    pub headers: Vec<Header>,
    pub body: Vec<u8>,
}

/// Mathematical shape of a header list.
pub open spec fn headers_model(hs: Seq<Header>) -> Seq<(Seq<char>, Seq<char>)> {
    Seq::new(hs.len(), |i: int| (hs[i].name@, hs[i].value@))
}

/// The fixed hardened header set, in its fixed order.
pub open spec fn security_headers() -> Seq<(Seq<char>, Seq<char>)> {
    seq![
        ("Content-Security-Policy"@, "default-src 'self'"@),
        ("Referrer-Policy"@, "strict-origin"@),
        ("Permissions-Policy"@, "geolocation=(self)"@),
        ("Strict-Transport-Security"@, "max-age=63072000"@),
        ("X-Frame-Options"@, "DENY"@),
        ("X-Content-Type-Options"@, "nosniff"@),
    ]
}

/// What sanitization does to a response: the headers become the fixed set,
/// status and body pass through, whatever the status was.
pub open spec fn sanitize_model(status: u16, body: Seq<u8>) -> (
    u16,
    Seq<(Seq<char>, Seq<char>)>,
    Seq<u8>,
) {
    (status, security_headers(), body)
}

/// The raw body bytes as a comma-separated decimal list.
pub open spec fn bytes_list(b: Seq<u8>) -> Seq<char>
    decreases b.len(),
{
    if b.len() == 0 {
        Seq::empty()
    } else if b.len() == 1 {
        digits_of(b[0] as nat)
    } else {
        bytes_list(b.drop_last()) + seq![',', ' '] + digits_of(b.last() as nat)
    }
}

/// The diagnostic emitted for a response whose status is not 200: it
/// carries the full raw response, status and body.
pub open spec fn diag_message(status: u16, body: Seq<u8>) -> Seq<char> {
    "Received an error from Open-Meteo: status = "@ + digits_of(status as nat) + ", body = ["@
        + bytes_list(body) + "]"@
}

/// Appends the body bytes as a comma-separated decimal list.
fn push_bytes_list(out: &mut String, b: &[u8])
    ensures
        final(out)@ == old(out)@ + bytes_list(b@),
{
    let mut i: usize = 0;
    while i < b.len()
        invariant
            0 <= i <= b@.len(),
            out@ == old(out)@ + bytes_list(b@.subrange(0, i as int)),
        decreases b@.len() - i,
    {
        let ghost pre = b@.subrange(0, i as int);
        if i > 0 {
            out.append(", ");
        }
        crate::dec::push_digits(out, b[i] as u64);
        proof {
            let cur = b@.subrange(0, i as int + 1);
            assert(cur.drop_last() =~= pre);
            assert(cur.last() == b@[i as int]);
            if i == 0 {
                assert(out@ =~= old(out)@ + bytes_list(cur));
            } else {
                assert(", "@ =~= seq![',', ' ']) by {
                    reveal_strlit(", ");
                }
                assert(out@ =~= old(out)@ + bytes_list(cur));
            }
        }
        i = i + 1;
    }
    proof {
        assert(b@.subrange(0, b@.len() as int) =~= b@);
    }
}

pub(crate) fn header(name: &str, value: &str) -> (h: Header)
    ensures
        h.name@ == name@,
        h.value@ == value@,
{
    Header { name: name.to_owned(), value: value.to_owned() }
}

/// Strips the response to its safe form. The second component is the
/// diagnostic to log, present exactly when the status is not 200; it never
/// changes the returned response.
pub fn sanitize(raw: &HttpReply) -> (r: (HttpReply, Option<String>))
    ensures
        (r.0.status, headers_model(r.0.headers@), r.0.body@) == sanitize_model(
            raw.status,
            raw.body@,
        ),
        raw.status == 200 ==> r.1 is None,
        raw.status != 200 ==> (match r.1 {
            Some(m) => m@ == diag_message(raw.status, raw.body@),
            None => false,
        }),
{
    let mut headers: Vec<Header> = Vec::new();
    headers.push(header("Content-Security-Policy", "default-src 'self'"));
    headers.push(header("Referrer-Policy", "strict-origin"));
    headers.push(header("Permissions-Policy", "geolocation=(self)"));
    headers.push(header("Strict-Transport-Security", "max-age=63072000"));
    headers.push(header("X-Frame-Options", "DENY"));
    headers.push(header("X-Content-Type-Options", "nosniff"));
    proof {
        assert(headers_model(headers@) =~= security_headers());
    }
    let out = HttpReply { status: raw.status, headers, body: slice_to_vec(raw.body.as_slice()) };
    let diag = if raw.status != 200 {
        let mut m = String::new();
        m.append("Received an error from Open-Meteo: status = ");
        crate::dec::push_digits(&mut m, raw.status as u64);
        m.append(", body = [");
        push_bytes_list(&mut m, raw.body.as_slice());
        m.append("]");
        proof {
            assert(m@ =~= diag_message(raw.status, raw.body@));
        }
        Some(m)
    } else {
        None
    };
    (out, diag)
}

/// The sanitizer replaces the headers with exactly the fixed six and passes
/// the body through byte for byte, whatever the input held.
pub proof fn law_sanitizer_fixed_form(status: u16, body: Seq<u8>)
    ensures
        sanitize_model(status, body).1 == security_headers(),
        sanitize_model(status, body).2 == body,
{
}

/// The sanitized response does not depend on the status beyond carrying it:
/// two responses with the same body sanitize to the same headers and body,
/// whether the status is 200 or anything else.
pub proof fn law_sanitizer_status_blind(s1: u16, s2: u16, body: Seq<u8>)
    ensures
        sanitize_model(s1, body).1 == sanitize_model(s2, body).1,
        sanitize_model(s1, body).2 == sanitize_model(s2, body).2,
{
}

} // verus!
