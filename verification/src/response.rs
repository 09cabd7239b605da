//! Response serialization: a status line, a Content-Type line, an optional
//! Content-Encoding line when gzip was negotiated, a Content-Length line
//! that counts the transmitted (possibly compressed) bytes, a blank line,
//! and the body.

use vstd::prelude::*;

use crate::bytes::{append_bytes, subvec};
use crate::gzip::{gzip_of, gzip_compress};
use crate::lit::{
    ct_prefix, ct_prefix_v, ce_gzip_line, ce_gzip_line_v, cl_prefix, cl_prefix_v, crlf, crlf_v,
    hdr_end_mark, hdr_end_mark_v,
};

verus! {

/// The decimal numeral of `n`.
pub open spec fn decimal(n: int) -> Seq<u8>
    recommends
        n >= 0,
    decreases n,
{
    if n < 10 {
        seq![(48 + n) as u8]
    } else {
        decimal(n / 10) + seq![(48 + n % 10) as u8]
    }
}

/// The serialized response: status line, Content-Type line, a
/// Content-Encoding line exactly when `gz` holds, a Content-Length line
/// giving the length of `body` as transmitted, a blank line, and `body`.
pub open spec fn response_bytes(status: Seq<u8>, ct: Seq<u8>, gz: bool, body: Seq<u8>) -> Seq<u8> {
    status + ct_prefix() + ct + crlf() + (if gz {
        ce_gzip_line()
    } else {
        Seq::<u8>::empty()
    }) + cl_prefix() + decimal(body.len() as int) + hdr_end_mark() + body
}

/// What a response with a body serializes to: when the client negotiated
/// gzip, the body is transmitted compressed and announced as such;
/// otherwise it is transmitted as given. Content-Length always counts the
/// transmitted bytes.
pub open spec fn body_response_spec(
    status: Seq<u8>,
    ct: Seq<u8>,
    accept_gzip: bool,
    body: Seq<u8>,
) -> Seq<u8> {
    if accept_gzip {
        response_bytes(status, ct, true, gzip_of(body))
    } else {
        response_bytes(status, ct, false, body)
    }
}

/// The decimal numeral of `n` as bytes.
pub fn usize_decimal(n: usize) -> (r: Vec<u8>)
    ensures
        r@ == decimal(n as int),
    decreases n,
{
    if n < 10 {
        let mut r: Vec<u8> = Vec::new();
        r.push(48 + (n as u8));
        proof {
            assert(r@ =~= decimal(n as int));
        }
        r
    } else {
        let mut r = usize_decimal(n / 10);
        r.push(48 + ((n % 10) as u8));
        proof {
            assert(r@ =~= decimal(n as int));
        }
        r
    }
}

/// Serializes a response with a body, compressing the body when the client
/// negotiated gzip.
pub fn response_with_body(
    status: &Vec<u8>,
    content_type: &Vec<u8>,
    accept_gzip: bool,
    body: &Vec<u8>,
) -> (r: Vec<u8>)
    ensures
        r@ == body_response_spec(status@, content_type@, accept_gzip, body@),
{
    let mut out: Vec<u8> = Vec::new();
    append_bytes(&mut out, status);
    let t1 = ct_prefix_v();
    append_bytes(&mut out, &t1);
    append_bytes(&mut out, content_type);
    let t2 = crlf_v();
    append_bytes(&mut out, &t2);
    let payload: Vec<u8> = if accept_gzip {
        let t3 = ce_gzip_line_v();
        append_bytes(&mut out, &t3);
        gzip_compress(body)
    } else {
        subvec(body, 0, body.len())
    };
    let t4 = cl_prefix_v();
    append_bytes(&mut out, &t4);
    let d = usize_decimal(payload.len());
    append_bytes(&mut out, &d);
    let t5 = hdr_end_mark_v();
    append_bytes(&mut out, &t5);
    append_bytes(&mut out, &payload);
    proof {
        assert(body@.subrange(0, body@.len() as int) =~= body@);
        assert(out@ =~= body_response_spec(status@, content_type@, accept_gzip, body@));
    }
    out
}

} // verus!
