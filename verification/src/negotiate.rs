//! Content negotiation: whether the client accepts a gzip-compressed body.
//! The Accept-Encoding value is split on commas, each token is trimmed of
//! blanks, and only an exact match on `gzip` counts; a missing header means
//! no compression.

use vstd::prelude::*;

use crate::bytes::{
    find_byte, lower_seq, scan_byte, subvec, trim, trim_bytes, bytes_eq,
    lemma_find_byte_bounds, lemma_find_byte_is,
};
use crate::lit::{accept_encoding_name, accept_encoding_name_v, gzip_token, gzip_token_v};
use crate::parse::{lookup_value, lookup_header, views_of, Header};

verus! {

/// Some comma-separated token of `v`, trimmed of blanks, is exactly `gzip`.
pub open spec fn tokens_contain_gzip(v: Seq<u8>) -> bool
    decreases v.len(),
{
    let c = find_byte(v, 44, 0);
    if 0 <= c && c < v.len() {
        trim(v.subrange(0, c)) == gzip_token() || tokens_contain_gzip(
            v.subrange(c + 1, v.len() as int),
        )
    } else {
        trim(v) == gzip_token()
    }
}

/// The header set names gzip among the accepted encodings.
pub open spec fn accepts_gzip(hs: Seq<(Seq<u8>, Seq<u8>)>) -> bool {
    match lookup_value(hs, accept_encoding_name()) {
        None => false,
        Some(v) => tokens_contain_gzip(v),
    }
}

/// Whether the client's Accept-Encoding header names gzip.
pub fn check_gzip_support(headers: &Vec<Header>) -> (r: bool)
    ensures
        r == accepts_gzip(views_of(headers@)),
{
    let name = accept_encoding_name_v();
    proof {
        assert(lower_seq(name@) =~= name@);
    }
    let v = match lookup_header(headers, &name) {
        Some(v) => v,
        None => {
            return false;
        },
    };
    let g = gzip_token_v();
    let n = v.len();
    proof {
        assert(v@.subrange(0, n as int) =~= v@);
    }
    let mut pos: usize = 0;
    loop
        invariant
            pos <= n,
            n == v@.len(),
            g@ == gzip_token(),
            tokens_contain_gzip(v@) == tokens_contain_gzip(v@.subrange(pos as int, n as int)),
            accepts_gzip(views_of(headers@)) == tokens_contain_gzip(v@),
        decreases n - pos,
    {
        let ghost cur = v@.subrange(pos as int, n as int);
        let c = scan_byte(&v, pos, 44);
        proof {
            lemma_find_byte_bounds(v@, 44, pos as int);
            assert(forall|m: int|
                0 <= m < c - pos ==> cur[m] == v@[pos + m] && #[trigger] cur[m] != 44);
            if (c as int) < n as int {
                assert(cur[c - pos] == 44);
            }
            lemma_find_byte_is(cur, 44, 0, c - pos);
        }
        if c < n {
            let raw = subvec(&v, pos, c);
            proof {
                assert(raw@ =~= cur.subrange(0, c - pos));
            }
            let token = trim_bytes(&raw);
            if bytes_eq(&token, &g) {
                return true;
            }
            proof {
                assert(cur.subrange(c - pos + 1, cur.len() as int) =~= v@.subrange(
                    c + 1 as int,
                    n as int,
                ));
            }
            pos = c + 1;
        } else {
            let raw = subvec(&v, pos, n);
            proof {
                assert(raw@ =~= cur);
            }
            let token = trim_bytes(&raw);
            let r = bytes_eq(&token, &g);
            return r;
        }
    }
}

} // verus!
