//! The request parser: splits a raw request buffer into the request line
//! (method and path) and the header lines before the first blank line, with
//! CRLF framing (a bare LF is tolerated). Header names are looked up
//! case-insensitively; values are the trimmed remainder after the first
//! colon; a line without a colon is skipped rather than treated as fatal.
//! Also locates the blank line that ends the header block, which marks where
//! body bytes begin inside the initial read, and reads the Content-Length
//! value (0 when absent or unparsable).

use vstd::prelude::*;

use crate::bytes::{
    find_byte, find_ws, lower_seq, scan_byte, scan_find_ws, scan_skip_ws, skip_ws, subvec, trim,
    trim_bytes, bytes_eq_ci, lemma_find_byte_bounds, lemma_find_byte_is,
};
use crate::lit::content_length_name;

verus! {

/// One parsed header: its name as sent, and its value trimmed of blanks.
pub struct Header {
    pub name: Vec<u8>,
    pub value: Vec<u8>,
}

impl View for Header {
    type V = (Seq<u8>, Seq<u8>);

    open spec fn view(&self) -> (Seq<u8>, Seq<u8>) {
        (self.name@, self.value@)
    }
}

/// The mathematical form of a parsed request.
#[verifier::ext_equal]
pub ghost struct ReqView {
    pub method: Seq<u8>,
    pub path: Seq<u8>,
    pub headers: Seq<(Seq<u8>, Seq<u8>)>,
}

/// A parsed request: method, path, and the headers in order of arrival.
pub struct Request {
    pub method: Vec<u8>,
    pub path: Vec<u8>,
    pub headers: Vec<Header>,
}

/// The views of a sequence of headers.
pub open spec fn views_of(hs: Seq<Header>) -> Seq<(Seq<u8>, Seq<u8>)> {
    hs.map_values(|h: Header| h@)
}

impl View for Request {
    type V = ReqView;

    open spec fn view(&self) -> ReqView {
        ReqView { method: self.method@, path: self.path@, headers: views_of(self.headers@) }
    }
}

/// A line with a trailing carriage return removed.
pub open spec fn strip_cr(line: Seq<u8>) -> Seq<u8> {
    if line.len() > 0 && line[line.len() - 1] == 13 {
        line.drop_last()
    } else {
        line
    }
}

/// The first line of `s`: the bytes before the first LF, without a trailing CR.
pub open spec fn first_line(s: Seq<u8>) -> Seq<u8> {
    strip_cr(s.subrange(0, find_byte(s, 10, 0)))
}

/// Everything after the first LF of `s`, or empty when `s` has no LF.
pub open spec fn rest_after_line(s: Seq<u8>) -> Seq<u8> {
    let i = find_byte(s, 10, 0);
    if 0 <= i && i < s.len() {
        s.subrange(i + 1, s.len() as int)
    } else {
        Seq::empty()
    }
}

/// The method and path tokens of a request line: the first two maximal runs
/// of non-blank bytes. `None` when fewer than two tokens are present.
pub open spec fn request_line_tokens(line: Seq<u8>) -> Option<(Seq<u8>, Seq<u8>)> {
    let m0 = skip_ws(line, 0);
    let m1 = find_ws(line, m0);
    let p0 = skip_ws(line, m1);
    let p1 = find_ws(line, p0);
    if m0 == line.len() || p0 == line.len() {
        None
    } else {
        Some((line.subrange(m0, m1), line.subrange(p0, p1)))
    }
}

/// A header line split at its first colon: name before it, value the trimmed
/// remainder. `None` when the line holds no colon.
pub open spec fn parse_header_line(line: Seq<u8>) -> Option<(Seq<u8>, Seq<u8>)> {
    let c = find_byte(line, 58, 0);
    if 0 <= c && c < line.len() {
        Some((line.subrange(0, c), trim(line.subrange(c + 1, line.len() as int))))
    } else {
        None
    }
}

/// The headers parsed from the lines of `s`, stopping at the first blank
/// line; lines without a colon are skipped.
pub open spec fn headers_of(s: Seq<u8>) -> Seq<(Seq<u8>, Seq<u8>)>
    decreases s.len(),
{
    if s.len() == 0 {
        Seq::empty()
    } else {
        let line = first_line(s);
        let rest = rest_after_line(s);
        if line.len() == 0 {
            Seq::empty()
        } else {
            match parse_header_line(line) {
                Some(h) => seq![h] + headers_of(rest),
                None => headers_of(rest),
            }
        }
    }
}

/// What parsing a whole buffer yields: the request-line tokens and the
/// headers of the following lines. `None` when the request line has fewer
/// than two tokens.
pub open spec fn parse_spec(buf: Seq<u8>) -> Option<ReqView> {
    match request_line_tokens(first_line(buf)) {
        None => None,
        Some((m, p)) => Some(
            ReqView { method: m, path: p, headers: headers_of(rest_after_line(buf)) },
        ),
    }
}

/// The value of the first header whose name equals `name_lower`
/// case-insensitively; `name_lower` is given already lower-cased.
pub open spec fn lookup_value(hs: Seq<(Seq<u8>, Seq<u8>)>, name_lower: Seq<u8>) -> Option<Seq<u8>>
    decreases hs.len(),
{
    if hs.len() == 0 {
        None
    } else if lower_seq(hs[0].0) == name_lower {
        Some(hs[0].1)
    } else {
        lookup_value(hs.drop_first(), name_lower)
    }
}

/// The four bytes CR LF CR LF stand at index `i` of `s`.
pub open spec fn hdr_end_at(s: Seq<u8>, i: int) -> bool {
    &&& 0 <= i
    &&& i + 4 <= s.len()
    &&& s[i] == 13
    &&& s[i + 1] == 10
    &&& s[i + 2] == 13
    &&& s[i + 3] == 10
}

/// The first index at or after `k` where CR LF CR LF stands in `s`.
pub open spec fn find_hdr_end(s: Seq<u8>, k: int) -> Option<int>
    decreases s.len() - k,
{
    if !(0 <= k && k + 4 <= s.len()) {
        None
    } else if hdr_end_at(s, k) {
        Some(k)
    } else {
        find_hdr_end(s, k + 1)
    }
}

/// The offset of the first body byte inside the buffer: four past the first
/// CR LF CR LF, or `None` when the header block is not terminated.
pub open spec fn body_start_spec(s: Seq<u8>) -> Option<int> {
    match find_hdr_end(s, 0) {
        Some(i) => Some(i + 4),
        None => None,
    }
}

/// A decimal digit byte.
pub open spec fn is_digit(b: u8) -> bool {
    48 <= b && b <= 57
}

/// Every byte of `s` is a decimal digit.
pub open spec fn all_digits(s: Seq<u8>) -> bool {
    forall|i: int| 0 <= i < s.len() ==> is_digit(s[i])
}

/// The value of `s` read as a decimal numeral.
pub open spec fn dec_val(s: Seq<u8>) -> int
    decreases s.len(),
{
    if s.len() == 0 {
        0
    } else {
        dec_val(s.drop_last()) * 10 + (s.last() - 48)
    }
}

/// The declared body length: the Content-Length value when it is a nonempty
/// run of digits whose value fits in `usize`, else 0.
pub open spec fn content_length_of(hs: Seq<(Seq<u8>, Seq<u8>)>) -> int {
    match lookup_value(hs, content_length_name()) {
        None => 0,
        Some(v) => if v.len() > 0 && all_digits(v) && dec_val(v) <= usize::MAX as int {
            dec_val(v)
        } else {
            0
        },
    }
}

pub proof fn lemma_dec_val_nonneg(s: Seq<u8>)
    requires
        all_digits(s),
    ensures
        dec_val(s) >= 0,
    decreases s.len(),
{
    if s.len() > 0 {
        assert(all_digits(s.drop_last())) by {
            assert(forall|i: int|
                0 <= i < s.drop_last().len() ==> s.drop_last()[i] == s[i] && is_digit(#[trigger] s.drop_last()[i]));
        }
        lemma_dec_val_nonneg(s.drop_last());
    }
}

/// A longer prefix of a digit numeral never has a smaller value.
pub proof fn lemma_dec_val_prefix_le(s: Seq<u8>, j: int)
    requires
        all_digits(s),
        0 <= j <= s.len(),
    ensures
        dec_val(s.subrange(0, j)) <= dec_val(s),
    decreases s.len() - j,
{
    if j == s.len() {
        assert(s.subrange(0, j) =~= s);
    } else {
        let a = s.subrange(0, j);
        let b = s.subrange(0, j + 1);
        assert(b.drop_last() =~= a);
        assert(all_digits(a));
        lemma_dec_val_nonneg(a);
        assert(dec_val(b) == dec_val(a) * 10 + (s[j] - 48));
        assert(dec_val(a) * 10 >= dec_val(a));
        lemma_dec_val_prefix_le(s, j + 1);
    }
}

proof fn lemma_find_hdr_end_some(s: Seq<u8>, k: int, i: int)
    requires
        0 <= k <= i,
        hdr_end_at(s, i),
        forall|j: int| k <= j < i ==> !hdr_end_at(s, j),
    ensures
        find_hdr_end(s, k) == Some(i),
    decreases i - k,
{
    if k < i {
        lemma_find_hdr_end_some(s, k + 1, i);
    }
}

proof fn lemma_find_hdr_end_none(s: Seq<u8>, k: int)
    requires
        0 <= k,
        forall|j: int| k <= j ==> !hdr_end_at(s, j),
    ensures
        find_hdr_end(s, k) == None::<int>,
    decreases s.len() - k,
{
    if 0 <= k && k + 4 <= s.len() {
        lemma_find_hdr_end_none(s, k + 1);
    }
}

/// Parses a request buffer. `None` exactly when the request line holds fewer
/// than two non-blank tokens.
pub fn parse_request(buf: &Vec<u8>) -> (r: Option<Request>)
    ensures
        match r {
            Some(req) => parse_spec(buf@) == Some(req@),
            None => parse_spec(buf@) == None::<ReqView>,
        },
{
    let n = buf.len();
    let i1 = scan_byte(buf, 0, 10);
    let mut e: usize = i1;
    if e > 0 && buf[e - 1] == 13 {
        e = e - 1;
    }
    let line = subvec(buf, 0, e);
    proof {
        lemma_find_byte_bounds(buf@, 10, 0);
        let raw = buf@.subrange(0, i1 as int);
        if raw.len() > 0 && raw[raw.len() - 1] == 13 {
            assert(raw.drop_last() =~= buf@.subrange(0, i1 - 1));
            assert(line@ == first_line(buf@));
        } else {
            assert(line@ == first_line(buf@));
        }
    }
    let m0 = scan_skip_ws(&line, 0);
    let m1 = scan_find_ws(&line, m0);
    let p0 = scan_skip_ws(&line, m1);
    let p1 = scan_find_ws(&line, p0);
    if m0 == line.len() || p0 == line.len() {
        return None;
    }
    let method = subvec(&line, m0, m1);
    let path = subvec(&line, p0, p1);

    let rest_start: usize = if i1 == n {
        n
    } else {
        i1 + 1
    };
    proof {
        assert(rest_after_line(buf@) =~= buf@.subrange(rest_start as int, n as int));
    }
    let ghost rest0 = rest_after_line(buf@);

    let mut hs: Vec<Header> = Vec::new();
    let mut pos: usize = rest_start;
    while pos < n
        invariant
            rest_start <= pos <= n,
            n == buf@.len(),
            rest0 == buf@.subrange(rest_start as int, n as int),
            views_of(hs@) + headers_of(buf@.subrange(pos as int, n as int)) == headers_of(rest0),
        decreases n - pos,
    {
        let ghost cur = buf@.subrange(pos as int, n as int);
        let j = scan_byte(buf, pos, 10);
        proof {
            lemma_find_byte_bounds(buf@, 10, pos as int);
            assert(forall|m: int| 0 <= m < j - pos ==> cur[m] == buf@[pos + m] && #[trigger] cur[m] != 10);
            if (j as int) < n as int {
                assert(cur[j - pos] == 10);
            }
            lemma_find_byte_is(cur, 10, 0, j - pos);
        }
        let mut le: usize = j;
        if le > pos && buf[le - 1] == 13 {
            le = le - 1;
        }
        let line_h = subvec(buf, pos, le);
        proof {
            let raw = cur.subrange(0, j - pos);
            assert(raw =~= buf@.subrange(pos as int, j as int));
            if raw.len() > 0 && raw[raw.len() - 1] == 13 {
                assert(raw.drop_last() =~= buf@.subrange(pos as int, j - 1));
                assert(line_h@ == first_line(cur));
            } else {
                assert(line_h@ == first_line(cur));
            }
        }
        let next: usize = if j == n {
            n
        } else {
            j + 1
        };
        proof {
            if j == n {
                assert(rest_after_line(cur) =~= buf@.subrange(next as int, n as int));
            } else {
                assert(rest_after_line(cur).len() == cur.len() - (j - pos) - 1);
                assert(rest_after_line(cur) =~= buf@.subrange(next as int, n as int));
            }
        }
        if line_h.len() == 0 {
            proof {
                assert(headers_of(cur) =~= Seq::<(Seq<u8>, Seq<u8>)>::empty());
                assert(buf@.subrange(n as int, n as int) =~= Seq::<u8>::empty());
                assert(views_of(hs@) + headers_of(buf@.subrange(n as int, n as int))
                    =~= views_of(hs@) + headers_of(cur));
            }
            pos = n;
        } else {
            let c = scan_byte(&line_h, 0, 58);
            if c < line_h.len() {
                let name = subvec(&line_h, 0, c);
                let raw_value = subvec(&line_h, c + 1, line_h.len());
                let value = trim_bytes(&raw_value);
                let ghost old_hs = hs@;
                let h = Header { name, value };
                proof {
                    assert(parse_header_line(line_h@) == Some(h@));
                }
                hs.push(h);
                proof {
                    assert(views_of(old_hs.push(h)) =~= views_of(old_hs) + seq![h@]);
                    assert(headers_of(cur) == seq![h@] + headers_of(rest_after_line(cur)));
                    assert(views_of(hs@) + headers_of(buf@.subrange(next as int, n as int))
                        =~= views_of(old_hs) + headers_of(cur));
                }
            } else {
                proof {
                    assert(parse_header_line(line_h@) == None::<(Seq<u8>, Seq<u8>)>);
                    assert(headers_of(cur) == headers_of(rest_after_line(cur)));
                }
            }
            pos = next;
        }
    }
    proof {
        assert(buf@.subrange(pos as int, n as int) =~= Seq::<u8>::empty());
        assert(views_of(hs@) == headers_of(rest0));
    }
    let req = Request { method, path, headers: hs };
    proof {
        assert(parse_spec(buf@) == Some(req@));
    }
    Some(req)
}

/// Looks up the value of the header named `name_lower` (given lower-cased),
/// comparing names case-insensitively; first match wins.
pub fn lookup_header(headers: &Vec<Header>, name_lower: &Vec<u8>) -> (r: Option<Vec<u8>>)
    requires
        lower_seq(name_lower@) == name_lower@,
    ensures
        match r {
            Some(v) => lookup_value(views_of(headers@), name_lower@) == Some(v@),
            None => lookup_value(views_of(headers@), name_lower@) == None::<Seq<u8>>,
        },
{
    let ghost hv = views_of(headers@);
    proof {
        assert(hv.subrange(0, hv.len() as int) =~= hv);
    }
    let mut k: usize = 0;
    while k < headers.len()
        invariant
            k <= headers@.len(),
            lower_seq(name_lower@) == name_lower@,
            hv == views_of(headers@),
            lookup_value(hv, name_lower@) == lookup_value(
                hv.subrange(k as int, hv.len() as int),
                name_lower@,
            ),
        decreases headers@.len() - k,
    {
        let ghost tail = hv.subrange(k as int, hv.len() as int);
        proof {
            assert(hv.len() == headers@.len());
            assert(hv[k as int] == headers@.map_values(|h: Header| h@)[k as int]);
            assert(hv[k as int] == headers@[k as int]@);
            assert(tail[0] == hv[k as int]);
            assert(tail[0].0 == headers@[k as int].name@);
            assert(tail[0].1 == headers@[k as int].value@);
            assert(tail.drop_first() =~= hv.subrange(k + 1 as int, hv.len() as int));
        }
        if bytes_eq_ci(&headers[k].name, name_lower) {
            let v = subvec(&headers[k].value, 0, headers[k].value.len());
            proof {
                assert(v@ =~= headers@[k as int]@.1);
                assert(lookup_value(tail, name_lower@) == Some(v@));
            }
            return Some(v);
        }
        proof {
            assert(lookup_value(tail, name_lower@) == lookup_value(tail.drop_first(), name_lower@));
        }
        k = k + 1;
    }
    proof {
        assert(hv.subrange(k as int, hv.len() as int) =~= Seq::<(Seq<u8>, Seq<u8>)>::empty());
    }
    None
}

/// The offset of the first body byte: four past the first CR LF CR LF of the
/// buffer, or `None` when the header block is never terminated.
pub fn body_start(buf: &Vec<u8>) -> (r: Option<usize>)
    ensures
        match r {
            Some(i) => body_start_spec(buf@) == Some(i as int) && 4 <= i <= buf@.len(),
            None => body_start_spec(buf@) == None::<int>,
        },
{
    let n = buf.len();
    if n < 4 {
        proof {
            assert(forall|j: int| 0 <= j ==> !hdr_end_at(buf@, j));
            lemma_find_hdr_end_none(buf@, 0);
        }
        return None;
    }
    let mut k: usize = 0;
    while k <= n - 4
        invariant
            n == buf@.len(),
            4 <= n,
            k <= n - 3,
            forall|j: int| 0 <= j < k ==> !hdr_end_at(buf@, j),
        decreases n - k,
    {
        if buf[k] == 13 && buf[k + 1] == 10 && buf[k + 2] == 13 && buf[k + 3] == 10 {
            proof {
                lemma_find_hdr_end_some(buf@, 0, k as int);
            }
            return Some(k + 4);
        }
        k = k + 1;
    }
    proof {
        assert(forall|j: int| 0 <= j ==> !hdr_end_at(buf@, j));
        lemma_find_hdr_end_none(buf@, 0);
    }
    None
}

/// The declared body length taken from the Content-Length header: its value
/// when it is a nonempty run of digits that fits in `usize`, else 0.
pub fn content_length(headers: &Vec<Header>) -> (n: usize)
    ensures
        n as int == content_length_of(views_of(headers@)),
{
    let name = crate::lit::content_length_name_v();
    proof {
        assert(lower_seq(name@) =~= name@);
    }
    let v = match lookup_header(headers, &name) {
        Some(v) => v,
        None => {
            return 0;
        },
    };
    if v.len() == 0 {
        return 0;
    }
    let mut acc: usize = 0;
    let mut i: usize = 0;
    while i < v.len()
        invariant
            i <= v@.len(),
            v@.len() > 0,
            lookup_value(views_of(headers@), content_length_name()) == Some(v@),
            forall|j: int| 0 <= j < i ==> is_digit(v@[j]),
            acc as int == dec_val(v@.subrange(0, i as int)),
        decreases v@.len() - i,
    {
        let b = v[i];
        if !(48 <= b && b <= 57) {
            proof {
                assert(!all_digits(v@));
            }
            return 0;
        }
        let d = (b - 48) as usize;
        proof {
            assert(v@.subrange(0, i + 1 as int).drop_last() =~= v@.subrange(0, i as int));
            assert(dec_val(v@.subrange(0, i + 1 as int)) == acc as int * 10 + d);
        }
        if acc > (usize::MAX - d) / 10 {
            proof {
                let m = usize::MAX as int;
                assert(acc as int * 10 + d > m) by (nonlinear_arith)
                    requires
                        acc as int > (m - d) / 10,
                        0 <= d <= 9,
                        m == usize::MAX as int,
                ;
                assert(all_digits(v@.subrange(0, i + 1 as int)));
                assert(forall|j: int|
                    0 <= j < v@.len() && !is_digit(v@[j]) ==> !all_digits(v@));
                if all_digits(v@) {
                    lemma_dec_val_prefix_le(v@, i + 1);
                    assert(dec_val(v@) > usize::MAX as int);
                }
            }
            return 0;
        }
        proof {
            let m = usize::MAX as int;
            assert(acc as int * 10 + d <= m) by (nonlinear_arith)
                requires
                    acc as int <= (m - d) / 10,
                    0 <= acc as int,
                    0 <= d <= 9,
                    m == usize::MAX as int,
            ;
        }
        acc = acc * 10 + d;
        i = i + 1;
    }
    proof {
        assert(v@.subrange(0, v@.len() as int) =~= v@);
        assert(all_digits(v@));
    }
    acc
}

} // verus!
