//! The laws of the server, proved over the dispatch and serialization
//! specs: the echo route answers byte-identically, gzip negotiation
//! compresses every eligible body and announces it, the user-agent route
//! reflects the header, uploads are truncate-then-write idempotent, and a
//! partially captured upload body is demanded up to exactly the declared
//! Content-Length before anything is written.

use vstd::prelude::*;

use crate::bytes::has_prefix;
use crate::gzip::gzip_of;
use crate::lit::{
    get_method, echo_prefix, user_agent_path, files_prefix, status_200, text_plain, octet_stream,
    ce_gzip_line, ct_prefix, crlf, resp_404,
};
use crate::negotiate::accepts_gzip;
use crate::parse::{parse_spec, content_length_of, ReqView};
use crate::response::{response_bytes, body_response_spec};
use crate::handler::{handle_spec, get_step_spec, ua_body, file_response_spec, StepView};

verus! {

/// A serialized response ends with the very body it was built from: the
/// last `body.len()` bytes of `response_bytes(..)` are `body`.
pub proof fn lemma_response_carries_body(status: Seq<u8>, ct: Seq<u8>, gz: bool, body: Seq<u8>)
    ensures
        response_bytes(status, ct, gz, body).len() >= body.len(),
        response_bytes(status, ct, gz, body).subrange(
            response_bytes(status, ct, gz, body).len() - body.len(),
            response_bytes(status, ct, gz, body).len() as int,
        ) == body,
{
    let r = response_bytes(status, ct, gz, body);
    assert(r.subrange(r.len() - body.len(), r.len() as int) =~= body);
}

/// When gzip was negotiated, an eligible response transmits the compressed
/// body, and the Content-Encoding line stands right after the Content-Type
/// line.
pub proof fn lemma_gzip_response(status: Seq<u8>, ct: Seq<u8>, body: Seq<u8>)
    ensures
        body_response_spec(status, ct, true, body) == response_bytes(
            status,
            ct,
            true,
            gzip_of(body),
        ),
        response_bytes(status, ct, true, gzip_of(body)).subrange(
            status.len() + ct_prefix().len() + ct.len() + crlf().len() as int,
            status.len() + ct_prefix().len() + ct.len() + crlf().len() + ce_gzip_line().len() as int,
        ) == ce_gzip_line(),
{
    let r = response_bytes(status, ct, true, gzip_of(body));
    let a: int = status.len() + ct_prefix().len() + ct.len() + crlf().len() as int;
    assert(r.subrange(a, a + ce_gzip_line().len() as int) =~= ce_gzip_line());
}

/// The echo route without compression: a GET of `/echo/<s>` answers 200
/// with Content-Type text/plain, a Content-Length of `s.len()`, and body
/// exactly `s`, byte-identical and undecoded.
pub proof fn lemma_echo_plain(buf: Seq<u8>, req: ReqView, s: Seq<u8>)
    requires
        parse_spec(buf) == Some(req),
        req.method == get_method(),
        req.path == echo_prefix() + s,
        !accepts_gzip(req.headers),
    ensures
        handle_spec(buf) == StepView::Respond(response_bytes(status_200(), text_plain(), false, s)),
        response_bytes(status_200(), text_plain(), false, s).subrange(
            response_bytes(status_200(), text_plain(), false, s).len() - s.len(),
            response_bytes(status_200(), text_plain(), false, s).len() as int,
        ) == s,
{
    lemma_echo_route(req, s);
    lemma_response_carries_body(status_200(), text_plain(), false, s);
}

/// The echo route with compression negotiated: the transmitted body is the
/// compressed form of `s` and the response announces the encoding.
pub proof fn lemma_echo_gzip(buf: Seq<u8>, req: ReqView, s: Seq<u8>)
    requires
        parse_spec(buf) == Some(req),
        req.method == get_method(),
        req.path == echo_prefix() + s,
        accepts_gzip(req.headers),
    ensures
        handle_spec(buf) == StepView::Respond(
            response_bytes(status_200(), text_plain(), true, gzip_of(s)),
        ),
{
    lemma_echo_route(req, s);
}

/// A path of the shape `/echo/<s>` takes the echo branch of GET dispatch,
/// and the echoed body is exactly `s`.
proof fn lemma_echo_route(req: ReqView, s: Seq<u8>)
    requires
        req.path == echo_prefix() + s,
    ensures
        forall|gz: bool| #[trigger] get_step_spec(req, gz) == StepView::Respond(
            body_response_spec(status_200(), text_plain(), gz, s),
        ),
{
    assert(req.path[1] == 101);
    assert(!has_prefix(req.path, files_prefix())) by {
        if has_prefix(req.path, files_prefix()) {
            assert(req.path.subrange(0, 7)[1] == req.path[1]);
        }
    }
    assert(req.path != user_agent_path()) by {
        if req.path == user_agent_path() {
            assert(req.path[1] == 117);
        }
    }
    assert(has_prefix(req.path, echo_prefix())) by {
        assert(req.path.subrange(0, 6) =~= echo_prefix());
    }
    assert(req.path.skip(6) =~= s);
}

/// The user-agent route: a GET of `/user-agent` reflects the User-Agent
/// value as the body, and an empty body stands where the header is absent.
pub proof fn lemma_user_agent(buf: Seq<u8>, req: ReqView)
    requires
        parse_spec(buf) == Some(req),
        req.method == get_method(),
        req.path == user_agent_path(),
    ensures
        handle_spec(buf) == StepView::Respond(
            body_response_spec(
                status_200(),
                text_plain(),
                accepts_gzip(req.headers),
                ua_body(req.headers),
            ),
        ),
{
    assert(req.path[1] == 117);
    assert(!has_prefix(req.path, files_prefix())) by {
        if has_prefix(req.path, files_prefix()) {
            assert(req.path.subrange(0, 7)[1] == req.path[1]);
        }
    }
}

/// The file route compresses too when gzip was negotiated: the transmitted
/// body is the compressed file contents.
pub proof fn lemma_file_gzip(contents: Seq<u8>)
    ensures
        file_response_spec(Some(contents), true) == response_bytes(
            status_200(),
            octet_stream(),
            true,
            gzip_of(contents),
        ),
{
}

/// A GET of a file that does not exist answers 404 with no body, whatever
/// encoding was negotiated.
pub proof fn lemma_missing_file_404(gz: bool)
    ensures
        file_response_spec(None::<Seq<u8>>, gz) == resp_404(),
{
}

/// The served directory modeled as a map from file name to contents; an
/// upload replaces the named file's contents whole (truncate-then-write).
pub open spec fn dir_after_upload(
    dir: Map<Seq<u8>, Seq<u8>>,
    name: Seq<u8>,
    body: Seq<u8>,
) -> Map<Seq<u8>, Seq<u8>> {
    dir.insert(name, body)
}

/// Repeating an upload with the same body leaves the directory exactly as
/// one upload does: the file holds that body once, never appended.
pub proof fn lemma_upload_idempotent(dir: Map<Seq<u8>, Seq<u8>>, name: Seq<u8>, body: Seq<u8>)
    ensures
        dir_after_upload(dir_after_upload(dir, name, body), name, body) == dir_after_upload(
            dir,
            name,
            body,
        ),
{
    assert(dir_after_upload(dir_after_upload(dir, name, body), name, body) =~= dir_after_upload(
        dir,
        name,
        body,
    ));
}

/// Partial-read correctness, the continuation case: when the initial read
/// captured less body than the declared Content-Length, the dispatcher
/// demands exactly the difference, so the assembled body has exactly the
/// declared length before anything is written.
pub proof fn lemma_body_completion(
    buf: Seq<u8>,
    req: ReqView,
    name: Seq<u8>,
    prefix: Seq<u8>,
    need: int,
    extra: Seq<u8>,
)
    requires
        parse_spec(buf) == Some(req),
        handle_spec(buf) == (StepView::NeedBody { name, prefix, need }),
        extra.len() == need,
    ensures
        (prefix + extra).len() == content_length_of(req.headers),
{
}

/// Partial-read correctness, the captured case: when the dispatcher says to
/// write at once, the captured body already covers the declared length.
pub proof fn lemma_upload_covers_declared(buf: Seq<u8>, req: ReqView, name: Seq<u8>, body: Seq<u8>)
    requires
        parse_spec(buf) == Some(req),
        handle_spec(buf) == (StepView::WriteFile { name, body }),
    ensures
        body.len() >= content_length_of(req.headers),
{
}

} // verus!

