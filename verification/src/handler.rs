//! The route dispatcher, phrased as one step of the connection state
//! machine: from the bytes of the initial read to the next action the
//! server must take. Actions that need the outside world — reading or
//! writing a file under the served directory, pulling the rest of an upload
//! body from the stream — are returned as data; the caller performs them
//! and comes back to `file_get_response` or `complete_body`.

use vstd::prelude::*;

use crate::bytes::{has_prefix, lower_seq, append_bytes, subvec, bytes_eq, starts_with};
use crate::lit::{
    get_method, get_method_v, post_method, post_method_v, root_path, root_path_v, echo_prefix,
    echo_prefix_v, user_agent_path, user_agent_path_v, files_prefix, files_prefix_v,
    user_agent_name, user_agent_name_v, status_200, status_200_v, text_plain, text_plain_v,
    octet_stream, octet_stream_v, resp_200_empty, resp_200_empty_v, resp_404, resp_404_v,
    resp_405, resp_405_v,
};
use crate::parse::{
    parse_spec, parse_request, lookup_value, lookup_header, body_start_spec, body_start,
    content_length_of, content_length, ReqView,
};
use crate::negotiate::{accepts_gzip, check_gzip_support};
use crate::response::{body_response_spec, response_with_body};

verus! {

/// The next action a connection's handling task must take.
pub enum Step {
    /// Abandon this connection without an answer (unparsable request, or an
    /// upload whose header block never ends).
    Close,
    /// Write these bytes to the connection and finish.
    Respond(Vec<u8>),
    /// Read the named file under the served directory, then build the answer
    /// with `file_get_response`.
    ReadFile { name: Vec<u8>, accept_gzip: bool },
    /// The upload body is not fully present yet: read exactly `need` more
    /// bytes, join them to `prefix` with `complete_body`, then write the
    /// named file and answer 201.
    NeedBody { name: Vec<u8>, prefix: Vec<u8>, need: usize },
    /// Write `body` to the named file (replacing any former contents) and
    /// answer 201.
    WriteFile { name: Vec<u8>, body: Vec<u8> },
}

/// The mathematical form of a `Step`.
#[verifier::ext_equal]
pub enum StepView {
    Close,
    Respond(Seq<u8>),
    ReadFile { name: Seq<u8>, accept_gzip: bool },
    NeedBody { name: Seq<u8>, prefix: Seq<u8>, need: int },
    WriteFile { name: Seq<u8>, body: Seq<u8> },
}

impl View for Step {
    type V = StepView;

    open spec fn view(&self) -> StepView {
        match self {
            Step::Close => StepView::Close,
            Step::Respond(r) => StepView::Respond(r@),
            Step::ReadFile { name, accept_gzip } => StepView::ReadFile {
                name: name@,
                accept_gzip: *accept_gzip,
            },
            Step::NeedBody { name, prefix, need } => StepView::NeedBody {
                name: name@,
                prefix: prefix@,
                need: *need as int,
            },
            Step::WriteFile { name, body } => StepView::WriteFile { name: name@, body: body@ },
        }
    }
}

/// The body of the user-agent reflection: the User-Agent value when the
/// header is present, else empty.
pub open spec fn ua_body(hs: Seq<(Seq<u8>, Seq<u8>)>) -> Seq<u8> {
    match lookup_value(hs, user_agent_name()) {
        Some(v) => v,
        None => Seq::empty(),
    }
}

/// Dispatch of a GET request. Prefixes are tried in a fixed order: the
/// file route, the user-agent reflection, the echo route, the root probe,
/// else not found.
pub open spec fn get_step_spec(req: ReqView, gz: bool) -> StepView {
    if has_prefix(req.path, files_prefix()) {
        StepView::ReadFile { name: req.path.skip(files_prefix().len() as int), accept_gzip: gz }
    } else if req.path == user_agent_path() {
        StepView::Respond(body_response_spec(status_200(), text_plain(), gz, ua_body(req.headers)))
    } else if has_prefix(req.path, echo_prefix()) {
        StepView::Respond(
            body_response_spec(status_200(), text_plain(), gz, req.path.skip(
                echo_prefix().len() as int,
            )),
        )
    } else if req.path == root_path() {
        StepView::Respond(resp_200_empty())
    } else {
        StepView::Respond(resp_404())
    }
}

/// Dispatch of a POST request. Only the file route accepts uploads; the
/// body bytes already captured in the initial read are the part of the
/// buffer after the blank line, and more are demanded only when the
/// declared Content-Length exceeds what was captured.
///
/// The file name is the path suffix taken verbatim, here as on the GET
/// route: no traversal sanitization is applied, so a name holding `..`
/// reaches outside the served directory. Deliberate: whether that is
/// acceptable is a deployment question, not decided here.
pub open spec fn post_step_spec(req: ReqView, buf: Seq<u8>) -> StepView {
    if has_prefix(req.path, files_prefix()) {
        let name = req.path.skip(files_prefix().len() as int);
        match body_start_spec(buf) {
            None => StepView::Close,
            Some(bs) => {
                let prefix = buf.subrange(bs, buf.len() as int);
                let cl = content_length_of(req.headers);
                if prefix.len() >= cl {
                    StepView::WriteFile { name, body: prefix }
                } else {
                    StepView::NeedBody { name, prefix, need: cl - prefix.len() }
                }
            },
        }
    } else {
        StepView::Respond(resp_405())
    }
}

/// One step of the connection state machine: what the bytes of the initial
/// read oblige the server to do next.
pub open spec fn handle_spec(buf: Seq<u8>) -> StepView {
    match parse_spec(buf) {
        None => StepView::Close,
        Some(req) => {
            let gz = accepts_gzip(req.headers);
            if req.method == get_method() {
                get_step_spec(req, gz)
            } else if req.method == post_method() {
                post_step_spec(req, buf)
            } else {
                StepView::Respond(resp_405())
            }
        },
    }
}

/// Parses the initial read and dispatches it to the next action.
pub fn handle_request(buf: &Vec<u8>) -> (s: Step)
    ensures
        s@ == handle_spec(buf@),
{
    let req = match parse_request(buf) {
        Some(r) => r,
        None => {
            return Step::Close;
        },
    };
    let gz = check_gzip_support(&req.headers);
    let get_m = get_method_v();
    let post_m = post_method_v();
    if bytes_eq(&req.method, &get_m) {
        let files_p = files_prefix_v();
        if starts_with(&req.path, &files_p) {
            let name = subvec(&req.path, 7, req.path.len());
            proof {
                assert(name@ =~= req.path@.skip(files_prefix().len() as int));
            }
            Step::ReadFile { name, accept_gzip: gz }
        } else {
            let ua_p = user_agent_path_v();
            if bytes_eq(&req.path, &ua_p) {
                let ua_name = user_agent_name_v();
                proof {
                    assert(lower_seq(ua_name@) =~= ua_name@);
                }
                let body = match lookup_header(&req.headers, &ua_name) {
                    Some(v) => v,
                    None => Vec::new(),
                };
                let st = status_200_v();
                let ct = text_plain_v();
                let r = response_with_body(&st, &ct, gz, &body);
                Step::Respond(r)
            } else {
                let echo_p = echo_prefix_v();
                if starts_with(&req.path, &echo_p) {
                    let body = subvec(&req.path, 6, req.path.len());
                    proof {
                        assert(body@ =~= req.path@.skip(echo_prefix().len() as int));
                    }
                    let st = status_200_v();
                    let ct = text_plain_v();
                    let r = response_with_body(&st, &ct, gz, &body);
                    Step::Respond(r)
                } else {
                    let root_p = root_path_v();
                    if bytes_eq(&req.path, &root_p) {
                        Step::Respond(resp_200_empty_v())
                    } else {
                        Step::Respond(resp_404_v())
                    }
                }
            }
        }
    } else if bytes_eq(&req.method, &post_m) {
        let files_p = files_prefix_v();
        if starts_with(&req.path, &files_p) {
            let name = subvec(&req.path, 7, req.path.len());
            proof {
                assert(name@ =~= req.path@.skip(files_prefix().len() as int));
            }
            let bs = match body_start(buf) {
                Some(b) => b,
                None => {
                    return Step::Close;
                },
            };
            let prefix = subvec(buf, bs, buf.len());
            let cl = content_length(&req.headers);
            if prefix.len() >= cl {
                Step::WriteFile { name, body: prefix }
            } else {
                Step::NeedBody { need: cl - prefix.len(), name, prefix }
            }
        } else {
            Step::Respond(resp_405_v())
        }
    } else {
        Step::Respond(resp_405_v())
    }
}

/// Joins the body bytes captured in the initial read with the bytes read
/// afterwards.
pub fn complete_body(prefix: Vec<u8>, extra: &Vec<u8>) -> (r: Vec<u8>)
    ensures
        r@ == prefix@ + extra@,
{
    let mut r = prefix;
    append_bytes(&mut r, extra);
    r
}

/// What the file route answers: the file's contents as an octet-stream
/// body when the file exists, else 404 with no body.
pub open spec fn file_response_spec(contents: Option<Seq<u8>>, accept_gzip: bool) -> Seq<u8> {
    match contents {
        Some(b) => body_response_spec(status_200(), octet_stream(), accept_gzip, b),
        None => resp_404(),
    }
}

/// Serializes the answer of the file route, given the file's contents when
/// it exists.
pub fn file_get_response(contents: Option<&Vec<u8>>, accept_gzip: bool) -> (r: Vec<u8>)
    ensures
        match contents {
            Some(c) => r@ == file_response_spec(Some(c@), accept_gzip),
            None => r@ == file_response_spec(None::<Seq<u8>>, accept_gzip),
        },
{
    match contents {
        Some(c) => {
            let st = status_200_v();
            let ct = octet_stream_v();
            response_with_body(&st, &ct, accept_gzip, c)
        },
        None => resp_404_v(),
    }
}

} // verus!
