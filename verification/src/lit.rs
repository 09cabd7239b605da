//! The literal byte strings of the wire protocol: method names, route
//! prefixes, header names, status lines and header fragments.

use vstd::prelude::*;

verus! {

/// The bytes of 'GET'.
pub open spec fn get_method() -> Seq<u8> {
    seq![71u8, 69u8, 84u8]
}

/// The bytes of 'GET', as a vector.
pub fn get_method_v() -> (r: Vec<u8>)
    ensures
        r@ == get_method(),
{
    let v: Vec<u8> = vec![71u8, 69u8, 84u8];
    proof {
        assert(v@ =~= get_method());
    }
    v
}

/// The bytes of 'POST'.
pub open spec fn post_method() -> Seq<u8> {
    seq![80u8, 79u8, 83u8, 84u8]
}

/// The bytes of 'POST', as a vector.
pub fn post_method_v() -> (r: Vec<u8>)
    ensures
        r@ == post_method(),
{
    let v: Vec<u8> = vec![80u8, 79u8, 83u8, 84u8];
    proof {
        assert(v@ =~= post_method());
    }
    v
}

/// The bytes of '/'.
pub open spec fn root_path() -> Seq<u8> {
    seq![47u8]
}

/// The bytes of '/', as a vector.
pub fn root_path_v() -> (r: Vec<u8>)
    ensures
        r@ == root_path(),
{
    let v: Vec<u8> = vec![47u8];
    proof {
        assert(v@ =~= root_path());
    }
    v
}

/// The bytes of '/echo/'.
pub open spec fn echo_prefix() -> Seq<u8> {
    seq![47u8, 101u8, 99u8, 104u8, 111u8, 47u8]
}

/// The bytes of '/echo/', as a vector.
pub fn echo_prefix_v() -> (r: Vec<u8>)
    ensures
        r@ == echo_prefix(),
{
    let v: Vec<u8> = vec![47u8, 101u8, 99u8, 104u8, 111u8, 47u8];
    proof {
        assert(v@ =~= echo_prefix());
    }
    v
}

/// The bytes of '/user-agent'.
pub open spec fn user_agent_path() -> Seq<u8> {
    seq![47u8, 117u8, 115u8, 101u8, 114u8, 45u8, 97u8, 103u8, 101u8, 110u8, 116u8]
}

/// The bytes of '/user-agent', as a vector.
pub fn user_agent_path_v() -> (r: Vec<u8>)
    ensures
        r@ == user_agent_path(),
{
    let v: Vec<u8> = vec![47u8, 117u8, 115u8, 101u8, 114u8, 45u8, 97u8, 103u8, 101u8, 110u8, 116u8];
    proof {
        assert(v@ =~= user_agent_path());
    }
    v
}

/// The bytes of '/files/'.
pub open spec fn files_prefix() -> Seq<u8> {
    seq![47u8, 102u8, 105u8, 108u8, 101u8, 115u8, 47u8]
}

/// The bytes of '/files/', as a vector.
pub fn files_prefix_v() -> (r: Vec<u8>)
    ensures
        r@ == files_prefix(),
{
    let v: Vec<u8> = vec![47u8, 102u8, 105u8, 108u8, 101u8, 115u8, 47u8];
    proof {
        assert(v@ =~= files_prefix());
    }
    v
}

/// The bytes of 'accept-encoding'.
pub open spec fn accept_encoding_name() -> Seq<u8> {
    seq![97u8, 99u8, 99u8, 101u8, 112u8, 116u8, 45u8, 101u8, 110u8, 99u8, 111u8, 100u8, 105u8, 110u8, 103u8]
}

/// The bytes of 'accept-encoding', as a vector.
pub fn accept_encoding_name_v() -> (r: Vec<u8>)
    ensures
        r@ == accept_encoding_name(),
{
    let v: Vec<u8> = vec![97u8, 99u8, 99u8, 101u8, 112u8, 116u8, 45u8, 101u8, 110u8, 99u8, 111u8, 100u8, 105u8, 110u8, 103u8];
    proof {
        assert(v@ =~= accept_encoding_name());
    }
    v
}

/// The bytes of 'user-agent'.
pub open spec fn user_agent_name() -> Seq<u8> {
    seq![117u8, 115u8, 101u8, 114u8, 45u8, 97u8, 103u8, 101u8, 110u8, 116u8]
}

/// The bytes of 'user-agent', as a vector.
pub fn user_agent_name_v() -> (r: Vec<u8>)
    ensures
        r@ == user_agent_name(),
{
    let v: Vec<u8> = vec![117u8, 115u8, 101u8, 114u8, 45u8, 97u8, 103u8, 101u8, 110u8, 116u8];
    proof {
        assert(v@ =~= user_agent_name());
    }
    v
}

/// The bytes of 'content-length'.
pub open spec fn content_length_name() -> Seq<u8> {
    seq![99u8, 111u8, 110u8, 116u8, 101u8, 110u8, 116u8, 45u8, 108u8, 101u8, 110u8, 103u8, 116u8, 104u8]
}

/// The bytes of 'content-length', as a vector.
pub fn content_length_name_v() -> (r: Vec<u8>)
    ensures
        r@ == content_length_name(),
{
    let v: Vec<u8> = vec![99u8, 111u8, 110u8, 116u8, 101u8, 110u8, 116u8, 45u8, 108u8, 101u8, 110u8, 103u8, 116u8, 104u8];
    proof {
        assert(v@ =~= content_length_name());
    }
    v
}

/// The bytes of 'gzip'.
pub open spec fn gzip_token() -> Seq<u8> {
    seq![103u8, 122u8, 105u8, 112u8]
}

/// The bytes of 'gzip', as a vector.
pub fn gzip_token_v() -> (r: Vec<u8>)
    ensures
        r@ == gzip_token(),
{
    let v: Vec<u8> = vec![103u8, 122u8, 105u8, 112u8];
    proof {
        assert(v@ =~= gzip_token());
    }
    v
}

/// The bytes of 'HTTP/1.1 200 OK'.
pub open spec fn status_200() -> Seq<u8> {
    seq![72u8, 84u8, 84u8, 80u8, 47u8, 49u8, 46u8, 49u8, 32u8, 50u8, 48u8, 48u8, 32u8, 79u8, 75u8]
}

/// The bytes of 'HTTP/1.1 200 OK', as a vector.
pub fn status_200_v() -> (r: Vec<u8>)
    ensures
        r@ == status_200(),
{
    let v: Vec<u8> = vec![72u8, 84u8, 84u8, 80u8, 47u8, 49u8, 46u8, 49u8, 32u8, 50u8, 48u8, 48u8, 32u8, 79u8, 75u8];
    proof {
        assert(v@ =~= status_200());
    }
    v
}

/// The bytes of 'HTTP/1.1 200 OK\r\n\r\n'.
pub open spec fn resp_200_empty() -> Seq<u8> {
    seq![72u8, 84u8, 84u8, 80u8, 47u8, 49u8, 46u8, 49u8, 32u8, 50u8, 48u8, 48u8, 32u8, 79u8, 75u8, 13u8, 10u8, 13u8, 10u8]
}

/// The bytes of 'HTTP/1.1 200 OK\r\n\r\n', as a vector.
pub fn resp_200_empty_v() -> (r: Vec<u8>)
    ensures
        r@ == resp_200_empty(),
{
    let v: Vec<u8> = vec![72u8, 84u8, 84u8, 80u8, 47u8, 49u8, 46u8, 49u8, 32u8, 50u8, 48u8, 48u8, 32u8, 79u8, 75u8, 13u8, 10u8, 13u8, 10u8];
    proof {
        assert(v@ =~= resp_200_empty());
    }
    v
}

/// The bytes of 'HTTP/1.1 404 Not Found\r\n\r\n'.
pub open spec fn resp_404() -> Seq<u8> {
    seq![72u8, 84u8, 84u8, 80u8, 47u8, 49u8, 46u8, 49u8, 32u8, 52u8, 48u8, 52u8, 32u8, 78u8, 111u8, 116u8, 32u8, 70u8, 111u8, 117u8, 110u8, 100u8, 13u8, 10u8, 13u8, 10u8]
}

/// The bytes of 'HTTP/1.1 404 Not Found\r\n\r\n', as a vector.
pub fn resp_404_v() -> (r: Vec<u8>)
    ensures
        r@ == resp_404(),
{
    let v: Vec<u8> = vec![72u8, 84u8, 84u8, 80u8, 47u8, 49u8, 46u8, 49u8, 32u8, 52u8, 48u8, 52u8, 32u8, 78u8, 111u8, 116u8, 32u8, 70u8, 111u8, 117u8, 110u8, 100u8, 13u8, 10u8, 13u8, 10u8];
    proof {
        assert(v@ =~= resp_404());
    }
    v
}

/// The bytes of 'HTTP/1.1 405 Method Not Allowed\r\n\r\n'.
pub open spec fn resp_405() -> Seq<u8> {
    seq![72u8, 84u8, 84u8, 80u8, 47u8, 49u8, 46u8, 49u8, 32u8, 52u8, 48u8, 53u8, 32u8, 77u8, 101u8, 116u8, 104u8, 111u8, 100u8, 32u8, 78u8, 111u8, 116u8, 32u8, 65u8, 108u8, 108u8, 111u8, 119u8, 101u8, 100u8, 13u8, 10u8, 13u8, 10u8]
}

/// The bytes of 'HTTP/1.1 405 Method Not Allowed\r\n\r\n', as a vector.
pub fn resp_405_v() -> (r: Vec<u8>)
    ensures
        r@ == resp_405(),
{
    let v: Vec<u8> = vec![72u8, 84u8, 84u8, 80u8, 47u8, 49u8, 46u8, 49u8, 32u8, 52u8, 48u8, 53u8, 32u8, 77u8, 101u8, 116u8, 104u8, 111u8, 100u8, 32u8, 78u8, 111u8, 116u8, 32u8, 65u8, 108u8, 108u8, 111u8, 119u8, 101u8, 100u8, 13u8, 10u8, 13u8, 10u8];
    proof {
        assert(v@ =~= resp_405());
    }
    v
}

/// The bytes of 'HTTP/1.1 201 Created\r\n\r\n'.
pub open spec fn resp_201() -> Seq<u8> {
    seq![72u8, 84u8, 84u8, 80u8, 47u8, 49u8, 46u8, 49u8, 32u8, 50u8, 48u8, 49u8, 32u8, 67u8, 114u8, 101u8, 97u8, 116u8, 101u8, 100u8, 13u8, 10u8, 13u8, 10u8]
}

/// The bytes of 'HTTP/1.1 201 Created\r\n\r\n', as a vector.
pub fn resp_201_v() -> (r: Vec<u8>)
    ensures
        r@ == resp_201(),
{
    let v: Vec<u8> = vec![72u8, 84u8, 84u8, 80u8, 47u8, 49u8, 46u8, 49u8, 32u8, 50u8, 48u8, 49u8, 32u8, 67u8, 114u8, 101u8, 97u8, 116u8, 101u8, 100u8, 13u8, 10u8, 13u8, 10u8];
    proof {
        assert(v@ =~= resp_201());
    }
    v
}

/// The bytes of '\r\nContent-Type: '.
pub open spec fn ct_prefix() -> Seq<u8> {
    seq![13u8, 10u8, 67u8, 111u8, 110u8, 116u8, 101u8, 110u8, 116u8, 45u8, 84u8, 121u8, 112u8, 101u8, 58u8, 32u8]
}

/// The bytes of '\r\nContent-Type: ', as a vector.
pub fn ct_prefix_v() -> (r: Vec<u8>)
    ensures
        r@ == ct_prefix(),
{
    let v: Vec<u8> = vec![13u8, 10u8, 67u8, 111u8, 110u8, 116u8, 101u8, 110u8, 116u8, 45u8, 84u8, 121u8, 112u8, 101u8, 58u8, 32u8];
    proof {
        assert(v@ =~= ct_prefix());
    }
    v
}

/// The bytes of 'Content-Encoding: gzip\r\n'.
pub open spec fn ce_gzip_line() -> Seq<u8> {
    seq![67u8, 111u8, 110u8, 116u8, 101u8, 110u8, 116u8, 45u8, 69u8, 110u8, 99u8, 111u8, 100u8, 105u8, 110u8, 103u8, 58u8, 32u8, 103u8, 122u8, 105u8, 112u8, 13u8, 10u8]
}

/// The bytes of 'Content-Encoding: gzip\r\n', as a vector.
pub fn ce_gzip_line_v() -> (r: Vec<u8>)
    ensures
        r@ == ce_gzip_line(),
{
    let v: Vec<u8> = vec![67u8, 111u8, 110u8, 116u8, 101u8, 110u8, 116u8, 45u8, 69u8, 110u8, 99u8, 111u8, 100u8, 105u8, 110u8, 103u8, 58u8, 32u8, 103u8, 122u8, 105u8, 112u8, 13u8, 10u8];
    proof {
        assert(v@ =~= ce_gzip_line());
    }
    v
}

/// The bytes of 'Content-Length: '.
pub open spec fn cl_prefix() -> Seq<u8> {
    seq![67u8, 111u8, 110u8, 116u8, 101u8, 110u8, 116u8, 45u8, 76u8, 101u8, 110u8, 103u8, 116u8, 104u8, 58u8, 32u8]
}

/// The bytes of 'Content-Length: ', as a vector.
pub fn cl_prefix_v() -> (r: Vec<u8>)
    ensures
        r@ == cl_prefix(),
{
    let v: Vec<u8> = vec![67u8, 111u8, 110u8, 116u8, 101u8, 110u8, 116u8, 45u8, 76u8, 101u8, 110u8, 103u8, 116u8, 104u8, 58u8, 32u8];
    proof {
        assert(v@ =~= cl_prefix());
    }
    v
}

/// The bytes of '\r\n'.
pub open spec fn crlf() -> Seq<u8> {
    seq![13u8, 10u8]
}

/// The bytes of '\r\n', as a vector.
pub fn crlf_v() -> (r: Vec<u8>)
    ensures
        r@ == crlf(),
{
    let v: Vec<u8> = vec![13u8, 10u8];
    proof {
        assert(v@ =~= crlf());
    }
    v
}

/// The bytes of '\r\n\r\n'.
pub open spec fn hdr_end_mark() -> Seq<u8> {
    seq![13u8, 10u8, 13u8, 10u8]
}

/// The bytes of '\r\n\r\n', as a vector.
pub fn hdr_end_mark_v() -> (r: Vec<u8>)
    ensures
        r@ == hdr_end_mark(),
{
    let v: Vec<u8> = vec![13u8, 10u8, 13u8, 10u8];
    proof {
        assert(v@ =~= hdr_end_mark());
    }
    v
}

/// The bytes of 'text/plain'.
pub open spec fn text_plain() -> Seq<u8> {
    seq![116u8, 101u8, 120u8, 116u8, 47u8, 112u8, 108u8, 97u8, 105u8, 110u8]
}

/// The bytes of 'text/plain', as a vector.
pub fn text_plain_v() -> (r: Vec<u8>)
    ensures
        r@ == text_plain(),
{
    let v: Vec<u8> = vec![116u8, 101u8, 120u8, 116u8, 47u8, 112u8, 108u8, 97u8, 105u8, 110u8];
    proof {
        assert(v@ =~= text_plain());
    }
    v
}

/// The bytes of 'application/octet-stream'.
pub open spec fn octet_stream() -> Seq<u8> {
    seq![97u8, 112u8, 112u8, 108u8, 105u8, 99u8, 97u8, 116u8, 105u8, 111u8, 110u8, 47u8, 111u8, 99u8, 116u8, 101u8, 116u8, 45u8, 115u8, 116u8, 114u8, 101u8, 97u8, 109u8]
}

/// The bytes of 'application/octet-stream', as a vector.
pub fn octet_stream_v() -> (r: Vec<u8>)
    ensures
        r@ == octet_stream(),
{
    let v: Vec<u8> = vec![97u8, 112u8, 112u8, 108u8, 105u8, 99u8, 97u8, 116u8, 105u8, 111u8, 110u8, 47u8, 111u8, 99u8, 116u8, 101u8, 116u8, 45u8, 115u8, 116u8, 114u8, 101u8, 97u8, 109u8];
    proof {
        assert(v@ =~= octet_stream());
    }
    v
}

} // verus!
