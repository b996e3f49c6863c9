//! HTTP/3 request handling: which response a request gets, and how the
//! response head is written.
use vstd::prelude::*;
use vstd::string::StringSliceAdditionalSpecFns;
use vstd::utf8::{encode_utf8, valid_utf8};
use vstd::slice::slice_to_vec;
use crate::numeric::{decimal, decimal_bytes};
use crate::connection::manager::bytes_equal;

verus! {

/// The body of the response to requests under `/api`.
pub open spec fn api_body() -> Seq<char> {
    "{\"message\": \"quiche test\", \"status\": \"ok\"}"@
}

/// The body of the response to every other request.
pub open spec fn page_body() -> Seq<char> {
    "<h1>Hello, I'm server!</h1>"@
}

/// `path` starts with `/api` (as bytes, the way `str::starts_with` compares).
pub open spec fn is_api_path(path: Seq<u8>) -> bool {
    path.len() >= 4 && path.subrange(0, 4) == encode_utf8("/api"@)
}

/// Routes a request to its handler: status and body.
pub fn route_request(path: &str) -> (r: (u16, Vec<u8>))
    ensures
        r.0 == 200,
        r.1@ == encode_utf8(
            if is_api_path(path.spec_bytes()) {
                api_body()
            } else {
                page_body()
            },
        ),
{
    let p = path.as_bytes();
    let prefix = "/api".as_bytes();
    if p.len() >= 4 && bytes_equal(vstd::slice::slice_subrange(p, 0, 4), prefix) {
        (200, slice_to_vec("{\"message\": \"quiche test\", \"status\": \"ok\"}".as_bytes()))
    } else {
        (200, slice_to_vec("<h1>Hello, I'm server!</h1>".as_bytes()))
    }
}

/// The value of the last `:path` header among `headers`, if there is one.
pub open spec fn last_path_header(headers: Seq<(Vec<u8>, Vec<u8>)>) -> Option<Seq<u8>>
    decreases headers.len(),
{
    if headers.len() == 0 {
        None
    } else if headers.last().0@ == encode_utf8(":path"@) {
        Some(headers.last().1@)
    } else {
        last_path_header(headers.drop_last())
    }
}

/// The path of a request: the last `:path` header where it is valid UTF-8,
/// else `/`.
pub open spec fn request_path_bytes(headers: Seq<(Vec<u8>, Vec<u8>)>) -> Seq<u8> {
    match last_path_header(headers) {
        Some(v) => if valid_utf8(v) {
            v
        } else {
            encode_utf8("/"@)
        },
        None => encode_utf8("/"@),
    }
}

/// `bytes` read as UTF-8 text (`std::str::from_utf8`), which succeeds
/// exactly on valid UTF-8 and then holds the same bytes.
#[verifier::external_body]
fn utf8_text(bytes: &[u8]) -> (r: Option<&str>)
    ensures
        r is Some <==> valid_utf8(bytes@),
        r matches Some(s) ==> s.spec_bytes() == bytes@,
{
    std::str::from_utf8(bytes).ok()
}

/// The path that a request asks for, from its headers.
pub fn request_path(headers: &Vec<(Vec<u8>, Vec<u8>)>) -> (p: String)
    ensures
        encode_utf8(p@) == request_path_bytes(headers@),
{
    let name = ":path".as_bytes();
    let mut path = String::from_str("/");
    let mut i: usize = 0;
    while i < headers.len()
        invariant
            0 <= i <= headers@.len(),
            name@ == encode_utf8(":path"@),
            encode_utf8(path@) == match last_path_header(headers@.take(i as int)) {
                Some(v) => if valid_utf8(v) {
                    v
                } else {
                    encode_utf8("/"@)
                },
                None => encode_utf8("/"@),
            },
        decreases headers@.len() - i,
    {
        assert(headers@.take(i + 1).drop_last() =~= headers@.take(i as int));
        assert(headers@.take(i + 1).last() == headers@[i as int]);
        if bytes_equal(headers[i].0.as_slice(), name) {
            path = match utf8_text(headers[i].1.as_slice()) {
                Some(s) => String::from_str(s),
                None => String::from_str("/"),
            };
        }
        i = i + 1;
    }
    assert(headers@.take(headers@.len() as int) =~= headers@);
    path
}

/// The status and body of the response to a request with these headers.
pub fn response_for(headers: &Vec<(Vec<u8>, Vec<u8>)>) -> (r: (u16, Vec<u8>))
    ensures
        r.0 == 200,
        r.1@ == encode_utf8(
            if is_api_path(request_path_bytes(headers@)) {
                api_body()
            } else {
                page_body()
            },
        ),
{
    let path = request_path(headers);
    route_request(path.as_str())
}

/// The head of a response: its status, the server's name and the length
/// of the body, in that order.
pub fn response_headers(status: u16, content_len: usize) -> (h: Vec<(Vec<u8>, Vec<u8>)>)
    ensures
        h@.len() == 3,
        h@[0].0@ == encode_utf8(":status"@),
        h@[0].1@ == decimal(status as nat),
        h@[1].0@ == encode_utf8("server"@),
        h@[1].1@ == encode_utf8("quiche"@),
        h@[2].0@ == encode_utf8("content-length"@),
        h@[2].1@ == decimal(content_len as nat),
{
    let mut h: Vec<(Vec<u8>, Vec<u8>)> = Vec::new();
    h.push((slice_to_vec(":status".as_bytes()), decimal_bytes(status as u64)));
    h.push((slice_to_vec("server".as_bytes()), slice_to_vec("quiche".as_bytes())));
    h.push((slice_to_vec("content-length".as_bytes()), decimal_bytes(content_len as u64)));
    h
}

/// What an HTTP/3 connection reported when polled.
#[derive(Clone, Copy, Debug, PartialEq, Eq)]
pub enum H3Event {
    Headers,
    Data,
    Finished,
    Reset,
    PriorityUpdate,
    GoAway,
    /// No more events for now.
    Done,
    /// Polling failed.
    Failed,
}

/// What to do after polling an HTTP/3 connection.
#[derive(Clone, Copy, Debug, PartialEq, Eq)]
pub enum H3Step {
    /// Answer the request whose headers arrived, then poll again.
    Respond,
    /// Poll again.
    Continue,
    /// Stop polling.
    Stop,
}

/// The stream-handling loop: headers are answered, other events are
/// noted, and polling stops once nothing is left or an error comes.
pub fn on_h3_event(event: H3Event) -> (s: H3Step)
    ensures
        s == (match event {
            H3Event::Headers => H3Step::Respond,
            H3Event::Done | H3Event::Failed => H3Step::Stop,
            _ => H3Step::Continue,
        }),
{
    match event {
        H3Event::Headers => H3Step::Respond,
        H3Event::Done | H3Event::Failed => H3Step::Stop,
        _ => H3Step::Continue,
    }
}

} // verus!

verus! {

/// A path is routed to the API exactly when its first four bytes are `/`,
/// `a`, `p`, `i`; every other path, however close, gets the page.
pub proof fn law_api_paths(path: Seq<u8>)
    ensures
        is_api_path(path) <==> (path.len() >= 4 && path[0] == 47u8 && path[1] == 97u8 && path[2]
            == 112u8 && path[3] == 105u8),
{
    reveal_strlit("/api");
    vstd::utf8::is_ascii_chars_encode_utf8("/api"@);
    let e = encode_utf8("/api"@);
    assert(e.len() == 4);
    assert(e[0] == 47u8 && e[1] == 97u8 && e[2] == 112u8 && e[3] == 105u8);
    if path.len() >= 4 && path[0] == 47u8 && path[1] == 97u8 && path[2] == 112u8 && path[3]
        == 105u8 {
        assert(path.subrange(0, 4) =~= e);
    }
    if is_api_path(path) {
        assert(path[0] == path.subrange(0, 4)[0]);
        assert(path[1] == path.subrange(0, 4)[1]);
        assert(path[2] == path.subrange(0, 4)[2]);
        assert(path[3] == path.subrange(0, 4)[3]);
    }
}

} // verus!

verus! {

/// The path of a request is decided by its last `:path` header: with no
/// headers it is `/`; a `:path` header added last sets it (to `/` where its
/// value is not UTF-8); any other header added last leaves it as it was.
pub proof fn law_last_path_header_decides(
    headers: Seq<(Vec<u8>, Vec<u8>)>,
    h: (Vec<u8>, Vec<u8>),
)
    ensures
        request_path_bytes(Seq::<(Vec<u8>, Vec<u8>)>::empty()) == encode_utf8("/"@),
        h.0@ == encode_utf8(":path"@) ==> request_path_bytes(headers.push(h)) == (if valid_utf8(
            h.1@,
        ) {
            h.1@
        } else {
            encode_utf8("/"@)
        }),
        h.0@ != encode_utf8(":path"@) ==> request_path_bytes(headers.push(h)) == request_path_bytes(
            headers,
        ),
{
    assert(headers.push(h).drop_last() =~= headers);
}

} // verus!
