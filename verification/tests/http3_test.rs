use qubwic::http3;
use qubwic::http3::{on_h3_event, request_path, response_for, response_headers, H3Event, H3Step};

#[test]
fn test_route_request_api() {
    let (status, body) = http3::route_request("/api/test");
    assert_eq!(status, 200);
    let body_str = std::str::from_utf8(&body).unwrap();
    assert!(body_str.contains("quiche test"));
}

#[test]
fn test_route_request_root() {
    let (status, body) = http3::route_request("/");
    assert_eq!(status, 200);
    let body_str = std::str::from_utf8(&body).unwrap();
    assert!(body_str.contains("Hello, I'm server!"));
}

#[test]
fn test_route_request_unknown() {
    let (status, body) = http3::route_request("/unknown");
    assert_eq!(status, 200);
    let body_str = std::str::from_utf8(&body).unwrap();
    assert!(body_str.contains("Hello, I'm server!"));
}

#[test]
fn route_bodies_are_exact() {
    assert_eq!(
        http3::route_request("/api").1,
        b"{\"message\": \"quiche test\", \"status\": \"ok\"}".to_vec()
    );
    assert_eq!(http3::route_request("/ap").1, b"<h1>Hello, I'm server!</h1>".to_vec());
    assert_eq!(http3::route_request("").1, b"<h1>Hello, I'm server!</h1>".to_vec());
}

fn h(name: &[u8], value: &[u8]) -> (Vec<u8>, Vec<u8>) {
    (name.to_vec(), value.to_vec())
}

#[test]
fn path_is_the_last_path_header() {
    assert_eq!(request_path(&vec![]), "/");
    assert_eq!(request_path(&vec![h(b":method", b"GET")]), "/");
    assert_eq!(request_path(&vec![h(b":path", b"/a"), h(b":path", b"/api/x")]), "/api/x");
    assert_eq!(request_path(&vec![h(b":path", b"/api"), h(b":path", &[0xff, 0x2f])]), "/");
    assert_eq!(request_path(&vec![h(b":path", b"/caf\xc3\xa9")]), "/café");
}

#[test]
fn response_follows_the_path() {
    let (s, body) = response_for(&vec![h(b":path", b"/api/v1")]);
    assert_eq!(s, 200);
    assert!(std::str::from_utf8(&body).unwrap().contains("quiche test"));
    let (_, body) = response_for(&vec![h(b":path", &[b'/', b'a', b'p', b'i', 0xff])]);
    assert!(std::str::from_utf8(&body).unwrap().contains("Hello"));
}

#[test]
fn response_head() {
    let hs = response_headers(200, 27);
    assert_eq!(
        hs,
        vec![h(b":status", b"200"), h(b"server", b"quiche"), h(b"content-length", b"27")]
    );
}

#[test]
fn event_steps() {
    assert_eq!(on_h3_event(H3Event::Headers), H3Step::Respond);
    assert_eq!(on_h3_event(H3Event::Data), H3Step::Continue);
    assert_eq!(on_h3_event(H3Event::Finished), H3Step::Continue);
    assert_eq!(on_h3_event(H3Event::Reset), H3Step::Continue);
    assert_eq!(on_h3_event(H3Event::PriorityUpdate), H3Step::Continue);
    assert_eq!(on_h3_event(H3Event::GoAway), H3Step::Continue);
    assert_eq!(on_h3_event(H3Event::Done), H3Step::Stop);
    assert_eq!(on_h3_event(H3Event::Failed), H3Step::Stop);
}
