use std::collections::HashMap;

use rustisaur_stdlib::http::server::{
    get_content_type, match_route, response_headers, response_with_defaults, split_url,
    static_file_path, PendingResponse, RouteTable, ServerConfig, ServerState, StaticMounts,
};
use rustisaur_stdlib::net::http::HttpResponse;
use rustisaur_stdlib::websocket::client::{ConnectionState, WsEvent, WsSession};

#[test]
fn default_config_and_address() {
    let c = ServerConfig::default();
    assert_eq!(c.address(), "127.0.0.1:8080");
    let mut d = c.clone();
    d.host = "0.0.0.0".to_string();
    d.port = 0;
    assert_eq!(d.address(), "0.0.0.0:0");
    d.port = 65535;
    assert_eq!(d.address(), "0.0.0.0:65535");
}

#[test]
fn route_patterns() {
    assert!(match_route("/users/:id", "/users/42"));
    assert!(match_route("/files/*path", "/files/readme"));
    assert!(!match_route("/users/:id", "/users/42/posts"));
    assert!(!match_route("/users/:id", "/posts/42"));
    assert!(match_route("/exact", "/exact"));
    assert!(match_route("", ""));
}

#[test]
fn content_types_by_extension() {
    assert_eq!(get_content_type("index.html"), "text/html");
    assert_eq!(get_content_type("/a/b.min.js"), "application/javascript");
    assert_eq!(get_content_type("photo.JPG"), "application/octet-stream");
    assert_eq!(get_content_type("photo.jpeg"), "image/jpeg");
    assert_eq!(get_content_type("noext"), "application/octet-stream");
    assert_eq!(get_content_type("json"), "application/json");
}

#[test]
fn static_files_map_prefixes_to_directories() {
    assert_eq!(static_file_path("/static/app.css", "/static", "./public"), Some("./public/app.css".to_string()));
    assert_eq!(static_file_path("/static/", "/static", "./public"), Some("./public/index.html".to_string()));
    assert_eq!(static_file_path("/api/x", "/static", "./public"), None);
}

#[test]
fn urls_split_at_the_first_question_mark() {
    assert_eq!(split_url("/search?q=a?b"), ("/search".to_string(), "q=a?b".to_string()));
    assert_eq!(split_url("/plain"), ("/plain".to_string(), String::new()));
}

#[test]
fn response_defaults_and_headers() {
    let r = response_with_defaults(4, "{}".to_string(), None, None);
    assert_eq!((r.request_id, r.status, r.content_type.as_str()), (4, 200, "application/json"));
    let r = response_with_defaults(5, "x".to_string(), Some(404), Some("text/plain".to_string()));
    assert_eq!((r.status, r.content_type.as_str()), (404, "text/plain"));
    let c = ServerConfig::default();
    let full = response_headers(&c, "text/html", true);
    assert_eq!(full.len(), 4);
    assert_eq!(full[1], ("Access-Control-Allow-Origin".to_string(), "*".to_string()));
    assert_eq!(response_headers(&c, "text/html", false).len(), 2);
    let mut c2 = c.clone();
    c2.cors_enabled = false;
    assert_eq!(response_headers(&c2, "a/b", true), vec![("Content-Type".to_string(), "a/b".to_string())]);
}

#[test]
fn request_queue_is_first_in_first_out() {
    let mut st = ServerState::new();
    assert!(st.start().is_ok());
    assert_eq!(st.start(), Err("Server already running".to_string()));
    let a = st.enqueue_request("GET".to_string(), "/a".to_string(), String::new(), HashMap::new(), String::new());
    let b = st.enqueue_request("POST".to_string(), "/b".to_string(), "x=1".to_string(), HashMap::new(), "body".to_string());
    assert_eq!((a, b), (1, 2));
    assert_eq!(st.next_request_id(), 3);
    assert_eq!(st.poll_request().unwrap().path, "/a");
    let second = st.poll_request().unwrap();
    assert_eq!((second.request_id, second.query.as_str(), second.body.as_str()), (2, "x=1", "body"));
    assert!(st.poll_request().is_none());
}

#[test]
fn responses_reach_their_request() {
    let mut st = ServerState::new();
    st.start().unwrap();
    st.submit_response(PendingResponse { request_id: 2, status: 201, body: "two".to_string(), content_type: "text/plain".to_string() });
    st.submit_response(PendingResponse { request_id: 1, status: 200, body: "one".to_string(), content_type: "text/plain".to_string() });
    assert!(st.await_response(3).is_none());
    assert_eq!(st.await_response(1).unwrap().body, "one");
    assert_eq!(st.take_response(2).unwrap().status, 201);
    assert!(st.take_response(2).is_none());
    st.stop();
    assert!(!st.is_running());
    let r = st.await_response(9).unwrap();
    assert_eq!((r.request_id, r.status), (9, 503));
    assert_eq!(r.body, "{\"error\":\"Server shutting down\"}");
}

#[test]
fn routes_are_found_exactly_then_by_pattern() {
    let mut t: RouteTable<u32> = RouteTable::new();
    t.add_route("get", "/users/:id", 1);
    t.add_route("GET", "/users/me", 2);
    t.add_route("post", "/users", 3);
    t.add_route("Get", "/users/me", 4);
    assert_eq!(t.len(), 3);
    assert_eq!(t.find("GET", "/users/me"), Some(&4));
    assert_eq!(t.find("GET", "/users/7"), Some(&1));
    assert_eq!(t.find("POST", "/users"), Some(&3));
    assert_eq!(t.find("DELETE", "/users"), None);
    assert_eq!(t.find("get", "/users/7"), None);
}

#[test]
fn http_response_clone() {
    let r = HttpResponse { status: 200, body: "ok".to_string(), content_type: Some("text/plain".to_string()) };
    let c = r.clone();
    assert_eq!((c.status, c.body.as_str(), c.content_type.as_deref()), (200, "ok", Some("text/plain")));
}

// ----------------------------------------------------------------------
// WebSocket client state
// ----------------------------------------------------------------------

#[test]
fn connection_state_names() {
    assert_eq!(ConnectionState::Disconnected.as_str(), "disconnected");
    assert_eq!(ConnectionState::Connecting.as_str(), "connecting");
    assert_eq!(ConnectionState::Connected.as_str(), "connected");
    assert_eq!(ConnectionState::Error("x".to_string()).as_str(), "error");
}

#[test]
fn sending_requires_a_connection() {
    let mut ws = WsSession::new("ws://example.com/socket");
    assert_eq!(ws.get_url(), "ws://example.com/socket");
    assert_eq!(ws.send("hi"), Err("WebSocket not connected (state: disconnected)".to_string()));
    ws.begin_connect();
    assert_eq!(ws.get_state(), "connecting");
    assert_eq!(ws.send("hi"), Err("WebSocket not connected (state: connecting)".to_string()));
    ws.connected();
    assert!(ws.is_connected());
    assert_eq!(ws.send("one"), Ok(()));
    assert_eq!(ws.send("two"), Ok(()));
    assert_eq!(ws.next_outgoing(), Some("one".to_string()));
    assert_eq!(ws.next_outgoing(), Some("two".to_string()));
    assert_eq!(ws.next_outgoing(), None);
    ws.close();
    assert!(!ws.is_connected());
}

#[test]
fn incoming_events() {
    let mut ws = WsSession::new("ws://h");
    ws.connected();
    assert!(ws.on_event(WsEvent::Text("hello".to_string())));
    assert!(ws.on_event(WsEvent::Binary(vec![104, 105])));
    assert!(ws.on_event(WsEvent::Binary(vec![0xff, 0x41])));
    assert!(ws.on_event(WsEvent::Ping));
    assert!(ws.on_event(WsEvent::Pong));
    assert!(ws.on_event(WsEvent::Frame));
    assert_eq!(ws.poll_message(), Some("hello".to_string()));
    assert_eq!(ws.poll_all_messages(), vec!["hi".to_string(), "\u{FFFD}A".to_string()]);
    assert_eq!(ws.poll_message(), None);
    assert!(!ws.on_event(WsEvent::Close));
    assert_eq!(ws.get_state(), "disconnected");
}

#[test]
fn failures_are_recorded() {
    let mut ws = WsSession::new("ws://h");
    ws.connect_failed("refused");
    assert_eq!(ws.get_state(), "error");
    ws.connected();
    ws.send_failed("broken pipe");
    assert!(!ws.on_event(WsEvent::Failed("reset".to_string())));
    assert_eq!(
        ws.poll_errors(),
        vec![
            "Connection failed: refused".to_string(),
            "Send error: broken pipe".to_string(),
            "Connection error: reset".to_string(),
        ]
    );
    assert!(ws.poll_errors().is_empty());
}

#[test]
fn static_mounts_replace_and_candidates() {
    let mut m = StaticMounts::new();
    assert!(m.candidates("/static/app.js").is_empty());
    m.add("/static", "./public");
    m.add("/assets", "./assets");
    m.add("/static", "./dist");
    assert_eq!(m.candidates("/static/app.js"), vec!["./dist/app.js".to_string()]);
    assert_eq!(m.candidates("/assets/"), vec!["./assets/index.html".to_string()]);
    assert!(m.candidates("/other").is_empty());
    m.add("/", "./root");
    assert_eq!(
        m.candidates("/static/x.css"),
        vec!["./dist/x.css".to_string(), "./rootstatic/x.css".to_string()]
    );
}
