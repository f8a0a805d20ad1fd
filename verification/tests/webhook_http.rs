use watercontroller::webhook::{
    render_template, EventKind, HeaderEntry, WebhookConfig, WebhookEvent,
};
use watercontroller::webhook_http::{
    build_request, delivered, parse_ipv4, parse_status, parse_url, request_headers,
    request_headers_with_length, request_method, subscribers, HttpMethod, StatusError,
};

fn target(url: &str) -> WebhookConfig {
    let mut w = WebhookConfig::default();
    w.enabled = true;
    w.url = url.into();
    w.events = vec![EventKind::Boot];
    w
}

#[test]
fn only_enabled_targets_that_ask_get_an_event() {
    let mut off = target("http://b/");
    off.enabled = false;
    let mut other = target("http://c/");
    other.events = vec![EventKind::WifiFlap];
    let subs = subscribers(&vec![target("http://a/"), off, other], EventKind::Boot);
    assert_eq!(subs.len(), 1);
    assert_eq!(subs[0].url, "http://a/");
}

#[test]
fn urls_are_taken_apart() {
    let u = parse_url("http://10.0.0.1:8123/api/x?y=1").unwrap();
    assert!(!u.https);
    assert_eq!((u.host.as_str(), u.port, u.path.as_str()), ("10.0.0.1", 8123, "/api/x?y=1"));
    let u = parse_url("https://example.com").unwrap();
    assert!(u.https);
    assert_eq!((u.host.as_str(), u.port, u.path.as_str()), ("example.com", 443, "/"));
    assert_eq!(parse_url("http://h/").unwrap().port, 80);
    assert!(parse_url("ftp://h/").is_none());
    assert!(parse_url("http:///x").is_none());
    assert!(parse_url("http://h:99999/").is_none());
}

#[test]
fn addresses_are_read() {
    assert_eq!(parse_ipv4("192.168.4.1"), Some([192, 168, 4, 1]));
    assert_eq!(parse_ipv4("192.168.4"), None);
    assert_eq!(parse_ipv4("192.168.4.256"), None);
    assert_eq!(parse_ipv4("192.168.4.1.5"), None);
}

#[test]
fn requests_carry_their_length() {
    let mut t = target("http://h:81/p");
    t.headers = vec![HeaderEntry { name: "X-K".into(), value: "v".into() }];
    let u = parse_url(&t.url).unwrap();
    let req = build_request(&t, &u, "hällo");
    assert!(req.starts_with("POST /p HTTP/1.1\r\n"));
    assert!(req.contains("Content-Length: 6\r\n"));
    assert!(req.contains("X-K: v\r\n"));
    assert!(req.ends_with("\r\n\r\nhällo"));
    let names: Vec<String> = request_headers(&t).into_iter().map(|h| h.name).collect();
    assert!(names.contains(&"X-K".to_string()));
    let with = request_headers_with_length(&t, "hällo");
    assert!(with.iter().any(|h| h.name.eq_ignore_ascii_case("content-length") && h.value == "6"));
}

#[test]
fn methods_and_statuses() {
    assert_eq!(request_method("post"), Ok(HttpMethod::Post));
    assert_eq!(request_method("PUT"), Ok(HttpMethod::Put));
    assert!(request_method("GET").is_err());
    assert_eq!(parse_status(b"HTTP/1.1 204 No Content\r\n\r\n"), Ok(204));
    assert_eq!(parse_status(b"garbage"), Err(StatusError::NoStatus));
    assert_eq!(parse_status(&[0xff, 0xfe]), Err(StatusError::NonUtf8));
    assert!(delivered(200) && delivered(299) && !delivered(302) && !delivered(199));
}

#[test]
fn events_fill_templates() {
    let e = WebhookEvent::new(EventKind::Boot).with("a", "1").with("b", "{{a}}");
    assert_eq!(render_template("{{a}}-{{b}}-{{c}}", &e.vars), "1-{{a}}-{{c}}");
    assert_eq!(EventKind::from_json("\"boot\""), Some(EventKind::Boot));
    assert_eq!(EventKind::from_json("boot"), None);
    assert_eq!(EventKind::Boot.to_json(), "\"boot\"");
}
