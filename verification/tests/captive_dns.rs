use watercontroller::ap::{build_dhcp_reply, build_dns_reply, dhcp_answer, dhcp_msg_type};
use watercontroller::captive_dns::build_a_response;
use watercontroller::mdns;

/// `dig +short captive.test @<ip>` would generate a query like this.
fn make_query(name: &[&str]) -> Vec<u8> {
    let mut q = Vec::new();
    q.extend_from_slice(&[0x12, 0x34]); // ID
    q.extend_from_slice(&[0x01, 0x00]); // RD=1
    q.extend_from_slice(&[0x00, 0x01]); // QDCOUNT
    q.extend_from_slice(&[0x00, 0x00, 0x00, 0x00, 0x00, 0x00]); // AN/NS/AR
    for label in name {
        q.push(label.len() as u8);
        q.extend_from_slice(label.as_bytes());
    }
    q.push(0); // root label
    q.extend_from_slice(&[0x00, 0x01]); // QTYPE A
    q.extend_from_slice(&[0x00, 0x01]); // QCLASS IN
    q
}

#[test]
fn answers_a_query() {
    let q = make_query(&["captive", "test"]);
    let r = build_a_response(&q, [10, 0, 4, 1]).unwrap();
    // Header: ID echoed, QR=1, ANCOUNT=1.
    assert_eq!(&r[0..2], &[0x12, 0x34]);
    assert_eq!(r[2] & 0x80, 0x80);
    assert_eq!(&r[6..8], &[0x00, 0x01]);
    // Last 4 bytes of the answer should be the IP.
    assert_eq!(&r[r.len() - 4..], &[10, 0, 4, 1]);
}

#[test]
fn rejects_non_a_query() {
    let mut q = make_query(&["foo"]);
    let len = q.len();
    q[len - 4] = 0;
    q[len - 3] = 0x10; // QTYPE = 16 (TXT)
    assert!(build_a_response(&q, [1, 2, 3, 4]).is_none());
}

#[test]
fn truncated_queries_get_no_answer() {
    let q = make_query(&["captive", "test"]);
    for n in 0..q.len() {
        assert!(build_a_response(&q[..n], [1, 2, 3, 4]).is_none());
    }
}

#[test]
fn setup_network_answers_every_name_with_itself() {
    let q = make_query(&["example", "com"]);
    let mut out = [0u8; 512];
    let n = build_dns_reply(&q, &mut out).unwrap();
    assert_eq!(&out[0..2], &[0x12, 0x34]);
    assert_eq!(&out[n - 4..n], &[192, 168, 4, 1]);
}

fn dhcp_request(kind: u8) -> Vec<u8> {
    let mut req = vec![0u8; 240];
    req[0] = 1;
    req[1] = 1;
    req[2] = 6;
    req[4..8].copy_from_slice(&[0xde, 0xad, 0xbe, 0xef]);
    req[28..34].copy_from_slice(&[1, 2, 3, 4, 5, 6]);
    req[236..240].copy_from_slice(&[99, 130, 83, 99]);
    req.extend_from_slice(&[53, 1, kind, 255]);
    req
}

#[test]
fn discover_is_offered_and_request_is_acknowledged() {
    assert_eq!(dhcp_msg_type(&dhcp_request(1)), Some(1));
    let offer = dhcp_answer(&dhcp_request(1)).unwrap();
    assert_eq!(offer[0], 2);
    assert_eq!(&offer[4..8], &[0xde, 0xad, 0xbe, 0xef]);
    assert_eq!(&offer[28..34], &[1, 2, 3, 4, 5, 6]);
    assert_eq!(&offer[240..243], &[53, 1, 2]);
    let ack = dhcp_answer(&dhcp_request(3)).unwrap();
    assert_eq!(&ack[240..243], &[53, 1, 5]);
    assert!(dhcp_answer(&dhcp_request(7)).is_none());
    let mut out = [0u8; 300];
    let len = build_dhcp_reply(&dhcp_request(1), 2, &mut out);
    assert_eq!(&out[..len], &offer[..]);
}

#[test]
fn own_name_is_answered_in_either_case() {
    let q = make_query(&["DoremorWater", "LOCAL"]);
    let r = mdns::build_response(&q, "doremorwater", [10, 0, 0, 7]).unwrap();
    assert_eq!(&r[2..4], &[0x84, 0]);
    assert_eq!(r[12], 12);
    assert_eq!(&r[13..25], b"doremorwater");
    assert_eq!(&r[r.len() - 4..], &[10, 0, 0, 7]);
    assert!(mdns::build_response(&make_query(&["other", "local"]), "doremorwater", [1, 2, 3, 4]).is_none());
}

#[test]
fn responder_needs_a_name_that_fits() {
    assert_eq!(mdns::responder_name("doremorwater"), Some("doremorwater".to_string()));
    assert_eq!(mdns::responder_name(""), None);
    assert_eq!(mdns::responder_name(&"x".repeat(33)), None);
    assert_eq!(mdns::responder_name(&"x".repeat(32)), Some("x".repeat(32)));
}
