//! The two servers of the setup access point: one that hands a fixed address
//! to the client that joins, and one that resolves every name to the device.

use vstd::prelude::*;
use crate::wire;

verus! {

/// Address of the access point; also its gateway, resolver and DHCP server.
pub const AP_IP: [u8; 4] = [192, 168, 4, 1];

/// The one address that is handed out.
pub const CLIENT_IP: [u8; 4] = [192, 168, 4, 2];

pub open spec fn ap_ip() -> Seq<u8> {
    seq![192u8, 168, 4, 1]
}

pub open spec fn client_ip() -> Seq<u8> {
    seq![192u8, 168, 4, 2]
}

/// Marks the start of the options.
pub open spec fn dhcp_magic() -> Seq<u8> {
    seq![0x63u8, 0x82, 0x53, 0x63]
}

/// One option: code, length and data.
pub open spec fn option_bytes(code: u8, data: Seq<u8>) -> Seq<u8> {
    seq![code, data.len() as u8] + data
}

/// Writes one option at index `i` and returns the index behind it.
pub fn put_opt(out: &mut [u8], i: usize, code: u8, data: &[u8]) -> (end: usize)
    requires
        data@.len() < 256,
        i + 2 + data@.len() <= old(out)@.len(),
    ensures
        end == i + 2 + data@.len(),
        final(out)@ == wire::overwritten(old(out)@, i as int, option_bytes(code, data@)),
{
    let ghost before = out@;
    let n: usize = out.len();
    out[i] = code;
    out[i + 1] = data.len() as u8;
    wire::write_at(out, i + 2, data);
    assert(out@ =~= wire::overwritten(before, i as int, option_bytes(code, data@)));
    i + 2 + data.len()
}

/// The message type among the options from index `i` on: the data of the first
/// option with code 53 that has any. Code 0 is padding and code 255 the end.
pub open spec fn message_type_from(req: Seq<u8>, i: int) -> Option<u8>
    decreases (if i < req.len() { req.len() - i } else { 0 }),
{
    if i < 0 || i + 1 >= req.len() || req[i] == 255 {
        None
    } else if req[i] == 0 {
        message_type_from(req, i + 1)
    } else if req[i] == 53 && req[i + 1] >= 1 && i + 2 < req.len() {
        Some(req[i + 2])
    } else {
        message_type_from(req, i + 2 + req[i + 1])
    }
}

/// The message type of a request, if it carries options and one of them is it.
pub open spec fn message_type(req: Seq<u8>) -> Option<u8> {
    if req.len() < 240 || req.subrange(236, 240) != dhcp_magic() {
        None
    } else {
        message_type_from(req, 240)
    }
}

pub fn dhcp_msg_type(req: &[u8]) -> (r: Option<u8>)
    ensures
        r == message_type(req@),
{
    let n: usize = req.len();
    if n < 240 {
        return None;
    }
    let ghost cookie = req@.subrange(236, 240);
    if req[236] != 0x63 || req[237] != 0x82 || req[238] != 0x53 || req[239] != 0x63 {
        assert(cookie[0] != 0x63 || cookie[1] != 0x82 || cookie[2] != 0x53 || cookie[3] != 0x63);
        return None;
    }
    assert(cookie =~= dhcp_magic());
    let mut i: usize = 240;
    while i < n - 1
        invariant
            n == req@.len(),
            n >= 240,
            i >= 240,
            message_type(req@) == message_type_from(req@, i as int),
        decreases n - i,
    {
        if req[i] == 255 {
            assert(message_type_from(req@, i as int) is None);
            return None;
        }
        if req[i] == 0 {
            i += 1;
        } else {
            let len: usize = req[i + 1] as usize;
            if req[i] == 53 && len >= 1 && i + 2 < n {
                return Some(req[i + 2]);
            }
            if len + 2 > n - i {
                assert(message_type_from(req@, i + 2 + len) is None);
                return None;
            }
            i = i + 2 + len;
        }
    }
    None
}

pub open spec fn zeros(n: nat) -> Seq<u8> {
    Seq::new(n, |i: int| 0u8)
}

/// The fixed part of a reply: the client's transaction, flags and hardware
/// address out of the request, with the address that it gets.
pub open spec fn reply_head(req: Seq<u8>) -> Seq<u8> {
    seq![2u8, 1, 6, 0] + req.subrange(4, 8) + zeros(2) + req.subrange(10, 12) + zeros(4)
        + client_ip() + ap_ip() + zeros(4) + req.subrange(28, 44) + zeros(192) + dhcp_magic()
}

/// Message type, server, lease of two hours, network mask, gateway, resolver.
pub open spec fn reply_options(msg_type: u8) -> Seq<u8> {
    option_bytes(53, seq![msg_type]) + option_bytes(54, ap_ip()) + option_bytes(
        51,
        seq![0u8, 0, 0x1C, 0x20],
    ) + option_bytes(1, seq![255u8, 255, 255, 0]) + option_bytes(3, ap_ip()) + option_bytes(
        6,
        ap_ip(),
    ) + seq![255u8]
}

/// A whole reply.
pub open spec fn dhcp_reply(req: Seq<u8>, msg_type: u8) -> Seq<u8> {
    reply_head(req) + reply_options(msg_type)
}

/// Length of a reply.
pub const DHCP_REPLY_LEN: usize = 274;

/// Builds a reply (2 is an offer, 5 an acknowledgement) and returns its length.
/// What is left of the buffer is zero.
pub fn build_dhcp_reply(req: &[u8], msg_type: u8, out: &mut [u8; 300]) -> (len: usize)
    requires
        req@.len() >= 44,
    ensures
        len == DHCP_REPLY_LEN,
        final(out)@ == dhcp_reply(req@, msg_type) + zeros(26),
{
    let mut k: usize = 0;
    while k < 300
        invariant
            k <= 300,
            out@.len() == 300,
            forall|j: int| 0 <= j < k ==> out@[j] == 0,
        decreases 300 - k,
    {
        out[k] = 0;
        k += 1;
    }
    wire::write_at(out, 0, &[2, 1, 6]);
    wire::write_at(out, 4, &req[4..8]);
    wire::write_at(out, 10, &req[10..12]);
    wire::write_at(out, 16, &CLIENT_IP);
    wire::write_at(out, 20, &AP_IP);
    wire::write_at(out, 28, &req[28..44]);
    wire::write_at(out, 236, &[0x63, 0x82, 0x53, 0x63]);
    assert(AP_IP@ =~= ap_ip());
    assert(CLIENT_IP@ =~= client_ip());
    assert(out@ =~= reply_head(req@) + zeros(60));
    let mut i: usize = put_opt(out, 240, 53, &[msg_type]);
    i = put_opt(out, i, 54, &AP_IP);
    i = put_opt(out, i, 51, &[0, 0, 0x1C, 0x20]);
    i = put_opt(out, i, 1, &[255, 255, 255, 0]);
    i = put_opt(out, i, 3, &AP_IP);
    i = put_opt(out, i, 6, &AP_IP);
    out[i] = 255;
    assert(out@ =~= dhcp_reply(req@, msg_type) + zeros(26));
    i + 1
}

/// The type of the reply that a request gets: an offer for a discovery, an
/// acknowledgement for a request, and nothing otherwise.
pub open spec fn reply_type(req: Seq<u8>) -> Option<u8> {
    if req.len() < 240 || req[0] != 1 {
        None
    } else if message_type(req) == Some(1u8) {
        Some(2u8)
    } else if message_type(req) == Some(3u8) {
        Some(5u8)
    } else {
        None
    }
}

/// Answers a packet of a client.
pub fn dhcp_answer(req: &[u8]) -> (r: Option<Vec<u8>>)
    ensures
        r is Some == reply_type(req@) is Some,
        r is Some ==> r->0@ == dhcp_reply(req@, reply_type(req@)->0),
{
    if req.len() < 240 || req[0] != 1 {
        return None;
    }
    let answer: u8 = match dhcp_msg_type(req) {
        Some(t) => if t == 1 {
            2
        } else if t == 3 {
            5
        } else {
            return None;
        },
        None => return None,
    };
    let mut buffer: [u8; 300] = [0u8; 300];
    let len: usize = build_dhcp_reply(req, answer, &mut buffer);
    let mut out: Vec<u8> = Vec::new();
    wire::append(&mut out, &buffer[0..len]);
    proof {
        let whole = dhcp_reply(req@, answer);
        assert(whole.len() == 274);
        assert(out@ =~= whole);
    }
    Some(out)
}

/// A reply carries the transaction number, the flags and the hardware address
/// of its request, and offers the one address that there is.
pub proof fn dhcp_reply_fits_request(req: Seq<u8>, msg_type: u8)
    requires
        req.len() >= 44,
    ensures
        dhcp_reply(req, msg_type).len() == DHCP_REPLY_LEN,
        dhcp_reply(req, msg_type).subrange(4, 8) == req.subrange(4, 8),
        dhcp_reply(req, msg_type).subrange(10, 12) == req.subrange(10, 12),
        dhcp_reply(req, msg_type).subrange(28, 44) == req.subrange(28, 44),
        dhcp_reply(req, msg_type).subrange(16, 20) == client_ip(),
        message_type(dhcp_reply(req, msg_type)) == Some(msg_type),
{
    let r = dhcp_reply(req, msg_type);
    assert(r.subrange(4, 8) =~= req.subrange(4, 8));
    assert(r.subrange(10, 12) =~= req.subrange(10, 12));
    assert(r.subrange(28, 44) =~= req.subrange(28, 44));
    assert(r.subrange(16, 20) =~= client_ip());
    assert(r.subrange(236, 240) =~= dhcp_magic());
    assert(r[240] == 53 && r[241] == 1 && r[242] == msg_type);
}

/// The index of the byte that ends the name of a question: each byte that is
/// not zero says how many more to skip. May lie behind the end.
pub open spec fn name_stop(q: Seq<u8>, i: int) -> int
    decreases (if i < q.len() { q.len() - i } else { 0 }),
{
    if 0 <= i < q.len() && q[i] != 0 {
        name_stop(q, i + 1 + q[i])
    } else {
        i
    }
}

/// The index behind the first question: the root label, type and class.
pub open spec fn question_end(q: Seq<u8>) -> int {
    name_stop(q, 12) + 5
}

/// A query with exactly one question that fits into the reply's buffer.
pub open spec fn answerable(q: Seq<u8>, room: int) -> bool {
    &&& q.len() >= 12
    &&& q[2] < 0x80
    &&& wire::be16(q[4], q[5]) == 1
    &&& question_end(q) <= q.len()
    &&& question_end(q) + 16 <= room
}

/// The question is for an address.
pub open spec fn wants_address(q: Seq<u8>) -> bool {
    wire::be16(q[question_end(q) - 4], q[question_end(q) - 3]) == 1
}

/// The reply: the query's number and question, and one address record that
/// lives for a minute where an address was asked for.
pub open spec fn dns_reply(q: Seq<u8>) -> Seq<u8> {
    q.take(2) + seq![0x81u8, 0x80, 0, 1, 0] + seq![if wants_address(q) { 1u8 } else { 0u8 }]
        + zeros(4) + q.subrange(12, question_end(q)) + if wants_address(q) {
        seq![0xC0u8, 0x0C, 0, 1, 0, 1, 0, 0, 0, 60, 0, 4] + ap_ip()
    } else {
        Seq::empty()
    }
}

/// Points every query for an address at the access point. Returns the length
/// of the reply, or nothing where the packet is not a query with one question
/// or the reply does not fit.
pub fn build_dns_reply(q: &[u8], out: &mut [u8]) -> (r: Option<usize>)
    ensures
        r is Some == answerable(q@, old(out)@.len() as int),
        r is Some ==> r->0 == dns_reply(q@).len(),
        r is Some ==> final(out)@ == wire::overwritten(old(out)@, 0, dns_reply(q@)),
        r is None ==> final(out)@ == old(out)@,
{
    let ghost before = out@;
    let n: usize = q.len();
    let room: usize = out.len();
    if n < 12 {
        return None;
    }
    if q[2] >= 0x80 {
        return None;
    }
    if wire::read_be16(q[4], q[5]) != 1 {
        return None;
    }
    let mut i: usize = 12;
    while i < n && q[i] != 0
        invariant
            n == q@.len(),
            i >= 12,
            question_end(q@) == name_stop(q@, i as int) + 5,
        decreases n - i,
    {
        let skip: usize = q[i] as usize + 1;
        if skip >= n - i {
            assert(name_stop(q@, i + skip) == i + skip);
            assert(name_stop(q@, i as int) == i + skip);
            return None;
        }
        i = i + skip;
    }
    if i >= n || n - i < 5 || room < 16 || i + 5 > room - 16 {
        return None;
    }
    let q_end: usize = i + 5;
    let answer = wire::read_be16(q[i + 1], q[i + 2]) == 1;
    let mut reply: Vec<u8> = Vec::new();
    wire::append(&mut reply, &q[0..2]);
    wire::append(&mut reply, &[0x81, 0x80, 0, 1, 0]);
    reply.push(if answer { 1 } else { 0 });
    wire::append(&mut reply, &[0, 0, 0, 0]);
    wire::append(&mut reply, &q[12..q_end]);
    if answer {
        wire::append(&mut reply, &[0xC0, 0x0C, 0, 1, 0, 1, 0, 0, 0, 60, 0, 4]);
        wire::append(&mut reply, &AP_IP);
    }
    assert(AP_IP@ =~= ap_ip());
    assert(reply@ =~= dns_reply(q@));
    wire::write_at(out, 0, reply.as_slice());
    Some(reply.len())
}

/// The bytes of a reply: it hands out 192.168.4.2, names 192.168.4.1 as the
/// server, the gateway and the resolver, and lends the address for two hours in
/// a network of 256 addresses.
pub proof fn dhcp_reply_says_what_it_lends(req: Seq<u8>, msg_type: u8)
    requires
        req.len() >= 44,
    ensures
        ({
            let r = dhcp_reply(req, msg_type);
            let ap = seq![192u8, 168, 4, 1];
            &&& r[0] == 2 && r[1] == 1 && r[2] == 6 && r[3] == 0
            &&& r.subrange(16, 20) == seq![192u8, 168, 4, 2]
            &&& r.subrange(20, 24) == ap
            &&& r.subrange(236, 240) == seq![99u8, 130, 83, 99]
            &&& r[240] == 53 && r[241] == 1 && r[242] == msg_type
            &&& r[243] == 54 && r[244] == 4 && r.subrange(245, 249) == ap
            &&& r[249] == 51 && r[250] == 4
            &&& wire::be32(r[251], r[252], r[253], r[254]) == 2 * 60 * 60
            &&& r[255] == 1 && r[256] == 4
            &&& wire::be32(r[257], r[258], r[259], r[260]) == 0xffff_ff00
            &&& r[261] == 3 && r[262] == 4 && r.subrange(263, 267) == ap
            &&& r[267] == 6 && r[268] == 4 && r.subrange(269, 273) == ap
            &&& r[273] == 255
            &&& r.len() == 274
        }),
{
    let r = dhcp_reply(req, msg_type);
    let ap = seq![192u8, 168, 4, 1];
    assert(r.subrange(16, 20) =~= seq![192u8, 168, 4, 2]);
    assert(r.subrange(20, 24) =~= ap);
    assert(r.subrange(236, 240) =~= seq![99u8, 130, 83, 99]);
    assert(r.subrange(245, 249) =~= ap);
    assert(r.subrange(263, 267) =~= ap);
    assert(r.subrange(269, 273) =~= ap);
}

/// A discovery is answered with an offer and a request with an acknowledgement,
/// whatever option stands before the message type; other types, and packets
/// that are replies themselves, are not answered.
pub proof fn clients_get_their_answer(
    head: Seq<u8>,
    code: u8,
    data: Seq<u8>,
    kind: u8,
    rest: Seq<u8>,
)
    requires
        head.len() == 236,
        0 < code < 255,
        code != 53,
        data.len() < 256,
    ensures
        ({
            let marked = head + seq![99u8, 130, 83, 99];
            let told = seq![53u8, 1, kind] + rest;
            let plain = marked + told;
            let behind = marked + seq![code, data.len() as u8] + data + told;
            let padded = marked + seq![0u8] + told;
            let due = if head[0] != 1 {
                None
            } else if kind == 1 {
                Some(2u8)
            } else if kind == 3 {
                Some(5u8)
            } else {
                None
            };
            &&& reply_type(plain) == due
            &&& reply_type(behind) == due
            &&& reply_type(padded) == due
            &&& reply_type(marked + seq![255u8] + told) is None
        }),
{
    let marked = head + seq![99u8, 130, 83, 99];
    let told = seq![53u8, 1, kind] + rest;
    let plain = marked + told;
    let behind = marked + seq![code, data.len() as u8] + data + told;
    let padded = marked + seq![0u8] + told;
    let ended = marked + seq![255u8] + told;
    assert(plain.subrange(236, 240) =~= dhcp_magic());
    assert(behind.subrange(236, 240) =~= dhcp_magic());
    assert(padded.subrange(236, 240) =~= dhcp_magic());
    assert(ended.subrange(236, 240) =~= dhcp_magic());
    assert(plain[0] == head[0] && behind[0] == head[0] && padded[0] == head[0]);
    assert(plain[240] == 53 && plain[241] == 1 && plain[242] == kind);
    assert(message_type_from(plain, 240) == Some(kind));
    let at = data.len() as int + 242;
    assert(behind[240] == code && behind[241] == data.len());
    assert(behind[at] == 53 && behind[at + 1] == 1 && behind[at + 2] == kind);
    assert(message_type_from(behind, at) == Some(kind));
    assert(message_type_from(behind, 240) == Some(kind));
    assert(padded[240] == 0);
    assert(padded[241] == 53 && padded[242] == 1 && padded[243] == kind);
    assert(message_type_from(padded, 241) == Some(kind));
    assert(message_type_from(padded, 240) == Some(kind));
    assert(ended[240] == 255);
}

/// A name query is answered with its own number and question. Where it asks for
/// an address there is one answer, 192.168.4.1 for sixty seconds, else none.
pub proof fn names_lead_to_the_access_point(q: Seq<u8>, room: int)
    requires
        answerable(q, room),
    ensures
        ({
            let r = dns_reply(q);
            let e = question_end(q);
            &&& r[0] == q[0] && r[1] == q[1]
            &&& r[2] == 0x81 && r[3] == 0x80
            &&& wire::be16(r[4], r[5]) == 1
            &&& wire::be16(r[6], r[7]) == (if wants_address(q) { 1int } else { 0 })
            &&& r.subrange(12, e) == q.subrange(12, e)
            &&& !wants_address(q) ==> r.len() == e
            &&& wants_address(q) ==> {
                &&& r.len() == e + 16
                &&& r[e] == 0xC0 && r[e + 1] == 12
                &&& wire::be16(r[e + 2], r[e + 3]) == 1
                &&& wire::be16(r[e + 4], r[e + 5]) == 1
                &&& wire::be32(r[e + 6], r[e + 7], r[e + 8], r[e + 9]) == 60
                &&& wire::be16(r[e + 10], r[e + 11]) == 4
                &&& r.subrange(e + 12, e + 16) == seq![192u8, 168, 4, 1]
            }
            &&& r.len() <= room
        }),
{
    name_stop_moves_on(q, 12);
    let r = dns_reply(q);
    let e = question_end(q);
    assert(r.subrange(12, e) =~= q.subrange(12, e));
    if wants_address(q) {
        assert(r.subrange(e + 12, e + 16) =~= seq![192u8, 168, 4, 1]);
    }
}

proof fn name_stop_moves_on(q: Seq<u8>, i: int)
    requires
        0 <= i,
    ensures
        name_stop(q, i) >= i,
    decreases (if i < q.len() { q.len() - i } else { 0 }),
{
    if i < q.len() && q[i] != 0 {
        name_stop_moves_on(q, i + 1 + q[i]);
    }
}

/// A query for one name fits its reply: the question ends behind the name, the
/// type and the class, and the type decides whether there is an address.
pub proof fn plain_name_queries_are_answered(
    id: Seq<u8>,
    counts: Seq<u8>,
    label: Seq<u8>,
    kind: u16,
    class: Seq<u8>,
    room: int,
)
    requires
        id.len() == 4,
        id[2] < 128,
        counts.len() == 6,
        1 <= label.len() <= 255,
        class.len() == 2,
        room >= label.len() + 34,
    ensures
        ({
            let head = id + seq![0u8, 1] + counts;
            let asked = seq![0u8, (kind / 256) as u8, (kind % 256) as u8];
            let q = head + seq![label.len() as u8] + label + asked + class;
            &&& answerable(q, room)
            &&& wants_address(q) <==> kind == 1
        }),
{
    let head = id + seq![0u8, 1] + counts;
    let asked = seq![0u8, (kind / 256) as u8, (kind % 256) as u8];
    let q = head + seq![label.len() as u8] + label + asked + class;
    assert(q[2] == id[2] && q[4] == 0 && q[5] == 1);
    assert(q[12] == label.len());
    let stop = label.len() as int + 13;
    assert(q[stop] == 0);
    assert(name_stop(q, stop) == stop);
    assert(name_stop(q, 12) == stop);
    assert(q[stop + 1] == asked[1] && q[stop + 2] == asked[2]);
}

/// A packet that is a reply, that is too short, that has no question or several,
/// or whose answer would not fit is not answered.
pub proof fn other_name_packets_are_not_answered(q: Seq<u8>, room: int)
    ensures
        q.len() < 12 ==> !answerable(q, room),
        q.len() >= 12 && q[2] >= 128 ==> !answerable(q, room),
        q.len() >= 12 && !(q[4] == 0 && q[5] == 1) ==> !answerable(q, room),
        question_end(q) > q.len() ==> !answerable(q, room),
        question_end(q) + 16 > room ==> !answerable(q, room),
{
}

/// A packet that is no request of a client, or that carries no options, gets no
/// address.
pub proof fn other_packets_get_no_address(req: Seq<u8>)
    ensures
        req.len() < 240 ==> reply_type(req) is None,
        req.len() >= 240 && req[0] != 1 ==> reply_type(req) is None,
        req.len() >= 240 && req.subrange(236, 240) != seq![99u8, 130, 83, 99] ==> reply_type(req)
            is None,
        reply_type(req) matches Some(t) ==> t == 2 || t == 5,
{
}

} // verus!
