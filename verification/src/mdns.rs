//! Answers to multicast queries for the device's own name.

use vstd::prelude::*;
use crate::wire;

verus! {

/// `heapless::Vec`, of which the library sees only the contents.
#[verifier::external_type_specification]
#[verifier::external_body]
#[verifier::reject_recursive_types(T)]
pub struct ExFixedVec<T, const N: usize>(heapless::Vec<T, N>);

/// The bytes in a packet buffer.
pub uninterp spec fn packet_bytes(packet: heapless::Vec<u8, 256>) -> Seq<u8>;

/// `heapless::Vec::new`: an empty buffer.
#[verifier::external_body]
fn new_packet() -> (packet: heapless::Vec<u8, 256>)
    ensures
        packet_bytes(packet) == Seq::<u8>::empty(),
{
    heapless::Vec::new()
}

/// `heapless::Vec::push`: the byte goes to the end where there is room; a full
/// buffer refuses it and stays as it is.
#[verifier::external_body]
fn push_byte(packet: &mut heapless::Vec<u8, 256>, byte: u8) -> (r: Result<(), u8>)
    ensures
        r is Ok == (packet_bytes(*old(packet)).len() < 256),
        r is Ok ==> packet_bytes(*final(packet)) == packet_bytes(*old(packet)).push(byte),
        r is Err ==> packet_bytes(*final(packet)) == packet_bytes(*old(packet)),
{
    packet.push(byte)
}

/// `heapless::Vec::extend_from_slice`: all bytes go to the end where there is
/// room for all of them; otherwise the buffer refuses them and stays as it is.
#[verifier::external_body]
fn push_bytes(packet: &mut heapless::Vec<u8, 256>, bytes: &[u8]) -> (r: Result<(), ()>)
    ensures
        r is Ok == (packet_bytes(*old(packet)).len() + bytes@.len() <= 256),
        r is Ok ==> packet_bytes(*final(packet)) == packet_bytes(*old(packet)) + bytes@,
        r is Err ==> packet_bytes(*final(packet)) == packet_bytes(*old(packet)),
{
    packet.extend_from_slice(bytes)
}

/// Longest host name that the responder answers for, in bytes.
pub const MAX_HOSTNAME: usize = 32;

/// The name to answer for. A name that is empty or too long turns the
/// responder off.
pub fn responder_name(hostname: &str) -> (r: Option<String>)
    ensures
        r is Some == (1 <= hostname.len() <= MAX_HOSTNAME),
        r is Some == (1 <= hostname.len() <= 32),
        r is Some ==> r->0@ == hostname@,
{
    let n: usize = hostname.len();
    if n >= 1 && n <= MAX_HOSTNAME {
        Some(hostname.to_owned())
    } else {
        None
    }
}

/// The first question asks for `<hostname>.local`, for its address or for
/// anything. Letters match in either case.
pub open spec fn asks_for_us(query: Seq<u8>, hostname: Seq<u8>) -> bool {
    &&& query.len() >= 12
    &&& wire::be16(query[4], query[5]) != 0
    &&& wire::question_name(query, 12) matches Some(name) && {
        &&& name.end + 2 <= query.len()
        &&& wire::be16(query[name.end], query[name.end + 1]) == 1 || wire::be16(
            query[name.end],
            query[name.end + 1],
        ) == 255
        &&& name.labels.len() == 2
        &&& wire::lowered_bytes(name.labels[0]) == wire::lowered_bytes(hostname)
        &&& wire::lowered_bytes(name.labels[1]) == local_label()
    }
}

/// `local`.
pub open spec fn local_label() -> Seq<u8> {
    seq![108u8, 111, 99, 97, 108]
}

/// An authoritative reply with one address record for the name, which lives
/// for two minutes and replaces what was cached.
pub open spec fn answer(hostname: Seq<u8>, ip: Seq<u8>) -> Seq<u8> {
    seq![0u8, 0, 0x84, 0, 0, 0, 0, 1, 0, 0, 0, 0] + seq![hostname.len() as u8] + hostname
        + seq![5u8] + local_label() + seq![0u8] + seq![0u8, 1] + seq![0x80u8, 1] + seq![
        0u8,
        0,
        0,
        120,
    ] + seq![0u8, 4] + ip
}

/// Appends a label with its length. Nothing where a label cannot be that short
/// or that long, or where the packet is full.
fn write_label(out: &mut heapless::Vec<u8, 256>, label: &[u8]) -> (r: Option<()>)
    ensures
        r is Some == (1 <= label@.len() <= 63 && packet_bytes(*old(out)).len() + 1 + label@.len()
            <= 256),
        r is Some ==> packet_bytes(*final(out)) == packet_bytes(*old(out)) + seq![
            label@.len() as u8,
        ] + label@,
{
    if label.len() == 0 || label.len() > 63 {
        return None;
    }
    let ghost before = packet_bytes(*out);
    if push_byte(out, label.len() as u8).is_err() {
        return None;
    }
    assert(packet_bytes(*out) =~= before + seq![label@.len() as u8]);
    if push_bytes(out, label).is_err() {
        return None;
    }
    Some(())
}

/// Answers a query for `<hostname>.local` with `ip`. Nothing for any other packet.
pub fn build_response(query: &[u8], hostname: &str, ip: [u8; 4]) -> (r: Option<
    heapless::Vec<u8, 256>,
>)
    ensures
        r is Some == asks_for_us(query@, vstd::utf8::encode_utf8(hostname@)),
        r is Some ==> packet_bytes(r->0) == answer(vstd::utf8::encode_utf8(hostname@), ip@),
{
    if query.len() < 12 {
        return None;
    }
    if wire::read_be16(query[4], query[5]) == 0 {
        return None;
    }
    let question = match wire::read_question_name(query, 12) {
        Some(name) => name,
        None => return None,
    };
    let pos: usize = question.end;
    let labels = question.labels;
    proof {
        wire::question_name_ends_inside(query@, 12);
    }
    if query.len() - pos < 2 {
        return None;
    }
    let qtype: u16 = wire::read_be16(query[pos], query[pos + 1]);
    if qtype != 1 && qtype != 255 {
        return None;
    }
    let ghost views = wire::byte_views(labels@);
    if labels.len() != 2 {
        assert(views.len() != 2);
        return None;
    }
    let name = hostname.as_bytes();
    let local: [u8; 5] = [108, 111, 99, 97, 108];
    proof {
        assert(views[0] == labels@[0]@);
        assert(views[1] == labels@[1]@);
        assert(wire::lowered_bytes(local@) =~= local_label());
        assert(local@ =~= local_label());
    }
    if !wire::same_bytes_ignoring_case(labels[0].as_slice(), name)
        || !wire::same_bytes_ignoring_case(labels[1].as_slice(), &local) {
        return None;
    }
    proof {
        assert(wire::lowered_bytes(labels@[0]@).len() == wire::lowered_bytes(name@).len());
        assert(1 <= wire::question_name(query@, 12).unwrap().labels[0].len() <= 63);
    }
    let mut out = new_packet();
    if push_bytes(&mut out, &[0, 0, 0x84, 0, 0, 0, 0, 1, 0, 0, 0, 0]).is_err() {
        return None;
    }
    if write_label(&mut out, name).is_none() || write_label(&mut out, &local).is_none() {
        return None;
    }
    if push_byte(&mut out, 0).is_err() || push_bytes(&mut out, &[0, 1]).is_err() || push_bytes(
        &mut out,
        &[0x80, 1],
    ).is_err() || push_bytes(&mut out, &[0, 0, 0, 120]).is_err() || push_bytes(
        &mut out,
        &[0, 4],
    ).is_err() || push_bytes(&mut out, &ip).is_err() {
        return None;
    }
    assert(packet_bytes(out) =~= answer(vstd::utf8::encode_utf8(hostname@), ip@));
    Some(out)
}

/// An answer is read back as the name that it is for: the host name and
/// `local`, with one address record of four bytes that lives for 120 seconds
/// and replaces what was cached, and the address at its end.
pub proof fn answers_name_the_host(hostname: Seq<u8>, ip: Seq<u8>)
    requires
        1 <= hostname.len() <= 63,
        ip.len() == 4,
    ensures
        ({
            let r = answer(hostname, ip);
            let e = hostname.len() as int + 20;
            &&& wire::question_name(r, 12) == Some(
                (wire::NameView {
                    labels: seq![hostname, seq![108u8, 111, 99, 97, 108]],
                    end: e,
                }),
            )
            &&& r[0] == 0 && r[1] == 0 && r[2] == 0x84 && r[3] == 0
            &&& wire::be16(r[4], r[5]) == 0
            &&& wire::be16(r[6], r[7]) == 1
            &&& wire::be16(r[8], r[9]) == 0
            &&& wire::be16(r[10], r[11]) == 0
            &&& wire::be16(r[e], r[e + 1]) == 1
            &&& wire::be16(r[e + 2], r[e + 3]) == 0x8001
            &&& wire::be32(r[e + 4], r[e + 5], r[e + 6], r[e + 7]) == 120
            &&& wire::be16(r[e + 8], r[e + 9]) == 4
            &&& r.skip(e + 10) == ip
        }),
{
    let r = answer(hostname, ip);
    let head = seq![0u8, 0, 0x84, 0, 0, 0, 0, 1, 0, 0, 0, 0];
    let local = seq![108u8, 111, 99, 97, 108];
    let record = seq![0u8, 1, 0x80, 1, 0, 0, 0, 120, 0, 4] + ip;
    let after_name = seq![5u8] + local + seq![0u8] + record;
    assert(r =~= head + seq![hostname.len() as u8] + hostname + after_name);
    wire::names_are_read_by_label(head, hostname, after_name, 0);
    let second = head + seq![hostname.len() as u8] + hostname;
    assert(r =~= second + seq![5u8] + local + (seq![0u8] + record));
    wire::names_are_read_by_label(second, local, seq![0u8] + record, 0);
    let third = second + seq![5u8] + local;
    assert(r =~= third + seq![0u8] + record);
    wire::names_are_read_by_label(third, local, record, 0);
    let e = hostname.len() as int + 20;
    assert(wire::question_name(r, e - 1) is Some);
    assert(seq![local] + Seq::<Seq<u8>>::empty() =~= seq![local]);
    assert(seq![hostname] + seq![local] =~= seq![hostname, local]);
    assert(r.skip(e + 10) =~= ip);
    assert(r[e] == record[0] && r[e + 1] == record[1]);
}

/// A query for `<host>.local` is for us in whatever case it is written, where
/// it asks for an address or for anything; one for another host is not.
pub proof fn queries_for_the_host_are_for_us(
    head: Seq<u8>,
    asked: Seq<u8>,
    hostname: Seq<u8>,
    kind: u16,
    rest: Seq<u8>,
)
    requires
        head.len() == 12,
        head[4] != 0 || head[5] != 0,
        1 <= asked.len() <= 63,
    ensures
        ({
            let q = head + seq![asked.len() as u8] + asked + (seq![
                5u8,
                108,
                111,
                99,
                97,
                108,
                0,
                (kind / 256) as u8,
                (kind % 256) as u8,
            ] + rest);
            asks_for_us(q, hostname) <==> (kind == 1 || kind == 255) && wire::lowered_bytes(asked)
                == wire::lowered_bytes(hostname)
        }),
{
    let local = seq![108u8, 111, 99, 97, 108];
    let kinds = seq![(kind / 256) as u8, (kind % 256) as u8] + rest;
    let tail = seq![5u8, 108, 111, 99, 97, 108, 0, (kind / 256) as u8, (kind % 256) as u8] + rest;
    let q = head + seq![asked.len() as u8] + asked + tail;
    wire::names_are_read_by_label(head, asked, tail, 0);
    let second = head + seq![asked.len() as u8] + asked;
    assert(q =~= second + seq![5u8] + local + (seq![0u8] + kinds));
    wire::names_are_read_by_label(second, local, seq![0u8] + kinds, 0);
    let third = second + seq![5u8] + local;
    assert(q =~= third + seq![0u8] + kinds);
    wire::names_are_read_by_label(third, local, kinds, 0);
    assert(seq![local] + Seq::<Seq<u8>>::empty() =~= seq![local]);
    assert(seq![asked] + seq![local] =~= seq![asked, local]);
    let e = asked.len() as int + 20;
    assert(wire::question_name(q, 12) == Some(
        (wire::NameView { labels: seq![asked, local], end: e }),
    ));
    assert(q[e] == kinds[0] && q[e + 1] == kinds[1]);
    assert(wire::lowered_bytes(local) =~= local_label());
}

/// A packet without a question, one that is too short, and one that asks for a
/// name of another form are not for us.
pub proof fn other_packets_are_not_for_us(query: Seq<u8>, hostname: Seq<u8>)
    ensures
        query.len() < 12 ==> !asks_for_us(query, hostname),
        query.len() >= 12 && query[4] == 0 && query[5] == 0 ==> !asks_for_us(query, hostname),
        wire::question_name(query, 12) is None ==> !asks_for_us(query, hostname),
        asks_for_us(query, hostname) ==> {
            let name = wire::question_name(query, 12).unwrap();
            &&& name.labels.len() == 2
            &&& name.labels[0].len() == hostname.len()
            &&& wire::lowered_bytes(name.labels[1]) == seq![108u8, 111, 99, 97, 108]
            &&& query.len() >= name.end + 2
        },
{
    if asks_for_us(query, hostname) {
        let name = wire::question_name(query, 12).unwrap();
        assert(wire::lowered_bytes(name.labels[0]).len() == wire::lowered_bytes(hostname).len());
    }
}

} // verus!
