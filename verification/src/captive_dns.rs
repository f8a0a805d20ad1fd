//! Answers of the resolver that sends every name lookup to the device, so that
//! a phone which has just joined finds the setup page.

use vstd::prelude::*;
use crate::wire;

verus! {

/// Where the type of the first question stands, where the packet is a query
/// with exactly one question whose name can be read.
pub open spec fn single_question(p: Seq<u8>) -> Option<int> {
    if p.len() < 12 || wire::be16(p[4], p[5]) != 1 {
        None
    } else {
        match wire::question_name(p, 12) {
            Some(name) => if name.end + 4 <= p.len() {
                Some(name.end)
            } else {
                None
            },
            None => None,
        }
    }
}

/// The packet asks one question, for an address in the Internet class.
pub open spec fn asks_for_address(p: Seq<u8>) -> bool {
    match single_question(p) {
        Some(i) => wire::be16(p[i], p[i + 1]) == 1 && wire::be16(p[i + 2], p[i + 3]) == 1,
        None => false,
    }
}

/// The reply: the query's number, one question and one answer, the question
/// once more, and an address record that lives for a minute.
pub open spec fn address_reply(p: Seq<u8>, ip: Seq<u8>) -> Seq<u8> {
    p.take(2) + seq![0x81u8, 0x80, 0, 1, 0, 1, 0, 0, 0, 0] + p.subrange(
        12,
        single_question(p)->0 + 4,
    ) + seq![0xC0u8, 0x0C, 0, 1, 0, 1, 0, 0, 0, 0x3C, 0, 4] + ip
}

/// Answers a query for an address with `ip`. Nothing for any other packet.
pub fn build_a_response(req: &[u8], ip: [u8; 4]) -> (r: Option<Vec<u8>>)
    ensures
        r is Some == asks_for_address(req@),
        r is Some ==> r->0@ == address_reply(req@, ip@),
{
    if req.len() < 12 {
        return None;
    }
    if wire::read_be16(req[4], req[5]) != 1 {
        return None;
    }
    let i: usize = match wire::read_question_name(req, 12) {
        Some(name) => name.end,
        None => return None,
    };
    proof {
        wire::question_name_ends_inside(req@, 12);
    }
    if req.len() - i < 4 {
        return None;
    }
    if wire::read_be16(req[i], req[i + 1]) != 1 || wire::read_be16(req[i + 2], req[i + 3]) != 1 {
        return None;
    }
    let mut out: Vec<u8> = Vec::new();
    wire::append(&mut out, &req[0..2]);
    wire::append(&mut out, &[0x81, 0x80, 0, 1, 0, 1, 0, 0, 0, 0]);
    wire::append(&mut out, &req[12..i + 4]);
    wire::append(&mut out, &[0xC0, 0x0C, 0, 1, 0, 1, 0, 0, 0, 0x3C, 0, 4]);
    wire::append(&mut out, &ip);
    assert(out@ =~= address_reply(req@, ip@));
    Some(out)
}

/// Every reply carries the number of its query, repeats its question, and ends
/// with the address.
pub proof fn reply_answers_its_query(p: Seq<u8>, ip: Seq<u8>)
    requires
        asks_for_address(p),
        ip.len() == 4,
    ensures
        address_reply(p, ip).take(2) == p.take(2),
        address_reply(p, ip).subrange(12, single_question(p)->0 + 4) == p.subrange(
            12,
            single_question(p)->0 + 4,
        ),
        address_reply(p, ip).skip(address_reply(p, ip).len() - 4) == ip,
{
    wire::question_name_ends_inside(p, 12);
    let r = address_reply(p, ip);
    let e = single_question(p)->0 + 4;
    assert(r.take(2) =~= p.take(2));
    assert(r.subrange(12, e) =~= p.subrange(12, e));
    assert(r.skip(r.len() - 4) =~= ip);
}

/// A reply is a reply to one question with one answer and nothing else, and
/// the answer points at the name of the question and is an Internet address of
/// four bytes that lives for sixty seconds.
pub proof fn reply_holds_one_address(p: Seq<u8>, ip: Seq<u8>)
    requires
        asks_for_address(p),
        ip.len() == 4,
    ensures
        ({
            let r = address_reply(p, ip);
            let a = r.len() - 16;
            &&& r[2] == 0x81 && r[3] == 0x80
            &&& wire::be16(r[4], r[5]) == 1
            &&& wire::be16(r[6], r[7]) == 1
            &&& wire::be16(r[8], r[9]) == 0
            &&& wire::be16(r[10], r[11]) == 0
            &&& a == single_question(p)->0 + 4
            &&& r[a] == 0xC0 && r[a + 1] == 12
            &&& wire::be16(r[a + 2], r[a + 3]) == 1
            &&& wire::be16(r[a + 4], r[a + 5]) == 1
            &&& wire::be32(r[a + 6], r[a + 7], r[a + 8], r[a + 9]) == 60
            &&& wire::be16(r[a + 10], r[a + 11]) == 4
        }),
{
    wire::question_name_ends_inside(p, 12);
}

/// A query for one name is answered where it asks for an Internet address, and
/// not where it asks for something else or in another class.
pub proof fn address_queries_are_answered(
    id: Seq<u8>,
    counts: Seq<u8>,
    label: Seq<u8>,
    kind: u16,
    class: u16,
)
    requires
        id.len() == 4,
        counts.len() == 6,
        1 <= label.len() <= 63,
    ensures
        ({
            let head = id + seq![0u8, 1] + counts;
            let asked = seq![
                (kind / 256) as u8,
                (kind % 256) as u8,
                (class / 256) as u8,
                (class % 256) as u8,
            ];
            let p = head + seq![label.len() as u8] + label + (seq![0u8] + asked);
            asks_for_address(p) <==> kind == 1 && class == 1
        }),
{
    let head = id + seq![0u8, 1] + counts;
    let asked = seq![
        (kind / 256) as u8,
        (kind % 256) as u8,
        (class / 256) as u8,
        (class % 256) as u8,
    ];
    let tail = seq![0u8] + asked;
    let p = head + seq![label.len() as u8] + label + tail;
    assert(p[4] == 0 && p[5] == 1);
    wire::names_are_read_by_label(head, label, tail, 0);
    let before = head + seq![label.len() as u8] + label;
    assert(p =~= before + seq![0u8] + asked);
    wire::names_are_read_by_label(before, label, asked, 0);
    let end = label.len() as int + 14;
    assert(p[end] == asked[0] && p[end + 1] == asked[1]);
    assert(p[end + 2] == asked[2] && p[end + 3] == asked[3]);
}

/// A packet that is too short, that has no question or several, or whose name
/// cannot be read is not answered.
pub proof fn other_packets_are_not_answered(p: Seq<u8>)
    ensures
        p.len() < 12 ==> !asks_for_address(p),
        p.len() >= 12 && !(p[4] == 0 && p[5] == 1) ==> !asks_for_address(p),
        wire::question_name(p, 12) is None ==> !asks_for_address(p),
        asks_for_address(p) ==> p.len() >= wire::question_name(p, 12).unwrap().end + 4,
{
}

} // verus!
