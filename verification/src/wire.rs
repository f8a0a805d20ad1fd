//! Numbers and names in packets.

use vstd::prelude::*;

verus! {

/// A number of sixteen bits out of its two bytes, high byte first.
pub open spec fn be16(hi: u8, lo: u8) -> int {
    hi * 256 + lo
}

pub fn read_be16(hi: u8, lo: u8) -> (n: u16)
    ensures
        n == be16(hi, lo),
{
    hi as u16 * 256 + lo as u16
}

/// A number of thirty-two bits out of its four bytes, high byte first.
pub open spec fn be32(b0: u8, b1: u8, b2: u8, b3: u8) -> int {
    b0 * 0x100_0000 + b1 * 0x1_0000 + b2 * 0x100 + b3
}

pub fn read_be32(b0: u8, b1: u8, b2: u8, b3: u8) -> (n: u32)
    ensures
        n == be32(b0, b1, b2, b3),
{
    b0 as u32 * 0x100_0000 + b1 as u32 * 0x1_0000 + b2 as u32 * 0x100 + b3 as u32
}

/// A number of thirty-two bits as four bytes, low byte first.
pub open spec fn le32_bytes(n: nat) -> Seq<u8> {
    seq![
        (n % 256) as u8,
        (n / 0x100 % 256) as u8,
        (n / 0x1_0000 % 256) as u8,
        (n / 0x100_0000 % 256) as u8,
    ]
}

/// The number that four bytes stand for, low byte first.
pub open spec fn le32(b: Seq<u8>) -> nat {
    (b[0] + b[1] * 0x100 + b[2] * 0x1_0000 + b[3] * 0x100_0000) as nat
}

pub proof fn le32_round_trip(n: nat)
    requires
        n < 0x1_0000_0000,
    ensures
        le32(le32_bytes(n)) == n,
{
}

pub fn push_le32(out: &mut Vec<u8>, n: u32)
    ensures
        final(out)@ == old(out)@ + le32_bytes(n as nat),
{
    out.push((n % 256) as u8);
    out.push((n / 0x100 % 256) as u8);
    out.push((n / 0x1_0000 % 256) as u8);
    out.push((n / 0x100_0000 % 256) as u8);
    assert(out@ =~= old(out)@ + le32_bytes(n as nat));
}

pub fn read_le32(b: &[u8], at: usize) -> (n: u32)
    requires
        at + 4 <= b@.len(),
    ensures
        n == le32(b@.subrange(at as int, at + 4)),
{
    b[at] as u32 + b[at + 1] as u32 * 0x100 + b[at + 2] as u32 * 0x1_0000 + b[at + 3] as u32
        * 0x100_0000
}

/// `s` with `data` written over it from index `at` on.
pub open spec fn overwritten(s: Seq<u8>, at: int, data: Seq<u8>) -> Seq<u8> {
    Seq::new(
        s.len(),
        |k: int|
            if at <= k < at + data.len() {
                data[k - at]
            } else {
                s[k]
            },
    )
}

pub fn write_at(out: &mut [u8], at: usize, data: &[u8])
    requires
        at + data@.len() <= old(out)@.len(),
    ensures
        final(out)@ == overwritten(old(out)@, at as int, data@),
{
    let ghost before = out@;
    let n: usize = out.len();
    let mut k: usize = 0;
    while k < data.len()
        invariant
            k <= data@.len(),
            n == out@.len(),
            n == before.len(),
            at + data@.len() <= n,
            out@ == overwritten(before, at as int, data@.take(k as int)),
        decreases data@.len() - k,
    {
        out[at + k] = data[k];
        k += 1;
        assert(out@ =~= overwritten(before, at as int, data@.take(k as int)));
    }
    assert(data@.take(k as int) =~= data@);
}

pub fn append(out: &mut Vec<u8>, data: &[u8])
    ensures
        final(out)@ == old(out)@ + data@,
{
    out.extend_from_slice(data);
    assert(out@ =~= old(out)@ + data@);
}

/// A domain name in a packet: its labels, and the index behind it.
pub struct NameView {
    pub labels: Seq<Seq<u8>>,
    pub end: int,
}

/// The name in the question of a DNS packet. Nothing where the name runs past
/// the end or uses a pointer.
pub open spec fn question_name(p: Seq<u8>, at: int) -> Option<NameView>
    decreases p.len() - at,
{
    if at < 0 || at >= p.len() {
        None
    } else if p[at] == 0 {
        Some(NameView { labels: Seq::empty(), end: at + 1 })
    } else if p[at] >= 64 || at + 1 + p[at] > p.len() {
        None
    } else {
        match question_name(p, at + 1 + p[at]) {
            Some(rest) => Some(
                NameView {
                    labels: seq![p.subrange(at + 1, at + 1 + p[at])] + rest.labels,
                    end: rest.end,
                },
            ),
            None => None,
        }
    }
}

pub proof fn question_name_ends_inside(p: Seq<u8>, at: int)
    requires
        question_name(p, at) is Some,
    ensures
        at < question_name(p, at).unwrap().end <= p.len(),
        forall|i: int|
            0 <= i < question_name(p, at).unwrap().labels.len() ==> 1 <= (
            #[trigger] question_name(p, at).unwrap().labels[i]).len() <= 63,
    decreases p.len() - at,
{
    if p[at] != 0 {
        question_name_ends_inside(p, at + 1 + p[at]);
    }
}

/// Byte strings by their contents.
pub open spec fn byte_views(v: Seq<Vec<u8>>) -> Seq<Seq<u8>> {
    Seq::new(v.len(), |i: int| v[i]@)
}

pub struct Name {
    pub labels: Vec<Vec<u8>>,
    pub end: usize,
}

impl View for Name {
    type V = NameView;

    open spec fn view(&self) -> NameView {
        NameView { labels: byte_views(self.labels@), end: self.end as int }
    }
}

/// Reads a domain name out of a question.
pub fn read_question_name(p: &[u8], at: usize) -> (r: Option<Name>)
    ensures
        r is Some == question_name(p@, at as int) is Some,
        r is Some ==> r->0@ == question_name(p@, at as int).unwrap(),
{
    let n: usize = p.len();
    let mut labels: Vec<Vec<u8>> = Vec::new();
    let mut pos: usize = at;
    let ghost whole = question_name(p@, at as int);
    assert(byte_views(labels@) =~= Seq::<Seq<u8>>::empty());
    proof {
        if whole is Some {
            assert(Seq::<Seq<u8>>::empty() + whole.unwrap().labels =~= whole.unwrap().labels);
        }
    }
    while pos < n && p[pos] != 0
        invariant
            n == p@.len(),
            whole == question_name(p@, at as int),
            whole is Some == question_name(p@, pos as int) is Some,
            whole is Some ==> whole.unwrap().end == question_name(p@, pos as int).unwrap().end,
            whole is Some ==> whole.unwrap().labels == byte_views(labels@) + question_name(
                p@,
                pos as int,
            ).unwrap().labels,
        decreases n - pos,
    {
        let len: usize = p[pos] as usize;
        if len >= 64 || len + 1 > n - pos {
            return None;
        }
        let mut label: Vec<u8> = Vec::new();
        append(&mut label, &p[pos + 1..pos + 1 + len]);
        let ghost before = labels@;
        labels.push(label);
        proof {
            assert(byte_views(labels@) =~= byte_views(before).push(label@));
            let rest = question_name(p@, pos + 1 + len);
            if rest is Some {
                assert(byte_views(before) + (seq![label@] + rest.unwrap().labels) =~= byte_views(
                    labels@,
                ) + rest.unwrap().labels);
            }
        }
        pos = pos + 1 + len;
    }
    if pos >= n {
        return None;
    }
    assert(byte_views(labels@) + Seq::<Seq<u8>>::empty() =~= byte_views(labels@));
    Some(Name { labels, end: pos + 1 })
}

/// An upper-case ASCII letter as the lower-case one.
pub open spec fn lower_byte(b: u8) -> u8 {
    if 65 <= b <= 90 {
        (b + 32) as u8
    } else {
        b
    }
}

pub open spec fn lowered_bytes(s: Seq<u8>) -> Seq<u8> {
    Seq::new(s.len(), |i: int| lower_byte(s[i]))
}

/// Equal but for the case of ASCII letters.
pub fn same_bytes_ignoring_case(a: &[u8], b: &[u8]) -> (r: bool)
    ensures
        r == (lowered_bytes(a@) == lowered_bytes(b@)),
{
    if a.len() != b.len() {
        assert(lowered_bytes(a@).len() != lowered_bytes(b@).len());
        return false;
    }
    let mut i: usize = 0;
    while i < a.len()
        invariant
            a@.len() == b@.len(),
            i <= a@.len(),
            forall|j: int| 0 <= j < i ==> lowered_bytes(a@)[j] == lowered_bytes(b@)[j],
        decreases a@.len() - i,
    {
        let x: u8 = if 65 <= a[i] && a[i] <= 90 { a[i] + 32 } else { a[i] };
        let y: u8 = if 65 <= b[i] && b[i] <= 90 { b[i] + 32 } else { b[i] };
        if x != y {
            assert(lowered_bytes(a@)[i as int] != lowered_bytes(b@)[i as int]);
            return false;
        }
        i += 1;
    }
    assert(lowered_bytes(a@) =~= lowered_bytes(b@));
    true
}

/// Numbers come back from their bytes, high byte first or low byte first.
pub proof fn numbers_come_back_from_bytes(n: u32)
    ensures
        be16((n / 256 % 256) as u8, (n % 256) as u8) == n % 65_536,
        be32(
            (n / 16_777_216) as u8,
            (n / 65_536 % 256) as u8,
            (n / 256 % 256) as u8,
            (n % 256) as u8,
        ) == n,
        le32(
            seq![
                (n % 256) as u8,
                (n / 256 % 256) as u8,
                (n / 65_536 % 256) as u8,
                (n / 16_777_216) as u8,
            ],
        ) == n,
        le32_bytes(n as nat) == seq![
            (n % 256) as u8,
            (n / 256 % 256) as u8,
            (n / 65_536 % 256) as u8,
            (n / 16_777_216) as u8,
        ],
{
    let b = seq![
        (n % 256) as u8,
        (n / 256 % 256) as u8,
        (n / 65_536 % 256) as u8,
        (n / 16_777_216) as u8,
    ];
    assert(n as int == b[0] + b[1] * 256 + b[2] * 65_536 + b[3] * 16_777_216);
}

/// A name is read label by label: each is a length of 1 to 63 and as many
/// bytes, and a zero ends the name. Any other length makes it unreadable.
pub proof fn names_are_read_by_label(head: Seq<u8>, label: Seq<u8>, tail: Seq<u8>, b: u8)
    requires
        1 <= label.len() <= 63,
    ensures
        ({
            let p = head + seq![label.len() as u8] + label + tail;
            let at = head.len() as int;
            let rest = question_name(p, at + 1 + label.len());
            &&& rest is None ==> question_name(p, at) is None
            &&& rest is Some ==> question_name(p, at) == Some(
                (NameView { labels: seq![label] + rest.unwrap().labels, end: rest.unwrap().end }),
            )
        }),
        question_name(head + seq![0u8] + tail, head.len() as int) == Some(
            (NameView { labels: Seq::empty(), end: head.len() as int + 1 }),
        ),
        b >= 64 ==> question_name(head + seq![b] + tail, head.len() as int) is None,
        question_name(head, head.len() as int) is None,
{
    let p = head + seq![label.len() as u8] + label + tail;
    let at = head.len() as int;
    assert(p[at] == label.len());
    assert(p.subrange(at + 1, at + 1 + label.len()) =~= label);
    assert((head + seq![0u8] + tail)[at] == 0);
    assert((head + seq![b] + tail)[at] == b);
}

/// Bytes for `A` to `Z` count as those for `a` to `z`, all others as themselves.
pub proof fn letters_match_in_either_case(s: Seq<u8>, i: int, k: u8)
    requires
        0 <= i < s.len(),
        k < 26,
    ensures
        lowered_bytes(s).len() == s.len(),
        s[i] == 65 + k || s[i] == 97 + k ==> lowered_bytes(s)[i] == 97 + k,
        s[i] < 65 || s[i] > 90 ==> lowered_bytes(s)[i] == s[i],
{
}

} // verus!
