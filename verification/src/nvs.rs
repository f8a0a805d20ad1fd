//! A small key-value store that lives in one flash region: everything is kept
//! in memory, and the region is rewritten as a whole on every change.
//!
//! Layout, numbers low byte first and every field on a multiple of four bytes:
//! `WCKV`, the version, the number of entries, and for each entry the length
//! of the key, the length of the value, the key and the value.

use vstd::prelude::*;
use crate::string_map;
use crate::string_map::StringMap;
use crate::text;
use crate::traits::NvsError;
use crate::wire;

verus! {

/// Size of the region in bytes.
pub const REGION_LEN: usize = 8_192;

/// Where the region begins in flash.
pub const REGION_OFFSET: u32 = 0x9000;

/// The next multiple of four.
pub open spec fn padded(n: int) -> int {
    (n + 3) / 4 * 4
}

pub fn pad4(n: usize) -> (r: usize)
    requires
        n <= usize::MAX - 3,
    ensures
        r == padded(n as int),
{
    (n + 3) / 4 * 4
}

/// Zeros up to the next multiple of four.
pub open spec fn padding(n: int) -> Seq<u8> {
    Seq::new((padded(n) - n) as nat, |i: int| 0u8)
}

/// One entry of the region.
#[verifier::opaque]
pub open spec fn entry_bytes(key: Seq<u8>, value: Seq<u8>) -> Seq<u8> {
    wire::le32_bytes(key.len()) + wire::le32_bytes(value.len()) + key + padding(key.len() as int)
        + value + padding(value.len() as int)
}

/// Entries one behind the other.
pub open spec fn entries_bytes(pairs: Seq<(Seq<char>, Seq<u8>)>) -> Seq<u8>
    decreases pairs.len(),
{
    if pairs.len() == 0 {
        Seq::empty()
    } else {
        entry_bytes(vstd::utf8::encode_utf8(pairs[0].0), pairs[0].1) + entries_bytes(pairs.skip(1))
    }
}

/// `WCKV`, version 1, and the number of entries.
pub open spec fn blob_head(count: nat) -> Seq<u8> {
    seq![0x57u8, 0x43, 0x4B, 0x56] + wire::le32_bytes(1) + wire::le32_bytes(count)
}

/// What the region holds for these pairs.
pub open spec fn blob(pairs: Seq<(Seq<char>, Seq<u8>)>) -> Seq<u8> {
    blob_head(pairs.len()) + entries_bytes(pairs)
}

/// An entry: its key, its value, and where the next one begins.
pub struct EntryView {
    pub key: Seq<char>,
    pub value: Seq<u8>,
    pub next: int,
}

/// The entry at index `pos`, or nothing where it does not fit or its key is not
/// text.
pub open spec fn entry_at(buf: Seq<u8>, pos: int) -> Option<EntryView> {
    let klen = wire::le32(buf.subrange(pos, pos + 4));
    let vlen = wire::le32(buf.subrange(pos + 4, pos + 8));
    let kend = pos + 8 + klen;
    let vstart = padded(kend);
    let vend = vstart + vlen;
    if pos + 8 > buf.len() || kend > buf.len() || vend > buf.len() || !vstd::utf8::valid_utf8(
        buf.subrange(pos + 8, kend),
    ) {
        None
    } else {
        Some(
            EntryView {
                key: vstd::utf8::decode_utf8(buf.subrange(pos + 8, kend)),
                value: buf.subrange(vstart, vend),
                next: padded(vend),
            },
        )
    }
}

/// As many entries as given, from index `pos` on.
pub open spec fn read_entries(buf: Seq<u8>, pos: int, count: nat) -> Option<
    Seq<(Seq<char>, Seq<u8>)>,
>
    decreases count,
{
    if count == 0 {
        Some(Seq::empty())
    } else {
        match entry_at(buf, pos) {
            Some(e) => match read_entries(buf, e.next, (count - 1) as nat) {
                Some(rest) => Some(seq![(e.key, e.value)] + rest),
                None => None,
            },
            None => None,
        }
    }
}

/// The pairs in a region, or nothing where it is not one of ours.
pub open spec fn read_blob(buf: Seq<u8>) -> Option<Seq<(Seq<char>, Seq<u8>)>> {
    if buf.len() < 12 || buf.take(8) != blob_head(0).take(8) {
        None
    } else {
        read_entries(buf, 12, wire::le32(buf.subrange(8, 12)))
    }
}

/// Pairs put into a map one after the other.
pub open spec fn map_from(pairs: Seq<(Seq<char>, Seq<u8>)>) -> Map<Seq<char>, Seq<u8>>
    decreases pairs.len(),
{
    if pairs.len() == 0 {
        Map::empty()
    } else {
        map_from(pairs.drop_last()).insert(pairs.last().0, pairs.last().1)
    }
}

/// The pairs of a map, in key order.
pub open spec fn pairs_of(m: StringMap<Vec<u8>>) -> Seq<(Seq<char>, Seq<u8>)> {
    Seq::new(m.entries().len(), |i: int| (m.entries()[i].0@, m.entries()[i].1@))
}

/// A map by the bytes of its values.
pub open spec fn contents(m: StringMap<Vec<u8>>) -> Map<Seq<char>, Seq<u8>> {
    m@.map_values(|v: Vec<u8>| v@)
}

struct Entry {
    key: String,
    value: Vec<u8>,
    next: usize,
}

fn read_entry(buf: &[u8], pos: usize) -> (r: Option<Entry>)
    requires
        buf@.len() == REGION_LEN,
        pos <= REGION_LEN,
    ensures
        r is Some == entry_at(buf@, pos as int) is Some,
        r is Some ==> entry_at(buf@, pos as int) == Some(
            EntryView { key: r->0.key@, value: r->0.value@, next: r->0.next as int },
        ),
        r is Some ==> r->0.next <= REGION_LEN,
{
    let n: usize = buf.len();
    if n - pos < 8 {
        return None;
    }
    let klen: usize = wire::read_le32(buf, pos) as usize;
    let vlen: usize = wire::read_le32(buf, pos + 4) as usize;
    if klen > n - pos - 8 {
        return None;
    }
    let kend: usize = pos + 8 + klen;
    let vstart: usize = pad4(kend);
    if vlen > n - vstart {
        return None;
    }
    let vend: usize = vstart + vlen;
    match text::utf8_text(&buf[pos + 8..kend]) {
        Some(key) => {
            let mut value: Vec<u8> = Vec::new();
            wire::append(&mut value, &buf[vstart..vend]);
            assert(value@ =~= buf@.subrange(vstart as int, vend as int));
            Some(Entry { key: key.to_owned(), value, next: pad4(vend) })
        },
        None => None,
    }
}

proof fn entries_bytes_join(a: Seq<(Seq<char>, Seq<u8>)>, b: Seq<(Seq<char>, Seq<u8>)>)
    ensures
        entries_bytes(a + b) == entries_bytes(a) + entries_bytes(b),
    decreases a.len(),
{
    if a.len() == 0 {
        assert(a + b =~= b);
        assert(entries_bytes(a) + entries_bytes(b) =~= entries_bytes(b));
    } else {
        entries_bytes_join(a.skip(1), b);
        assert((a + b).skip(1) =~= a.skip(1) + b);
        let first = entry_bytes(vstd::utf8::encode_utf8(a[0].0), a[0].1);
        assert(first + (entries_bytes(a.skip(1)) + entries_bytes(b)) =~= (first + entries_bytes(
            a.skip(1),
        )) + entries_bytes(b));
    }
}

proof fn entries_bytes_step(pairs: Seq<(Seq<char>, Seq<u8>)>, i: int)
    requires
        0 <= i < pairs.len(),
    ensures
        entries_bytes(pairs.take(i + 1)) == entries_bytes(pairs.take(i)) + entry_bytes(
            vstd::utf8::encode_utf8(pairs[i].0),
            pairs[i].1,
        ),
        entries_bytes(pairs).len() >= entries_bytes(pairs.take(i + 1)).len(),
{
    let single = seq![pairs[i]];
    let none = Seq::<(Seq<char>, Seq<u8>)>::empty();
    let one = entry_bytes(vstd::utf8::encode_utf8(pairs[i].0), pairs[i].1);
    assert(entries_bytes(none) == Seq::<u8>::empty());
    assert(single.skip(1) =~= none);
    assert(entries_bytes(single) == one + Seq::<u8>::empty());
    assert(one + Seq::<u8>::empty() =~= one);
    assert(pairs.take(i + 1) =~= pairs.take(i) + single);
    entries_bytes_join(pairs.take(i), single);
    assert(pairs =~= pairs.take(i + 1) + pairs.skip(i + 1));
    entries_bytes_join(pairs.take(i + 1), pairs.skip(i + 1));
}

/// Appends one entry to a region that ends on a multiple of four.
fn push_entry(out: &mut Vec<u8>, key: &[u8], value: &[u8])
    requires
        old(out)@.len() % 4 == 0,
        old(out)@.len() <= REGION_LEN,
        key@.len() <= REGION_LEN,
        value@.len() <= REGION_LEN,
    ensures
        final(out)@ == old(out)@ + entry_bytes(key@, value@),
        final(out)@.len() % 4 == 0,
{
    proof {
        reveal(entry_bytes);
    }
    let ghost before = out@;
    wire::push_le32(out, key.len() as u32);
    wire::push_le32(out, value.len() as u32);
    wire::append(out, key);
    let ghost with_key = out@.len() as int;
    pad_out(out);
    assert(padding(with_key) =~= padding(key@.len() as int));
    wire::append(out, value);
    let ghost with_value = out@.len() as int;
    pad_out(out);
    assert(padding(with_value) =~= padding(value@.len() as int));
    assert(out@ =~= before + entry_bytes(key@, value@));
}

proof fn entries_take_space(pairs: Seq<(Seq<char>, Seq<u8>)>)
    ensures
        entries_bytes(pairs).len() >= 8 * pairs.len(),
    decreases pairs.len(),
{
    if pairs.len() > 0 {
        entries_take_space(pairs.skip(1));
        entry_layout(vstd::utf8::encode_utf8(pairs[0].0), pairs[0].1);
    }
}

/// Zeros up to the next multiple of four.
fn pad_out(out: &mut Vec<u8>)
    requires
        old(out)@.len() <= 0x1_0000,
    ensures
        final(out)@ == old(out)@ + padding(old(out)@.len() as int),
{
    let ghost before = out@;
    let end: usize = pad4(out.len());
    while out.len() < end
        invariant
            before.len() <= out@.len() <= end,
            end == padded(before.len() as int),
            out@ == before + Seq::new((out@.len() - before.len()) as nat, |i: int| 0u8),
        decreases end - out@.len(),
    {
        out.push(0);
        assert(out@ =~= before + Seq::new((out@.len() - before.len()) as nat, |i: int| 0u8));
    }
}

proof fn padded_from_aligned(pos: int, n: int)
    requires
        pos % 4 == 0,
        n >= 0,
    ensures
        padded(pos + n) == pos + padded(n),
        padded(n) % 4 == 0,
        padded(n) >= n,
{
}

/// Where the fields of an entry stand.
proof fn entry_layout(key: Seq<u8>, value: Seq<u8>)
    ensures
        ({
            let e = entry_bytes(key, value);
            let k = key.len() as int;
            let v = value.len() as int;
            &&& e.len() == 8 + padded(k) + padded(v)
            &&& e.subrange(0, 4) == wire::le32_bytes(key.len())
            &&& e.subrange(4, 8) == wire::le32_bytes(value.len())
            &&& e.subrange(8, 8 + k) == key
            &&& e.subrange(8 + padded(k), 8 + padded(k) + v) == value
        }),
{
    reveal(entry_bytes);
    let e = entry_bytes(key, value);
    let k = key.len() as int;
    let v = value.len() as int;
    assert(e.subrange(0, 4) =~= wire::le32_bytes(key.len()));
    assert(e.subrange(4, 8) =~= wire::le32_bytes(value.len()));
    assert(e.subrange(8, 8 + k) =~= key);
    assert(e.subrange(8 + padded(k), 8 + padded(k) + v) =~= value);
}

/// A part of what stands at index `pos` is a part of the whole.
proof fn part_of_part(buf: Seq<u8>, pos: int, part: Seq<u8>, a: int, b: int)
    requires
        0 <= pos,
        pos + part.len() <= buf.len(),
        buf.subrange(pos, pos + part.len()) == part,
        0 <= a <= b <= part.len(),
    ensures
        buf.subrange(pos + a, pos + b) == part.subrange(a, b),
{
    assert forall|i: int| 0 <= i < b - a implies #[trigger] buf.subrange(pos + a, pos + b)[i]
        == part.subrange(a, b)[i] by {
        assert(part[a + i] == buf.subrange(pos, pos + part.len())[a + i]);
    }
    assert(buf.subrange(pos + a, pos + b) =~= part.subrange(a, b));
}

/// Where the fields of an entry that stands at index `pos` are found.
proof fn written_fields_are_found(buf: Seq<u8>, pos: int, name: Seq<u8>, value: Seq<u8>)
    requires
        pos >= 0,
        pos % 4 == 0,
        pos + entry_bytes(name, value).len() <= buf.len(),
        buf.subrange(pos, pos + entry_bytes(name, value).len()) == entry_bytes(name, value),
        entry_bytes(name, value).len() < 0x1_0000_0000,
    ensures
        wire::le32(buf.subrange(pos, pos + 4)) == name.len(),
        wire::le32(buf.subrange(pos + 4, pos + 8)) == value.len(),
        buf.subrange(pos + 8, pos + 8 + name.len()) == name,
        buf.subrange(padded(pos + 8 + name.len()), padded(pos + 8 + name.len()) + value.len())
            == value,
        padded(padded(pos + 8 + name.len()) + value.len()) == pos + entry_bytes(name, value).len(),
        pos + 8 + name.len() <= buf.len(),
        padded(pos + 8 + name.len()) + value.len() <= buf.len(),
{
    let one = entry_bytes(name, value);
    let k = name.len() as int;
    let v = value.len() as int;
    entry_layout(name, value);
    padded_from_aligned(pos, 8 + k);
    padded_from_aligned(8, k);
    padded_from_aligned(pos + 8 + padded(k), v);
    padded_from_aligned(0, v);
    part_of_part(buf, pos, one, 0, 4);
    part_of_part(buf, pos, one, 4, 8);
    part_of_part(buf, pos, one, 8, 8 + k);
    part_of_part(buf, pos, one, 8 + padded(k), 8 + padded(k) + v);
    wire::le32_round_trip(name.len());
    wire::le32_round_trip(value.len());
}

/// An entry that stands at index `pos` is read as it was written.
proof fn written_entry_is_read(
    buf: Seq<u8>,
    pos: int,
    name: Seq<u8>,
    key: Seq<char>,
    value: Seq<u8>,
)
    requires
        pos >= 0,
        pos % 4 == 0,
        pos + entry_bytes(name, value).len() <= buf.len(),
        buf.subrange(pos, pos + entry_bytes(name, value).len()) == entry_bytes(name, value),
        entry_bytes(name, value).len() < 0x1_0000_0000,
        vstd::utf8::valid_utf8(name),
        vstd::utf8::decode_utf8(name) == key,
    ensures
        entry_at(buf, pos) == Some(
            EntryView { key, value, next: pos + entry_bytes(name, value).len() },
        ),
{
    written_fields_are_found(buf, pos, name, value);
}

/// Entries that stand at index `pos` are read as they were written.
proof fn written_entries_are_read(buf: Seq<u8>, pos: int, pairs: Seq<(Seq<char>, Seq<u8>)>)
    requires
        pos >= 0,
        pos % 4 == 0,
        pos + entries_bytes(pairs).len() <= buf.len(),
        buf.subrange(pos, pos + entries_bytes(pairs).len()) == entries_bytes(pairs),
        entries_bytes(pairs).len() < 0x1_0000_0000,
    ensures
        read_entries(buf, pos, pairs.len()) == Some(pairs),
    decreases pairs.len(),
{
    if pairs.len() == 0 {
        assert(pairs =~= Seq::<(Seq<char>, Seq<u8>)>::empty());
    } else {
        let key = vstd::utf8::encode_utf8(pairs[0].0);
        let one = entry_bytes(key, pairs[0].1);
        let rest = entries_bytes(pairs.skip(1));
        let all = entries_bytes(pairs);
        assert(all == one + rest);
        part_of_part(buf, pos, all, 0, one.len() as int);
        assert(all.subrange(0, one.len() as int) =~= one);
        vstd::utf8::encode_utf8_valid_utf8(pairs[0].0);
        vstd::utf8::encode_utf8_decode_utf8(pairs[0].0);
        written_entry_is_read(buf, pos, key, pairs[0].0, pairs[0].1);
        part_of_part(buf, pos, all, one.len() as int, all.len() as int);
        assert(all.subrange(one.len() as int, all.len() as int) =~= rest);
        entry_layout(key, pairs[0].1);
        written_entries_are_read(buf, pos + one.len(), pairs.skip(1));
        assert(seq![pairs[0]] + pairs.skip(1) =~= pairs);
    }
}

/// What was written to the region is read back, whatever the rest of the
/// region holds.
pub proof fn written_region_is_read(pairs: Seq<(Seq<char>, Seq<u8>)>, rest: Seq<u8>)
    requires
        blob(pairs).len() <= REGION_LEN,
    ensures
        read_blob(blob(pairs) + rest) == Some(pairs),
{
    let buf = blob(pairs) + rest;
    let head = blob_head(pairs.len());
    entries_take_space(pairs);
    assert(head.len() == 12);
    assert(buf.take(8) =~= head.take(8));
    assert(head.take(8) =~= blob_head(0).take(8));
    assert(buf.subrange(8, 12) =~= wire::le32_bytes(pairs.len()));
    wire::le32_round_trip(pairs.len());
    assert(buf.subrange(12, 12int + entries_bytes(pairs).len()) =~= entries_bytes(pairs));
    written_entries_are_read(buf, 12, pairs);
}

/// The pairs of a map make up the map again.
proof fn pairs_make_the_map(entries: Seq<(String, Vec<u8>)>)
    requires
        string_map::ascending(string_map::keys_of(entries)),
    ensures
        map_from(Seq::new(entries.len(), |i: int| (entries[i].0@, entries[i].1@)))
            == string_map::map_of(entries).map_values(|v: Vec<u8>| v@),
    decreases entries.len(),
{
    let pairs = Seq::new(entries.len(), |i: int| (entries[i].0@, entries[i].1@));
    let view = |v: Vec<u8>| v@;
    if entries.len() == 0 {
        assert(string_map::map_of(entries).map_values(view) =~= Map::empty());
    } else {
        let before = entries.drop_last();
        string_map::map_of_last(entries);
        pairs_make_the_map(before);
        let pairs_before = Seq::new(before.len(), |i: int| (before[i].0@, before[i].1@));
        assert(pairs.drop_last() =~= pairs_before);
        assert(string_map::map_of(entries).map_values(view) =~= string_map::map_of(
            before,
        ).map_values(view).insert(entries.last().0@, entries.last().1@));
    }
}

/// A store that is started on what was written holds what the old one held.
pub proof fn contents_survive_restart(map: StringMap<Vec<u8>>, rest: Seq<u8>)
    requires
        map.wf(),
        blob(pairs_of(map)).len() <= REGION_LEN,
    ensures
        read_blob(blob(pairs_of(map)) + rest) is Some,
        map_from(read_blob(blob(pairs_of(map)) + rest)->0) == contents(map),
{
    written_region_is_read(pairs_of(map), rest);
    pairs_make_the_map(map.entries());
    assert(pairs_of(map) =~= Seq::new(
        map.entries().len(),
        |i: int| (map.entries()[i].0@, map.entries()[i].1@),
    ));
}

/// The store. Changes return what the region has to hold; writing it is up to
/// the caller.
pub struct FlashKv {
    cache: StringMap<Vec<u8>>,
}

impl View for FlashKv {
    type V = Map<Seq<char>, Seq<u8>>;

    closed spec fn view(&self) -> Map<Seq<char>, Seq<u8>> {
        contents(self.cache)
    }
}

impl FlashKv {
    pub closed spec fn wf(self) -> bool {
        self.cache.wf()
    }

    /// The region that holds the current contents.
    pub closed spec fn region(self) -> Seq<u8> {
        blob(pairs_of(self.cache))
    }

    /// Puts the pairs of a region into a map. Later pairs win over earlier ones.
    pub fn load(buf: &[u8]) -> (r: Option<StringMap<Vec<u8>>>)
        requires
            buf@.len() == REGION_LEN,
        ensures
            r is Some == read_blob(buf@) is Some,
            r is Some ==> r->0.wf() && contents(r->0) == map_from(read_blob(buf@)->0),
    {
        let n: usize = buf.len();
        let ghost head = buf@.take(8);
        let ghost want = blob_head(0).take(8);
        assert(want =~= seq![0x57u8, 0x43, 0x4B, 0x56, 1, 0, 0, 0]);
        if buf[0] != 0x57 || buf[1] != 0x43 || buf[2] != 0x4B || buf[3] != 0x56 || buf[4] != 1
            || buf[5] != 0 || buf[6] != 0 || buf[7] != 0 {
            assert(head[0] != want[0] || head[1] != want[1] || head[2] != want[2] || head[3]
                != want[3] || head[4] != want[4] || head[5] != want[5] || head[6] != want[6]
                || head[7] != want[7]);
            return None;
        }
        assert(head =~= want);
        let count: u32 = wire::read_le32(buf, 8);
        let ghost whole = read_blob(buf@);
        let ghost mut done: Seq<(Seq<char>, Seq<u8>)> = Seq::empty();
        let mut map: StringMap<Vec<u8>> = StringMap::new();
        let mut pos: usize = 12;
        let mut left: u32 = count;
        assert(contents(map) =~= Map::empty());
        proof {
            if whole is Some {
                assert(done + whole->0 =~= whole->0);
            }
        }
        while left > 0
            invariant
                n == buf@.len(),
                n == REGION_LEN,
                pos <= n,
                map.wf(),
                contents(map) == map_from(done),
                whole == read_blob(buf@),
                whole is Some == read_entries(buf@, pos as int, left as nat) is Some,
                whole is Some ==> whole->0 == done + read_entries(buf@, pos as int, left as nat)->0,
            decreases left,
        {
            let entry = match read_entry(buf, pos) {
                Some(e) => e,
                None => return None,
            };
            let ghost pair = (entry.key@, entry.value@);
            let ghost before = map;
            pos = entry.next;
            map.insert(entry.key, entry.value);
            proof {
                assert(contents(map) =~= contents(before).insert(pair.0, pair.1));
                let more = done.push(pair);
                assert(more.drop_last() =~= done);
                let rest = read_entries(buf@, pos as int, (left - 1) as nat);
                if rest is Some {
                    assert(done + (seq![pair] + rest->0) =~= more + rest->0);
                }
                done = more;
            }
            left -= 1;
        }
        assert(done + Seq::<(Seq<char>, Seq<u8>)>::empty() =~= done);
        Some(map)
    }

    /// What the region has to hold for a map. Nothing where that does not fit.
    pub fn flush(map: &StringMap<Vec<u8>>) -> (r: Result<Vec<u8>, NvsError>)
        ensures
            r is Ok == (blob(pairs_of(*map)).len() <= REGION_LEN),
            r is Ok ==> r->Ok_0@ == blob(pairs_of(*map)),
            r is Err ==> r->Err_0 == NvsError::Full,
    {
        let ghost pairs = pairs_of(*map);
        let n: usize = map.len();
        if n > REGION_LEN {
            proof {
                entries_take_space(pairs);
            }
            return Err(NvsError::Full);
        }
        let mut out: Vec<u8> = Vec::new();
        wire::append(&mut out, &[0x57, 0x43, 0x4B, 0x56]);
        wire::push_le32(&mut out, 1);
        wire::push_le32(&mut out, n as u32);
        assert(out@ =~= blob_head(pairs.len()));
        let mut i: usize = 0;
        assert(pairs.take(0) =~= Seq::<(Seq<char>, Seq<u8>)>::empty());
        assert(out@ =~= blob_head(pairs.len()) + entries_bytes(pairs.take(0)));
        while i < n
            invariant
                n == map.entries().len(),
                n <= REGION_LEN,
                i <= n,
                pairs == pairs_of(*map),
                out@ == blob_head(pairs.len()) + entries_bytes(pairs.take(i as int)),
                out@.len() <= REGION_LEN,
                out@.len() % 4 == 0,
            decreases n - i,
        {
            let entry = map.at(i);
            let key = entry.0.as_str().as_bytes();
            let value = &entry.1;
            proof {
                assert(pairs[i as int] == (entry.0@, entry.1@));
                entries_bytes_step(pairs, i as int);
                entry_layout(key@, value@);
            }
            if key.len() > REGION_LEN || value.len() > REGION_LEN {
                return Err(NvsError::Full);
            }
            let ghost before = out@;
            push_entry(&mut out, key, value.as_slice());
            assert(out@ =~= blob_head(pairs.len()) + entries_bytes(pairs.take(i + 1)));
            if out.len() > REGION_LEN {
                return Err(NvsError::Full);
            }
            i += 1;
        }
        assert(pairs.take(n as int) =~= pairs);
        Ok(out)
    }

    /// A store with the contents of a region; empty where the region is not
    /// one of ours.
    pub fn new(region: &[u8]) -> (kv: Self)
        requires
            region@.len() == REGION_LEN,
        ensures
            kv.wf(),
            kv@ == (match read_blob(region@) {
                Some(pairs) => map_from(pairs),
                None => Map::empty(),
            }),
    {
        match FlashKv::load(region) {
            Some(cache) => FlashKv { cache },
            None => {
                let cache: StringMap<Vec<u8>> = StringMap::new();
                assert(contents(cache) =~= Map::empty());
                FlashKv { cache }
            },
        }
    }

    pub fn get(&self, key: &str) -> (v: Option<Vec<u8>>)
        requires
            self.wf(),
        ensures
            v is Some == self@.contains_key(key@),
            v is Some ==> v->0@ == self@[key@],
    {
        match self.cache.get(key) {
            Some(v) => {
                let copy = v.clone();
                assert(copy@ =~= v@);
                Some(copy)
            },
            None => None,
        }
    }

    /// Sets a value. The change counts in memory also where the region is full.
    pub fn set(&mut self, key: &str, value: &[u8]) -> (r: Result<Vec<u8>, NvsError>)
        requires
            old(self).wf(),
        ensures
            final(self).wf(),
            final(self)@ == old(self)@.insert(key@, value@),
            r is Ok == (final(self).region().len() <= REGION_LEN),
            r is Ok ==> r->Ok_0@ == final(self).region(),
            r is Err ==> r->Err_0 == NvsError::Full,
    {
        let mut copy: Vec<u8> = Vec::new();
        wire::append(&mut copy, value);
        assert(copy@ =~= value@);
        let ghost before = self.cache;
        self.cache.insert(key.to_owned(), copy);
        assert(contents(self.cache) =~= contents(before).insert(key@, value@));
        FlashKv::flush(&self.cache)
    }

    /// Takes a key out, whether or not it was there.
    pub fn remove(&mut self, key: &str) -> (r: Result<Vec<u8>, NvsError>)
        requires
            old(self).wf(),
        ensures
            final(self).wf(),
            final(self)@ == old(self)@.remove(key@),
            r is Ok == (final(self).region().len() <= REGION_LEN),
            r is Ok ==> r->Ok_0@ == final(self).region(),
            r is Err ==> r->Err_0 == NvsError::Full,
    {
        let ghost before = self.cache;
        self.cache.remove(key);
        assert(contents(self.cache) =~= contents(before).remove(key@));
        FlashKv::flush(&self.cache)
    }
}

/// A store that is started on the region of another one holds the same values.
pub proof fn store_survives_restart(kv: FlashKv, rest: Seq<u8>)
    requires
        kv.wf(),
        kv.region().len() <= REGION_LEN,
    ensures
        read_blob(kv.region() + rest) is Some,
        map_from(read_blob(kv.region() + rest)->0) == kv@,
{
    contents_survive_restart(kv.cache, rest);
}

/// Bytes that pairs take up: for each of them two lengths, and the key and the
/// value up to the next multiple of four.
pub open spec fn space(pairs: Seq<(Seq<char>, Seq<u8>)>) -> int
    decreases pairs.len(),
{
    if pairs.len() == 0 {
        0
    } else {
        8 + padded(vstd::utf8::encode_utf8(pairs[0].0).len() as int) + padded(
            pairs[0].1.len() as int,
        ) + space(pairs.skip(1))
    }
}

/// The region for a map takes a head of twelve bytes and the space of its pairs,
/// so that this sum decides whether the map fits.
pub proof fn region_takes_its_space(pairs: Seq<(Seq<char>, Seq<u8>)>)
    ensures
        blob(pairs).len() == 12 + space(pairs),
{
    entries_take_their_space(pairs);
    assert(blob_head(pairs.len()).len() == 12);
}

proof fn entries_take_their_space(pairs: Seq<(Seq<char>, Seq<u8>)>)
    ensures
        entries_bytes(pairs).len() == space(pairs),
    decreases pairs.len(),
{
    if pairs.len() > 0 {
        entries_take_their_space(pairs.skip(1));
        entry_layout(vstd::utf8::encode_utf8(pairs[0].0), pairs[0].1);
    }
}

/// A region with other first bytes, or of another version, is none of ours.
pub proof fn foreign_region_is_refused(buf: Seq<u8>)
    requires
        buf.len() >= 12,
        buf.take(4) != seq![0x57u8, 0x43, 0x4B, 0x56] || wire::le32(buf.subrange(4, 8)) != 1,
    ensures
        read_blob(buf) is None,
{
    let head = blob_head(0).take(8);
    assert(head =~= seq![0x57u8, 0x43, 0x4B, 0x56, 1, 0, 0, 0]);
    if buf.take(8) == head {
        assert(buf.take(4) =~= buf.take(8).take(4));
        assert(buf.take(4) =~= seq![0x57u8, 0x43, 0x4B, 0x56]);
        assert(buf.subrange(4, 8) =~= buf.take(8).subrange(4, 8));
        assert(buf.subrange(4, 8) =~= seq![1u8, 0, 0, 0]);
    }
}

/// The size of a field with its padding is the next multiple of four.
pub proof fn fields_end_on_words(n: int)
    requires
        n >= 0,
    ensures
        padded(n) % 4 == 0,
        n <= padded(n) < n + 4,
        padding(n).len() == padded(n) - n,
        forall|i: int| 0 <= i < padding(n).len() ==> #[trigger] padding(n)[i] == 0,
{
}

/// The bytes of an entry: the length of the key and of the value, four bytes
/// each with the low one first, then the key and the value, each with zeros up
/// to the next multiple of four.
pub proof fn entries_are_laid_out_in_words(key: Seq<u8>, value: Seq<u8>)
    requires
        key.len() < 0x1_0000_0000,
        value.len() < 0x1_0000_0000,
    ensures
        ({
            let e = entry_bytes(key, value);
            let k = (key.len() as int + 3) / 4 * 4;
            let v = (value.len() as int + 3) / 4 * 4;
            &&& e.len() == 8 + k + v
            &&& e[0] + 256 * e[1] + 65_536 * e[2] + 16_777_216 * e[3] == key.len()
            &&& e[4] + 256 * e[5] + 65_536 * e[6] + 16_777_216 * e[7] == value.len()
            &&& e.subrange(8, 8 + key.len() as int) == key
            &&& e.subrange(8 + k, 8 + k + value.len() as int) == value
            &&& forall|i: int| 8 + key.len() <= i < 8 + k ==> #[trigger] e[i] == 0
            &&& forall|i: int| 8 + k + value.len() <= i < 8 + k + v ==> #[trigger] e[i] == 0
        }),
{
    reveal(entry_bytes);
    let e = entry_bytes(key, value);
    let k = (key.len() as int + 3) / 4 * 4;
    let v = (value.len() as int + 3) / 4 * 4;
    assert(e.subrange(8, 8 + key.len() as int) =~= key);
    assert(e.subrange(8 + k, 8 + k + value.len() as int) =~= value);
    wire::numbers_come_back_from_bytes(key.len() as u32);
    wire::numbers_come_back_from_bytes(value.len() as u32);
    assert(e[0] == wire::le32_bytes(key.len())[0] && e[1] == wire::le32_bytes(key.len())[1] && e[2]
        == wire::le32_bytes(key.len())[2] && e[3] == wire::le32_bytes(key.len())[3]);
    assert(e[4] == wire::le32_bytes(value.len())[0] && e[5] == wire::le32_bytes(value.len())[1]
        && e[6] == wire::le32_bytes(value.len())[2] && e[7] == wire::le32_bytes(value.len())[3]);
}

/// A region starts with `WCKV`, the version and the number of its entries, which
/// follow one behind the other in the order of the pairs.
pub proof fn regions_start_with_their_mark(
    pairs: Seq<(Seq<char>, Seq<u8>)>,
    pair: (Seq<char>, Seq<u8>),
)
    requires
        pairs.len() < 0x1_0000_0000,
    ensures
        blob(pairs).subrange(0, 8) == seq![0x57u8, 0x43, 0x4B, 0x56, 1, 0, 0, 0],
        wire::le32(blob(pairs).subrange(8, 12)) == pairs.len(),
        blob(pairs).skip(12) == entries_bytes(pairs),
        entries_bytes(seq![pair] + pairs) == entry_bytes(
            vstd::utf8::encode_utf8(pair.0),
            pair.1,
        ) + entries_bytes(pairs),
        entries_bytes(Seq::empty()) == Seq::<u8>::empty(),
{
    let b = blob(pairs);
    assert(wire::le32_bytes(1) =~= seq![1u8, 0, 0, 0]);
    assert(b.subrange(0, 8) =~= seq![0x57u8, 0x43, 0x4B, 0x56, 1, 0, 0, 0]);
    assert(b.subrange(8, 12) =~= wire::le32_bytes(pairs.len()));
    wire::le32_round_trip(pairs.len());
    assert(b.skip(12) =~= entries_bytes(pairs));
    let more = seq![pair] + pairs;
    assert(more.skip(1) =~= pairs);
    assert(more[0] == pair);
}

/// Of two pairs with one key the later one counts, and pairs with other keys do
/// not touch it.
pub proof fn later_pairs_win(
    pairs: Seq<(Seq<char>, Seq<u8>)>,
    key: Seq<char>,
    value: Seq<u8>,
    other: Seq<char>,
)
    ensures
        ({
            let after = map_from(pairs.push((key, value)));
            &&& after.contains_key(key) && after[key] == value
            &&& other != key ==> after.contains_key(other) == map_from(pairs).contains_key(other)
            &&& other != key && map_from(pairs).contains_key(other) ==> after[other] == map_from(
                pairs,
            )[other]
        }),
        !map_from(Seq::empty()).contains_key(key),
{
    assert(pairs.push((key, value)).drop_last() =~= pairs);
}

/// The region is two flash sectors of 4096 bytes, at 0x9000.
pub proof fn region_is_two_sectors()
    ensures
        REGION_LEN == 2 * 4_096,
        REGION_OFFSET == 0x9000,
        REGION_OFFSET % 4_096 == 0,
{
}

/// An entry whose lengths reach beyond the region, or whose key is not text, is
/// refused, and with it the whole region.
pub proof fn broken_entries_are_refused(buf: Seq<u8>, pos: int, count: nat)
    requires
        0 <= pos,
        pos + 8 <= buf.len(),
        count > 0,
    ensures
        ({
            let klen = buf[pos] + 256 * buf[pos + 1] + 65_536 * buf[pos + 2] + 16_777_216 * buf[pos
                + 3];
            let vlen = buf[pos + 4] + 256 * buf[pos + 5] + 65_536 * buf[pos + 6] + 16_777_216
                * buf[pos + 7];
            let start = (pos + 8 + klen + 3) / 4 * 4;
            &&& pos + 8 + klen > buf.len() ==> read_entries(buf, pos, count) is None
            &&& start + vlen > buf.len() ==> read_entries(buf, pos, count) is None
            &&& pos + 8 + klen <= buf.len() && !vstd::utf8::valid_utf8(
                buf.subrange(pos + 8, pos + 8 + klen),
            ) ==> read_entries(buf, pos, count) is None
        }),
        forall|at: int| at + 8 > buf.len() ==> #[trigger] entry_at(buf, at) is None,
{
    let k = buf.subrange(pos, pos + 4);
    let v = buf.subrange(pos + 4, pos + 8);
    assert(k[0] == buf[pos] && k[1] == buf[pos + 1] && k[2] == buf[pos + 2] && k[3] == buf[pos + 3]);
    assert(v[0] == buf[pos + 4] && v[1] == buf[pos + 5] && v[2] == buf[pos + 6] && v[3] == buf[pos
        + 7]);
}

} // verus!
