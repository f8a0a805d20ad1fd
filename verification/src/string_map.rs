//! A map with text keys that is walked in key order.
//!
//! Keys are ordered by code points, which is also the order of their UTF-8
//! bytes. No key occurs twice.

use vstd::prelude::*;
use crate::text::{chars_of, same};

verus! {

/// `a` comes before `b`: at the first place where they differ, or because it
/// is a proper beginning of `b`.
pub open spec fn text_less(a: Seq<char>, b: Seq<char>) -> bool
    decreases a.len(),
{
    if b.len() == 0 {
        false
    } else if a.len() == 0 {
        true
    } else if a[0] != b[0] {
        a[0] < b[0]
    } else {
        text_less(a.drop_first(), b.drop_first())
    }
}

pub proof fn text_less_is_strict(a: Seq<char>)
    ensures
        !text_less(a, a),
    decreases a.len(),
{
    if a.len() > 0 {
        text_less_is_strict(a.drop_first());
    }
}

pub proof fn text_less_is_transitive(a: Seq<char>, b: Seq<char>, c: Seq<char>)
    requires
        text_less(a, b),
        text_less(b, c),
    ensures
        text_less(a, c),
    decreases a.len(),
{
    if a.len() > 0 && a[0] == b[0] && b[0] == c[0] {
        text_less_is_transitive(a.drop_first(), b.drop_first(), c.drop_first());
    }
}

pub proof fn text_less_is_total(a: Seq<char>, b: Seq<char>)
    ensures
        a == b || text_less(a, b) || text_less(b, a),
    decreases a.len(),
{
    if a.len() > 0 && b.len() > 0 {
        if a[0] == b[0] {
            text_less_is_total(a.drop_first(), b.drop_first());
            if a.drop_first() == b.drop_first() {
                assert(a == seq![a[0]] + a.drop_first());
                assert(b == seq![b[0]] + b.drop_first());
            }
        }
    } else if a.len() == 0 && b.len() == 0 {
        assert(a == b);
    }
}

pub fn text_before(a: &str, b: &str) -> (r: bool)
    ensures
        r == text_less(a@, b@),
{
    let x: Vec<char> = chars_of(a);
    let y: Vec<char> = chars_of(b);
    let mut i: usize = 0;
    proof {
        assert(a@.skip(0) == a@);
        assert(b@.skip(0) == b@);
    }
    while i < x.len() && i < y.len()
        invariant
            x@ == a@,
            y@ == b@,
            i <= x.len(),
            i <= y.len(),
            text_less(a@, b@) == text_less(a@.skip(i as int), b@.skip(i as int)),
        decreases x.len() - i,
    {
        if x[i] != y[i] {
            return x[i] < y[i];
        }
        proof {
            assert(a@.skip(i as int).drop_first() == a@.skip(i + 1));
            assert(b@.skip(i as int).drop_first() == b@.skip(i + 1));
        }
        i += 1;
    }
    i < y.len()
}

/// Keys of an association list, in order.
pub open spec fn keys_of<V>(entries: Seq<(String, V)>) -> Seq<Seq<char>> {
    Seq::new(entries.len(), |i: int| entries[i].0@)
}

/// Each key comes before all later ones.
pub open spec fn ascending(keys: Seq<Seq<char>>) -> bool {
    forall|i: int, j: int| 0 <= i < j < keys.len() ==> text_less(#[trigger] keys[i], #[trigger] keys[j])
}

/// The pairs of an association list as a map.
pub open spec fn map_of<V>(entries: Seq<(String, V)>) -> Map<Seq<char>, V> {
    Map::new(
        |k: Seq<char>| keys_of(entries).contains(k),
        |k: Seq<char>| entries[keys_of(entries).index_of(k)].1,
    )
}

#[derive(Debug, PartialEq)]
pub struct StringMap<V> {
    entries: Vec<(String, V)>,
}

impl<V> StringMap<V> {
    /// The pairs in key order.
    pub closed spec fn entries(self) -> Seq<(String, V)> {
        self.entries@
    }

    /// The keys ascend, so none occurs twice.
    pub open spec fn wf(self) -> bool {
        ascending(keys_of(self.entries()))
    }

    /// The value of a key, if the key is there.
    pub open spec fn value_of(self, key: Seq<char>) -> Option<V> {
        if self@.contains_key(key) {
            Some(self@[key])
        } else {
            None
        }
    }
}

impl<V> View for StringMap<V> {
    type V = Map<Seq<char>, V>;

    open spec fn view(&self) -> Map<Seq<char>, V> {
        map_of(self.entries())
    }
}

/// Where a key stands in an ascending list is where the map finds its value.
proof fn map_of_at<V>(entries: Seq<(String, V)>, i: int)
    requires
        ascending(keys_of(entries)),
        0 <= i < entries.len(),
    ensures
        map_of(entries).contains_key(entries[i].0@),
        map_of(entries)[entries[i].0@] == entries[i].1,
{
    let keys = keys_of(entries);
    let k = entries[i].0@;
    assert(keys[i] == k);
    assert(keys.contains(k));
    let j = keys.index_of(k);
    assert(0 <= j < keys.len() && keys[j] == k);
    if j < i {
        assert(text_less(keys[j], keys[i]));
        text_less_is_strict(k);
    } else if i < j {
        assert(text_less(keys[i], keys[j]));
        text_less_is_strict(k);
    }
}

/// The last pair of an ascending list is the last one put into the map.
pub proof fn map_of_last<V>(entries: Seq<(String, V)>)
    requires
        entries.len() > 0,
        ascending(keys_of(entries)),
    ensures
        ascending(keys_of(entries.drop_last())),
        map_of(entries) == map_of(entries.drop_last()).insert(
            entries.last().0@,
            entries.last().1,
        ),
{
    let before = entries.drop_last();
    let ka = keys_of(entries);
    let kb = keys_of(before);
    let n = before.len() as int;
    let k = entries.last().0@;
    assert forall|i: int, j: int| 0 <= i < j < kb.len() implies text_less(
        #[trigger] kb[i],
        #[trigger] kb[j],
    ) by {
        assert(text_less(ka[i], ka[j]));
    }
    let goal = map_of(before).insert(k, entries.last().1);
    let got = map_of(entries);
    assert(ka[n] == k);
    assert forall|q: Seq<char>| #[trigger] got.contains_key(q) == goal.contains_key(q) by {
        if ka.contains(q) {
            let j = ka.index_of(q);
            if j < n {
                assert(kb[j] == q);
            }
        }
        if kb.contains(q) {
            let j = kb.index_of(q);
            assert(ka[j] == q);
        }
        if q == k {
            assert(ka[n] == q);
        }
    }
    assert forall|q: Seq<char>| #[trigger] got.contains_key(q) implies got[q] == goal[q] by {
        let j = ka.index_of(q);
        map_of_at(entries, j);
        if j < n {
            assert(kb[j] == q);
            map_of_at(before, j);
            assert(text_less(ka[j], ka[n]));
            text_less_is_strict(k);
        }
    }
    assert(got =~= goal);
}

impl<V> StringMap<V> {
    pub fn new() -> (m: Self)
        ensures
            m.wf(),
            m@ == Map::<Seq<char>, V>::empty(),
            m.entries().len() == 0,
    {
        let m = StringMap { entries: Vec::new() };
        assert(m@ =~= Map::<Seq<char>, V>::empty());
        m
    }

    pub fn len(&self) -> (n: usize)
        ensures
            n == self.entries().len(),
    {
        self.entries.len()
    }

    /// The pair at a place in key order.
    pub fn at(&self, i: usize) -> (e: &(String, V))
        requires
            i < self.entries().len(),
        ensures
            *e == self.entries()[i as int],
    {
        &self.entries[i]
    }

    /// The number of keys that come before `key`, and whether `key` follows them.
    fn place(&self, key: &str) -> (r: (usize, bool))
        requires
            self.wf(),
        ensures
            r.0 <= self.entries().len(),
            forall|j: int| 0 <= j < r.0 ==> text_less(#[trigger] keys_of(self.entries())[j], key@),
            forall|j: int|
                r.0 <= j < self.entries().len() ==> #[trigger] keys_of(self.entries())[j] == key@
                    || text_less(key@, keys_of(self.entries())[j]),
            r.1 ==> r.0 < self.entries().len() && self.entries()[r.0 as int].0@ == key@,
            r.1 == keys_of(self.entries()).contains(key@),
    {
        let ghost keys = keys_of(self.entries@);
        let mut i: usize = 0;
        while i < self.entries.len() && text_before(self.entries[i].0.as_str(), key)
            invariant
                self.wf(),
                keys == keys_of(self.entries@),
                i <= self.entries.len(),
                forall|j: int| 0 <= j < i ==> text_less(#[trigger] keys[j], key@),
            decreases self.entries.len() - i,
        {
            i += 1;
        }
        if i == self.entries.len() {
            proof {
                if keys.contains(key@) {
                    text_less_is_strict(key@);
                }
            }
            return (i, false);
        }
        let found = same(self.entries[i].0.as_str(), key);
        proof {
            let here = keys[i as int];
            assert(!text_less(here, key@));
            text_less_is_total(here, key@);
            assert forall|j: int| i <= j < keys.len() implies #[trigger] keys[j] == key@
                || text_less(key@, keys[j]) by {
                if i < j {
                    assert(text_less(keys[i as int], keys[j]));
                    if here != key@ {
                        text_less_is_transitive(key@, here, keys[j]);
                    }
                }
            }
            if !found && keys.contains(key@) {
                let j = keys.index_of(key@);
                text_less_is_strict(key@);
                if j < i {
                    assert(text_less(keys[j], key@));
                } else {
                    assert(text_less(keys[i as int], keys[j]) || i == j);
                    text_less_is_transitive(here, keys[j], here);
                    text_less_is_strict(here);
                }
            }
            if found {
                assert(keys[i as int] == key@);
            }
        }
        (i, found)
    }

    pub fn get(&self, key: &str) -> (v: Option<&V>)
        requires
            self.wf(),
        ensures
            v is Some == self@.contains_key(key@),
            v is Some ==> *v->0 == self@[key@],
    {
        let (i, found) = self.place(key);
        if found {
            proof {
                map_of_at(self.entries@, i as int);
            }
            Some(&self.entries[i].1)
        } else {
            None
        }
    }

    /// Adds the pair, or replaces the value where the key is there already.
    pub fn insert(&mut self, key: String, value: V)
        requires
            old(self).wf(),
        ensures
            final(self).wf(),
            final(self)@ == old(self)@.insert(key@, value),
    {
        let (i, found) = self.place(key.as_str());
        let ghost before = self.entries@;
        let ghost k = key@;
        if found {
            self.entries.remove(i);
        }
        let ghost rest = self.entries@;
        self.entries.insert(i, (key, value));
        proof {
            let after = self.entries@;
            let kb = keys_of(before);
            let ka = keys_of(after);
            let shift: int = if found { 0 } else { 1 };
            assert(after.len() == before.len() + shift);
            assert forall|j: int| 0 <= j < after.len() implies #[trigger] after[j] == (if j < i {
                before[j]
            } else if j == i {
                (key, value)
            } else {
                before[j - shift]
            }) by {}
            assert forall|a: int, b: int| 0 <= a < b < ka.len() implies text_less(
                #[trigger] ka[a],
                #[trigger] ka[b],
            ) by {
                if b < i {
                    assert(text_less(kb[a], kb[b]));
                } else if b == i {
                    assert(text_less(kb[a], k));
                } else if a < i {
                    assert(text_less(kb[a], kb[b - shift]));
                } else if a == i {
                    assert(kb[b - shift] == k || text_less(k, kb[b - shift]));
                    if kb[b - shift] == k {
                        if found {
                            assert(text_less(kb[i as int], kb[b]));
                            text_less_is_strict(k);
                        } else {
                            assert(kb.contains(k));
                        }
                    }
                } else {
                    assert(text_less(kb[a - shift], kb[b - shift]));
                }
            }
            assert(ascending(ka));
            let goal = map_of(before).insert(k, value);
            let got = map_of(after);
            assert forall|q: Seq<char>| #[trigger] got.contains_key(q) == goal.contains_key(q) by {
                if ka.contains(q) {
                    let j = ka.index_of(q);
                    assert(ka[j] == q);
                    if j < i {
                        assert(kb[j] == q);
                    } else if j > i {
                        assert(kb[j - shift] == q);
                    }
                }
                if q == k {
                    assert(ka[i as int] == k);
                } else if kb.contains(q) {
                    let j = kb.index_of(q);
                    assert(kb[j] == q);
                    if j < i {
                        assert(ka[j] == q);
                    } else if found && j == i {
                    } else {
                        assert(ka[j + shift] == q);
                    }
                }
            }
            assert forall|q: Seq<char>| #[trigger] got.contains_key(q) implies got[q] == goal[q] by {
                let j = ka.index_of(q);
                assert(ka[j] == q);
                map_of_at(after, j);
                text_less_is_strict(k);
                if j < i {
                    assert(kb[j] == q);
                    assert(text_less(kb[j], k));
                    map_of_at(before, j);
                } else if j > i {
                    assert(kb[j - shift] == q);
                    assert(text_less(ka[i as int], ka[j]));
                    map_of_at(before, j - shift);
                } else {
                    assert(q == k);
                }
            }
            assert(got =~= goal);
        }
    }

    /// Takes the key out. True where it was there.
    pub fn remove(&mut self, key: &str) -> (was_there: bool)
        requires
            old(self).wf(),
        ensures
            final(self).wf(),
            final(self)@ == old(self)@.remove(key@),
            was_there == old(self)@.contains_key(key@),
    {
        let (i, found) = self.place(key);
        let ghost before = self.entries@;
        let ghost k = key@;
        if found {
            self.entries.remove(i);
        }
        proof {
            let after = self.entries@;
            let kb = keys_of(before);
            let ka = keys_of(after);
            let goal = map_of(before).remove(k);
            let got = map_of(after);
            if !found {
                assert(goal =~= got);
            } else {
                assert forall|j: int| 0 <= j < after.len() implies #[trigger] after[j] == (if j < i {
                    before[j]
                } else {
                    before[j + 1]
                }) by {}
                assert forall|a: int, b: int| 0 <= a < b < ka.len() implies text_less(
                    #[trigger] ka[a],
                    #[trigger] ka[b],
                ) by {
                    let a2 = if a < i { a } else { a + 1 };
                    let b2 = if b < i { b } else { b + 1 };
                    assert(text_less(kb[a2], kb[b2]));
                }
                assert(ascending(ka));
                assert forall|q: Seq<char>| #[trigger] got.contains_key(q) == goal.contains_key(
                    q,
                ) by {
                    if ka.contains(q) {
                        let j = ka.index_of(q);
                        assert(ka[j] == q);
                        let j2 = if j < i { j } else { j + 1 };
                        assert(kb[j2] == q);
                        if q == k {
                            text_less_is_strict(k);
                            if j2 < i {
                                assert(text_less(kb[j2], kb[i as int]));
                            } else {
                                assert(text_less(kb[i as int], kb[j2]));
                            }
                        }
                    }
                    if kb.contains(q) && q != k {
                        let j = kb.index_of(q);
                        assert(kb[j] == q);
                        if j < i {
                            assert(ka[j] == q);
                        } else {
                            assert(j != i);
                            assert(ka[j - 1] == q);
                        }
                    }
                }
                assert forall|q: Seq<char>| #[trigger] got.contains_key(q) implies got[q]
                    == goal[q] by {
                    let j = ka.index_of(q);
                    assert(ka[j] == q);
                    map_of_at(after, j);
                    map_of_at(before, if j < i { j } else { j + 1 });
                }
                assert(got =~= goal);
            }
        }
        found
    }
}

/// Two maps with the same contents hold the same keys in the same order: the
/// contents alone fix the order in which a map is walked.
pub proof fn contents_fix_the_order<V>(a: StringMap<V>, b: StringMap<V>)
    requires
        a.wf(),
        b.wf(),
        a@ == b@,
    ensures
        keys_of(a.entries()) == keys_of(b.entries()),
        forall|i: int| 0 <= i < a.entries().len() ==> (#[trigger] a.entries()[i]).1 == b.entries()[i].1,
{
    let ka = keys_of(a.entries());
    let kb = keys_of(b.entries());
    assert forall|k: Seq<char>| ka.contains(k) == kb.contains(k) by {
        assert(map_of(a.entries()).contains_key(k) == ka.contains(k));
        assert(map_of(b.entries()).contains_key(k) == kb.contains(k));
    }
    same_keys_same_order(ka, kb);
    assert forall|i: int| 0 <= i < a.entries().len() implies (#[trigger] a.entries()[i]).1
        == b.entries()[i].1 by {
        map_of_at(a.entries(), i);
        map_of_at(b.entries(), i);
        assert(ka[i] == kb[i]);
    }
}

proof fn same_keys_same_order(a: Seq<Seq<char>>, b: Seq<Seq<char>>)
    requires
        ascending(a),
        ascending(b),
        forall|k: Seq<char>| a.contains(k) == b.contains(k),
    ensures
        a == b,
    decreases a.len(),
{
    if a.len() == 0 {
        if b.len() > 0 {
            assert(b.contains(b[0]));
        }
        assert(a == b);
    } else {
        assert(a.contains(a[0]));
        assert(b.contains(a[0]));
        assert(b.contains(b[0]));
        assert(a.contains(b[0]));
        let i = b.index_of(a[0]);
        let j = a.index_of(b[0]);
        if i > 0 && j > 0 {
            assert(text_less(b[0], b[i]));
            assert(text_less(a[0], a[j]));
            text_less_is_transitive(a[0], b[0], a[0]);
            text_less_is_strict(a[0]);
        }
        assert(a[0] == b[0]);
        let ra = a.drop_first();
        let rb = b.drop_first();
        assert forall|k: Seq<char>| ra.contains(k) == rb.contains(k) by {
            text_less_is_strict(k);
            if ra.contains(k) {
                let p = ra.index_of(k);
                assert(a[p + 1] == k);
                assert(text_less(a[0], a[p + 1]));
                assert(a.contains(k));
                let q = b.index_of(k);
                assert(q != 0);
                assert(rb[q - 1] == k);
            }
            if rb.contains(k) {
                let p = rb.index_of(k);
                assert(b[p + 1] == k);
                assert(text_less(b[0], b[p + 1]));
                assert(b.contains(k));
                let q = a.index_of(k);
                assert(q != 0);
                assert(ra[q - 1] == k);
            }
        }
        assert forall|x: int, y: int| 0 <= x < y < ra.len() implies text_less(
            #[trigger] ra[x],
            #[trigger] ra[y],
        ) by {
            assert(text_less(a[x + 1], a[y + 1]));
        }
        assert forall|x: int, y: int| 0 <= x < y < rb.len() implies text_less(
            #[trigger] rb[x],
            #[trigger] rb[y],
        ) by {
            assert(text_less(b[x + 1], b[y + 1]));
        }
        same_keys_same_order(ra, rb);
        assert(a == seq![a[0]] + ra);
        assert(b == seq![b[0]] + rb);
    }
}

/// Texts are in the order of their code points: the first place where two of
/// them differ decides, and a text comes before every longer one that it begins.
pub proof fn first_difference_decides(
    common: Seq<char>,
    c: char,
    d: char,
    x: Seq<char>,
    y: Seq<char>,
)
    ensures
        c < d ==> text_less(common + seq![c] + x, common + seq![d] + y),
        c < d ==> !text_less(common + seq![d] + y, common + seq![c] + x),
        text_less(common, common + seq![c] + x),
        !text_less(common + seq![c] + x, common),
    decreases common.len(),
{
    let a = common + seq![c] + x;
    let b = common + seq![d] + y;
    if common.len() == 0 {
        assert(a[0] == c && b[0] == d);
    } else {
        first_difference_decides(common.drop_first(), c, d, x, y);
        assert(a[0] == common[0] && b[0] == common[0]);
        assert(a.drop_first() =~= common.drop_first() + seq![c] + x);
        assert(b.drop_first() =~= common.drop_first() + seq![d] + y);
    }
}

} // verus!
