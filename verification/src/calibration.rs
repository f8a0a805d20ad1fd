//! Piecewise linear calibration: which points there are, and which of them a
//! raw value is read off. The interpolation itself is floating-point
//! arithmetic and is left to the caller.

use vstd::prelude::*;
use crate::order;
use crate::reading::Reading;

verus! {

/// A raw value and the calibrated value that belongs to it.
#[derive(Debug, Clone, Copy, PartialEq, Eq, Structural)]
pub struct CalPoint {
    pub raw: Reading,
    pub value: Reading,
}

/// Points of a piecewise linear calibration, ascending by raw value.
#[derive(Debug, PartialEq)]
pub struct Calibration {
    pub points: Vec<CalPoint>,
}

impl View for Calibration {
    type V = Seq<CalPoint>;

    open spec fn view(&self) -> Seq<CalPoint> {
        self.points@
    }
}

impl Clone for Calibration {
    fn clone(&self) -> (c: Self)
        ensures
            c@ == self@,
    {
        let c = Calibration { points: self.points.clone() };
        assert(c.points@ =~= self.points@);
        c
    }
}

/// The raw value lies on the segment that begins at point `i`, ends included.
pub open spec fn on_segment(points: Seq<CalPoint>, i: int, raw: Reading) -> bool {
    raw.reaches(points[i].raw) && points[i + 1].raw.reaches(raw)
}

/// The segment that a raw value is read off: the first one below the first
/// point, else the first segment that the value lies on, else the last one.
pub open spec fn is_segment_of(points: Seq<CalPoint>, raw: Reading, s: int) -> bool {
    let below = !raw.is_nan() && !points[0].raw.is_nan() && raw.rank() < points[0].raw.rank();
    &&& 0 <= s < points.len() - 1
    &&& below ==> s == 0
    &&& !below ==> forall|i: int| 0 <= i < s ==> !#[trigger] on_segment(points, i, raw)
    &&& !below ==> on_segment(points, s, raw) || s == points.len() - 2
}

impl Calibration {
    /// Picks the segment that a raw value is interpolated on, or extrapolated
    /// from where it lies outside all of them.
    pub fn segment(&self, raw: Reading) -> (s: usize)
        requires
            self@.len() >= 2,
        ensures
            is_segment_of(self@, raw, s as int),
    {
        let n: usize = self.points.len();
        let first = self.points[0].raw;
        if first.at_least(&raw) && !raw.at_least(&first) {
            return 0;
        }
        let mut i: usize = 0;
        while i < n - 2
            invariant
                n == self.points@.len(),
                n >= 2,
                i <= n - 2,
                raw.is_nan() || self@[0].raw.is_nan() || raw.rank() >= self@[0].raw.rank(),
                forall|j: int| 0 <= j < i ==> !#[trigger] on_segment(self@, j, raw),
            decreases n - i,
        {
            if raw.at_least(&self.points[i].raw) && self.points[i + 1].raw.at_least(&raw) {
                assert(on_segment(self@, i as int, raw));
                return i;
            }
            i += 1;
        }
        i
    }
}

/// What points are ordered by.
pub open spec fn raw_ranks(points: Seq<CalPoint>) -> Seq<i64> {
    Seq::new(points.len(), |i: int| points[i].raw.rank() as i64)
}

/// No two points share a raw value.
pub open spec fn raws_differ(points: Seq<CalPoint>) -> bool {
    forall|i: int, j: int|
        0 <= i < j < points.len() ==> (#[trigger] points[i]).raw.rank() != (
        #[trigger] points[j]).raw.rank()
}

/// The points are in ascending order of their raw values.
pub open spec fn ascending(points: Seq<CalPoint>) -> bool {
    forall|i: int, j: int|
        0 <= i < j < points.len() ==> (#[trigger] points[i]).raw.rank() < (
        #[trigger] points[j]).raw.rank()
}

/// All raw values are numbers.
pub open spec fn all_numbers(points: Seq<CalPoint>) -> bool {
    forall|i: int| 0 <= i < points.len() ==> !(#[trigger] points[i]).raw.is_nan()
}

impl Calibration {
    /// A calibration from at least two points, sorted by raw value. Nothing
    /// where there are fewer, or where two share a raw value.
    pub fn new(points: Vec<CalPoint>) -> (c: Option<Self>)
        requires
            all_numbers(points@),
        ensures
            c is Some == (points@.len() >= 2 && raws_differ(points@)),
            c is Some ==> ascending(c->0@) && exists|places: Seq<usize>| #[trigger]
                order::is_order(raw_ranks(points@), places) && c->0@ == Seq::new(
                    places.len(),
                    |i: int| points@[places[i] as int],
                ),
    {
        let n: usize = points.len();
        if n < 2 {
            return None;
        }
        let mut keys: Vec<i64> = Vec::new();
        let mut i: usize = 0;
        while i < n
            invariant
                n == points@.len(),
                i <= n,
                keys@ == raw_ranks(points@).take(i as int),
            decreases n - i,
        {
            keys.push(points[i].raw.rank_key());
            i += 1;
            assert(keys@ =~= raw_ranks(points@).take(i as int));
        }
        assert(keys@ =~= raw_ranks(points@));
        let places: Vec<usize> = order::stable_order(&keys);
        let mut sorted: Vec<CalPoint> = Vec::new();
        let mut k: usize = 0;
        while k < n
            invariant
                n == points@.len(),
                n == keys@.len(),
                keys@ == raw_ranks(points@),
                k <= n,
                order::is_order(keys@, places@),
                sorted@ == Seq::new(k as nat, |i: int| points@[places@[i] as int]),
                forall|i: int, j: int|
                    0 <= i < j < k ==> (#[trigger] sorted@[i]).raw.rank() < (
                    #[trigger] sorted@[j]).raw.rank(),
            decreases n - k,
        {
            let p: usize = places[k];
            if k > 0 && keys[places[k - 1]] == keys[p] {
                proof {
                    let a = places@[k - 1];
                    assert(order::goes_before(keys@, a, p));
                    assert(points@[a as int].raw.rank() == points@[p as int].raw.rank());
                }
                return None;
            }
            let ghost before = sorted@;
            sorted.push(points[p]);
            proof {
                assert(sorted@ =~= Seq::new((k + 1) as nat, |i: int| points@[places@[i] as int]));
                assert forall|i: int, j: int| 0 <= i < j < k + 1 implies (
                #[trigger] sorted@[i]).raw.rank() < (#[trigger] sorted@[j]).raw.rank() by {
                    if j == k {
                        assert(order::goes_before(keys@, places@[k - 1], places@[k as int]));
                        assert(sorted@[k - 1].raw.rank() < sorted@[k as int].raw.rank());
                        if i < k - 1 {
                            assert(before[i].raw.rank() < before[k - 1].raw.rank());
                        }
                    } else {
                        assert(before[i].raw.rank() < before[j].raw.rank());
                    }
                }
            }
            k += 1;
        }
        let c = Calibration { points: sorted };
        proof {
            assert(c@ =~= Seq::new(places@.len(), |i: int| points@[places@[i] as int]));
            assert(raws_differ(points@)) by {
                assert forall|i: int, j: int| 0 <= i < j < n implies (
                #[trigger] points@[i]).raw.rank() != (#[trigger] points@[j]).raw.rank() by {
                    order::every_place_has_its_turn(keys@, places@, i);
                    order::every_place_has_its_turn(keys@, places@, j);
                    let x = choose|x: int| 0 <= x < places@.len() && places@[x] == i;
                    let y = choose|y: int| 0 <= y < places@.len() && places@[y] == j;
                    assert(c@[x] == points@[i] && c@[y] == points@[j]);
                    assert(x != y);
                }
            }
        }
        Some(c)
    }
}

/// A raw value between the first and the last point lies on its segment, so
/// that it is interpolated; only values outside are extrapolated.
pub proof fn values_in_range_are_interpolated(points: Seq<CalPoint>, raw: Reading, s: int)
    requires
        points.len() >= 2,
        ascending(points),
        all_numbers(points),
        !raw.is_nan(),
        points[0].raw.rank() <= raw.rank() <= points.last().raw.rank(),
        is_segment_of(points, raw, s),
    ensures
        on_segment(points, s, raw),
{
    if !on_segment(points, s, raw) {
        let n = points.len() as int;
        assert(s == n - 2);
        assert(points[n - 1] == points.last());
        assert(!points[n - 1].raw.is_nan() && !points[n - 2].raw.is_nan());
        assert(raw.rank() < points[n - 2].raw.rank());
        let k = lower_neighbour(points, raw, n - 2);
        lower_neighbour_is_close(points, raw, n - 2);
        assert(!points[k].raw.is_nan() && !points[k + 1].raw.is_nan());
        assert(on_segment(points, k, raw));
    }
}

/// The last point before `k` that is not above the value.
spec fn lower_neighbour(points: Seq<CalPoint>, raw: Reading, k: int) -> int
    decreases k,
{
    if k <= 0 || points[k - 1].raw.rank() <= raw.rank() {
        k - 1
    } else {
        lower_neighbour(points, raw, k - 1)
    }
}

proof fn lower_neighbour_is_close(points: Seq<CalPoint>, raw: Reading, k: int)
    requires
        0 <= k < points.len(),
        points[0].raw.rank() <= raw.rank() < points[k].raw.rank(),
    ensures
        ({
            let i = lower_neighbour(points, raw, k);
            0 <= i < k && points[i].raw.rank() <= raw.rank() < points[i + 1].raw.rank()
        }),
    decreases k,
{
    if k > 0 && points[k - 1].raw.rank() > raw.rank() {
        lower_neighbour_is_close(points, raw, k - 1);
    }
}

/// A raw value between two points is read off the segment between them, one
/// below all points off the first segment, and one above all off the last.
pub proof fn values_are_read_off_their_segment(
    points: Seq<CalPoint>,
    raw: Reading,
    s: int,
    k: int,
)
    requires
        points.len() >= 2,
        all_numbers(points),
        forall|i: int, j: int|
            0 <= i < j < points.len() ==> (#[trigger] points[i]).raw.rank() < (
            #[trigger] points[j]).raw.rank(),
        !raw.is_nan(),
        0 <= k < points.len() - 1,
        is_segment_of(points, raw, s),
    ensures
        points[k].raw.rank() < raw.rank() < points[k + 1].raw.rank() ==> s == k,
        raw.rank() < points[0].raw.rank() ==> s == 0,
        raw.rank() > points.last().raw.rank() ==> s == points.len() - 2,
        0 <= s < points.len() - 1,
{
    let n = points.len() as int;
    assert(!points[0].raw.is_nan() && !points[s].raw.is_nan() && !points[s + 1].raw.is_nan());
    if points[k].raw.rank() < raw.rank() < points[k + 1].raw.rank() {
        assert(!points[k].raw.is_nan() && !points[k + 1].raw.is_nan());
        if k > 0 {
            assert(points[0].raw.rank() < points[k].raw.rank());
        }
        assert(on_segment(points, k, raw));
        if s < k {
            assert(!(s == n - 2));
            assert(on_segment(points, s, raw));
            if s + 1 < k {
                assert(points[s + 1].raw.rank() < points[k].raw.rank());
            }
        }
    }
    if raw.rank() > points.last().raw.rank() {
        assert(points.last() == points[n - 1]);
        assert(points[0].raw.rank() < points[n - 1].raw.rank());
        if s < n - 2 {
            assert(on_segment(points, s, raw));
            assert(points[s + 1].raw.rank() < points[n - 1].raw.rank());
        }
    }
}

/// Points are told apart by their raw values: in an ascending list each is above
/// the one before it, and a list with two points of one value is none.
pub proof fn points_do_not_share_a_raw_value(points: Seq<CalPoint>, i: int, j: int)
    requires
        0 <= i < j < points.len(),
    ensures
        ascending(points) ==> points[i].raw.rank() < points[j].raw.rank(),
        ascending(points) ==> raws_differ(points),
        points[i].raw.rank() == points[j].raw.rank() ==> !raws_differ(points),
        raw_ranks(points)[i] == points[i].raw.rank(),
        raw_ranks(points).len() == points.len(),
{
}

} // verus!
