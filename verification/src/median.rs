//! Latency measurements: their cumulative average, and the median of a
//! list of values, computed by quickselect.
use vstd::prelude::*;

verus! {

/// Number of values of `s` strictly below `v`.
pub open spec fn count_below(s: Seq<u64>, v: u64) -> nat
    decreases s.len(),
{
    if s.len() == 0 {
        0
    } else {
        count_below(s.drop_last(), v) + if s.last() < v { 1nat } else { 0nat }
    }
}

/// Number of values of `s` at most `v`.
pub open spec fn count_at_most(s: Seq<u64>, v: u64) -> nat
    decreases s.len(),
{
    if s.len() == 0 {
        0
    } else {
        count_at_most(s.drop_last(), v) + if s.last() <= v { 1nat } else { 0nat }
    }
}

/// `v` is the `k`-th smallest value of `s`, counting from 0 and counting
/// repeated values as many times as they occur: the value found at index `k`
/// once `s` is sorted in ascending order.
pub open spec fn is_kth_smallest(s: Seq<u64>, k: int, v: u64) -> bool {
    count_below(s, v) <= k < count_at_most(s, v)
}

/// No value of `s` is below `v`, so none is counted.
proof fn lemma_none_below(s: Seq<u64>, v: u64)
    requires
        forall|j: int| 0 <= j < s.len() ==> v <= #[trigger] s[j],
    ensures
        count_below(s, v) == 0,
    decreases s.len(),
{
    if s.len() > 0 {
        assert(s.drop_last().len() == s.len() - 1);
        assert forall|j: int| 0 <= j < s.drop_last().len() implies v <= #[trigger] s.drop_last()[j] by {
            assert(s.drop_last()[j] == s[j]);
        }
        lemma_none_below(s.drop_last(), v);
    }
}

/// Every value of `s` is above `v`, so none is counted.
proof fn lemma_none_at_most(s: Seq<u64>, v: u64)
    requires
        forall|j: int| 0 <= j < s.len() ==> v < #[trigger] s[j],
    ensures
        count_at_most(s, v) == 0,
        count_below(s, v) == 0,
    decreases s.len(),
{
    if s.len() > 0 {
        assert forall|j: int| 0 <= j < s.drop_last().len() implies v < #[trigger] s.drop_last()[j] by {
            assert(s.drop_last()[j] == s[j]);
        }
        lemma_none_at_most(s.drop_last(), v);
    }
}

/// Every value of `s` is below `v`, so all are counted.
proof fn lemma_all_below(s: Seq<u64>, v: u64)
    requires
        forall|j: int| 0 <= j < s.len() ==> #[trigger] s[j] < v,
    ensures
        count_below(s, v) == s.len(),
        count_at_most(s, v) == s.len(),
    decreases s.len(),
{
    if s.len() > 0 {
        assert forall|j: int| 0 <= j < s.drop_last().len() implies #[trigger] s.drop_last()[j] < v by {
            assert(s.drop_last()[j] == s[j]);
        }
        lemma_all_below(s.drop_last(), v);
    }
}

/// When `v` is counted among the values at most `v` but not below it, `v` occurs in `s`.
proof fn lemma_occurs(s: Seq<u64>, v: u64)
    requires
        count_below(s, v) < count_at_most(s, v),
    ensures
        exists|j: int| 0 <= j < s.len() && #[trigger] s[j] == v,
    decreases s.len(),
{
    if s.last() == v {
        assert(s[s.len() - 1] == v);
    } else {
        lemma_occurs(s.drop_last(), v);
        let j = choose|j: int| 0 <= j < s.drop_last().len() && #[trigger] s.drop_last()[j] == v;
        assert(s[j] == v);
    }
}

/// Values at most `a` are all below any `b` above `a`.
proof fn lemma_count_monotone(s: Seq<u64>, a: u64, b: u64)
    requires
        a < b,
    ensures
        count_at_most(s, a) <= count_below(s, b),
    decreases s.len(),
{
    if s.len() > 0 {
        lemma_count_monotone(s.drop_last(), a, b);
    }
}

/// The `k`-th smallest value of a sequence is unique.
pub proof fn lemma_kth_smallest_unique(s: Seq<u64>, k: int, a: u64, b: u64)
    requires
        is_kth_smallest(s, k, a),
        is_kth_smallest(s, k, b),
    ensures
        a == b,
{
    if a < b {
        lemma_count_monotone(s, a, b);
    } else if b < a {
        lemma_count_monotone(s, b, a);
    }
}

/// Order statistics grow with their rank.
pub proof fn lemma_kth_smallest_monotone(s: Seq<u64>, i: int, j: int, a: u64, b: u64)
    requires
        i <= j,
        is_kth_smallest(s, i, a),
        is_kth_smallest(s, j, b),
    ensures
        a <= b,
{
    if b < a {
        lemma_count_monotone(s, b, a);
    }
}

/// The `k`-th smallest value of a sequence occurs in it.
pub proof fn lemma_kth_smallest_occurs(s: Seq<u64>, k: int, v: u64)
    requires
        is_kth_smallest(s, k, v),
    ensures
        s.contains(v),
{
    lemma_occurs(s, v);
    let j = choose|j: int| 0 <= j < s.len() && #[trigger] s[j] == v;
    assert(s.contains(v));
}

proof fn lemma_count_concat(a: Seq<u64>, b: Seq<u64>, v: u64)
    ensures
        count_below(a + b, v) == count_below(a, v) + count_below(b, v),
        count_at_most(a + b, v) == count_at_most(a, v) + count_at_most(b, v),
    decreases b.len(),
{
    if b.len() > 0 {
        lemma_count_concat(a, b.drop_last(), v);
        assert((a + b).drop_last() =~= a + b.drop_last());
    } else {
        assert(a + b =~= a);
    }
}

proof fn lemma_count_remove(s: Seq<u64>, i: int, v: u64)
    requires
        0 <= i < s.len(),
    ensures
        count_below(s, v) == count_below(s.remove(i), v) + if s[i] < v { 1nat } else { 0nat },
        count_at_most(s, v) == count_at_most(s.remove(i), v) + if s[i] <= v { 1nat } else { 0nat },
{
    let front = s.take(i);
    let back = s.skip(i + 1);
    let one = seq![s[i]];
    assert(s =~= front + one + back);
    assert(s.remove(i) =~= front + back);
    lemma_count_concat(front + one, back, v);
    lemma_count_concat(front, one, v);
    lemma_count_concat(front, back, v);
    assert(one.len() == 1);
    assert(one.drop_last().len() == 0);
    assert(count_below(one.drop_last(), v) == 0);
    assert(count_at_most(one.drop_last(), v) == 0);
    assert(one.last() == s[i]);
    assert(count_below(one, v) == if s[i] < v { 1nat } else { 0nat });
    assert(count_at_most(one, v) == if s[i] <= v { 1nat } else { 0nat });
}

/// The counts depend only on which values `s` holds, and how often: not on
/// their order.
proof fn lemma_count_order_independent(s1: Seq<u64>, s2: Seq<u64>, v: u64)
    requires
        s1.to_multiset() == s2.to_multiset(),
    ensures
        count_below(s1, v) == count_below(s2, v),
        count_at_most(s1, v) == count_at_most(s2, v),
    decreases s1.len(),
{
    broadcast use vstd::seq_lib::group_to_multiset_ensures;

    if s1.len() == 0 {
        assert(s2.to_multiset().len() == 0);
        assert(s2.len() == 0);
    } else {
        let x = s1.last();
        let rest1 = s1.drop_last();
        assert(s1 =~= rest1.push(x));
        assert(s1.to_multiset() =~= rest1.to_multiset().insert(x));
        assert(s1.contains(x)) by {
            assert(s1[s1.len() - 1] == x);
        }
        assert(s2.to_multiset().count(x) > 0);
        assert(s2.contains(x));
        let i = choose|i: int| 0 <= i < s2.len() && s2[i] == x;
        let rest2 = s2.remove(i);
        assert(rest2.to_multiset() =~= s2.to_multiset().remove(x));
        assert(rest1.to_multiset() =~= rest1.to_multiset().insert(x).remove(x));
        lemma_count_order_independent(rest1, rest2, v);
        lemma_count_remove(s2, i, v);
    }
}

/// The `k`-th smallest value does not depend on the order of the values.
pub proof fn lemma_kth_smallest_order_independent(s1: Seq<u64>, s2: Seq<u64>, k: int, v: u64)
    requires
        s1.to_multiset() == s2.to_multiset(),
        is_kth_smallest(s1, k, v),
    ensures
        is_kth_smallest(s2, k, v),
{
    lemma_count_order_independent(s1, s2, v);
}

/// The pair of middle values of `s`: its lower median and its upper median,
/// equal when `s` has an odd number of values.
pub open spec fn is_middle_pair(s: Seq<u64>, lower: u64, upper: u64) -> bool {
    &&& is_kth_smallest(s, (s.len() - 1) / 2, lower)
    &&& is_kth_smallest(s, (s.len() / 2) as int, upper)
}

/// The values of `s` below `pivot`, in the order of `s`.
pub open spec fn values_below(s: Seq<u64>, pivot: u64) -> Seq<u64> {
    s.filter(|x: u64| x < pivot)
}

/// The values of `s` not below `pivot`, in the order of `s`.
pub open spec fn values_not_below(s: Seq<u64>, pivot: u64) -> Seq<u64> {
    s.filter(|x: u64| !(x < pivot))
}

/// Splits `data` around its first value: the values below it, the value itself,
/// and the other values, each part keeping the order of `data`.
fn partition(data: &[u64]) -> (res: Option<(Vec<u64>, u64, Vec<u64>)>)
    ensures
        res is None <==> data@.len() == 0,
        res matches Some((left, pivot, right)) ==> {
            &&& pivot == data@[0]
            &&& left@ == values_below(data@.drop_first(), pivot)
            &&& right@ == values_not_below(data@.drop_first(), pivot)
            &&& left@.len() + right@.len() + 1 == data@.len()
            &&& forall|j: int| 0 <= j < left@.len() ==> #[trigger] left@[j] < pivot
            &&& forall|j: int| 0 <= j < right@.len() ==> pivot <= #[trigger] right@[j]
            &&& forall|v: u64|
                #[trigger] count_below(data@, v) == count_below(left@, v) + count_below(right@, v)
                    + if pivot < v { 1nat } else { 0nat }
            &&& forall|v: u64|
                #[trigger] count_at_most(data@, v) == count_at_most(left@, v) + count_at_most(
                    right@,
                    v,
                ) + if pivot <= v { 1nat } else { 0nat }
        },
{
    let n = data.len();
    if n == 0 {
        return None;
    }
    let pivot = data[0];
    let mut left: Vec<u64> = Vec::new();
    let mut right: Vec<u64> = Vec::new();
    let mut i: usize = 1;
    proof {
        reveal(Seq::filter);
        assert(values_below(data@.subrange(1, 1), pivot) =~= left@);
        assert(values_not_below(data@.subrange(1, 1), pivot) =~= right@);
        assert forall|v: u64|
            #[trigger] count_below(data@.subrange(0, 1), v) == count_below(left@, v) + count_below(
                right@,
                v,
            ) + if pivot < v { 1nat } else { 0nat } by {
            assert(data@.subrange(0, 1).drop_last() =~= Seq::<u64>::empty());
        }
        assert forall|v: u64|
            #[trigger] count_at_most(data@.subrange(0, 1), v) == count_at_most(left@, v)
                + count_at_most(right@, v) + if pivot <= v { 1nat } else { 0nat } by {
            assert(data@.subrange(0, 1).drop_last() =~= Seq::<u64>::empty());
        }
    }
    while i < n
        invariant
            n == data@.len(),
            1 <= i <= n,
            pivot == data@[0],
            left@.len() + right@.len() + 1 == i,
            left@ == values_below(data@.subrange(1, i as int), pivot),
            right@ == values_not_below(data@.subrange(1, i as int), pivot),
            forall|j: int| 0 <= j < left@.len() ==> #[trigger] left@[j] < pivot,
            forall|j: int| 0 <= j < right@.len() ==> pivot <= #[trigger] right@[j],
            forall|v: u64|
                #[trigger] count_below(data@.subrange(0, i as int), v) == count_below(left@, v)
                    + count_below(right@, v) + if pivot < v { 1nat } else { 0nat },
            forall|v: u64|
                #[trigger] count_at_most(data@.subrange(0, i as int), v) == count_at_most(
                    left@,
                    v,
                ) + count_at_most(right@, v) + if pivot <= v { 1nat } else { 0nat },
        decreases n - i,
    {
        let next = data[i];
        let ghost old_left = left@;
        let ghost old_right = right@;
        if next < pivot {
            left.push(next);
            assert(left@.drop_last() =~= old_left);
        } else {
            right.push(next);
            assert(right@.drop_last() =~= old_right);
        }
        proof {
            reveal(Seq::filter);
            let tail = data@.subrange(1, i + 1);
            assert(tail.drop_last() =~= data@.subrange(1, i as int));
            assert(tail.last() == next);
            assert(left@ =~= values_below(tail, pivot));
            assert(right@ =~= values_not_below(tail, pivot));
        }
        let ghost prefix = data@.subrange(0, i as int);
        let ghost next_prefix = data@.subrange(0, i + 1);
        assert(next_prefix.drop_last() =~= prefix);
        assert(next_prefix.last() == next);
        assert forall|v: u64|
            #[trigger] count_below(next_prefix, v) == count_below(left@, v) + count_below(
                right@,
                v,
            ) + if pivot < v { 1nat } else { 0nat } by {
            assert(count_below(next_prefix, v) == count_below(prefix, v) + if next < v {
                1nat
            } else {
                0nat
            });
            assert(count_below(prefix, v) == count_below(old_left, v) + count_below(old_right, v)
                + if pivot < v { 1nat } else { 0nat });
        }
        assert forall|v: u64|
            #[trigger] count_at_most(next_prefix, v) == count_at_most(left@, v) + count_at_most(
                right@,
                v,
            ) + if pivot <= v { 1nat } else { 0nat } by {
            assert(count_at_most(next_prefix, v) == count_at_most(prefix, v) + if next <= v {
                1nat
            } else {
                0nat
            });
            assert(count_at_most(prefix, v) == count_at_most(old_left, v) + count_at_most(
                old_right,
                v,
            ) + if pivot <= v { 1nat } else { 0nat });
        }
        i = i + 1;
    }
    assert(data@.subrange(0, n as int) =~= data@);
    assert(data@.subrange(1, n as int) =~= data@.drop_first());
    Some((left, pivot, right))
}

/// The `k`-th smallest value of `data` (counting from 0), or nothing when
/// `data` has no more than `k` values.
fn select(data: &[u64], k: usize) -> (res: Option<u64>)
    ensures
        res is Some <==> k < data@.len(),
        res matches Some(v) ==> is_kth_smallest(data@, k as int, v),
    decreases data@.len(),
{
    let part = partition(data);
    match part {
        None => None,
        Some((left, pivot, right)) => {
            let pivot_idx = left.len();
            if pivot_idx == k {
                proof {
                    lemma_none_below(right@, pivot);
                    lemma_all_below(left@, pivot);
                    assert(count_below(data@, pivot) == k);
                    assert(count_at_most(data@, pivot) >= k + 1);
                }
                Some(pivot)
            } else if pivot_idx > k {
                let r = select(left.as_slice(), k);
                proof {
                    if let Some(v) = r {
                        lemma_occurs(left@, v);
                        let j = choose|j: int| 0 <= j < left@.len() && #[trigger] left@[j] == v;
                        assert(v < pivot);
                        lemma_none_at_most(right@, v);
                        assert(count_below(data@, v) == count_below(left@, v));
                        assert(count_at_most(data@, v) == count_at_most(left@, v));
                    }
                }
                r
            } else {
                let r = select(right.as_slice(), k - (pivot_idx + 1));
                proof {
                    if let Some(v) = r {
                        lemma_occurs(right@, v);
                        let j = choose|j: int| 0 <= j < right@.len() && #[trigger] right@[j] == v;
                        assert(pivot <= v);
                        assert forall|m: int| 0 <= m < left@.len() implies #[trigger] left@[m]
                            < v by {
                            assert(left@[m] < pivot);
                        }
                        lemma_all_below(left@, v);
                    }
                }
                r
            }
        },
    }
}

/// The lower and upper middle values of `data`, or nothing for no data; the
/// median is their mean.
pub fn median(data: &[u64]) -> (res: Option<(u64, u64)>)
    ensures
        res is None <==> data@.len() == 0,
        res matches Some((lower, upper)) ==> is_middle_pair(data@, lower, upper),
{
    let size = data.len();
    if size == 0 {
        return None;
    }
    if size % 2 == 0 {
        let fst_med = select(data, (size / 2) - 1);
        let snd_med = select(data, size / 2);
        match (fst_med, snd_med) {
            (Some(fst), Some(snd)) => Some((fst, snd)),
            _ => None,
        }
    } else {
        match select(data, size / 2) {
            Some(x) => Some((x, x)),
            None => None,
        }
    }
}

/// The sum of the values of `s`.
pub open spec fn sum_of(s: Seq<u64>) -> int
    decreases s.len(),
{
    if s.len() == 0 {
        0
    } else {
        sum_of(s.drop_last()) + s.last()
    }
}

/// Recording a measurement adds it to the sum and one to the count; with no
/// measurement the sum is zero.
pub proof fn lemma_update_accumulates(s: Seq<u64>, latency: u64)
    ensures
        sum_of(Seq::<u64>::empty()) == 0,
        sum_of(s.push(latency)) == sum_of(s) + latency,
        s.push(latency).len() == s.len() + 1,
{
    assert(s.push(latency).drop_last() =~= s);
}

/// A cumulative average, as the exact fraction `sum / count` of the sum of
/// the measurements and their number.
#[derive(Debug, Clone, Copy, PartialEq, Eq)]
pub struct Average {
    pub sum: u128,
    pub count: u64,
}

/// The latency measurements collected so far, in the order they arrived,
/// each a whole number of a unit the caller chooses (e.g. microseconds).
#[derive(Debug, Clone)]
pub struct Median {
    points: Vec<u64>,
}

/// A sum of `n` values, each at most `u64::MAX`, is at most `n` times it.
proof fn lemma_sum_bounded(s: Seq<u64>)
    ensures
        0 <= sum_of(s) <= s.len() * 0xffff_ffff_ffff_ffff,
    decreases s.len(),
{
    if s.len() > 0 {
        lemma_sum_bounded(s.drop_last());
    }
}

/// Cumulative average of the measurements.
impl Median {
    /// The measurements collected so far.
    pub closed spec fn points(&self) -> Seq<u64> {
        self.points@
    }

    /// Records a new latency measurement.
    pub fn update(&mut self, latency: u64)
        ensures
            final(self).points() == old(self).points().push(latency),
    {
        self.points.push(latency);
    }

    /// The cumulative average of every measurement recorded so far, as the
    /// sum of the measurements over their number; nothing before the first
    /// measurement.
    pub fn get_median(&self) -> (res: Option<Average>)
        ensures
            res is None <==> self.points().len() == 0,
            res matches Some(avg) ==> avg.sum == sum_of(self.points()) && avg.count
                == self.points().len(),
    {
        let n = self.points.len();
        if n == 0 {
            return None;
        }
        let mut sum: u128 = 0;
        let mut i: usize = 0;
        while i < n
            invariant
                n == self.points@.len(),
                i <= n,
                sum == sum_of(self.points@.take(i as int)),
            decreases n - i,
        {
            proof {
                let next = self.points@.take(i + 1);
                assert(next.drop_last() =~= self.points@.take(i as int));
                lemma_sum_bounded(next);
            }
            sum = sum + self.points[i] as u128;
            i = i + 1;
        }
        assert(self.points@.take(n as int) =~= self.points@);
        Some(Average { sum, count: n as u64 })
    }
}

impl Default for Median {
    fn default() -> (res: Self)
        ensures
            res.points() == Seq::<u64>::empty(),
    {
        Median { points: Vec::new() }
    }
}

/// The lower median never exceeds the upper median.
pub proof fn lemma_middle_pair_ordered(s: Seq<u64>, lower: u64, upper: u64)
    requires
        is_middle_pair(s, lower, upper),
    ensures
        lower <= upper,
{
    lemma_kth_smallest_monotone(s, (s.len() - 1) / 2, (s.len() / 2) as int, lower, upper);
}

/// The middle values do not depend on the order in which the measurements
/// arrived.
pub proof fn lemma_middle_pair_order_independent(s1: Seq<u64>, s2: Seq<u64>, lower: u64, upper: u64)
    requires
        s1.to_multiset() == s2.to_multiset(),
        is_middle_pair(s1, lower, upper),
    ensures
        is_middle_pair(s2, lower, upper),
{
    broadcast use vstd::seq_lib::group_to_multiset_ensures;

    s1.to_multiset_ensures();
    s2.to_multiset_ensures();
    assert(s1.len() == s2.len());
    lemma_kth_smallest_order_independent(s1, s2, (s1.len() - 1) / 2, lower);
    lemma_kth_smallest_order_independent(s1, s2, (s1.len() / 2) as int, upper);
}

/// For an odd number of measurements the two middle values coincide.
pub proof fn lemma_middle_pair_odd(s: Seq<u64>, lower: u64, upper: u64)
    requires
        is_middle_pair(s, lower, upper),
        s.len() % 2 == 1,
    ensures
        lower == upper,
{
    lemma_kth_smallest_unique(s, (s.len() / 2) as int, lower, upper);
}

} // verus!
