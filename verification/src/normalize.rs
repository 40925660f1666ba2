//! The series normalizer: turns an unordered window of mixed-type
//! observations into one chronologically ascending numeric series.
//!
//! Policy: observations are stably sorted by timestamp (absent timestamps
//! first, ties keep their original window order — the documented tie-break),
//! textual observations are silently dropped, and the surviving numeric
//! values are returned with their timestamps stripped. Normalization never
//! fails; an all-textual or empty window yields an empty series.

use vstd::prelude::*;

use crate::data::{DataPoint, DataWindow, Value};

verus! {

/// A numeric observation reduced to what ordering and encoding need: its
/// timestamp and the bit pattern of its value.
#[derive(Clone, Copy, Debug)]
pub struct Sample {
    pub timestamp: Option<i64>,
    pub bits: u32,
}

/// The order the normalizer sorts by: an absent timestamp precedes every
/// present one, and present timestamps ascend. This is the standard order
/// on optional integers.
pub open spec fn key_le(a: Option<i64>, b: Option<i64>) -> bool {
    match (a, b) {
        (Option::None, _) => true,
        (Option::Some(_), Option::None) => false,
        (Option::Some(x), Option::Some(y)) => x <= y,
    }
}

/// Ascending by timestamp under [`key_le`].
pub open spec fn time_sorted(s: Seq<Sample>) -> bool {
    forall|i: int, j: int|
        0 <= i <= j < s.len() ==> #[trigger] key_le(s[i].timestamp, s[j].timestamp)
}

/// The numeric observations of `points` as samples, in their original
/// order; textual observations are dropped.
pub open spec fn samples_of(points: Seq<DataPoint>) -> Seq<Sample>
    decreases points.len(),
{
    if points.len() == 0 {
        Seq::empty()
    } else {
        let rest = samples_of(points.drop_last());
        match points.last().value {
            Value::Number(bits) => rest.push(
                Sample { timestamp: points.last().timestamp, bits },
            ),
            Value::Text(_) => rest,
        }
    }
}

/// Inserts `x` after every element whose timestamp is `<=` its own: the
/// stable position for an element that arrives later than all of `s`.
pub open spec fn insert_ordered(s: Seq<Sample>, x: Sample) -> Seq<Sample>
    decreases s.len(),
{
    if s.len() == 0 {
        seq![x]
    } else if key_le(s.last().timestamp, x.timestamp) {
        s.push(x)
    } else {
        insert_ordered(s.drop_last(), x).push(s.last())
    }
}

/// Stable sort by timestamp: samples with equal (or equally absent)
/// timestamps keep their original window order.
pub open spec fn sort_by_time(s: Seq<Sample>) -> Seq<Sample>
    decreases s.len(),
{
    if s.len() == 0 {
        Seq::empty()
    } else {
        insert_ordered(sort_by_time(s.drop_last()), s.last())
    }
}

/// What normalization returns: the numeric observations, stably sorted by
/// timestamp, projected to their values.
pub open spec fn normalize_spec(points: Seq<DataPoint>) -> Seq<u32> {
    sort_by_time(samples_of(points)).map_values(|s: Sample| s.bits)
}

/// Of two timestamps, one precedes the other.
pub proof fn lemma_key_le_total(a: Option<i64>, b: Option<i64>)
    ensures
        key_le(a, b) || key_le(b, a),
{
}

/// [`key_le`] is transitive.
pub proof fn lemma_key_le_trans(a: Option<i64>, b: Option<i64>, c: Option<i64>)
    requires
        key_le(a, b),
        key_le(b, c),
    ensures
        key_le(a, c),
{
}

/// What stable insertion into a sorted sequence does: the result is one
/// element longer, still sorted, its multiset gains exactly `x`, and every
/// element is `x` or comes from `s`.
pub proof fn lemma_insert_ordered_props(s: Seq<Sample>, x: Sample)
    requires
        time_sorted(s),
    ensures
        insert_ordered(s, x).len() == s.len() + 1,
        time_sorted(insert_ordered(s, x)),
        insert_ordered(s, x).to_multiset() =~= s.to_multiset().insert(x),
        forall|i: int|
            0 <= i < insert_ordered(s, x).len() ==> insert_ordered(s, x)[i] == x || s.contains(
                #[trigger] insert_ordered(s, x)[i],
            ),
    decreases s.len(),
{
    broadcast use vstd::seq_lib::group_to_multiset_ensures;

    let r = insert_ordered(s, x);
    if s.len() == 0 {
        assert(s =~= Seq::<Sample>::empty());
        assert(r =~= Seq::<Sample>::empty().push(x));
    } else if key_le(s.last().timestamp, x.timestamp) {
        // r == s.push(x): x belongs at the very end.
        assert forall|i: int| 0 <= i < s.len() implies key_le(
            s[i].timestamp,
            x.timestamp,
        ) by {
            assert(key_le(s[i].timestamp, s[s.len() - 1].timestamp));
            lemma_key_le_trans(s[i].timestamp, s.last().timestamp, x.timestamp);
        };
        assert forall|i: int, j: int| 0 <= i <= j < r.len() implies #[trigger] key_le(
            r[i].timestamp,
            r[j].timestamp,
        ) by {
            if j < s.len() {
                assert(key_le(s[i].timestamp, s[j].timestamp));
            } else if i < s.len() {
                assert(key_le(s[i].timestamp, x.timestamp));
            }
        };
    } else {
        let s0 = s.drop_last();
        assert(time_sorted(s0)) by {
            assert forall|i: int, j: int| 0 <= i <= j < s0.len() implies #[trigger] key_le(
                s0[i].timestamp,
                s0[j].timestamp,
            ) by {
                assert(key_le(s[i].timestamp, s[j].timestamp));
            };
        };
        lemma_insert_ordered_props(s0, x);
        let r0 = insert_ordered(s0, x);
        // r == r0.push(s.last()), and the displaced last element is the
        // strictly largest, so the result stays sorted.
        assert(key_le(x.timestamp, s.last().timestamp)) by {
            lemma_key_le_total(s.last().timestamp, x.timestamp);
        };
        assert forall|i: int| 0 <= i < r0.len() implies key_le(
            r0[i].timestamp,
            s.last().timestamp,
        ) by {
            if r0[i] == x {
            } else {
                assert(s0.contains(r0[i]));
                let k = choose|k: int| 0 <= k < s0.len() && s0[k] == r0[i];
                assert(key_le(s[k].timestamp, s[s.len() - 1].timestamp));
            }
        };
        assert forall|i: int, j: int| 0 <= i <= j < r.len() implies #[trigger] key_le(
            r[i].timestamp,
            r[j].timestamp,
        ) by {
            if j < r0.len() {
                assert(key_le(r0[i].timestamp, r0[j].timestamp));
            } else if i < r0.len() {
                assert(key_le(r0[i].timestamp, s.last().timestamp));
            }
        };
        // Multiset bookkeeping: inserting x and re-appending the old last
        // element together add exactly x to the elements of s.
        assert(s =~= s0.push(s.last()));
        assert(r.to_multiset() =~= r0.to_multiset().insert(s.last()));
        assert(r0.to_multiset().insert(s.last()) =~= s0.to_multiset().insert(x).insert(s.last()));
        assert(s0.to_multiset().insert(x).insert(s.last()) =~= s0.to_multiset().insert(
            s.last(),
        ).insert(x));
        assert(s0.to_multiset().insert(s.last()) =~= s.to_multiset());
        // Provenance of each element of r.
        assert forall|i: int| 0 <= i < r.len() implies r[i] == x || s.contains(
            #[trigger] r[i],
        ) by {
            if i < r0.len() {
                if r0[i] != x {
                    assert(s0.contains(r0[i]));
                    let k = choose|k: int| 0 <= k < s0.len() && s0[k] == r0[i];
                    assert(s[k] == r[i]);
                }
            } else {
                assert(r[i] == s[s.len() - 1]);
            }
        };
    }
}

/// What the stable sort does: it keeps the length, sorts ascending by
/// timestamp, and permutes the samples (multiset preserved).
pub proof fn lemma_sort_by_time_props(s: Seq<Sample>)
    ensures
        sort_by_time(s).len() == s.len(),
        time_sorted(sort_by_time(s)),
        sort_by_time(s).to_multiset() =~= s.to_multiset(),
    decreases s.len(),
{
    broadcast use vstd::seq_lib::group_to_multiset_ensures;

    if s.len() == 0 {
        assert(s =~= Seq::<Sample>::empty());
        assert(sort_by_time(s) =~= Seq::<Sample>::empty());
    } else {
        let s0 = s.drop_last();
        lemma_sort_by_time_props(s0);
        lemma_insert_ordered_props(sort_by_time(s0), s.last());
        assert(s =~= s0.push(s.last()));
        assert(s0.to_multiset().insert(s.last()) =~= s.to_multiset());
    }
}

/// For any window, the normalized series is exactly the values of its
/// numeric observations and nothing else — the textual ones leave no gap —
/// arranged ascending by timestamp: the sorted sample sequence is
/// ascending, it is a permutation of the numeric samples, and the series
/// is its value projection, entry for entry.
pub proof fn lemma_normalize_exact(points: Seq<DataPoint>)
    ensures
        time_sorted(sort_by_time(samples_of(points))),
        sort_by_time(samples_of(points)).to_multiset() == samples_of(points).to_multiset(),
        normalize_spec(points).len() == samples_of(points).len(),
        forall|k: int|
            0 <= k < normalize_spec(points).len() ==> #[trigger] normalize_spec(points)[k]
                == sort_by_time(samples_of(points))[k].bits,
{
    lemma_sort_by_time_props(samples_of(points));
}

/// Compares two optional timestamps under the sort order.
fn le_timestamp(a: Option<i64>, b: Option<i64>) -> (r: bool)
    ensures
        r == key_le(a, b),
{
    match (a, b) {
        (Option::None, _) => true,
        (Option::Some(_), Option::None) => false,
        (Option::Some(x), Option::Some(y)) => x <= y,
    }
}

/// Normalizes a window: collects its observations, stably sorts them by
/// timestamp, drops the textual ones, and returns the numeric values in
/// chronological order. Never fails.
pub fn normalize(window: &DataWindow) -> (series: Vec<u32>)
    ensures
        series@ == normalize_spec(window.points()),
{
    let ghost points = window.points();

    // Collect the numeric observations in window order.
    let mut samples: Vec<Sample> = Vec::new();
    let mut i: usize = 0;
    while i < window.entries.len()
        invariant
            i <= window.entries@.len(),
            points == window.points(),
            samples@ == samples_of(points.take(i as int)),
        decreases window.entries@.len() - i,
    {
        let entry = &window.entries[i];
        proof {
            assert(points.take(i as int + 1).drop_last() =~= points.take(i as int));
            assert(points.take(i as int + 1).last() == entry.point);
        }
        match &entry.point.value {
            Value::Number(bits) => {
                samples.push(Sample { timestamp: entry.point.timestamp, bits: *bits });
            },
            Value::Text(_) => {},
        }
        i = i + 1;
    }
    proof {
        assert(points.take(window.entries@.len() as int) =~= points);
    }

    // Stable insertion sort by timestamp.
    let mut sorted_samples: Vec<Sample> = Vec::new();
    let mut i: usize = 0;
    while i < samples.len()
        invariant
            i <= samples@.len(),
            samples@ == samples_of(points),
            sorted_samples@ == sort_by_time(samples@.take(i as int)),
        decreases samples@.len() - i,
    {
        let x = samples[i];
        proof {
            lemma_sort_by_time_props(samples@.take(i as int));
        }
        let mut p: usize = 0;
        while p < sorted_samples.len() && le_timestamp(sorted_samples[p].timestamp, x.timestamp)
            invariant
                p <= sorted_samples@.len(),
                forall|k: int|
                    0 <= k < p ==> #[trigger] key_le(sorted_samples@[k].timestamp, x.timestamp),
            decreases sorted_samples@.len() - p,
        {
            p = p + 1;
        }
        proof {
            let s = sorted_samples@;
            assert(time_sorted(s));
            assert forall|k: int| p <= k < s.len() implies !key_le(
                s[k].timestamp,
                x.timestamp,
            ) by {
                if key_le(s[k].timestamp, x.timestamp) {
                    assert(key_le(s[p as int].timestamp, s[k].timestamp));
                    lemma_key_le_trans(s[p as int].timestamp, s[k].timestamp, x.timestamp);
                }
            };
            lemma_insert_ordered_is_insert(s, x, p as int);
            assert(samples@.take(i as int + 1).drop_last() =~= samples@.take(i as int));
        }
        sorted_samples.insert(p, x);
        i = i + 1;
    }
    proof {
        assert(samples@.take(samples@.len() as int) =~= samples@);
    }

    // Strip the timestamps: only the ordered values remain.
    let mut series: Vec<u32> = Vec::new();
    let mut i: usize = 0;
    while i < sorted_samples.len()
        invariant
            i <= sorted_samples@.len(),
            sorted_samples@ == sort_by_time(samples_of(points)),
            series@.len() == i,
            forall|k: int| 0 <= k < i ==> series@[k] == #[trigger] sorted_samples@[k].bits,
        decreases sorted_samples@.len() - i,
    {
        let s = sorted_samples[i];
        series.push(s.bits);
        i = i + 1;
    }
    proof {
        assert(series@ =~= sort_by_time(samples_of(points)).map_values(|s: Sample| s.bits));
    }
    series
}

/// Stable insertion lands at the first position whose element is strictly
/// later: `insert_ordered` is a plain sequence insertion there.
proof fn lemma_insert_ordered_is_insert(s: Seq<Sample>, x: Sample, p: int)
    requires
        time_sorted(s),
        0 <= p <= s.len(),
        forall|k: int| 0 <= k < p ==> #[trigger] key_le(s[k].timestamp, x.timestamp),
        forall|k: int| p <= k < s.len() ==> !#[trigger] key_le(s[k].timestamp, x.timestamp),
    ensures
        insert_ordered(s, x) == s.insert(p, x),
    decreases s.len(),
{
    if s.len() == 0 {
        assert(insert_ordered(s, x) =~= s.insert(p, x));
    } else if key_le(s.last().timestamp, x.timestamp) {
        assert(p == s.len());
        assert(s.push(x) =~= s.insert(p, x));
    } else {
        assert(p < s.len());
        let s0 = s.drop_last();
        assert(time_sorted(s0)) by {
            assert forall|i: int, j: int| 0 <= i <= j < s0.len() implies #[trigger] key_le(
                s0[i].timestamp,
                s0[j].timestamp,
            ) by {
                assert(key_le(s[i].timestamp, s[j].timestamp));
            };
        };
        assert forall|k: int| 0 <= k < p implies #[trigger] key_le(s0[k].timestamp, x.timestamp) by {
            assert(key_le(s[k].timestamp, x.timestamp));
        };
        assert forall|k: int| p <= k < s0.len() implies !#[trigger] key_le(
            s0[k].timestamp,
            x.timestamp,
        ) by {
            assert(!key_le(s[k].timestamp, x.timestamp));
        };
        lemma_insert_ordered_is_insert(s0, x, p);
        assert(insert_ordered(s0, x).push(s.last()) =~= s.insert(p, x));
    }
}

} // verus!
