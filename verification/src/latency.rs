//! Latency summaries with nearest-rank percentiles.
use crate::binary64::{Real, SIGN};
use crate::order;
use vstd::prelude::*;

verus! {

/// A summary of latencies in milliseconds.
#[derive(Clone, Copy, Debug, PartialEq, Eq, Structural)]
pub struct LatencySummary {
    pub count: usize,
    pub min_ms: Real,
    pub mean_ms: Real,
    pub p50_ms: Real,
    pub p90_ms: Real,
    pub p95_ms: Real,
    pub p99_ms: Real,
    pub max_ms: Real,
}

impl Default for LatencySummary {
    fn default() -> (r: Self)
        ensures
            r == LatencySummary::empty(),
    {
        LatencySummary {
            count: 0,
            min_ms: Real::zero(),
            mean_ms: Real::zero(),
            p50_ms: Real::zero(),
            p90_ms: Real::zero(),
            p95_ms: Real::zero(),
            p99_ms: Real::zero(),
            max_ms: Real::zero(),
        }
    }
}

/// The place of a value in the total order of binary64 values: negative before positive, and what
/// is not a number outermost.
pub open spec fn total_key_spec(x: Real) -> u64 {
    if x.bits < SIGN {
        (x.bits + SIGN) as u64
    } else {
        (u64::MAX - x.bits) as u64
    }
}

fn total_key(x: Real) -> (r: u64)
    ensures
        r == total_key_spec(x),
{
    if x.bits < SIGN {
        x.bits + SIGN
    } else {
        u64::MAX - x.bits
    }
}

/// Among numbers the total order refines the numeric one.
pub proof fn lemma_total_key_respects_order(a: Real, b: Real)
    requires
        a.lt_spec(b),
    ensures
        total_key_spec(a) < total_key_spec(b),
{
}

/// Different values have different places.
pub proof fn lemma_total_key_injective(a: Real, b: Real)
    requires
        total_key_spec(a) == total_key_spec(b),
    ensures
        a == b,
{
}

pub open spec fn keys_of(samples: Seq<Real>) -> Seq<u64> {
    samples.map_values(|x: Real| total_key_spec(x))
}

/// The samples in ascending order.
pub open spec fn sorted_spec(samples: Seq<Real>) -> Seq<Real> {
    order::sort_order_spec(keys_of(samples)).map_values(|i: usize| samples[i as int])
}

/// The samples in ascending order.
pub fn sorted(samples: &Vec<Real>) -> (r: Vec<Real>)
    ensures
        r@ == sorted_spec(samples@),
        r@.len() == samples@.len(),
        forall|i: int, j: int|
            0 <= i < j < r@.len() ==> total_key_spec(#[trigger] r@[i]) <= total_key_spec(
                #[trigger] r@[j],
            ),
        forall|x: Real| #[trigger] samples@.contains(x) <==> r@.contains(x),
{
    let mut keys: Vec<u64> = Vec::new();
    let mut i: usize = 0;
    while i < samples.len()
        invariant
            i <= samples@.len(),
            keys@ == keys_of(samples@).take(i as int),
        decreases samples.len() - i,
    {
        keys.push(total_key(samples[i]));
        assert(keys@ =~= keys_of(samples@).take(i + 1));
        i = i + 1;
    }
    assert(keys@ =~= keys_of(samples@));
    let places = order::sort_order(&keys);
    let mut out: Vec<Real> = Vec::new();
    let mut k: usize = 0;
    while k < places.len()
        invariant
            k <= places@.len(),
            order::is_sort_order(keys@, places@),
            keys@.len() == samples@.len(),
            out@.len() == k,
            forall|j: int| 0 <= j < k ==> #[trigger] out@[j] == samples@[places@[j] as int],
        decreases places.len() - k,
    {
        out.push(samples[places[k]]);
        k = k + 1;
    }
    assert(out@ =~= sorted_spec(samples@));
    assert forall|i: int, j: int| 0 <= i < j < out@.len() implies total_key_spec(
        #[trigger] out@[i],
    ) <= total_key_spec(#[trigger] out@[j]) by {
        assert(order::comes_before(keys@, places@[i] as int, places@[j] as int));
        assert(keys@[places@[i] as int] == total_key_spec(out@[i]));
        assert(keys@[places@[j] as int] == total_key_spec(out@[j]));
    }
    assert forall|x: Real| #[trigger] samples@.contains(x) <==> out@.contains(x) by {
        if samples@.contains(x) {
            let p = choose|p: int| 0 <= p < samples@.len() && samples@[p] == x;
            assert(places@.contains(p as usize));
            let q = choose|q: int| 0 <= q < places@.len() && places@[q] == p as usize;
            assert(out@[q] == x);
        }
        if out@.contains(x) {
            let q = choose|q: int| 0 <= q < out@.len() && out@[q] == x;
            assert(samples@[places@[q] as int] == x);
        }
    }
    out
}

/// The place of a percentile among `n` sorted samples: the smallest rank that covers the given
/// share of them, counted from zero.
pub open spec fn nearest_rank(percent: int, n: int) -> int {
    let rank = (percent * n + 99) / 100;
    let index = if rank >= 1 {
        rank - 1
    } else {
        0
    };
    if index <= n - 1 {
        index
    } else {
        n - 1
    }
}

fn rank_index(percent: u64, n: usize) -> (r: usize)
    requires
        n > 0,
        percent <= 100,
    ensures
        r == nearest_rank(percent as int, n as int),
        r < n,
{
    let p: u128 = percent as u128;
    let m: u128 = n as u128;
    assert(p * m <= 100 * m) by (nonlinear_arith)
        requires
            p <= 100,
    ;
    let rank: u128 = (p * m + 99) / 100;
    let index: u128 = if rank >= 1 {
        rank - 1
    } else {
        0
    };
    if index <= m - 1 {
        index as usize
    } else {
        n - 1
    }
}

impl LatencySummary {
    pub open spec fn empty() -> LatencySummary {
        LatencySummary {
            count: 0,
            min_ms: Real::zero_spec(),
            mean_ms: Real::zero_spec(),
            p50_ms: Real::zero_spec(),
            p90_ms: Real::zero_spec(),
            p95_ms: Real::zero_spec(),
            p99_ms: Real::zero_spec(),
            max_ms: Real::zero_spec(),
        }
    }

    /// The summary of samples whose mean is `mean_ms`.
    pub open spec fn of(samples: Seq<Real>, mean_ms: Real) -> LatencySummary {
        let n = samples.len() as int;
        let s = sorted_spec(samples);
        if n == 0 {
            LatencySummary::empty()
        } else {
            LatencySummary {
                count: samples.len() as usize,
                min_ms: s[0],
                mean_ms,
                p50_ms: s[nearest_rank(50, n)],
                p90_ms: s[nearest_rank(90, n)],
                p95_ms: s[nearest_rank(95, n)],
                p99_ms: s[nearest_rank(99, n)],
                max_ms: s[n - 1],
            }
        }
    }

    /// Summarises `samples`, whose mean is `mean_ms`.
    pub fn from_samples(samples: &Vec<Real>, mean_ms: Real) -> (r: LatencySummary)
        ensures
            r == LatencySummary::of(samples@, mean_ms),
            samples@.len() > 0 ==> r.is_ordered(),
            forall|x: Real| #[trigger]
                samples@.contains(x) ==> total_key_spec(r.min_ms) <= total_key_spec(x)
                    <= total_key_spec(r.max_ms),
    {
        if samples.len() == 0 {
            return LatencySummary::default();
        }
        let s = sorted(samples);
        let n: usize = s.len();
        let i50: usize = rank_index(50, n);
        let i90: usize = rank_index(90, n);
        let i95: usize = rank_index(95, n);
        let i99: usize = rank_index(99, n);
        let r = LatencySummary {
            count: n,
            min_ms: s[0],
            mean_ms,
            p50_ms: s[i50],
            p90_ms: s[i90],
            p95_ms: s[i95],
            p99_ms: s[i99],
            max_ms: s[n - 1],
        };
        assert forall|x: Real| #[trigger] samples@.contains(x) implies total_key_spec(r.min_ms)
            <= total_key_spec(x) <= total_key_spec(r.max_ms) by {
            assert(s@.contains(x));
            let p = choose|p: int| 0 <= p < s@.len() && s@[p] == x;
            if p > 0 {
                assert(total_key_spec(s@[0]) <= total_key_spec(s@[p]));
            }
            if p < n - 1 {
                assert(total_key_spec(s@[p]) <= total_key_spec(s@[n - 1]));
            }
        }
        r
    }

    /// The minimum, the percentiles and the maximum ascend.
    pub open spec fn is_ordered(self) -> bool {
        &&& total_key_spec(self.min_ms) <= total_key_spec(self.p50_ms)
        &&& total_key_spec(self.p50_ms) <= total_key_spec(self.p90_ms)
        &&& total_key_spec(self.p90_ms) <= total_key_spec(self.p95_ms)
        &&& total_key_spec(self.p95_ms) <= total_key_spec(self.p99_ms)
        &&& total_key_spec(self.p99_ms) <= total_key_spec(self.max_ms)
    }
}

// ---------------------------------------------------------------------------------------------
// What a summary says of its samples
// ---------------------------------------------------------------------------------------------
/// One sample does not come behind another.
spec fn not_behind(a: Real, b: Real) -> bool {
    total_key_spec(a) <= total_key_spec(b)
}

/// Sorting puts the samples in ascending order and keeps each as often as it was there.
pub proof fn lemma_sorted_permutes(samples: Seq<Real>)
    requires
        samples.len() <= usize::MAX,
    ensures
        sorted_spec(samples).len() == samples.len(),
        sorted_spec(samples).to_multiset() == samples.to_multiset(),
        forall|i: int, j: int|
            0 <= i < j < samples.len() ==> total_key_spec(#[trigger] sorted_spec(samples)[i])
                <= total_key_spec(#[trigger] sorted_spec(samples)[j]),
{
    let keys = keys_of(samples);
    let places = order::sort_order_spec(keys);
    let s = sorted_spec(samples);
    order::lemma_sort_order_permutes(keys, samples);
    assert forall|i: int, j: int| 0 <= i < j < samples.len() implies total_key_spec(#[trigger] s[i])
        <= total_key_spec(#[trigger] s[j]) by {
        assert(order::comes_before(keys, places[i] as int, places[j] as int));
        assert(keys[places[i] as int] == total_key_spec(s[i]));
        assert(keys[places[j] as int] == total_key_spec(s[j]));
    }
}

/// The order in which samples were taken does not matter: the same samples in another order, with
/// the same mean, have the same summary.
pub proof fn lemma_summary_ignores_order(samples: Seq<Real>, others: Seq<Real>, mean_ms: Real)
    requires
        samples.len() <= usize::MAX,
        samples.to_multiset() == others.to_multiset(),
    ensures
        sorted_spec(samples) == sorted_spec(others),
        LatencySummary::of(samples, mean_ms) == LatencySummary::of(others, mean_ms),
{
    vstd::seq_lib::to_multiset_len(samples);
    vstd::seq_lib::to_multiset_len(others);
    lemma_sorted_permutes(samples);
    lemma_sorted_permutes(others);
    let leq = |a: Real, b: Real| not_behind(a, b);
    assert(vstd::relations::total_ordering(leq)) by {
        assert forall|a: Real, b: Real| #[trigger] leq(a, b) && #[trigger] leq(b, a) implies a
            == b by {
            lemma_total_key_injective(a, b);
        }
    }
    assert(vstd::relations::sorted_by(sorted_spec(samples), leq));
    assert(vstd::relations::sorted_by(sorted_spec(others), leq));
    vstd::seq_lib::lemma_sorted_unique(sorted_spec(samples), sorted_spec(others), leq);
}

/// A percentile is the sample of rank `ceil(percent / 100 * count)`, counted from one in ascending
/// order.
pub proof fn lemma_nearest_rank(percent: int, n: int)
    requires
        0 < percent <= 100,
        0 < n,
    ensures
        0 <= nearest_rank(percent, n) < n,
        100 * nearest_rank(percent, n) < percent * n <= 100 * (nearest_rank(percent, n) + 1),
{
    assert(0 < percent * n <= 100 * n) by (nonlinear_arith)
        requires
            0 < percent <= 100,
            0 < n,
    ;
}

/// The minimum, the maximum and the percentiles of a summary are samples, they ascend, and no
/// sample lies outside the minimum and the maximum.
pub proof fn lemma_summary_is_of_samples(samples: Seq<Real>, mean_ms: Real)
    requires
        0 < samples.len() <= usize::MAX,
    ensures
        ({
            let r = LatencySummary::of(samples, mean_ms);
            &&& r.count == samples.len()
            &&& r.mean_ms == mean_ms
            &&& r.is_ordered()
            &&& samples.contains(r.min_ms)
            &&& samples.contains(r.p50_ms)
            &&& samples.contains(r.p90_ms)
            &&& samples.contains(r.p95_ms)
            &&& samples.contains(r.p99_ms)
            &&& samples.contains(r.max_ms)
            &&& forall|x: Real| #[trigger]
                samples.contains(x) ==> total_key_spec(r.min_ms) <= total_key_spec(x)
                    <= total_key_spec(r.max_ms)
        }),
{
    let n = samples.len() as int;
    let s = sorted_spec(samples);
    lemma_sorted_permutes(samples);
    lemma_nearest_rank(50, n);
    lemma_nearest_rank(90, n);
    lemma_nearest_rank(95, n);
    lemma_nearest_rank(99, n);
    assert forall|i: int| 0 <= i < n implies samples.contains(#[trigger] s[i]) by {
        vstd::seq_lib::to_multiset_contains(s, s[i]);
        vstd::seq_lib::to_multiset_contains(samples, s[i]);
    }
    let r = LatencySummary::of(samples, mean_ms);
    assert forall|x: Real| #[trigger] samples.contains(x) implies total_key_spec(r.min_ms)
        <= total_key_spec(x) <= total_key_spec(r.max_ms) by {
        vstd::seq_lib::to_multiset_contains(s, x);
        vstd::seq_lib::to_multiset_contains(samples, x);
        let p = choose|p: int| 0 <= p < s.len() && s[p] == x;
        if p > 0 {
            assert(total_key_spec(s[0]) <= total_key_spec(s[p]));
        }
        if p < n - 1 {
            assert(total_key_spec(s[p]) <= total_key_spec(s[n - 1]));
        }
    }
}

/// Figures that ascend by place ascend as numbers too: none is below the one before it.
pub proof fn lemma_ordered_is_numeric(r: LatencySummary)
    requires
        r.is_ordered(),
    ensures
        !r.p50_ms.lt_spec(r.min_ms),
        !r.p90_ms.lt_spec(r.p50_ms),
        !r.p95_ms.lt_spec(r.p90_ms),
        !r.p99_ms.lt_spec(r.p95_ms),
        !r.max_ms.lt_spec(r.p99_ms),
{
}

/// Whether a figure is the sample at a percentile: the one of the smallest rank, counted from one in
/// ascending order, up to which that many in a hundred of the samples lie.
pub open spec fn is_percentile(samples: Seq<Real>, percent: int, figure: Real) -> bool {
    exists|k: int|
        {
            &&& 0 <= k < samples.len()
            &&& 100 * k < percent * samples.len() <= 100 * (k + 1)
            &&& figure == #[trigger] sorted_spec(samples)[k]
        }
}

/// Each percentile of a summary is the sample at that percentile, the minimum is the first of the
/// sorted samples and the maximum the last.
pub proof fn lemma_percentiles_by_rank(samples: Seq<Real>, mean_ms: Real)
    requires
        0 < samples.len() <= usize::MAX,
    ensures
        is_percentile(samples, 50, LatencySummary::of(samples, mean_ms).p50_ms),
        is_percentile(samples, 90, LatencySummary::of(samples, mean_ms).p90_ms),
        is_percentile(samples, 95, LatencySummary::of(samples, mean_ms).p95_ms),
        is_percentile(samples, 99, LatencySummary::of(samples, mean_ms).p99_ms),
        LatencySummary::of(samples, mean_ms).min_ms == sorted_spec(samples)[0],
        LatencySummary::of(samples, mean_ms).max_ms == sorted_spec(samples)[samples.len() - 1],
{
    let n = samples.len() as int;
    lemma_nearest_rank(50, n);
    lemma_nearest_rank(90, n);
    lemma_nearest_rank(95, n);
    lemma_nearest_rank(99, n);
    let s = sorted_spec(samples);
    assert(s[nearest_rank(50, n)] == LatencySummary::of(samples, mean_ms).p50_ms);
    assert(s[nearest_rank(90, n)] == LatencySummary::of(samples, mean_ms).p90_ms);
    assert(s[nearest_rank(95, n)] == LatencySummary::of(samples, mean_ms).p95_ms);
    assert(s[nearest_rank(99, n)] == LatencySummary::of(samples, mean_ms).p99_ms);
}

/// Without samples every figure is zero.
pub proof fn lemma_nothing_to_summarise(mean_ms: Real)
    ensures
        LatencySummary::of(Seq::empty(), mean_ms) == (LatencySummary {
            count: 0,
            min_ms: Real { bits: 0 },
            mean_ms: Real { bits: 0 },
            p50_ms: Real { bits: 0 },
            p90_ms: Real { bits: 0 },
            p95_ms: Real { bits: 0 },
            p99_ms: Real { bits: 0 },
            max_ms: Real { bits: 0 },
        }),
{
}

} // verus!
