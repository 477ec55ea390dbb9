//! The response-time histogram: per-bucket counts collected in any
//! order while parsing, then sorted once and turned into a cumulative
//! bucket stream for encoding.

use vstd::prelude::*;

use crate::numbers::Nanos;

verus! {

/// One item of the cumulative bucket stream: a bucket with an upper
/// bound and the cumulative count at or below it, or the terminal
/// open-ended bucket carrying the final total.
#[derive(Clone, Copy, Debug, PartialEq, Eq, Structural)]
pub enum Bucket {
    Le(Nanos, u64),
    Inf(u64),
}

/// The histogram accumulator: unordered (upper bound, count) pairs and
/// the average recursion time that the derived sum is based on.
#[derive(Debug)]
pub struct Histogram {
    buckets: Vec<(Nanos, u64)>,
    average: Nanos,
}

/// The mathematical content of a histogram.
#[verifier::ext_equal]
pub ghost struct HistogramView {
    pub buckets: Seq<(Nanos, u64)>,
    pub average: Nanos,
}

impl View for Histogram {
    type V = HistogramView;

    closed spec fn view(&self) -> HistogramView {
        HistogramView { buckets: self.buckets@, average: self.average }
    }
}

/// Sum of the bucket counts with wrapping 64-bit addition, as the
/// long-running upstream counters call for.
pub open spec fn spec_wrap_sum(s: Seq<(Nanos, u64)>) -> u64
    decreases s.len(),
{
    if s.len() == 0 {
        0
    } else {
        ((spec_wrap_sum(s.drop_last()) + s.last().1) % 0x10000000000000000) as u64
    }
}

/// Sum of the bucket counts without wrapping.
pub open spec fn spec_nat_sum(s: Seq<(Nanos, u64)>) -> int
    decreases s.len(),
{
    if s.len() == 0 {
        0
    } else {
        spec_nat_sum(s.drop_last()) + s.last().1
    }
}

/// The histogram sum statistic in nanoseconds: the average recursion
/// time multiplied by the total count, saturated at the largest
/// representable value.
pub open spec fn spec_hist_sum(h: HistogramView) -> u128 {
    let product = (h.average.nanos as int) * (spec_wrap_sum(h.buckets) as int);
    if product > u128::MAX {
        u128::MAX
    } else {
        product as u128
    }
}

/// Bucket pairs ordered by upper bound.
pub open spec fn spec_sorted(s: Seq<(Nanos, u64)>) -> bool {
    forall|i: int, j: int| 0 <= i < j < s.len() ==> s[i].0.nanos <= s[j].0.nanos
}

/// Insert a pair into a sorted sequence, after any equal upper bounds.
pub open spec fn spec_insert_sorted(s: Seq<(Nanos, u64)>, x: (Nanos, u64)) -> Seq<(Nanos, u64)>
    decreases s.len(),
{
    if s.len() == 0 {
        seq![x]
    } else if s.last().0.nanos <= x.0.nanos {
        s.push(x)
    } else {
        spec_insert_sorted(s.drop_last(), x) + seq![s.last()]
    }
}

/// The bucket pairs sorted by upper bound, keeping the original order
/// of pairs with equal bounds.
pub open spec fn spec_sort(s: Seq<(Nanos, u64)>) -> Seq<(Nanos, u64)>
    decreases s.len(),
{
    if s.len() == 0 {
        Seq::empty()
    } else {
        spec_insert_sorted(spec_sort(s.drop_last()), s.last())
    }
}

/// The full cumulative stream over sorted bucket pairs: one `Le` item
/// per pair carrying the running total, then exactly one `Inf` item
/// carrying the final total.
pub open spec fn spec_bucket_stream(sorted: Seq<(Nanos, u64)>) -> Seq<Bucket> {
    Seq::new(
        sorted.len() + 1,
        |i: int|
            if i < sorted.len() {
                Bucket::Le(sorted[i].0, spec_wrap_sum(sorted.take(i + 1)))
            } else {
                Bucket::Inf(spec_wrap_sum(sorted))
            },
    )
}

impl Histogram {
    /// An empty histogram with the given average recursion time.
    pub fn new(total_recursion_time_avg: Nanos) -> (r: Self)
        ensures
            r@.buckets == Seq::<(Nanos, u64)>::empty(),
            r@.average == total_recursion_time_avg,
    {
        Histogram { buckets: Vec::new(), average: total_recursion_time_avg }
    }

    /// The average recursion time, writable: the parser copies the
    /// aggregate record's average here after all lines are consumed.
    pub fn average_mut(&mut self) -> (r: &mut Nanos)
        ensures
            *r == old(self)@.average,
            final(self)@.average == *final(r),
            final(self)@.buckets == old(self)@.buckets,
    {
        &mut self.average
    }

    /// Set the average recursion time.
    pub fn set_average(&mut self, a: Nanos)
        ensures
            final(self)@.average == a,
            final(self)@.buckets == old(self)@.buckets,
    {
        self.average = a;
    }

    /// The average recursion time.
    pub fn average(&self) -> (r: Nanos)
        ensures
            r == self@.average,
    {
        self.average
    }

    /// Record one (upper bound, count) pair.
    pub fn push(&mut self, le: Nanos, count: u64)
        ensures
            final(self)@.buckets == old(self)@.buckets.push((le, count)),
            final(self)@.average == old(self)@.average,
    {
        self.buckets.push((le, count));
    }

    /// The total observation count: the bucket counts summed with
    /// wrapping addition.
    pub fn count(&self) -> (r: u64)
        ensures
            r == spec_wrap_sum(self@.buckets),
    {
        let mut acc: u64 = 0;
        let mut i: usize = 0;
        proof {
            assert(self@.buckets.take(0) =~= Seq::<(Nanos, u64)>::empty());
        }
        while i < self.buckets.len()
            invariant
                i <= self@.buckets.len(),
                acc == spec_wrap_sum(self@.buckets.take(i as int)),
            decreases self@.buckets.len() - i,
        {
            let c = self.buckets[i].1;
            proof {
                assert(self@.buckets.take(i + 1).drop_last() =~= self@.buckets.take(i as int));
                assert(self@.buckets.take(i + 1).last() == self@.buckets[i as int]);
            }
            let wide: u128 = (acc as u128) + (c as u128);
            acc = (wide % 0x10000000000000000u128) as u64;
            i = i + 1;
        }
        proof {
            assert(self@.buckets.take(i as int) =~= self@.buckets);
        }
        acc
    }

    /// The sum statistic in nanoseconds, derived as the average
    /// recursion time times the total count.
    pub fn sum(&self) -> (r: u128)
        ensures
            r == spec_hist_sum(self@),
    {
        let cnt = self.count();
        if cnt == 0 {
            return 0;
        }
        let avg = self.average.nanos;
        if avg > u128::MAX / (cnt as u128) {
            proof {
                lemma_mul_over_div(avg as int, cnt as int, u128::MAX as int);
            }
            u128::MAX
        } else {
            proof {
                lemma_mul_under_div(avg as int, cnt as int, u128::MAX as int);
            }
            avg * (cnt as u128)
        }
    }

    /// The cumulative bucket stream: the pairs sorted by upper bound,
    /// each carrying the running total, closed by one final item for
    /// the open upper bound.
    ///
    /// The stream is produced on demand by `Buckets::next` and is not
    /// restartable; call `buckets` again for a fresh pass.
    pub fn buckets(&self) -> (r: Buckets)
        ensures
            r.wf(),
            r.stream() == spec_bucket_stream(spec_sort(self@.buckets)),
            r.pos() == 0,
    {
        let sorted = sort_buckets(&self.buckets);
        Buckets { items: sorted, total: 0, current: 0, inf_yielded: false }
    }
}

impl Default for Histogram {
    /// An empty histogram with a zero average.
    fn default() -> (r: Self)
        ensures
            r@.buckets == Seq::<(Nanos, u64)>::empty(),
            r@.average.nanos == 0,
    {
        Histogram { buckets: Vec::new(), average: Nanos { nanos: 0 } }
    }
}

/// If `a` exceeds the largest multiple bound quotient, the product
/// exceeds the bound.
proof fn lemma_mul_over_div(a: int, c: int, m: int)
    requires
        c > 0,
        m >= 0,
        a > m / c,
    ensures
        a * c > m,
{
    vstd::arithmetic::div_mod::lemma_fundamental_div_mod(m, c);
    assert(m == c * (m / c) + m % c);
    assert(a * c >= (m / c + 1) * c) by (nonlinear_arith)
        requires
            c > 0,
            a >= m / c + 1,
    ;
    assert((m / c + 1) * c == c * (m / c) + c) by (nonlinear_arith);
    vstd::arithmetic::div_mod::lemma_mod_bound(m, c);
}

/// If `a` stays within the quotient, the product stays within the
/// bound.
proof fn lemma_mul_under_div(a: int, c: int, m: int)
    requires
        c > 0,
        m >= 0,
        0 <= a <= m / c,
    ensures
        a * c <= m,
{
    vstd::arithmetic::div_mod::lemma_fundamental_div_mod(m, c);
    assert(m == c * (m / c) + m % c);
    assert(a * c <= c * (m / c)) by (nonlinear_arith)
        requires
            c > 0,
            0 <= a <= m / c,
    ;
    vstd::arithmetic::div_mod::lemma_mod_bound(m, c);
}

/// Build the sorted copy of the bucket pairs.
fn sort_buckets(v: &Vec<(Nanos, u64)>) -> (r: Vec<(Nanos, u64)>)
    ensures
        r@ == spec_sort(v@),
        spec_sorted(r@),
{
    let mut res: Vec<(Nanos, u64)> = Vec::new();
    let mut k: usize = 0;
    proof {
        assert(v@.take(0) =~= Seq::<(Nanos, u64)>::empty());
    }
    while k < v.len()
        invariant
            k <= v@.len(),
            res@ == spec_sort(v@.take(k as int)),
            spec_sorted(res@),
        decreases v@.len() - k,
    {
        let x = v[k];
        proof {
            assert(v@.take(k + 1).drop_last() =~= v@.take(k as int));
            assert(v@.take(k + 1).last() == v@[k as int]);
        }
        insert_sorted_one(&mut res, x);
        k = k + 1;
    }
    proof {
        assert(v@.take(v@.len() as int) =~= v@);
    }
    res
}

/// Insert one pair into a sorted vector, after any equal upper bounds.
fn insert_sorted_one(res: &mut Vec<(Nanos, u64)>, x: (Nanos, u64))
    requires
        spec_sorted(old(res)@),
    ensures
        final(res)@ == spec_insert_sorted(old(res)@, x),
        spec_sorted(final(res)@),
{
    let mut j: usize = res.len();
    while j > 0 && res[j - 1].0.nanos > x.0.nanos
        invariant
            j <= res@.len(),
            forall|m: int| j <= m < res@.len() ==> res@[m].0.nanos > x.0.nanos,
        decreases j,
    {
        j = j - 1;
    }
    proof {
        lemma_insert_sorted_at(res@, x, j as int);
    }
    res.insert(j, x);
    proof {
        let s = old(res)@;
        let t = s.insert(j as int, x);
        assert forall|a: int, b: int| 0 <= a < b < t.len() implies t[a].0.nanos
            <= t[b].0.nanos by {
            if a < j && b < j {
                assert(t[a] == s[a] && t[b] == s[b]);
            } else if a < j && b == j {
                assert(t[a] == s[a] && t[b] == x);
            } else if a < j && b > j {
                assert(t[a] == s[a] && t[b] == s[b - 1]);
            } else if a == j && b > j {
                assert(t[a] == x && t[b] == s[b - 1]);
            } else if a > j && b > j {
                assert(t[a] == s[a - 1] && t[b] == s[b - 1]);
            }
        }
    }
}

/// The position an insertion scan stops at receives the inserted pair.
proof fn lemma_insert_sorted_at(s: Seq<(Nanos, u64)>, x: (Nanos, u64), j: int)
    requires
        spec_sorted(s),
        0 <= j <= s.len(),
        forall|m: int| j <= m < s.len() ==> s[m].0.nanos > x.0.nanos,
        j > 0 ==> s[j - 1].0.nanos <= x.0.nanos,
    ensures
        spec_insert_sorted(s, x) == s.insert(j, x),
    decreases s.len(),
{
    if s.len() == 0 {
        assert(spec_insert_sorted(s, x) =~= s.insert(0, x));
    } else if s.last().0.nanos <= x.0.nanos {
        assert(j == s.len());
        assert(s.push(x) =~= s.insert(j, x));
    } else {
        assert(j < s.len());
        assert forall|m: int| j <= m < s.drop_last().len() implies s.drop_last()[m].0.nanos
            > x.0.nanos by {
            assert(s.drop_last()[m] == s[m]);
        }
        if j > 0 {
            assert(s.drop_last()[j - 1] == s[j - 1]);
        }
        lemma_insert_sorted_at(s.drop_last(), x, j);
        assert(spec_insert_sorted(s.drop_last(), x) + seq![s.last()] =~= s.insert(j, x));
    }
}

/// The lazy cumulative bucket stream over the sorted pairs.
///
/// Forward-only: each call of `next` hands out the next item until the
/// terminal infinity item has been produced.
#[derive(Debug)]
pub struct Buckets {
    items: Vec<(Nanos, u64)>,
    total: u64,
    current: usize,
    inf_yielded: bool,
}

impl Buckets {
    /// The whole item sequence this stream produces.
    pub closed spec fn stream(self) -> Seq<Bucket> {
        spec_bucket_stream(self.items@)
    }

    /// How many items have been produced so far.
    pub closed spec fn pos(self) -> int {
        if self.inf_yielded {
            self.items@.len() as int + 1
        } else {
            self.current as int
        }
    }

    /// Internal consistency of the stream state.
    pub closed spec fn wf(self) -> bool {
        &&& self.current <= self.items@.len()
        &&& self.total == spec_wrap_sum(self.items@.take(self.current as int))
        &&& (self.inf_yielded ==> self.current == self.items@.len())
    }

    /// A fresh stream over the given pairs, sorted once by upper bound.
    pub fn new(items: Vec<(Nanos, u64)>) -> (r: Buckets)
        ensures
            r.wf(),
            r.stream() == spec_bucket_stream(spec_sort(items@)),
            r.pos() == 0,
    {
        let sorted = sort_buckets(&items);
        proof {
            assert(sorted@.take(0) =~= Seq::<(Nanos, u64)>::empty());
        }
        Buckets { items: sorted, total: 0, current: 0, inf_yielded: false }
    }

    /// Produce the next item of the stream, or nothing when the
    /// terminal item has already been produced.
    pub fn next(&mut self) -> (r: Option<Bucket>)
        requires
            old(self).wf(),
        ensures
            final(self).wf(),
            final(self).stream() == old(self).stream(),
            old(self).pos() < old(self).stream().len() ==> {
                &&& r == Some(old(self).stream()[old(self).pos()])
                &&& final(self).pos() == old(self).pos() + 1
            },
            old(self).pos() >= old(self).stream().len() ==> {
                &&& r is None
                &&& final(self).pos() == old(self).pos()
            },
    {
        if self.current < self.items.len() {
            let (le, count) = self.items[self.current];
            proof {
                assert(self.items@.take(self.current + 1).drop_last() =~= self.items@.take(
                    self.current as int,
                ));
                assert(self.items@.take(self.current + 1).last() == self.items@[
                    self.current as int]);
            }
            let wide: u128 = (self.total as u128) + (count as u128);
            self.total = (wide % 0x10000000000000000u128) as u64;
            self.current = self.current + 1;
            Some(Bucket::Le(le, self.total))
        } else if !self.inf_yielded {
            self.inf_yielded = true;
            proof {
                assert(self.items@.take(self.items@.len() as int) =~= self.items@);
            }
            Some(Bucket::Inf(self.total))
        } else {
            None
        }
    }
}

/// Laws of the cumulative bucket stream: it holds one item per bucket
/// and then exactly one terminal infinity item carrying the final
/// total; and when the bucket counts sum without wrapping, the
/// cumulative counts are non-decreasing and the terminal total equals
/// every count from the last bucket on.
pub proof fn lemma_cumulative_stream(s: Seq<(Nanos, u64)>)
    ensures
        spec_bucket_stream(s).len() == s.len() + 1,
        spec_bucket_stream(s).last() == Bucket::Inf(spec_wrap_sum(s)),
        forall|i: int| 0 <= i < s.len() ==> spec_bucket_stream(s)[i] is Le,
        spec_nat_sum(s) <= u64::MAX ==> forall|i: int, j: int|
            0 <= i <= j < s.len() ==> cumulative_count(s, i) <= cumulative_count(s, j),
        spec_nat_sum(s) <= u64::MAX ==> (s.len() > 0 ==> cumulative_count(s, s.len() - 1)
            == spec_wrap_sum(s)),
{
    if spec_nat_sum(s) <= u64::MAX {
        assert forall|i: int, j: int| 0 <= i <= j < s.len() implies cumulative_count(s, i)
            <= cumulative_count(s, j) by {
            lemma_prefix_sums(s, i + 1, j + 1);
            lemma_wrap_sum_exact(s, i + 1);
            lemma_wrap_sum_exact(s, j + 1);
        }
        if s.len() > 0 {
            assert(s.take(s.len() as int) =~= s);
        }
    }
}

/// The cumulative count carried by the `i`-th stream item.
pub open spec fn cumulative_count(s: Seq<(Nanos, u64)>, i: int) -> u64 {
    spec_wrap_sum(s.take(i + 1))
}

/// A prefix sum never exceeds the whole sum.
proof fn lemma_prefix_sum_le(s: Seq<(Nanos, u64)>, k: int)
    requires
        0 <= k <= s.len(),
    ensures
        spec_nat_sum(s.take(k)) <= spec_nat_sum(s),
    decreases s.len() - k,
{
    if k < s.len() {
        assert(s.take(k + 1).drop_last() =~= s.take(k));
        assert(s.take(k + 1).last() == s[k]);
        lemma_prefix_sum_le(s, k + 1);
    } else {
        assert(s.take(k) =~= s);
    }
}

/// Prefix sums grow with the prefix.
proof fn lemma_prefix_sums(s: Seq<(Nanos, u64)>, a: int, b: int)
    requires
        0 <= a <= b <= s.len(),
    ensures
        spec_nat_sum(s.take(a)) <= spec_nat_sum(s.take(b)) <= spec_nat_sum(s),
{
    lemma_prefix_sum_le(s, b);
    lemma_prefix_sum_le(s.take(b), a);
    assert(s.take(b).take(a) =~= s.take(a));
}

/// While the true sum stays in range, wrapping addition is exact.
proof fn lemma_wrap_sum_exact(s: Seq<(Nanos, u64)>, k: int)
    requires
        0 <= k <= s.len(),
        spec_nat_sum(s) <= u64::MAX,
    ensures
        spec_wrap_sum(s.take(k)) == spec_nat_sum(s.take(k)),
    decreases k,
{
    if k > 0 {
        lemma_wrap_sum_exact(s, k - 1);
        assert(s.take(k).drop_last() =~= s.take(k - 1));
        lemma_prefix_sums(s, k, s.len() as int);
        lemma_nat_sum_nonneg(s.take(k - 1));
        assert(s.take(k).last().1 >= 0);
    } else {
        assert(s.take(0) =~= Seq::<(Nanos, u64)>::empty());
    }
}

/// The unwrapped sum is never negative.
proof fn lemma_nat_sum_nonneg(s: Seq<(Nanos, u64)>)
    ensures
        spec_nat_sum(s) >= 0,
    decreases s.len(),
{
    if s.len() > 0 {
        lemma_nat_sum_nonneg(s.drop_last());
    }
}

} // verus!
