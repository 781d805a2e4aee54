//! Process-wide usage accounting: how many files and how many bytes have been
//! received over the lifetime of the process, across all server start/stop
//! cycles.

use vstd::prelude::*;

verus! {

/// Counters of received uploads. The host application holds one instance for
/// the whole process (behind its own synchronization) and hands it to every
/// request; the counters survive server restarts and are never reset.
pub struct UsageCounters {
    pub received_count: u64,
    pub total_bytes: u64,
}

/// The value of a counter pair after recording one finished file of `bytes`
/// bytes: one more file, `bytes` more bytes, each sum capped at `u64::MAX`.
pub open spec fn recorded(c: UsageCounters, bytes: u64) -> UsageCounters {
    UsageCounters {
        received_count: if c.received_count + 1 <= u64::MAX {
            (c.received_count + 1) as u64
        } else {
            u64::MAX
        },
        total_bytes: if c.total_bytes + bytes <= u64::MAX {
            (c.total_bytes + bytes) as u64
        } else {
            u64::MAX
        },
    }
}

/// The counter pair after recording, in order, every file size in `sizes`.
pub open spec fn recorded_all(c: UsageCounters, sizes: Seq<u64>) -> UsageCounters
    decreases sizes.len(),
{
    if sizes.len() == 0 {
        c
    } else {
        recorded_all(recorded(c, sizes[0]), sizes.subrange(1, sizes.len() as int))
    }
}

/// The sum of a sequence of sizes, as an unbounded integer.
pub open spec fn sum_sizes(sizes: Seq<u64>) -> int
    decreases sizes.len(),
{
    if sizes.len() == 0 {
        0
    } else {
        sizes[0] + sum_sizes(sizes.subrange(1, sizes.len() as int))
    }
}

impl UsageCounters {
    /// A fresh counter pair: nothing received yet.
    pub fn new() -> (c: UsageCounters)
        ensures
            c.received_count == 0,
            c.total_bytes == 0,
    {
        UsageCounters { received_count: 0, total_bytes: 0 }
    }

    /// Number of files received so far.
    pub fn get_received_count(&self) -> (r: u64)
        ensures
            r == self.received_count,
    {
        self.received_count
    }

    /// Total number of bytes received so far.
    pub fn get_total_size(&self) -> (r: u64)
        ensures
            r == self.total_bytes,
    {
        self.total_bytes
    }

    /// Record one successfully completed file of `bytes` bytes. Saturates at
    /// `u64::MAX` rather than wrapping, so the counters never go backwards.
    pub fn record_upload(&mut self, bytes: u64)
        ensures
            *final(self) == recorded(*old(self), bytes),
    {
        if self.received_count < u64::MAX {
            self.received_count = self.received_count + 1;
        }
        if bytes <= u64::MAX - self.total_bytes {
            self.total_bytes = self.total_bytes + bytes;
        } else {
            self.total_bytes = u64::MAX;
        }
    }
}

/// After any sequence of successful uploads totaling `sizes.len()` files and
/// `sum_sizes(sizes)` bytes, counters started from zero report exactly that
/// many files and that many bytes, however the uploads were grouped into
/// requests, provided the totals fit in the counter width.
pub proof fn lemma_counters_accumulate(c: UsageCounters, sizes: Seq<u64>)
    requires
        c.received_count + sizes.len() <= u64::MAX,
        c.total_bytes + sum_sizes(sizes) <= u64::MAX,
    ensures
        recorded_all(c, sizes).received_count == c.received_count + sizes.len(),
        recorded_all(c, sizes).total_bytes == c.total_bytes + sum_sizes(sizes),
    decreases sizes.len(),
{
    if sizes.len() == 0 {
    } else {
        let rest = sizes.subrange(1, sizes.len() as int);
        assert(sum_sizes(rest) >= 0) by {
            lemma_sum_sizes_nonneg(rest);
        }
        lemma_counters_accumulate(recorded(c, sizes[0]), rest);
    }
}

/// Recording never lowers either counter: across successive reads the
/// values are monotone, and nothing here ever resets them.
pub proof fn lemma_recorded_monotone(c: UsageCounters, bytes: u64)
    ensures
        recorded(c, bytes).received_count >= c.received_count,
        recorded(c, bytes).total_bytes >= c.total_bytes,
{
}

/// Extending the recorded prefix by one size records that size last.
pub proof fn lemma_recorded_all_snoc(c: UsageCounters, sizes: Seq<u64>, k: int)
    requires
        0 <= k < sizes.len(),
    ensures
        recorded_all(c, sizes.take(k + 1)) == recorded(recorded_all(c, sizes.take(k)), sizes[k]),
    decreases k,
{
    if k == 0 {
        assert(sizes.take(1) =~= seq![sizes[0]]);
        assert(sizes.take(0) =~= Seq::<u64>::empty());
        assert(seq![sizes[0]].subrange(1, 1) =~= Seq::<u64>::empty());
        assert(recorded_all(recorded(c, sizes[0]), Seq::<u64>::empty()) == recorded(
            c,
            sizes[0],
        ));
    } else {
        let t = sizes.subrange(1, sizes.len() as int);
        assert(sizes.take(k + 1).subrange(1, k + 1) =~= t.take(k));
        assert(sizes.take(k).subrange(1, k) =~= t.take(k - 1));
        assert(sizes.take(k + 1)[0] == sizes[0]);
        assert(sizes.take(k)[0] == sizes[0]);
        lemma_recorded_all_snoc(recorded(c, sizes[0]), t, k - 1);
        assert(t[k - 1] == sizes[k]);
    }
}

/// Summing one more size adds it to the prefix sum.
pub proof fn lemma_sum_sizes_snoc(sizes: Seq<u64>, k: int)
    requires
        0 <= k < sizes.len(),
    ensures
        sum_sizes(sizes.take(k + 1)) == sum_sizes(sizes.take(k)) + sizes[k],
    decreases k,
{
    if k == 0 {
        assert(sizes.take(1) =~= seq![sizes[0]]);
        assert(sizes.take(0) =~= Seq::<u64>::empty());
        assert(seq![sizes[0]].subrange(1, 1) =~= Seq::<u64>::empty());
    } else {
        let t = sizes.subrange(1, sizes.len() as int);
        assert(sizes.take(k + 1).subrange(1, k + 1) =~= t.take(k));
        assert(sizes.take(k).subrange(1, k) =~= t.take(k - 1));
        assert(sizes.take(k + 1)[0] == sizes[0]);
        assert(sizes.take(k)[0] == sizes[0]);
        lemma_sum_sizes_snoc(t, k - 1);
        assert(t[k - 1] == sizes[k]);
    }
}

/// A prefix never sums to more than the whole: the sizes are unsigned.
pub proof fn lemma_sum_take_bound(sizes: Seq<u64>, m: int)
    requires
        0 <= m <= sizes.len(),
    ensures
        sum_sizes(sizes.take(m)) <= sum_sizes(sizes),
    decreases sizes.len(),
{
    if m == 0 {
        assert(sizes.take(0) =~= Seq::<u64>::empty());
        lemma_sum_sizes_nonneg(sizes);
    } else {
        let t = sizes.subrange(1, sizes.len() as int);
        assert(sizes.take(m).subrange(1, m) =~= t.take(m - 1));
        assert(sizes.take(m)[0] == sizes[0]);
        lemma_sum_take_bound(t, m - 1);
    }
}

/// A sum of unsigned sizes is never negative.
pub proof fn lemma_sum_sizes_nonneg(sizes: Seq<u64>)
    ensures
        sum_sizes(sizes) >= 0,
    decreases sizes.len(),
{
    if sizes.len() > 0 {
        lemma_sum_sizes_nonneg(sizes.subrange(1, sizes.len() as int));
    }
}

} // verus!
