use crate::fuse::Fuse;
use vstd::prelude::*;

verus! {

/// One telemetry endpoint: a sensor, or a CPU core's frequency counter.
///
/// A sample is a whole number of thousandths of the adapter's unit
/// (45000 stands for 45.0). `read` performs one bounded read of the endpoint
/// and yields nothing when it cannot be read or decoded.
pub trait Input {
    fn read(&mut self) -> Option<i64>;

    fn unit(&self) -> &str;

    fn name(&self) -> &str;
}

/// The statistics of one source, as mathematical values.
pub struct Stats {
    pub cur: int,
    pub min: int,
    pub max: int,
    pub faulted: bool,
}

impl Stats {
    /// Before any successful read all three values are the zero sentinel.
    pub open spec fn fresh() -> Stats {
        Stats { cur: 0, min: 0, max: 0, faulted: false }
    }

    /// `min <= cur <= max`.
    pub open spec fn ordered(self) -> bool {
        self.min <= self.cur <= self.max
    }

    /// The statistics after one read: a sample moves `cur` and widens the
    /// range; a missing sample trips the fault latch and changes nothing else.
    pub open spec fn after(self, sample: Option<i64>) -> Stats {
        match sample {
            Some(v) => Stats {
                cur: v as int,
                min: if (v as int) < self.min { v as int } else { self.min },
                max: if (v as int) > self.max { v as int } else { self.max },
                faulted: self.faulted,
            },
            None => Stats { faulted: true, ..self },
        }
    }
}

/// The statistics after each outcome of `samples` in turn.
pub open spec fn after_all(s: Stats, samples: Seq<Option<i64>>) -> Stats
    decreases samples.len(),
{
    if samples.len() == 0 {
        s
    } else {
        after_all(s, samples.drop_last()).after(samples.last())
    }
}

/// Applying outcomes one sequence after another is applying their concatenation.
pub proof fn lemma_after_all_split(s: Stats, a: Seq<Option<i64>>, b: Seq<Option<i64>>)
    ensures
        after_all(after_all(s, a), b) == after_all(s, a + b),
    decreases b.len(),
{
    if b.len() == 0 {
        assert(a + b =~= a);
    } else {
        lemma_after_all_split(s, a, b.drop_last());
        assert((a + b).drop_last() =~= a + b.drop_last());
    }
}

/// Over any sequence of read outcomes, the statistics stay ordered, the
/// minimum never rises, the maximum never falls, and a tripped latch stays
/// tripped.
pub proof fn lemma_stats_monotone(s: Stats, samples: Seq<Option<i64>>)
    requires
        s.ordered(),
    ensures
        after_all(s, samples).ordered(),
        after_all(s, samples).min <= s.min,
        after_all(s, samples).max >= s.max,
        s.faulted ==> after_all(s, samples).faulted,
    decreases samples.len(),
{
    if samples.len() > 0 {
        lemma_stats_monotone(s, samples.drop_last());
    }
}

/// Across a session: after every prefix of the outcomes the statistics are
/// ordered, and between an earlier and a later point the minimum is
/// non-increasing and the maximum non-decreasing.
pub proof fn lemma_session_bounds(s: Stats, samples: Seq<Option<i64>>, i: int, j: int)
    requires
        s.ordered(),
        0 <= i <= j <= samples.len(),
    ensures
        after_all(s, samples.take(i)).ordered(),
        after_all(s, samples.take(j)).ordered(),
        after_all(s, samples.take(j)).min <= after_all(s, samples.take(i)).min,
        after_all(s, samples.take(j)).max >= after_all(s, samples.take(i)).max,
{
    let mid = after_all(s, samples.take(i));
    let rest = samples.subrange(i, j);
    lemma_stats_monotone(s, samples.take(i));
    lemma_stats_monotone(mid, rest);
    lemma_after_all_split(s, samples.take(i), rest);
    assert(samples.take(i) + rest =~= samples.take(j));
}

/// Per-source state: the adapter, its running statistics, and its fault latch.
pub struct Source<I> {
    input: I,
    cur: i64,
    min: i64,
    max: i64,
    fuse: Fuse,
}

impl<I: Input> Source<I> {
    /// The record's statistics.
    pub closed spec fn stats(&self) -> Stats {
        Stats {
            cur: self.cur as int,
            min: self.min as int,
            max: self.max as int,
            faulted: self.fuse.is_blown(),
        }
    }

    /// Well-formed: the statistics are ordered.
    pub open spec fn wf(&self) -> bool {
        self.stats().ordered()
    }

    /// The adapter the record wraps.
    pub closed spec fn adapter(&self) -> I {
        self.input
    }

    /// A record with the zero sentinel and an intact latch.
    pub fn new(input: I) -> (r: Source<I>)
        ensures
            r.stats() == Stats::fresh(),
            r.adapter() == input,
            r.wf(),
    {
        Source { input, cur: 0, min: 0, max: 0, fuse: Fuse::new() }
    }

    /// Folds one read outcome into the statistics.
    pub fn apply(&mut self, sample: Option<i64>)
        ensures
            final(self).stats() == old(self).stats().after(sample),
            old(self).wf() ==> final(self).wf(),
            final(self).adapter() == old(self).adapter(),
    {
        match sample {
            Some(v) => {
                self.cur = v;
                if v < self.min {
                    self.min = v;
                }
                if v > self.max {
                    self.max = v;
                }
            },
            None => {
                self.fuse.blow();
            },
        }
    }

    /// One tick for this record: a record whose latch is tripped is left
    /// exactly as it is, and its adapter is not read; otherwise the adapter is
    /// read once and the outcome folded in.
    pub fn update(&mut self)
        ensures
            old(self).stats().faulted ==> *final(self) == *old(self),
            !old(self).stats().faulted ==> exists|s: Option<i64>|
                final(self).stats() == #[trigger] old(self).stats().after(s),
            old(self).wf() ==> final(self).wf(),
    {
        if self.fuse.blown() {
            return;
        }
        let s = self.input.read();
        self.apply(s);
    }

    /// The latest sample, in thousandths of the unit.
    pub fn cur(&self) -> (r: i64)
        ensures
            r as int == self.stats().cur,
    {
        self.cur
    }

    /// The smallest value seen, in thousandths of the unit.
    pub fn min(&self) -> (r: i64)
        ensures
            r as int == self.stats().min,
    {
        self.min
    }

    /// The largest value seen, in thousandths of the unit.
    pub fn max(&self) -> (r: i64)
        ensures
            r as int == self.stats().max,
    {
        self.max
    }

    /// Whether the record's latch has been tripped.
    pub fn faulted(&self) -> (r: bool)
        ensures
            r == self.stats().faulted,
    {
        self.fuse.blown()
    }

    /// The adapter the record wraps.
    pub fn input(&self) -> (r: &I)
        ensures
            *r == self.adapter(),
    {
        &self.input
    }
}

} // verus!
