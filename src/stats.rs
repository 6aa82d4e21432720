use vstd::prelude::*;

verus! {

/// A statistic that an aggregator can compute over a window.
#[derive(PartialEq, Eq, Structural, Debug, Clone, Copy)]
pub enum Stat {
    Avg,
    Low,
    High,
    Sum,
}

/// The metric key under which a statistic is emitted.
pub open spec fn stat_key(s: Stat) -> Seq<char> {
    match s {
        Stat::Avg => seq!['a', 'v', 'g'],
        Stat::Low => seq!['l', 'o', 'w'],
        Stat::High => seq!['h', 'i', 'g', 'h'],
        Stat::Sum => seq!['s', 'u', 'm'],
    }
}

pub open spec fn sum_of(s: Seq<i64>) -> int
    decreases s.len(),
{
    if s.len() == 0 {
        0
    } else {
        sum_of(s.drop_last()) + s.last()
    }
}

/// The smallest value; the first value seeds it.
pub open spec fn min_of(s: Seq<i64>) -> int
    decreases s.len(),
{
    if s.len() == 0 {
        0
    } else if s.len() == 1 {
        s[0] as int
    } else if s.last() < min_of(s.drop_last()) {
        s.last() as int
    } else {
        min_of(s.drop_last())
    }
}

/// The largest value; the first value seeds it.
pub open spec fn max_of(s: Seq<i64>) -> int
    decreases s.len(),
{
    if s.len() == 0 {
        0
    } else if s.len() == 1 {
        s[0] as int
    } else if s.last() > max_of(s.drop_last()) {
        s.last() as int
    } else {
        max_of(s.drop_last())
    }
}

/// Division that rounds toward zero.
pub open spec fn trunc_div(a: int, b: int) -> int {
    if a >= 0 {
        a / b
    } else {
        -((-a) / b)
    }
}

/// `x`, held to the range of `i64`.
pub open spec fn clamp(x: int) -> i64 {
    if x > i64::MAX {
        i64::MAX
    } else if x < i64::MIN {
        i64::MIN
    } else {
        x as i64
    }
}

/// The statistic over a window of values.
pub open spec fn stat_value(st: Stat, w: Seq<i64>) -> i64 {
    match st {
        Stat::Avg => clamp(trunc_div(sum_of(w), w.len() as int)),
        Stat::Low => clamp(min_of(w)),
        Stat::High => clamp(max_of(w)),
        Stat::Sum => clamp(sum_of(w)),
    }
}

/// The metric values that a flush emits: one per requested statistic, a
/// later request of the same statistic replacing an earlier one.
pub open spec fn summary_values(stats: Seq<Stat>, w: Seq<i64>) -> Map<Seq<char>, i64>
    decreases stats.len(),
{
    if stats.len() == 0 {
        Map::empty()
    } else {
        summary_values(stats.drop_last(), w).insert(
            stat_key(stats.last()),
            stat_value(stats.last(), w),
        )
    }
}

pub proof fn lemma_sum_bound(s: Seq<i64>)
    ensures
        -(s.len() * 0x8000_0000_0000_0000) <= sum_of(s) <= s.len() * 0x8000_0000_0000_0000,
    decreases s.len(),
{
    if s.len() > 0 {
        lemma_sum_bound(s.drop_last());
    }
}

/// The running statistics of a window of values.
pub struct Running {
    pub count: u64,
    pub sum: i128,
    pub low: i64,
    pub high: i64,
    pub seen: Ghost<Seq<i64>>,
}

impl Running {
    pub open spec fn wf(&self) -> bool {
        &&& self.count == self.seen@.len()
        &&& self.count >= 1
        &&& self.sum == sum_of(self.seen@)
        &&& self.low == min_of(self.seen@)
        &&& self.high == max_of(self.seen@)
    }

    /// A window that holds the one value `v`.
    pub fn first(v: i64) -> (r: Running)
        ensures
            r.wf(),
            r.seen@ == seq![v],
    {
        let ghost seen = seq![v];
        let r = Running { count: 1, sum: v as i128, low: v, high: v, seen: Ghost(seen) };
        assert(seen.drop_last() =~= Seq::<i64>::empty());
        assert(sum_of(seen.drop_last()) == 0);
        assert(sum_of(seen) == v);
        r
    }

    pub fn add(&mut self, v: i64)
        requires
            old(self).wf(),
            old(self).count < u64::MAX,
        ensures
            final(self).wf(),
            final(self).seen@ == old(self).seen@.push(v),
    {
        let ghost s = self.seen@;
        proof {
            lemma_sum_bound(s);
            assert(s.len() * 0x8000_0000_0000_0000 <= 0xffff_ffff_ffff_fffe * 0x8000_0000_0000_0000)
                by (nonlinear_arith)
                requires
                    s.len() <= 0xffff_ffff_ffff_fffe,
            ;
        }
        self.count = self.count + 1;
        self.sum = self.sum + v as i128;
        if v < self.low {
            self.low = v;
        }
        if v > self.high {
            self.high = v;
        }
        self.seen = Ghost(s.push(v));
        assert(self.seen@.drop_last() =~= s);
    }

    /// The value of a statistic over the window.
    pub fn value(&self, st: Stat) -> (r: i64)
        requires
            self.wf(),
        ensures
            r == stat_value(st, self.seen@),
    {
        proof {
            lemma_sum_bound(self.seen@);
            assert(self.seen@.len() * 0x8000_0000_0000_0000 <= 0xffff_ffff_ffff_ffff
                * 0x8000_0000_0000_0000) by (nonlinear_arith)
                requires
                    self.seen@.len() <= 0xffff_ffff_ffff_ffff,
            ;
        }
        let x: i128 = match st {
            Stat::Avg => {
                if self.sum >= 0 {
                    self.sum / (self.count as i128)
                } else {
                    -((-self.sum) / (self.count as i128))
                }
            },
            Stat::Low => self.low as i128,
            Stat::High => self.high as i128,
            Stat::Sum => self.sum,
        };
        if x > i64::MAX as i128 {
            i64::MAX
        } else if x < i64::MIN as i128 {
            i64::MIN
        } else {
            x as i64
        }
    }
}

} // verus!
