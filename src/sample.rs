use vstd::prelude::*;
use crate::keyed::{LabelMap, ValueMap};

verus! {

/// One whole unit of a metric value: values are counted in millionths.
pub const UNIT: i64 = 1_000_000;

/// One metric observation, measured or synthesised.
pub struct CheckResult {
    /// The probe target it comes from; samples are aggregated by this name.
    pub name: String,
    /// Metric key to value, in millionths of a unit.
    pub values: ValueMap,
    /// Descriptive tags.
    pub labels: LabelMap,
    /// The aggregators that have already consumed this sample.
    pub processes: Vec<u16>,
}

impl CheckResult {
    pub open spec fn wf(&self) -> bool {
        self.values.wf() && self.labels.wf()
    }

    /// A fresh sample of one metric, that no aggregator has seen.
    pub fn measurement(name: &String, labels: &LabelMap, key: String, value: i64) -> (r:
        CheckResult)
        requires
            labels.wf(),
        ensures
            r.wf(),
            r.name@ == name@,
            r.labels@ == labels@,
            r.values@ == map![key@ => value],
            r.processes@ == Seq::<u16>::empty(),
    {
        let mut values = ValueMap::new();
        values.insert(key, value);
        proof {
            assert(values@ =~= map![key@ => value]);
        }
        CheckResult {
            name: name.clone(),
            values,
            labels: labels.duplicate(),
            processes: Vec::new(),
        }
    }
}

/// The character of a decimal digit.
pub open spec fn digit_char(d: nat) -> char {
    if d == 0 { '0' }
    else if d == 1 { '1' }
    else if d == 2 { '2' }
    else if d == 3 { '3' }
    else if d == 4 { '4' }
    else if d == 5 { '5' }
    else if d == 6 { '6' }
    else if d == 7 { '7' }
    else if d == 8 { '8' }
    else { '9' }
}

/// The decimal digits of `n`, without leading zeros.
pub open spec fn decimal(n: nat) -> Seq<char>
    decreases n,
{
    if n < 10 {
        seq![digit_char(n)]
    } else {
        decimal(n / 10).push(digit_char(n % 10))
    }
}

fn digit_str(d: u64) -> (r: &'static str)
    requires
        d < 10,
    ensures
        r@ == seq![digit_char(d as nat)],
{
    proof {
        reveal_strlit("0");
        reveal_strlit("1");
        reveal_strlit("2");
        reveal_strlit("3");
        reveal_strlit("4");
        reveal_strlit("5");
        reveal_strlit("6");
        reveal_strlit("7");
        reveal_strlit("8");
        reveal_strlit("9");
    }
    let r = if d == 0 { "0" }
    else if d == 1 { "1" }
    else if d == 2 { "2" }
    else if d == 3 { "3" }
    else if d == 4 { "4" }
    else if d == 5 { "5" }
    else if d == 6 { "6" }
    else if d == 7 { "7" }
    else if d == 8 { "8" }
    else { "9" };
    assert(r@ =~= seq![digit_char(d as nat)]);
    r
}

/// Writes `n` in decimal.
pub fn decimal_string(n: u64) -> (r: String)
    ensures
        r@ == decimal(n as nat),
    decreases n,
{
    if n < 10 {
        String::from_str(digit_str(n))
    } else {
        let mut s = decimal_string(n / 10);
        s.append(digit_str(n % 10));
        s
    }
}

} // verus!
