use vstd::prelude::*;
use crate::keyed::LabelMap;
use crate::sample::{decimal, decimal_string, CheckResult};
use crate::keyed::ValueMap;
use crate::stats::{summary_values, Running, Stat};
use crate::config::ProcessConfig;

verus! {

/// What a window of an aggregator stands for: the name, labels and visit
/// history of its first sample, and the values taken in so far.
pub struct WindowView {
    pub name: Seq<char>,
    pub labels: Map<Seq<char>, Seq<char>>,
    pub processes: Seq<u16>,
    pub seen: Seq<i64>,
}

/// No two windows share a name.
pub open spec fn names_distinct(ws: Seq<WindowView>) -> bool {
    forall|i: int, j: int| 0 <= i < j < ws.len() ==> ws[i].name != ws[j].name
}

/// The window open for `name`, if there is one.
pub open spec fn window_index(ws: Seq<WindowView>, name: Seq<char>) -> Option<int> {
    if exists|i: int| 0 <= i < ws.len() && ws[i].name == name {
        Some(choose|i: int| 0 <= i < ws.len() && ws[i].name == name)
    } else {
        None
    }
}

pub proof fn lemma_window_index(ws: Seq<WindowView>, i: int)
    requires
        names_distinct(ws),
        0 <= i < ws.len(),
    ensures
        window_index(ws, ws[i].name) == Some(i),
{
    let j = choose|j: int| 0 <= j < ws.len() && ws[j].name == ws[i].name;
    assert(j == i);
}

/// The windows after a sample of `name` with value `v` is taken in: it joins
/// the window open for its name, or opens a new one at the end.
pub open spec fn after_sample(
    ws: Seq<WindowView>,
    name: Seq<char>,
    labels: Map<Seq<char>, Seq<char>>,
    processes: Seq<u16>,
    v: i64,
) -> Seq<WindowView> {
    match window_index(ws, name) {
        Some(i) => ws.update(i, WindowView { seen: ws[i].seen.push(v), ..ws[i] }),
        None => ws.push(WindowView { name, labels, processes, seen: seq![v] }),
    }
}

pub proof fn lemma_after_sample(
    ws: Seq<WindowView>,
    name: Seq<char>,
    labels: Map<Seq<char>, Seq<char>>,
    processes: Seq<u16>,
    v: i64,
)
    requires
        names_distinct(ws),
    ensures
        names_distinct(after_sample(ws, name, labels, processes, v)),
        window_index(after_sample(ws, name, labels, processes, v), name) is Some,
        after_sample(ws, name, labels, processes, v)[window_index(
            after_sample(ws, name, labels, processes, v),
            name,
        )->0].seen == match window_index(ws, name) {
            Some(i) => ws[i].seen.push(v),
            None => seq![v],
        },
{
    let t = after_sample(ws, name, labels, processes, v);
    match window_index(ws, name) {
        Some(i) => {
            assert(ws[i].name == name);
            lemma_window_index(t, i);
        },
        None => {
            assert forall|i: int, j: int| 0 <= i < j < t.len() implies t[i].name != t[j].name by {
                if j == ws.len() {
                    assert(ws[i].name != name);
                }
            }
            lemma_window_index(t, ws.len() as int);
        },
    }
}

/// The labels of a flushed sample: those of the window's first sample, the
/// aggregator's additions over them, and, if asked, the aggregated metric key
/// under `value`.
pub open spec fn summary_labels(
    labels: Map<Seq<char>, Seq<char>>,
    add: Map<Seq<char>, Seq<char>>,
    keep_name: bool,
    key: Seq<char>,
) -> Map<Seq<char>, Seq<char>> {
    if keep_name {
        labels.union_prefer_right(add).insert(seq!['v', 'a', 'l', 'u', 'e'], key)
    } else {
        labels.union_prefer_right(add)
    }
}

/// What an aggregator adds to a window when it flushes it.
pub struct Summary {
    /// The aggregator's own identifier, appended to every sample it emits.
    pub id: u16,
    pub keep_name: bool,
    pub stats: Vec<Stat>,
    /// The metric key that is aggregated.
    pub to_process: String,
    pub labels_to_add: LabelMap,
}

/// `r` is the sample that flushing window `w` emits, but for its values.
pub open spec fn is_flush_frame(r: CheckResult, w: WindowView, sm: Summary) -> bool {
    &&& r.wf()
    &&& r.name@ == w.name
    &&& r.labels@ == summary_labels(w.labels, sm.labels_to_add@, sm.keep_name, sm.to_process@)
    &&& r.processes@ == w.processes.push(sm.id)
}

/// `r` is the summary sample that flushing window `w` emits.
pub open spec fn is_flush_of(r: CheckResult, w: WindowView, sm: Summary) -> bool {
    &&& is_flush_frame(r, w, sm)
    &&& r.values@ == summary_values(sm.stats@, w.seen)
}

/// The metric values of a histogram: the values in arrival order, under the
/// keys `0`, `1`, ...
pub open spec fn histogram_values(seen: Seq<i64>) -> Map<Seq<char>, i64>
    decreases seen.len(),
{
    if seen.len() == 0 {
        Map::empty()
    } else {
        histogram_values(seen.drop_last()).insert(decimal((seen.len() - 1) as nat), seen.last())
    }
}

/// `r` is the sample that flushing histogram window `w` emits.
pub open spec fn is_histogram_of(r: CheckResult, w: WindowView, sm: Summary) -> bool {
    &&& is_flush_frame(r, w, sm)
    &&& r.values@ == histogram_values(w.seen)
}

/// The statistic that a configured name asks for.
pub open spec fn stat_named(s: Seq<char>) -> Option<Stat> {
    if s == seq!['a', 'v', 'g'] {
        Some(Stat::Avg)
    } else if s == seq!['l', 'o', 'w'] {
        Some(Stat::Low)
    } else if s == seq!['h', 'i', 'g', 'h'] {
        Some(Stat::High)
    } else if s == seq!['s', 'u', 'm'] {
        Some(Stat::Sum)
    } else {
        None
    }
}

/// The statistics that configured names ask for; other names are ignored.
pub open spec fn stats_named(names: Seq<String>) -> Seq<Stat>
    decreases names.len(),
{
    if names.len() == 0 {
        Seq::empty()
    } else {
        match stat_named(names.last()@) {
            Some(st) => stats_named(names.drop_last()).push(st),
            None => stats_named(names.drop_last()),
        }
    }
}

fn stat_of_name(s: &String) -> (r: Option<Stat>)
    ensures
        r == stat_named(s@),
{
    let avg = String::from_str("avg");
    let low = String::from_str("low");
    let high = String::from_str("high");
    let sum = String::from_str("sum");
    proof {
        reveal_strlit("avg");
        reveal_strlit("low");
        reveal_strlit("high");
        reveal_strlit("sum");
        assert(avg@ =~= seq!['a', 'v', 'g']);
        assert(low@ =~= seq!['l', 'o', 'w']);
        assert(high@ =~= seq!['h', 'i', 'g', 'h']);
        assert(sum@ =~= seq!['s', 'u', 'm']);
    }
    if *s == avg {
        Some(Stat::Avg)
    } else if *s == low {
        Some(Stat::Low)
    } else if *s == high {
        Some(Stat::High)
    } else if *s == sum {
        Some(Stat::Sum)
    } else {
        None
    }
}

fn stat_key_string(st: Stat) -> (r: String)
    ensures
        r@ == crate::stats::stat_key(st),
{
    proof {
        reveal_strlit("avg");
        reveal_strlit("low");
        reveal_strlit("high");
        reveal_strlit("sum");
    }
    let r = match st {
        Stat::Avg => String::from_str("avg"),
        Stat::Low => String::from_str("low"),
        Stat::High => String::from_str("high"),
        Stat::Sum => String::from_str("sum"),
    };
    assert(r@ =~= crate::stats::stat_key(st));
    r
}

impl Summary {
    pub open spec fn wf(&self) -> bool {
        self.labels_to_add.wf()
    }

    /// The flush settings of an aggregator rule.
    pub fn from_config(config: &ProcessConfig) -> (r: Summary)
        requires
            config.labels_to_add.wf(),
        ensures
            r.wf(),
            r.id == config.id,
            r.keep_name == config.keep_name,
            r.stats@ == stats_named(config.values@),
            r.to_process@ == config.match_value@,
            r.labels_to_add@ == config.labels_to_add@,
    {
        let mut stats: Vec<Stat> = Vec::new();
        let mut i: usize = 0;
        while i < config.values.len()
            invariant
                i <= config.values@.len(),
                stats@ == stats_named(config.values@.take(i as int)),
            decreases config.values@.len() - i,
        {
            proof {
                assert(config.values@.take(i + 1).drop_last() =~= config.values@.take(i as int));
            }
            match stat_of_name(&config.values[i]) {
                Some(st) => stats.push(st),
                None => {},
            }
            i = i + 1;
        }
        assert(config.values@.take(config.values@.len() as int) =~= config.values@);
        Summary {
            id: config.id,
            keep_name: config.keep_name,
            stats,
            to_process: config.match_value.clone(),
            labels_to_add: config.labels_to_add.duplicate(),
        }
    }

    /// The name, labels and visit history of a flushed sample.
    fn frame(&self, name: String, labels: LabelMap, processes: Vec<u16>) -> (r: CheckResult)
        requires
            self.wf(),
            labels.wf(),
        ensures
            r.wf(),
            r.values@ == Map::<Seq<char>, i64>::empty(),
            r.name@ == name@,
            r.labels@ == summary_labels(
                labels@,
                self.labels_to_add@,
                self.keep_name,
                self.to_process@,
            ),
            r.processes@ == processes@.push(self.id),
    {
        let mut labels = labels;
        labels.extend(&self.labels_to_add);
        if self.keep_name {
            let key = String::from_str("value");
            proof {
                reveal_strlit("value");
                assert(key@ =~= seq!['v', 'a', 'l', 'u', 'e']);
            }
            labels.insert(key, self.to_process.clone());
        }
        let mut processes = processes;
        processes.push(self.id);
        CheckResult { name, values: ValueMap::new(), labels, processes }
    }

    /// The summary sample of a window of statistics.
    pub fn flush(&self, w: Window) -> (r: CheckResult)
        requires
            self.wf(),
            w.wf(),
        ensures
            is_flush_of(r, w.view(), *self),
    {
        let Window { name, labels, processes, running } = w;
        let mut r = self.frame(name, labels, processes);
        let mut i: usize = 0;
        while i < self.stats.len()
            invariant
                i <= self.stats@.len(),
                running.wf(),
                running.seen@ == w.running.seen@,
                r.wf(),
                r.values@ == summary_values(self.stats@.take(i as int), running.seen@),
                is_flush_frame(r, w.view(), *self),
            decreases self.stats@.len() - i,
        {
            let st = self.stats[i];
            let v = running.value(st);
            r.values.insert(stat_key_string(st), v);
            proof {
                assert(self.stats@.take(i + 1).drop_last() =~= self.stats@.take(i as int));
            }
            i = i + 1;
        }
        assert(self.stats@.take(self.stats@.len() as int) =~= self.stats@);
        r
    }

    /// The sample of a histogram window.
    pub fn flush_histogram(&self, w: HistogramWindow) -> (r: CheckResult)
        requires
            self.wf(),
            w.wf(),
        ensures
            is_histogram_of(r, w.view(), *self),
    {
        let HistogramWindow { name, labels, processes, seen } = w;
        let mut r = self.frame(name, labels, processes);
        let mut i: usize = 0;
        while i < seen.len()
            invariant
                i <= seen@.len(),
                seen@ == w.seen@,
                r.wf(),
                r.values@ == histogram_values(seen@.take(i as int)),
                is_flush_frame(r, w.view(), *self),
            decreases seen@.len() - i,
        {
            r.values.insert(decimal_string(i as u64), seen[i]);
            proof {
                assert(seen@.take(i + 1).drop_last() =~= seen@.take(i as int));
            }
            i = i + 1;
        }
        assert(seen@.take(seen@.len() as int) =~= seen@);
        r
    }
}

/// A window of running statistics for one sample name.
pub struct Window {
    pub name: String,
    pub labels: LabelMap,
    pub processes: Vec<u16>,
    pub running: Running,
}

impl Window {
    pub open spec fn wf(&self) -> bool {
        self.labels.wf() && self.running.wf()
    }

    pub open spec fn view(&self) -> WindowView {
        WindowView {
            name: self.name@,
            labels: self.labels@,
            processes: self.processes@,
            seen: self.running.seen@,
        }
    }
}

/// A window that keeps every value for one sample name.
pub struct HistogramWindow {
    pub name: String,
    pub labels: LabelMap,
    pub processes: Vec<u16>,
    pub seen: Vec<i64>,
}

impl HistogramWindow {
    pub open spec fn wf(&self) -> bool {
        self.labels.wf()
    }

    pub open spec fn view(&self) -> WindowView {
        WindowView {
            name: self.name@,
            labels: self.labels@,
            processes: self.processes@,
            seen: self.seen@,
        }
    }
}

} // verus!
