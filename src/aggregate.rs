use vstd::prelude::*;
use crate::config::ProcessConfig;
use crate::sample::CheckResult;
use crate::stats::Running;
use crate::window::{
    after_sample, is_flush_of, is_histogram_of, lemma_after_sample, lemma_window_index,
    names_distinct, stats_named, window_index, HistogramWindow, Summary, Window, WindowView,
};

verus! {

/// The value that an aggregator takes from a sample, if the sample carries it.
pub open spec fn value_taken(s: CheckResult, sm: Summary) -> Option<i64> {
    if s.values@.contains_key(sm.to_process@) {
        Some(s.values@[sm.to_process@])
    } else {
        None
    }
}

/// A count-triggered window takes in a value: the windows afterwards, and the
/// window flushed if this value brought it to `interval` values.
pub open spec fn count_step(
    ws: Seq<WindowView>,
    interval: u64,
    name: Seq<char>,
    labels: Map<Seq<char>, Seq<char>>,
    processes: Seq<u16>,
    v: i64,
) -> (Seq<WindowView>, Option<WindowView>) {
    let t = after_sample(ws, name, labels, processes, v);
    let i = window_index(t, name)->0;
    if t[i].seen.len() >= interval {
        (t.remove(i), Some(t[i]))
    } else {
        (t, None)
    }
}

/// The number of values in the window open for `name`; none open counts as 0.
pub open spec fn window_len(ws: Seq<WindowView>, name: Seq<char>) -> nat {
    match window_index(ws, name) {
        Some(i) => ws[i].seen.len(),
        None => 0,
    }
}

/// A count-triggered aggregator flushes a name's window exactly when the
/// sample that makes it `interval` samples long arrives, emitting all of those
/// samples' values, and no window is open for that name right after.
pub proof fn lemma_count_flush(
    ws: Seq<WindowView>,
    interval: u64,
    name: Seq<char>,
    labels: Map<Seq<char>, Seq<char>>,
    processes: Seq<u16>,
    v: i64,
)
    requires
        names_distinct(ws),
    ensures
        count_step(ws, interval, name, labels, processes, v).1 is Some <==> window_len(ws, name)
            + 1 >= interval,
        count_step(ws, interval, name, labels, processes, v).1 matches Some(w) ==> w.seen.len()
            == window_len(ws, name) + 1 && window_index(
            count_step(ws, interval, name, labels, processes, v).0,
            name,
        ) is None,
        count_step(ws, interval, name, labels, processes, v).1 is None ==> window_len(
            count_step(ws, interval, name, labels, processes, v).0,
            name,
        ) == window_len(ws, name) + 1,
{
    lemma_after_sample(ws, name, labels, processes, v);
    let t = after_sample(ws, name, labels, processes, v);
    let i = window_index(t, name)->0;
    if t[i].seen.len() >= interval {
        let u = t.remove(i);
        if window_index(u, name) is Some {
            let j = choose|j: int| 0 <= j < u.len() && u[j].name == name;
            if j < i {
                assert(t[j].name == t[i].name);
            } else {
                assert(t[j + 1].name == t[i].name);
            }
        }
    }
}

fn find_window(ws: &Vec<Window>, name: &String) -> (r: Option<usize>)
    ensures
        match r {
            Some(i) => i < ws@.len() && ws@[i as int].name@ == name@,
            None => forall|i: int| 0 <= i < ws@.len() ==> ws@[i].name@ != name@,
        },
{
    let mut i: usize = 0;
    while i < ws.len()
        invariant
            i <= ws@.len(),
            forall|j: int| 0 <= j < i ==> ws@[j].name@ != name@,
        decreases ws@.len() - i,
    {
        if ws[i].name == *name {
            return Some(i);
        }
        i = i + 1;
    }
    None
}

fn find_histogram_window(ws: &Vec<HistogramWindow>, name: &String) -> (r: Option<usize>)
    ensures
        match r {
            Some(i) => i < ws@.len() && ws@[i as int].name@ == name@,
            None => forall|i: int| 0 <= i < ws@.len() ==> ws@[i].name@ != name@,
        },
{
    let mut i: usize = 0;
    while i < ws.len()
        invariant
            i <= ws@.len(),
            forall|j: int| 0 <= j < i ==> ws@[j].name@ != name@,
        decreases ws@.len() - i,
    {
        if ws[i].name == *name {
            return Some(i);
        }
        i = i + 1;
    }
    None
}

pub open spec fn views_of(ws: Seq<Window>) -> Seq<WindowView> {
    ws.map_values(|w: Window| w.view())
}

pub open spec fn histogram_views_of(ws: Seq<HistogramWindow>) -> Seq<WindowView> {
    ws.map_values(|w: HistogramWindow| w.view())
}

/// Takes the value `v` of a sample into the windows, in place.
fn take_in(ws: &mut Vec<Window>, name: String, labels: crate::keyed::LabelMap, processes: Vec<u16>, v: i64) -> (r: bool)
    requires
        forall|i: int| 0 <= i < old(ws)@.len() ==> (#[trigger] old(ws)@[i]).wf(),
        names_distinct(views_of(old(ws)@)),
        labels.wf(),
    ensures
        forall|i: int| 0 <= i < final(ws)@.len() ==> (#[trigger] final(ws)@[i]).wf(),
        names_distinct(views_of(final(ws)@)),
        r == (window_len(views_of(old(ws)@), name@) < u64::MAX),
        r ==> views_of(final(ws)@) == after_sample(
            views_of(old(ws)@),
            name@,
            labels@,
            processes@,
            v,
        ),
        !r ==> final(ws)@ == old(ws)@,
{
    let ghost vs = views_of(ws@);
    match find_window(ws, &name) {
        Some(i) => {
            proof {
                lemma_window_index(vs, i as int);
            }
            if ws[i].running.count == u64::MAX {
                return false;
            }
            let ghost before = ws@;
            let mut w = ws.remove(i);
            w.running.add(v);
            ws.insert(i, w);
            proof {
                assert(views_of(ws@) =~= vs.update(
                    i as int,
                    WindowView { seen: vs[i as int].seen.push(v), ..vs[i as int] },
                ));
                assert forall|j: int| 0 <= j < ws@.len() implies (#[trigger] ws@[j]).wf() by {
                    if j != i {
                        assert(ws@[j] == before[j]);
                    }
                }
                lemma_after_sample(vs, name@, labels@, processes@, v);
            }
            true
        },
        None => {
            proof {
                assert(window_index(vs, name@) is None);
            }
            let w = Window { name, labels, processes, running: Running::first(v) };
            ws.push(w);
            proof {
                assert(views_of(ws@) =~= vs.push(
                    WindowView { name: name@, labels: labels@, processes: processes@, seen: seq![v] },
                ));
                lemma_after_sample(vs, name@, labels@, processes@, v);
            }
            true
        },
    }
}

/// Flushes every window, in order, and leaves none open.
fn drain_windows(ws: &mut Vec<Window>, sm: &Summary) -> (r: Vec<CheckResult>)
    requires
        forall|i: int| 0 <= i < old(ws)@.len() ==> (#[trigger] old(ws)@[i]).wf(),
        sm.wf(),
    ensures
        final(ws)@.len() == 0,
        r@.len() == old(ws)@.len(),
        forall|i: int| 0 <= i < r@.len() ==> is_flush_of(#[trigger] r@[i], old(ws)@[i].view(), *sm),
{
    let ghost start = ws@;
    let mut out: Vec<CheckResult> = Vec::new();
    while ws.len() > 0
        invariant
            sm.wf(),
            out@.len() + ws@.len() == start.len(),
            ws@ == start.subrange(out@.len() as int, start.len() as int),
            forall|i: int| 0 <= i < start.len() ==> (#[trigger] start[i]).wf(),
            forall|i: int| 0 <= i < out@.len() ==> is_flush_of(#[trigger] out@[i], start[i].view(), *sm),
        decreases ws@.len(),
    {
        let w = ws.remove(0);
        assert(w == start[out@.len() as int]);
        out.push(sm.flush(w));
        assert(ws@ =~= start.subrange(out@.len() as int, start.len() as int));
    }
    out
}

/// The count-triggered aggregator: a name's window is flushed as soon as it
/// holds `interval` values.
pub struct StatsCount {
    summary: Summary,
    interval: u64,
    windows: Vec<Window>,
}

impl StatsCount {
    /// The open windows, in the order in which they were opened.
    pub closed spec fn model(&self) -> Seq<WindowView> {
        views_of(self.windows@)
    }

    pub closed spec fn settings(&self) -> Summary {
        self.summary
    }

    pub closed spec fn window_size(&self) -> u64 {
        self.interval
    }

    pub closed spec fn wf(&self) -> bool {
        &&& self.summary.wf()
        &&& forall|i: int| 0 <= i < self.windows@.len() ==> (#[trigger] self.windows@[i]).wf()
        &&& names_distinct(self.model())
        &&& forall|i: int| 0 <= i < self.model().len() ==> (#[trigger] self.model()[i]).seen.len() < self.interval
    }

    pub fn new(config: &ProcessConfig) -> (r: StatsCount)
        requires
            config.labels_to_add.wf(),
        ensures
            r.wf(),
            r.model() == Seq::<WindowView>::empty(),
            r.window_size() == config.interval,
            r.settings().id == config.id,
            r.settings().keep_name == config.keep_name,
            r.settings().stats@ == stats_named(config.values@),
            r.settings().to_process@ == config.match_value@,
            r.settings().labels_to_add@ == config.labels_to_add@,
    {
        let r = StatsCount {
            summary: Summary::from_config(config),
            interval: config.interval,
            windows: Vec::new(),
        };
        assert(r.model() =~= Seq::<WindowView>::empty());
        r
    }

    /// Takes in a sample; returns the summary of its name's window if the
    /// sample completed it. A sample without the aggregated metric is ignored.
    pub fn process_probe(&mut self, probe: CheckResult) -> (r: Option<CheckResult>)
        requires
            old(self).wf(),
            probe.wf(),
        ensures
            final(self).wf(),
            final(self).settings() == old(self).settings(),
            final(self).window_size() == old(self).window_size(),
            match value_taken(probe, old(self).settings()) {
                None => r is None && final(self).model() == old(self).model(),
                Some(v) => {
                    let step = count_step(
                        old(self).model(),
                        old(self).window_size(),
                        probe.name@,
                        probe.labels@,
                        probe.processes@,
                        v,
                    );
                    &&& final(self).model() == step.0
                    &&& r is Some == step.1 is Some
                    &&& r matches Some(s) ==> is_flush_of(s, step.1->0, old(self).settings())
                },
            },
    {
        let v = match probe.values.get(&self.summary.to_process) {
            Some(v) => v,
            None => {
                return None;
            },
        };
        let ghost vs = self.model();
        let ghost pname = probe.name@;
        let ghost plabels = probe.labels@;
        let ghost pprocesses = probe.processes@;
        proof {
            lemma_after_sample(vs, pname, plabels, pprocesses, v);
            if let Some(i) = window_index(vs, pname) {
                assert(vs[i].seen.len() < self.interval);
            }
        }
        let CheckResult { name, values: _, labels, processes } = probe;
        let key = name.clone();
        let taken = take_in(&mut self.windows, name, labels, processes, v);
        assert(taken);
        let ghost t = self.model();
        let i = match find_window(&self.windows, &key) {
            Some(i) => i,
            None => {
                assert(t[window_index(t, pname)->0].name == pname);
                return None;
            },
        };
        proof {
            lemma_window_index(t, i as int);
        }
        if self.windows[i].running.count >= self.interval {
            let ghost before = self.windows@;
            let w = self.windows.remove(i);
            proof {
                assert(self.model() =~= t.remove(i as int));
                assert forall|j: int| 0 <= j < self.windows@.len() implies (#[trigger] self.windows@[j]).wf() by {
                    if j < i {
                        assert(self.windows@[j] == before[j]);
                    } else {
                        assert(self.windows@[j] == before[j + 1]);
                    }
                }
                assert forall|a: int, b: int| 0 <= a < b < self.model().len() implies self.model()[a].name != self.model()[b].name by {
                    let a2 = if a < i { a } else { a + 1 };
                    let b2 = if b < i { b } else { b + 1 };
                    assert(self.model()[a] == t[a2]);
                    assert(self.model()[b] == t[b2]);
                }
                assert forall|j: int| 0 <= j < self.model().len() implies (#[trigger] self.model()[j]).seen.len() < self.interval by {
                    let j2 = if j < i { j } else { j + 1 };
                    assert(self.model()[j] == t[j2]);
                    if j2 != i {
                        if let Some(k) = window_index(vs, pname) {
                            if j2 != k {
                                assert(t[j2] == vs[j2]);
                            }
                        } else {
                            assert(t[j2] == vs[j2]);
                        }
                    }
                }
            }
            Some(self.summary.flush(w))
        } else {
            proof {
                assert forall|j: int| 0 <= j < self.model().len() implies (#[trigger] self.model()[j]).seen.len() < self.interval by {
                    if j != i {
                        if let Some(k) = window_index(vs, pname) {
                            if j != k {
                                assert(t[j] == vs[j]);
                            }
                        } else {
                            if j < vs.len() {
                                assert(t[j] == vs[j]);
                            }
                        }
                    }
                }
            }
            None
        }
    }
}

/// The time-triggered aggregator: every window is flushed at once when the
/// timer fires.
pub struct StatsTime {
    summary: Summary,
    interval: u64,
    windows: Vec<Window>,
}

impl StatsTime {
    /// The open windows, in the order in which they were opened.
    pub closed spec fn model(&self) -> Seq<WindowView> {
        views_of(self.windows@)
    }

    pub closed spec fn settings(&self) -> Summary {
        self.summary
    }

    /// Seconds between two flushes.
    pub closed spec fn period(&self) -> u64 {
        self.interval
    }

    pub closed spec fn wf(&self) -> bool {
        &&& self.summary.wf()
        &&& forall|i: int| 0 <= i < self.windows@.len() ==> (#[trigger] self.windows@[i]).wf()
        &&& names_distinct(self.model())
    }

    pub fn new(config: &ProcessConfig) -> (r: StatsTime)
        requires
            config.labels_to_add.wf(),
        ensures
            r.wf(),
            r.model() == Seq::<WindowView>::empty(),
            r.period() == config.interval,
            r.settings().id == config.id,
            r.settings().keep_name == config.keep_name,
            r.settings().stats@ == stats_named(config.values@),
            r.settings().to_process@ == config.match_value@,
            r.settings().labels_to_add@ == config.labels_to_add@,
    {
        let r = StatsTime {
            summary: Summary::from_config(config),
            interval: config.interval,
            windows: Vec::new(),
        };
        assert(r.model() =~= Seq::<WindowView>::empty());
        r
    }

    /// Seconds between two flushes.
    pub fn interval(&self) -> (r: u64)
        ensures
            r == self.period(),
    {
        self.interval
    }

    /// Takes in a sample; returns whether it was taken. A sample without the
    /// aggregated metric is ignored, and so is one whose window already holds
    /// `u64::MAX` values.
    pub fn process_probe(&mut self, probe: CheckResult) -> (r: bool)
        requires
            old(self).wf(),
            probe.wf(),
        ensures
            final(self).wf(),
            final(self).settings() == old(self).settings(),
            final(self).period() == old(self).period(),
            match value_taken(probe, old(self).settings()) {
                None => !r && final(self).model() == old(self).model(),
                Some(v) => {
                    &&& r == (window_len(old(self).model(), probe.name@) < u64::MAX)
                    &&& r ==> final(self).model() == after_sample(
                        old(self).model(),
                        probe.name@,
                        probe.labels@,
                        probe.processes@,
                        v,
                    )
                    &&& !r ==> final(self).model() == old(self).model()
                },
            },
    {
        let v = match probe.values.get(&self.summary.to_process) {
            Some(v) => v,
            None => {
                return false;
            },
        };
        let CheckResult { name, values: _, labels, processes } = probe;
        take_in(&mut self.windows, name, labels, processes, v)
    }

    /// Flushes every window, in the order in which they were opened, and
    /// starts afresh.
    pub fn drain(&mut self) -> (r: Vec<CheckResult>)
        requires
            old(self).wf(),
        ensures
            final(self).wf(),
            final(self).settings() == old(self).settings(),
            final(self).period() == old(self).period(),
            final(self).model() == Seq::<WindowView>::empty(),
            r@.len() == old(self).model().len(),
            forall|i: int|
                0 <= i < r@.len() ==> is_flush_of(
                    #[trigger] r@[i],
                    old(self).model()[i],
                    old(self).settings(),
                ),
    {
        let r = drain_windows(&mut self.windows, &self.summary);
        assert(self.model() =~= Seq::<WindowView>::empty());
        r
    }
}

/// The histogram aggregator: keeps every value of a window in arrival order,
/// and emits them all when the timer fires.
pub struct Histogram {
    summary: Summary,
    interval: u64,
    windows: Vec<HistogramWindow>,
}

impl Histogram {
    /// The open windows, in the order in which they were opened.
    pub closed spec fn model(&self) -> Seq<WindowView> {
        histogram_views_of(self.windows@)
    }

    pub closed spec fn settings(&self) -> Summary {
        self.summary
    }

    /// Seconds between two flushes.
    pub closed spec fn period(&self) -> u64 {
        self.interval
    }

    pub closed spec fn wf(&self) -> bool {
        &&& self.summary.wf()
        &&& forall|i: int| 0 <= i < self.windows@.len() ==> (#[trigger] self.windows@[i]).wf()
        &&& names_distinct(self.model())
    }

    pub fn new(config: &ProcessConfig) -> (r: Histogram)
        requires
            config.labels_to_add.wf(),
        ensures
            r.wf(),
            r.model() == Seq::<WindowView>::empty(),
            r.period() == config.interval,
            r.settings().id == config.id,
            r.settings().keep_name == config.keep_name,
            r.settings().to_process@ == config.match_value@,
            r.settings().labels_to_add@ == config.labels_to_add@,
    {
        let r = Histogram {
            summary: Summary::from_config(config),
            interval: config.interval,
            windows: Vec::new(),
        };
        assert(r.model() =~= Seq::<WindowView>::empty());
        r
    }

    /// Seconds between two flushes.
    pub fn interval(&self) -> (r: u64)
        ensures
            r == self.period(),
    {
        self.interval
    }

    /// Takes in a sample; returns whether it was taken. A sample without the
    /// aggregated metric is ignored.
    pub fn process_probe(&mut self, probe: CheckResult) -> (r: bool)
        requires
            old(self).wf(),
            probe.wf(),
        ensures
            final(self).wf(),
            final(self).settings() == old(self).settings(),
            final(self).period() == old(self).period(),
            r == value_taken(probe, old(self).settings()) is Some,
            match value_taken(probe, old(self).settings()) {
                None => final(self).model() == old(self).model(),
                Some(v) => final(self).model() == after_sample(
                    old(self).model(),
                    probe.name@,
                    probe.labels@,
                    probe.processes@,
                    v,
                ),
            },
    {
        let v = match probe.values.get(&self.summary.to_process) {
            Some(v) => v,
            None => {
                return false;
            },
        };
        let CheckResult { name, values: _, labels, processes } = probe;
        let ghost vs = self.model();
        proof {
            lemma_after_sample(vs, name@, labels@, processes@, v);
        }
        match find_histogram_window(&self.windows, &name) {
            Some(i) => {
                proof {
                    lemma_window_index(vs, i as int);
                }
                let ghost before = self.windows@;
                let mut w = self.windows.remove(i);
                w.seen.push(v);
                self.windows.insert(i, w);
                proof {
                    assert(self.model() =~= vs.update(
                        i as int,
                        WindowView { seen: vs[i as int].seen.push(v), ..vs[i as int] },
                    ));
                    assert forall|j: int| 0 <= j < self.windows@.len() implies (#[trigger] self.windows@[j]).wf() by {
                        if j != i {
                            assert(self.windows@[j] == before[j]);
                        }
                    }
                }
            },
            None => {
                proof {
                    assert(window_index(vs, name@) is None);
                }
                let ghost gname = name@;
                let ghost glabels = labels@;
                let ghost gprocesses = processes@;
                let mut seen: Vec<i64> = Vec::new();
                seen.push(v);
                self.windows.push(HistogramWindow { name, labels, processes, seen });
                proof {
                    assert(self.model() =~= vs.push(
                        WindowView { name: gname, labels: glabels, processes: gprocesses, seen: seq![v] },
                    ));
                }
            },
        }
        true
    }

    /// Emits every window, in the order in which they were opened, and starts
    /// afresh.
    pub fn drain(&mut self) -> (r: Vec<CheckResult>)
        requires
            old(self).wf(),
        ensures
            final(self).wf(),
            final(self).settings() == old(self).settings(),
            final(self).period() == old(self).period(),
            final(self).model() == Seq::<WindowView>::empty(),
            r@.len() == old(self).model().len(),
            forall|i: int|
                0 <= i < r@.len() ==> is_histogram_of(
                    #[trigger] r@[i],
                    old(self).model()[i],
                    old(self).settings(),
                ),
    {
        let ghost start = self.windows@;
        let mut out: Vec<CheckResult> = Vec::new();
        while self.windows.len() > 0
            invariant
                self.summary.wf(),
                self.summary == old(self).summary,
                self.interval == old(self).interval,
                out@.len() + self.windows@.len() == start.len(),
                self.windows@ == start.subrange(out@.len() as int, start.len() as int),
                forall|i: int| 0 <= i < start.len() ==> (#[trigger] start[i]).wf(),
                forall|i: int|
                    0 <= i < out@.len() ==> is_histogram_of(
                        #[trigger] out@[i],
                        start[i].view(),
                        self.summary,
                    ),
            decreases self.windows@.len(),
        {
            let w = self.windows.remove(0);
            assert(w == start[out@.len() as int]);
            out.push(self.summary.flush_histogram(w));
            assert(self.windows@ =~= start.subrange(out@.len() as int, start.len() as int));
        }
        assert(self.model() =~= Seq::<WindowView>::empty());
        out
    }
}

} // verus!
