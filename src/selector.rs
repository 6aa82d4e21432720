use vstd::prelude::*;
use crate::config::{OutputConfig, ProcessConfig};
use crate::keyed::{has_key, keys_distinct, lemma_map_of_index, LabelMap};
use crate::sample::CheckResult;

verus! {

/// Whether `regex::Regex::new` accepts the pattern.
pub uninterp spec fn regex_valid(pattern: Seq<char>) -> bool;

/// Whether the compiled pattern matches somewhere in the text.
pub uninterp spec fn regex_match(pattern: Seq<char>, text: Seq<char>) -> bool;

/// Relies on `regex::Regex::new`, which accepts or refuses the pattern, and on
/// `regex::Regex::is_match`, which tells whether it matches somewhere in the text.
#[verifier::external_body]
fn pattern_matches(pattern: &String, text: &String) -> (r: Option<bool>)
    ensures
        r is Some == regex_valid(pattern@),
        r matches Some(b) ==> b == regex_match(pattern@, text@),
{
    match regex::Regex::new(pattern) {
        Ok(re) => Some(re.is_match(text)),
        Err(_) => None,
    }
}

/// Some pattern of the list is valid and matches `value`.
pub open spec fn patterns_accept(patterns: Seq<String>, value: Seq<char>) -> bool {
    exists|j: int|
        0 <= j < patterns.len() && regex_valid(#[trigger] patterns[j]@) && regex_match(
            patterns[j]@,
            value,
        )
}

/// The predicate lets the label `key` = `value` pass.
pub open spec fn label_accepted(
    predicate: Seq<(String, Vec<String>)>,
    key: Seq<char>,
    value: Seq<char>,
) -> bool {
    exists|i: int|
        0 <= i < predicate.len() && #[trigger] predicate[i].0@ == key && patterns_accept(
            predicate[i].1@,
            value,
        )
}

/// Every label of the sample passes the predicate, and every key that the
/// predicate names is set on the sample.
pub open spec fn labels_match(
    predicate: Seq<(String, Vec<String>)>,
    labels: Map<Seq<char>, Seq<char>>,
) -> bool {
    &&& forall|k: Seq<char>| #[trigger]
        labels.contains_key(k) ==> label_accepted(predicate, k, labels[k])
    &&& forall|i: int| 0 <= i < predicate.len() ==> labels.contains_key(#[trigger] predicate[i].0@)
}

/// The aggregator rule takes the sample.
pub open spec fn process_accepts(p: ProcessConfig, s: CheckResult) -> bool {
    &&& !s.processes@.contains(p.id)
    &&& labels_match(p.match_labels@, s.labels@)
    &&& s.values@.contains_key(p.match_value@)
}

/// The output rule takes the sample.
pub open spec fn output_accepts(o: OutputConfig, s: CheckResult) -> bool {
    labels_match(o.match_labels@, s.labels@)
}

/// Where a sample goes: to one aggregator, to one output, or nowhere.
#[derive(PartialEq, Eq, Structural, Debug, Clone, Copy)]
pub enum Route {
    Process(usize),
    Output(usize),
    Drop,
}

/// `r` is the first aggregator rule that takes the sample; failing that, the
/// first output rule that takes it; failing that, nothing.
pub open spec fn route_is(
    r: Route,
    s: CheckResult,
    ps: Seq<ProcessConfig>,
    os: Seq<OutputConfig>,
) -> bool {
    match r {
        Route::Process(i) => {
            &&& i < ps.len()
            &&& process_accepts(ps[i as int], s)
            &&& forall|j: int| 0 <= j < i ==> !process_accepts(#[trigger] ps[j], s)
        },
        Route::Output(i) => {
            &&& forall|j: int| 0 <= j < ps.len() ==> !process_accepts(#[trigger] ps[j], s)
            &&& i < os.len()
            &&& output_accepts(os[i as int], s)
            &&& forall|j: int| 0 <= j < i ==> !output_accepts(#[trigger] os[j], s)
        },
        Route::Drop => {
            &&& forall|j: int| 0 <= j < ps.len() ==> !process_accepts(#[trigger] ps[j], s)
            &&& forall|j: int| 0 <= j < os.len() ==> !output_accepts(#[trigger] os[j], s)
        },
    }
}

fn any_pattern_matches(patterns: &Vec<String>, value: &String) -> (r: bool)
    ensures
        r == patterns_accept(patterns@, value@),
{
    let mut j: usize = 0;
    while j < patterns.len()
        invariant
            j <= patterns@.len(),
            forall|k: int|
                0 <= k < j ==> !(regex_valid(#[trigger] patterns@[k]@) && regex_match(
                    patterns@[k]@,
                    value@,
                )),
        decreases patterns@.len() - j,
    {
        match pattern_matches(&patterns[j], value) {
            Some(true) => {
                return true;
            },
            _ => {},
        }
        j = j + 1;
    }
    false
}

fn label_passes(predicate: &Vec<(String, Vec<String>)>, key: &String, value: &String) -> (r: bool)
    ensures
        r == label_accepted(predicate@, key@, value@),
{
    let mut i: usize = 0;
    while i < predicate.len()
        invariant
            i <= predicate@.len(),
            forall|k: int|
                0 <= k < i ==> !(#[trigger] predicate@[k].0@ == key@ && patterns_accept(
                    predicate@[k].1@,
                    value@,
                )),
        decreases predicate@.len() - i,
    {
        if predicate[i].0 == *key {
            if any_pattern_matches(&predicate[i].1, value) {
                return true;
            }
        }
        i = i + 1;
    }
    false
}

/// Whether the labels meet the predicate.
pub fn labels_pass(predicate: &Vec<(String, Vec<String>)>, labels: &LabelMap) -> (r: bool)
    requires
        labels.wf(),
    ensures
        r == labels_match(predicate@, labels@),
{
    let n = labels.len();
    let mut i: usize = 0;
    while i < n
        invariant
            n == labels.pairs().len(),
            i <= n,
            labels.wf(),
            keys_distinct(labels.pairs()),
            forall|k: int|
                0 <= k < i ==> label_accepted(
                    predicate@,
                    #[trigger] labels.pairs()[k].0,
                    labels.pairs()[k].1,
                ),
        decreases n - i,
    {
        if !label_passes(predicate, labels.key_at(i), labels.value_at(i)) {
            proof {
                lemma_map_of_index(labels.pairs(), i as int);
            }
            return false;
        }
        i = i + 1;
    }
    let mut j: usize = 0;
    while j < predicate.len()
        invariant
            j <= predicate@.len(),
            labels.wf(),
            forall|k: int| 0 <= k < j ==> labels@.contains_key(#[trigger] predicate@[k].0@),
        decreases predicate@.len() - j,
    {
        if labels.get(&predicate[j].0).is_none() {
            return false;
        }
        j = j + 1;
    }
    proof {
        assert forall|k: Seq<char>| #[trigger]
            labels@.contains_key(k) implies label_accepted(predicate@, k, labels@[k]) by {
            assert(has_key(labels.pairs(), k));
            let i = choose|i: int| 0 <= i < labels.pairs().len() && labels.pairs()[i].0 == k;
            lemma_map_of_index(labels.pairs(), i);
        }
    }
    true
}

fn visited(processes: &Vec<u16>, id: u16) -> (r: bool)
    ensures
        r == processes@.contains(id),
{
    let mut i: usize = 0;
    while i < processes.len()
        invariant
            i <= processes@.len(),
            forall|k: int| 0 <= k < i ==> processes@[k] != id,
        decreases processes@.len() - i,
    {
        if processes[i] == id {
            return true;
        }
        i = i + 1;
    }
    false
}

/// Whether the aggregator rule takes the sample.
pub fn process_takes(p: &ProcessConfig, s: &CheckResult) -> (r: bool)
    requires
        s.wf(),
    ensures
        r == process_accepts(*p, *s),
{
    if visited(&s.processes, p.id) {
        return false;
    }
    if !labels_pass(&p.match_labels, &s.labels) {
        return false;
    }
    s.values.get(&p.match_value).is_some()
}

/// Whether the output rule takes the sample.
pub fn output_takes(o: &OutputConfig, s: &CheckResult) -> (r: bool)
    requires
        s.wf(),
    ensures
        r == output_accepts(*o, *s),
{
    labels_pass(&o.match_labels, &s.labels)
}

/// Decides where a sample goes: the first aggregator rule in order that takes
/// it, else the first output rule that takes it, else nowhere.
pub fn route_sample(s: &CheckResult, processes: &Vec<ProcessConfig>, outputs: &Vec<OutputConfig>) -> (r:
    Route)
    requires
        s.wf(),
    ensures
        route_is(r, *s, processes@, outputs@),
{
    let mut i: usize = 0;
    while i < processes.len()
        invariant
            i <= processes@.len(),
            s.wf(),
            forall|j: int| 0 <= j < i ==> !process_accepts(#[trigger] processes@[j], *s),
        decreases processes@.len() - i,
    {
        if process_takes(&processes[i], s) {
            return Route::Process(i);
        }
        i = i + 1;
    }
    let mut o: usize = 0;
    while o < outputs.len()
        invariant
            o <= outputs@.len(),
            s.wf(),
            forall|j: int| 0 <= j < processes@.len() ==> !process_accepts(#[trigger] processes@[j], *s),
            forall|j: int| 0 <= j < o ==> !output_accepts(#[trigger] outputs@[j], *s),
        decreases outputs@.len() - o,
    {
        if output_takes(&outputs[o], s) {
            return Route::Output(o);
        }
        o = o + 1;
    }
    Route::Drop
}

/// A sample never goes back to an aggregator that has already consumed it,
/// whatever its labels.
pub proof fn lemma_visited_rule_skipped(
    r: Route,
    s: CheckResult,
    ps: Seq<ProcessConfig>,
    os: Seq<OutputConfig>,
    i: usize,
)
    requires
        route_is(r, s, ps, os),
        i < ps.len(),
        s.processes@.contains(ps[i as int].id),
    ensures
        r != Route::Process(i),
{
}

/// Of two aggregator rules that both take a sample, only the earlier one
/// receives it: the sample goes to the first rule that takes it, and to no
/// other destination.
pub proof fn lemma_first_match_wins(
    r: Route,
    s: CheckResult,
    ps: Seq<ProcessConfig>,
    os: Seq<OutputConfig>,
    i: usize,
    j: usize,
)
    requires
        route_is(r, s, ps, os),
        i < j < ps.len(),
        process_accepts(ps[i as int], s),
        process_accepts(ps[j as int], s),
    ensures
        r is Process,
        r->Process_0 <= i,
        r != Route::Process(j),
        (forall|k: int| 0 <= k < i ==> !process_accepts(#[trigger] ps[k], s)) ==> r
            == Route::Process(i),
{
}

} // verus!
