use vstd::prelude::*;

verus! {

/// No two entries of `s` share a key.
pub open spec fn keys_distinct<K, V>(s: Seq<(K, V)>) -> bool {
    forall|i: int, j: int| 0 <= i < j < s.len() ==> s[i].0 != s[j].0
}

/// Some entry of `s` has key `k`.
pub open spec fn has_key<K, V>(s: Seq<(K, V)>, k: K) -> bool {
    exists|i: int| 0 <= i < s.len() && s[i].0 == k
}

/// The map that a sequence of entries with distinct keys stands for.
pub open spec fn map_of<K, V>(s: Seq<(K, V)>) -> Map<K, V> {
    Map::new(|k: K| has_key(s, k), |k: K| s[choose|i: int| 0 <= i < s.len() && s[i].0 == k].1)
}

pub proof fn lemma_map_of_index<K, V>(s: Seq<(K, V)>, i: int)
    requires
        keys_distinct(s),
        0 <= i < s.len(),
    ensures
        map_of(s).contains_key(s[i].0),
        map_of(s)[s[i].0] == s[i].1,
{
    let k = s[i].0;
    assert(has_key(s, k));
    let j = choose|j: int| 0 <= j < s.len() && s[j].0 == k;
    assert(j == i);
}

pub proof fn lemma_map_of_push<K, V>(s: Seq<(K, V)>, k: K, v: V)
    requires
        keys_distinct(s),
        !has_key(s, k),
    ensures
        keys_distinct(s.push((k, v))),
        map_of(s.push((k, v))) == map_of(s).insert(k, v),
{
    let t = s.push((k, v));
    assert forall|i: int, j: int| 0 <= i < j < t.len() implies t[i].0 != t[j].0 by {
        if j == s.len() {
            assert(s[i].0 != k);
        }
    }
    assert forall|kk: K| #[trigger] has_key(t, kk) == (has_key(s, kk) || kk == k) by {
        if has_key(s, kk) {
            let i = choose|i: int| 0 <= i < s.len() && s[i].0 == kk;
            assert(t[i].0 == kk);
        }
        if has_key(t, kk) && kk != k {
            let i = choose|i: int| 0 <= i < t.len() && t[i].0 == kk;
            assert(s[i].0 == kk);
        }
        if kk == k {
            assert(t[s.len() as int].0 == kk);
        }
    }
    assert forall|kk: K| #[trigger] map_of(t).contains_key(kk) implies map_of(t)[kk]
        == map_of(s).insert(k, v)[kk] by {
        let i = choose|i: int| 0 <= i < t.len() && t[i].0 == kk;
        lemma_map_of_index(t, i);
        if i < s.len() {
            lemma_map_of_index(s, i);
        }
    }
    assert(map_of(t) =~= map_of(s).insert(k, v));
}

pub proof fn lemma_map_of_update<K, V>(s: Seq<(K, V)>, i: int, v: V)
    requires
        keys_distinct(s),
        0 <= i < s.len(),
    ensures
        keys_distinct(s.update(i, (s[i].0, v))),
        map_of(s.update(i, (s[i].0, v))) == map_of(s).insert(s[i].0, v),
{
    let k = s[i].0;
    let t = s.update(i, (k, v));
    assert forall|kk: K| #[trigger] has_key(t, kk) == has_key(s, kk) by {
        if has_key(s, kk) {
            let j = choose|j: int| 0 <= j < s.len() && s[j].0 == kk;
            assert(t[j].0 == kk);
        }
        if has_key(t, kk) {
            let j = choose|j: int| 0 <= j < t.len() && t[j].0 == kk;
            assert(s[j].0 == kk);
        }
    }
    lemma_map_of_index(s, i);
    assert forall|kk: K| #[trigger] map_of(t).contains_key(kk) implies map_of(t)[kk]
        == map_of(s).insert(k, v)[kk] by {
        let j = choose|j: int| 0 <= j < t.len() && t[j].0 == kk;
        lemma_map_of_index(t, j);
        if j != i {
            lemma_map_of_index(s, j);
        }
    }
    assert(map_of(t) =~= map_of(s).insert(k, v));
}

/// String labels: at most one value for each key.
pub struct LabelMap {
    entries: Vec<(String, String)>,
}

impl LabelMap {
    /// The entries, in the order in which their keys were first set.
    pub closed spec fn pairs(&self) -> Seq<(Seq<char>, Seq<char>)> {
        self.entries@.map_values(|e: (String, String)| (e.0@, e.1@))
    }

    /// No key is set twice.
    pub closed spec fn wf(&self) -> bool {
        keys_distinct(self.pairs())
    }

    pub fn new() -> (r: LabelMap)
        ensures
            r.wf(),
            r.pairs() == Seq::<(Seq<char>, Seq<char>)>::empty(),
            r@ == Map::<Seq<char>, Seq<char>>::empty(),
    {
        let r = LabelMap { entries: Vec::new() };
        assert(r.pairs() =~= Seq::<(Seq<char>, Seq<char>)>::empty());
        assert(r@ =~= Map::<Seq<char>, Seq<char>>::empty());
        r
    }

    pub fn len(&self) -> (r: usize)
        ensures
            r == self.pairs().len(),
            self.wf() ==> keys_distinct(self.pairs()),
    {
        self.entries.len()
    }

    pub fn key_at(&self, i: usize) -> (r: &String)
        requires
            i < self.pairs().len(),
        ensures
            r@ == self.pairs()[i as int].0,
    {
        &self.entries[i].0
    }

    pub fn value_at(&self, i: usize) -> (r: &String)
        requires
            i < self.pairs().len(),
        ensures
            r@ == self.pairs()[i as int].1,
    {
        &self.entries[i].1
    }

    /// A copy with the same entries in the same order.
    pub fn duplicate(&self) -> (r: LabelMap)
        ensures
            r.pairs() == self.pairs(),
            r.wf() == self.wf(),
            r@ == self@,
    {
        let mut entries: Vec<(String, String)> = Vec::new();
        let mut i: usize = 0;
        while i < self.entries.len()
            invariant
                i <= self.entries@.len(),
                entries@.map_values(|e: (String, String)| (e.0@, e.1@)) =~= self.pairs().take(
                    i as int,
                ),
            decreases self.entries@.len() - i,
        {
            let k = self.entries[i].0.clone();
            let v = self.entries[i].1.clone();
            let ghost before = entries@;
            entries.push((k, v));
            proof {
                let f = |e: (String, String)| (e.0@, e.1@);
                assert(entries@.map_values(f) =~= before.map_values(f).push(
                    self.pairs()[i as int],
                ));
                assert(self.pairs().take(i + 1) =~= self.pairs().take(i as int).push(
                    self.pairs()[i as int],
                ));
            }
            i = i + 1;
        }
        let r = LabelMap { entries };
        assert(r.pairs() =~= self.pairs());
        r
    }

    /// Where `key` stands among the entries, if it is there.
    fn find(&self, key: &String) -> (r: Option<usize>)
        ensures
            match r {
                Some(i) => i < self.pairs().len() && self.pairs()[i as int].0 == key@,
                None => !has_key(self.pairs(), key@),
            },
    {
        let mut i: usize = 0;
        while i < self.entries.len()
            invariant
                i <= self.entries@.len(),
                forall|j: int| 0 <= j < i ==> self.pairs()[j].0 != key@,
            decreases self.entries@.len() - i,
        {
            if self.entries[i].0 == *key {
                return Some(i);
            }
            i = i + 1;
        }
        None
    }

    pub fn get(&self, key: &String) -> (r: Option<&String>)
        requires
            self.wf(),
        ensures
            r is Some == self@.contains_key(key@),
            r matches Some(v) ==> v@ == self@[key@],
    {
        match self.find(key) {
            Some(i) => {
                proof {
                    lemma_map_of_index(self.pairs(), i as int);
                }
                Some(&self.entries[i].1)
            },
            None => None,
        }
    }

    /// Sets `key` to `value`, replacing the value it had.
    pub fn insert(&mut self, key: String, value: String)
        requires
            old(self).wf(),
        ensures
            final(self).wf(),
            final(self)@ == old(self)@.insert(key@, value@),
    {
        match self.find(&key) {
            Some(i) => {
                proof {
                    lemma_map_of_update(self.pairs(), i as int, value@);
                }
                let ghost before = self.pairs();
                self.entries.set(i, (key, value));
                assert(self.pairs() =~= before.update(i as int, (before[i as int].0, value@)));
            },
            None => {
                let ghost before = self.pairs();
                let ghost kv = (key@, value@);
                proof {
                    lemma_map_of_push(before, key@, value@);
                }
                self.entries.push((key, value));
                assert(self.pairs() =~= before.push(kv));
            },
        }
    }

    /// Sets every label of `other` here, replacing the values already set.
    pub fn extend(&mut self, other: &LabelMap)
        requires
            old(self).wf(),
            other.wf(),
        ensures
            final(self).wf(),
            final(self)@ == old(self)@.union_prefer_right(other@),
    {
        let ghost start = self@;
        let mut i: usize = 0;
        while i < other.len()
            invariant
                i <= other.pairs().len(),
                keys_distinct(other.pairs()),
                self.wf(),
                self@ == start.union_prefer_right(map_of(other.pairs().take(i as int))),
            decreases other.pairs().len() - i,
        {
            let k = other.key_at(i).clone();
            let v = other.value_at(i).clone();
            self.insert(k, v);
            proof {
                let p = other.pairs();
                let ti = p.take(i as int);
                let tn = p.take(i + 1);
                assert(tn =~= ti.push(p[i as int]));
                assert(keys_distinct(ti));
                assert(!has_key(ti, p[i as int].0)) by {
                    if has_key(ti, p[i as int].0) {
                        let j = choose|j: int| 0 <= j < ti.len() && ti[j].0 == p[i as int].0;
                        assert(p[j].0 == p[i as int].0);
                    }
                }
                lemma_map_of_push(ti, p[i as int].0, p[i as int].1);
                assert(self@ =~= start.union_prefer_right(map_of(tn)));
            }
            i = i + 1;
        }
        proof {
            assert(other.pairs().take(other.pairs().len() as int) =~= other.pairs());
        }
    }
}

impl View for LabelMap {
    type V = Map<Seq<char>, Seq<char>>;

    open spec fn view(&self) -> Map<Seq<char>, Seq<char>> {
        map_of(self.pairs())
    }
}

/// Metric values by metric key, in millionths of a unit: at most one value for each key.
pub struct ValueMap {
    entries: Vec<(String, i64)>,
}

impl ValueMap {
    /// The entries, in the order in which their keys were first set.
    pub closed spec fn pairs(&self) -> Seq<(Seq<char>, i64)> {
        self.entries@.map_values(|e: (String, i64)| (e.0@, e.1))
    }

    /// No key is set twice.
    pub closed spec fn wf(&self) -> bool {
        keys_distinct(self.pairs())
    }

    pub fn new() -> (r: ValueMap)
        ensures
            r.wf(),
            r.pairs() == Seq::<(Seq<char>, i64)>::empty(),
            r@ == Map::<Seq<char>, i64>::empty(),
    {
        let r = ValueMap { entries: Vec::new() };
        assert(r.pairs() =~= Seq::<(Seq<char>, i64)>::empty());
        assert(r@ =~= Map::<Seq<char>, i64>::empty());
        r
    }

    pub fn len(&self) -> (r: usize)
        ensures
            r == self.pairs().len(),
            self.wf() ==> keys_distinct(self.pairs()),
    {
        self.entries.len()
    }

    pub fn key_at(&self, i: usize) -> (r: &String)
        requires
            i < self.pairs().len(),
        ensures
            r@ == self.pairs()[i as int].0,
    {
        &self.entries[i].0
    }

    pub fn value_at(&self, i: usize) -> (r: i64)
        requires
            i < self.pairs().len(),
        ensures
            r == self.pairs()[i as int].1,
    {
        self.entries[i].1
    }

    /// Where `key` stands among the entries, if it is there.
    fn find(&self, key: &String) -> (r: Option<usize>)
        ensures
            match r {
                Some(i) => i < self.pairs().len() && self.pairs()[i as int].0 == key@,
                None => !has_key(self.pairs(), key@),
            },
    {
        let mut i: usize = 0;
        while i < self.entries.len()
            invariant
                i <= self.entries@.len(),
                forall|j: int| 0 <= j < i ==> self.pairs()[j].0 != key@,
            decreases self.entries@.len() - i,
        {
            if self.entries[i].0 == *key {
                return Some(i);
            }
            i = i + 1;
        }
        None
    }

    pub fn get(&self, key: &String) -> (r: Option<i64>)
        requires
            self.wf(),
        ensures
            r is Some == self@.contains_key(key@),
            r matches Some(v) ==> v == self@[key@],
    {
        match self.find(key) {
            Some(i) => {
                proof {
                    lemma_map_of_index(self.pairs(), i as int);
                }
                Some(self.entries[i].1)
            },
            None => None,
        }
    }

    /// Sets `key` to `value`, replacing the value it had.
    pub fn insert(&mut self, key: String, value: i64)
        requires
            old(self).wf(),
        ensures
            final(self).wf(),
            final(self)@ == old(self)@.insert(key@, value),
    {
        match self.find(&key) {
            Some(i) => {
                proof {
                    lemma_map_of_update(self.pairs(), i as int, value);
                }
                let ghost before = self.pairs();
                self.entries.set(i, (key, value));
                assert(self.pairs() =~= before.update(i as int, (before[i as int].0, value)));
            },
            None => {
                let ghost before = self.pairs();
                let ghost kv = (key@, value);
                proof {
                    lemma_map_of_push(before, key@, value);
                }
                self.entries.push((key, value));
                assert(self.pairs() =~= before.push(kv));
            },
        }
    }
}

impl View for ValueMap {
    type V = Map<Seq<char>, i64>;

    open spec fn view(&self) -> Map<Seq<char>, i64> {
        map_of(self.pairs())
    }
}

} // verus!
