use vstd::prelude::*;
use vstd::seq_lib::{lemma_multiset_commutative, to_multiset_build, to_multiset_remove};

verus! {

/// What a reply carries that ties it to the probe it answers.
#[derive(PartialEq, Eq, Structural, Debug, Clone, Copy)]
pub enum CorrelationKey {
    /// An ICMP echo: identifier and sequence number.
    Echo { identifier: u16, sequence: u16 },
    /// A TCP SYN: the acknowledgement number that its answer carries.
    Ack(u32),
}

/// A probe in flight.
#[derive(PartialEq, Eq, Structural, Debug, Clone, Copy)]
pub struct PendingProbe {
    pub key: CorrelationKey,
    /// When it was sent, in microseconds of a monotonic clock.
    pub sent_at: u64,
    /// Protocol-specific: the payload size of an MTU probe.
    pub extra: u64,
}

/// No reply came within `timeout` microseconds.
pub open spec fn expired(p: PendingProbe, now: u64, timeout: u64) -> bool {
    now > p.sent_at + timeout
}

/// The probes that a sweep at `now` declares lost, in order.
pub open spec fn expired_in(t: Seq<PendingProbe>, now: u64, timeout: u64) -> Seq<PendingProbe> {
    t.filter(|p: PendingProbe| expired(p, now, timeout))
}

/// The probes that a sweep at `now` leaves in flight, in order.
pub open spec fn live_in(t: Seq<PendingProbe>, now: u64, timeout: u64) -> Seq<PendingProbe> {
    t.filter(|p: PendingProbe| !expired(p, now, timeout))
}

/// The earliest probe in flight with correlation key `key`.
pub open spec fn first_with_key(t: Seq<PendingProbe>, key: CorrelationKey) -> Option<int> {
    if exists|i: int| 0 <= i < t.len() && t[i].key == key {
        Some(
            choose|i: int|
                0 <= i < t.len() && t[i].key == key && forall|j: int|
                    0 <= j < i ==> t[j].key != key,
        )
    } else {
        None
    }
}

proof fn lemma_first_with_key(t: Seq<PendingProbe>, key: CorrelationKey, i: int)
    requires
        0 <= i < t.len(),
        t[i].key == key,
        forall|j: int| 0 <= j < i ==> t[j].key != key,
    ensures
        first_with_key(t, key) == Some(i),
{
    assert(0 <= i < t.len() && t[i].key == key && forall|j: int| 0 <= j < i ==> t[j].key != key);
    let k = choose|k: int|
        0 <= k < t.len() && t[k].key == key && forall|j: int| 0 <= j < k ==> t[j].key != key;
    assert(k == i) by {
        if k < i {
            assert(t[k].key != key);
        }
        if k > i {
            assert(t[i].key != key);
        }
    }
}

/// A sweep splits the probes in flight: each one is either still in flight or
/// declared lost, never both and never neither.
pub proof fn lemma_sweep_partition(t: Seq<PendingProbe>, now: u64, timeout: u64)
    ensures
        t.to_multiset() == live_in(t, now, timeout).to_multiset().add(
            expired_in(t, now, timeout).to_multiset(),
        ),
    decreases t.len(),
{
    broadcast use vstd::multiset::group_multiset_axioms;

    let pe = |p: PendingProbe| expired(p, now, timeout);
    let pl = |p: PendingProbe| !expired(p, now, timeout);
    if t.len() == 0 {
        reveal(Seq::filter);
        assert(t.to_multiset() =~= vstd::multiset::Multiset::empty()) by {
            t.to_multiset_ensures();
        }
        assert(live_in(t, now, timeout) =~= t);
        assert(expired_in(t, now, timeout) =~= t);
        assert(t.to_multiset().add(t.to_multiset()) =~= t.to_multiset());
    } else {
        let s = t.drop_last();
        let x = t.last();
        assert(t =~= s.push(x));
        lemma_sweep_partition(s, now, timeout);
        s.lemma_filter_push(x, pe);
        s.lemma_filter_push(x, pl);
        to_multiset_build(s, x);
        if expired(x, now, timeout) {
            to_multiset_build(s.filter(pe), x);
        } else {
            to_multiset_build(s.filter(pl), x);
        }
        assert(t.to_multiset() =~= live_in(t, now, timeout).to_multiset().add(
            expired_in(t, now, timeout).to_multiset(),
        ));
    }
}

/// Each probe sent ends in exactly one outcome. A reply takes exactly one
/// probe out of flight and hands it back; a sweep hands back exactly the
/// probes older than the timeout and keeps the others, so that none older than
/// the timeout is left in flight after it. Either way every probe is
/// accounted for once: still in flight, or handed back once.
pub proof fn lemma_single_outcome(
    t: Seq<PendingProbe>,
    key: CorrelationKey,
    now: u64,
    timeout: u64,
)
    ensures
        first_with_key(t, key) matches Some(i) ==> t.to_multiset() == t.remove(
            i,
        ).to_multiset().insert(t[i]),
        t.to_multiset() == live_in(t, now, timeout).to_multiset().add(
            expired_in(t, now, timeout).to_multiset(),
        ),
        forall|p: PendingProbe| #[trigger]
            live_in(t, now, timeout).contains(p) ==> !expired(p, now, timeout),
        forall|p: PendingProbe| #[trigger]
            expired_in(t, now, timeout).contains(p) ==> expired(p, now, timeout),
{
    broadcast use vstd::multiset::group_multiset_axioms;

    if let Some(i) = first_with_key(t, key) {
        lemma_least_with_key(t, key);
        to_multiset_remove(t, i);
        t.remove(i).to_multiset_ensures();
        t.to_multiset_ensures();
        assert(t.to_multiset() =~= t.remove(i).to_multiset().insert(t[i]));
    }
    lemma_sweep_partition(t, now, timeout);
    let pe = |p: PendingProbe| expired(p, now, timeout);
    let pl = |p: PendingProbe| !expired(p, now, timeout);
    assert forall|p: PendingProbe| #[trigger]
        live_in(t, now, timeout).contains(p) implies !expired(p, now, timeout) by {
        broadcast use vstd::seq_lib::group_filter_ensures;

        let k = choose|k: int| 0 <= k < t.filter(pl).len() && t.filter(pl)[k] == p;
        assert(pl(t.filter(pl)[k]));
    }
    assert forall|p: PendingProbe| #[trigger]
        expired_in(t, now, timeout).contains(p) implies expired(p, now, timeout) by {
        broadcast use vstd::seq_lib::group_filter_ensures;

        let k = choose|k: int| 0 <= k < t.filter(pe).len() && t.filter(pe)[k] == p;
        assert(pe(t.filter(pe)[k]));
    }
}

/// Where some probe has key `key`, a first one has.
proof fn lemma_least_with_key(t: Seq<PendingProbe>, key: CorrelationKey)
    requires
        exists|i: int| 0 <= i < t.len() && t[i].key == key,
    ensures
        exists|k: int|
            0 <= k < t.len() && t[k].key == key && forall|j: int| 0 <= j < k ==> t[j].key != key,
    decreases t.len(),
{
    if t[0].key == key {
        assert(0 < t.len() && t[0].key == key && forall|j: int| 0 <= j < 0 ==> t[j].key != key);
    } else {
        let s = t.drop_first();
        let i = choose|i: int| 0 <= i < t.len() && t[i].key == key;
        assert(s[i - 1].key == key);
        lemma_least_with_key(s, key);
        let k = choose|k: int|
            0 <= k < s.len() && s[k].key == key && forall|j: int| 0 <= j < k ==> s[j].key != key;
        assert(forall|j: int| 0 <= j < k + 1 ==> t[j].key != key || j == k + 1) by {
            assert forall|j: int| 0 <= j < k + 1 implies t[j].key != key by {
                if j > 0 {
                    assert(t[j] == s[j - 1]);
                }
            }
        }
        assert(t[k + 1].key == key);
    }
}

/// The probes of one target that await a reply.
pub struct PendingTable {
    probes: Vec<PendingProbe>,
}

impl View for PendingTable {
    type V = Seq<PendingProbe>;

    closed spec fn view(&self) -> Seq<PendingProbe> {
        self.probes@
    }
}

impl PendingTable {
    pub fn new() -> (r: PendingTable)
        ensures
            r@ == Seq::<PendingProbe>::empty(),
    {
        PendingTable { probes: Vec::new() }
    }

    pub fn len(&self) -> (r: usize)
        ensures
            r == self@.len(),
    {
        self.probes.len()
    }

    /// Records a probe that has just been sent.
    pub fn add(&mut self, p: PendingProbe)
        ensures
            final(self)@ == old(self)@.push(p),
    {
        self.probes.push(p);
    }

    /// Takes the earliest probe with key `key` out of flight, if any.
    pub fn match_reply(&mut self, key: CorrelationKey) -> (r: Option<PendingProbe>)
        ensures
            match first_with_key(old(self)@, key) {
                Some(i) => r == Some(old(self)@[i]) && final(self)@ == old(self)@.remove(i),
                None => r is None && final(self)@ == old(self)@,
            },
    {
        let mut i: usize = 0;
        while i < self.probes.len()
            invariant
                self.probes@ == old(self).probes@,
                i <= self.probes@.len(),
                forall|j: int| 0 <= j < i ==> self.probes@[j].key != key,
            decreases self.probes@.len() - i,
        {
            if self.probes[i].key == key {
                proof {
                    lemma_first_with_key(self.probes@, key, i as int);
                }
                let p = self.probes.remove(i);
                return Some(p);
            }
            i = i + 1;
        }
        None
    }

    /// Takes every probe older than `timeout` microseconds at `now` out of
    /// flight, and returns them in order.
    pub fn sweep(&mut self, now: u64, timeout: u64) -> (r: Vec<PendingProbe>)
        ensures
            r@ == expired_in(old(self)@, now, timeout),
            final(self)@ == live_in(old(self)@, now, timeout),
    {
        let ghost t = self.probes@;
        let pe = Ghost(|p: PendingProbe| expired(p, now, timeout));
        let pl = Ghost(|p: PendingProbe| !expired(p, now, timeout));
        let mut kept: Vec<PendingProbe> = Vec::new();
        let mut lost: Vec<PendingProbe> = Vec::new();
        let mut i: usize = 0;
        proof {
            reveal(Seq::filter);
            assert(t.take(0) =~= Seq::<PendingProbe>::empty());
            assert(t.take(0).filter(pe@) =~= Seq::<PendingProbe>::empty());
            assert(t.take(0).filter(pl@) =~= Seq::<PendingProbe>::empty());
        }
        while i < self.probes.len()
            invariant
                self.probes@ == t,
                i <= t.len(),
                kept@ == t.take(i as int).filter(pl@),
                lost@ == t.take(i as int).filter(pe@),
                pe@ == (|p: PendingProbe| expired(p, now, timeout)),
                pl@ == (|p: PendingProbe| !expired(p, now, timeout)),
            decreases t.len() - i,
        {
            let p = self.probes[i];
            proof {
                assert(t.take(i + 1) =~= t.take(i as int).push(p));
                t.take(i as int).lemma_filter_push(p, pe@);
                t.take(i as int).lemma_filter_push(p, pl@);
            }
            if now > p.sent_at && now - p.sent_at > timeout {
                lost.push(p);
            } else {
                kept.push(p);
            }
            i = i + 1;
        }
        proof {
            assert(t.take(t.len() as int) =~= t);
        }
        self.probes = kept;
        lost
    }
}

} // verus!
