use vstd::prelude::*;
use crate::config::ProbeConfig;
use crate::keyed::LabelMap;
use crate::packet::{
    build_echo_request, build_ipv4, build_syn, decode_echo_reply, decode_syn_answer,
    echo_reply_key, echo_request, ipv4_packet, syn_answer_key, syn_segment, MAX_PACKET,
};
use crate::pending::{
    expired_in, first_with_key, live_in, CorrelationKey, PendingProbe, PendingTable,
};
use crate::sample::{decimal, decimal_string, CheckResult, UNIT};
use crate::stats::clamp;

verus! {

/// Relies on `rand::random`: a value drawn from the thread-local generator.
/// Nothing is promised of it.
pub assume_specification<T>[ rand::random::<T> ]() -> (r: T)
    where
        rand::distributions::Standard: rand::distributions::Distribution<T>,
;

pub open spec fn rtt_key() -> Seq<char> {
    seq!['r', 't', 't']
}

pub open spec fn loss_key() -> Seq<char> {
    seq!['l', 'o', 's', 's']
}

pub open spec fn mtu_key() -> Seq<char> {
    seq!['m', 't', 'u']
}

/// The divisor of round-trip times: the configured precision, where 0 counts as 1.
pub open spec fn divisor(precision: u64) -> int {
    if precision == 0 {
        1
    } else {
        precision as int
    }
}

/// A round-trip time of `elapsed` microseconds as a metric value: divided by
/// the precision, in millionths, rounded down.
pub open spec fn rtt_value(elapsed: nat, precision: u64) -> i64 {
    clamp(elapsed * UNIT / divisor(precision))
}

/// The microseconds from `from` to `to`; none if `to` is earlier.
pub open spec fn elapsed(from: u64, to: u64) -> nat {
    if to > from {
        (to - from) as nat
    } else {
        0
    }
}

/// `r` is a fresh sample of one metric.
pub open spec fn is_sample(
    r: CheckResult,
    name: Seq<char>,
    labels: Map<Seq<char>, Seq<char>>,
    key: Seq<char>,
    value: i64,
) -> bool {
    &&& r.wf()
    &&& r.name@ == name
    &&& r.labels@ == labels
    &&& r.values@ == map![key => value]
    &&& r.processes@ == Seq::<u16>::empty()
}

/// `r` are the samples of a probe answered after `elapsed` microseconds: its
/// round-trip time, then a loss of 0.
pub open spec fn are_answer_samples(
    r: Seq<CheckResult>,
    name: Seq<char>,
    labels: Map<Seq<char>, Seq<char>>,
    elapsed: nat,
    precision: u64,
) -> bool {
    &&& r.len() == 2
    &&& is_sample(r[0], name, labels, rtt_key(), rtt_value(elapsed, precision))
    &&& is_sample(r[1], name, labels, loss_key(), 0)
}

/// `r` is the one sample of a lost probe: a loss of 1.
pub open spec fn are_loss_samples(
    r: Seq<CheckResult>,
    name: Seq<char>,
    labels: Map<Seq<char>, Seq<char>>,
) -> bool {
    &&& r.len() == 1
    &&& is_sample(r[0], name, labels, loss_key(), UNIT)
}

fn key_string(which: u8) -> (r: String)
    requires
        which < 3,
    ensures
        which == 0 ==> r@ == rtt_key(),
        which == 1 ==> r@ == loss_key(),
        which == 2 ==> r@ == mtu_key(),
{
    proof {
        reveal_strlit("rtt");
        reveal_strlit("loss");
        reveal_strlit("mtu");
    }
    let r = if which == 0 {
        String::from_str("rtt")
    } else if which == 1 {
        String::from_str("loss")
    } else {
        String::from_str("mtu")
    };
    assert(which == 0 ==> r@ =~= rtt_key());
    assert(which == 1 ==> r@ =~= loss_key());
    assert(which == 2 ==> r@ =~= mtu_key());
    r
}

/// Converts a round-trip time in microseconds to a metric value.
pub fn rtt_of(elapsed: u64, precision: u64) -> (r: i64)
    ensures
        r == rtt_value(elapsed as nat, precision),
{
    let d: u128 = if precision == 0 { 1 } else { precision as u128 };
    assert((elapsed as u128) * 1_000_000u128 <= u64::MAX as u128 * 1_000_000u128) by (nonlinear_arith);
    let x: u128 = (elapsed as u128) * 1_000_000u128 / d;
    if x > i64::MAX as u128 {
        i64::MAX
    } else {
        x as i64
    }
}

/// Microseconds in `secs` seconds, held to `u64::MAX`.
pub fn secs_to_micros(secs: u64) -> (r: u64)
    ensures
        r == if secs * 1_000_000 > u64::MAX { u64::MAX as int } else { secs * 1_000_000 },
{
    if secs > u64::MAX / 1_000_000 {
        proof {
            assert(secs * 1_000_000 > u64::MAX) by (nonlinear_arith)
                requires
                    secs > u64::MAX / 1_000_000,
            ;
        }
        u64::MAX
    } else {
        proof {
            assert(secs * 1_000_000 <= u64::MAX) by (nonlinear_arith)
                requires
                    secs <= u64::MAX / 1_000_000,
            ;
        }
        secs * 1_000_000
    }
}

/// The samples of a synchronous probe: answered after `elapsed` microseconds,
/// or lost.
pub fn outcome_samples(
    name: &String,
    labels: &LabelMap,
    precision: u64,
    elapsed: Option<u64>,
) -> (r: Vec<CheckResult>)
    requires
        labels.wf(),
    ensures
        match elapsed {
            Some(e) => are_answer_samples(r@, name@, labels@, e as nat, precision),
            None => are_loss_samples(r@, name@, labels@),
        },
{
    let mut r: Vec<CheckResult> = Vec::new();
    match elapsed {
        Some(e) => {
            r.push(CheckResult::measurement(name, labels, key_string(0), rtt_of(e, precision)));
            r.push(CheckResult::measurement(name, labels, key_string(1), 0));
        },
        None => {
            r.push(CheckResult::measurement(name, labels, key_string(1), UNIT));
        },
    }
    r
}

/// The probes in flight of one target, and what their samples carry.
pub struct Correlator {
    pub name: String,
    pub labels: LabelMap,
    pub precision: u64,
    /// Microseconds that a reply is waited for.
    pub timeout: u64,
    /// Label each sample with its probe's payload size, under `mtu`.
    pub label_size: bool,
    pub table: PendingTable,
}

impl Correlator {
    pub open spec fn wf(&self) -> bool {
        self.labels.wf()
    }

    /// The labels of the samples of probe `p`.
    pub open spec fn labels_for(&self, p: PendingProbe) -> Map<Seq<char>, Seq<char>> {
        if self.label_size {
            self.labels@.insert(mtu_key(), decimal(p.extra as nat))
        } else {
            self.labels@
        }
    }

    /// `self` and `other` differ at most in their probes in flight.
    pub open spec fn same_target(&self, other: Correlator) -> bool {
        &&& self.name == other.name
        &&& self.labels == other.labels
        &&& self.precision == other.precision
        &&& self.timeout == other.timeout
        &&& self.label_size == other.label_size
    }

    pub fn new(name: &String, labels: &LabelMap, precision: u64, timeout: u64, label_size: bool) -> (r:
        Correlator)
        requires
            labels.wf(),
        ensures
            r.wf(),
            r.name@ == name@,
            r.labels@ == labels@,
            r.precision == precision,
            r.timeout == timeout,
            r.label_size == label_size,
            r.table@ == Seq::<PendingProbe>::empty(),
    {
        Correlator {
            name: name.clone(),
            labels: labels.duplicate(),
            precision,
            timeout,
            label_size,
            table: PendingTable::new(),
        }
    }

    fn labels_of(&self, p: PendingProbe) -> (r: LabelMap)
        requires
            self.wf(),
        ensures
            r.wf(),
            r@ == self.labels_for(p),
    {
        let mut l = self.labels.duplicate();
        if self.label_size {
            l.insert(key_string(2), decimal_string(p.extra));
        }
        l
    }

    /// A probe with key `key` was handed to the network at `now`, or could not
    /// be: one that was sent awaits its reply; one that could not be sent is
    /// lost at once.
    pub fn record_send(&mut self, key: CorrelationKey, extra: u64, sent: bool, now: u64) -> (r: Vec<
        CheckResult,
    >)
        requires
            old(self).wf(),
        ensures
            final(self).wf(),
            final(self).same_target(*old(self)),
            sent ==> r@.len() == 0 && final(self).table@ == old(self).table@.push(
                (PendingProbe { key, sent_at: now, extra }),
            ),
            !sent ==> final(self).table@ == old(self).table@ && are_loss_samples(
                r@,
                old(self).name@,
                old(self).labels_for((PendingProbe { key, sent_at: now, extra })),
            ),
    {
        let p = PendingProbe { key, sent_at: now, extra };
        let mut r: Vec<CheckResult> = Vec::new();
        if sent {
            self.table.add(p);
        } else {
            let labels = self.labels_of(p);
            r.push(CheckResult::measurement(&self.name, &labels, key_string(1), UNIT));
        }
        r
    }

    /// A reply with correlation key `key` (none if it could not be read)
    /// arrived at `now`: the earliest probe in flight with that key is
    /// answered. A reply that matches no probe is dropped.
    pub fn on_reply(&mut self, key: Option<CorrelationKey>, now: u64) -> (r: Vec<CheckResult>)
        requires
            old(self).wf(),
        ensures
            final(self).wf(),
            final(self).same_target(*old(self)),
            match key {
                Some(k) => match first_with_key(old(self).table@, k) {
                    Some(i) => final(self).table@ == old(self).table@.remove(i) && are_answer_samples(
                        r@,
                        old(self).name@,
                        old(self).labels_for(old(self).table@[i]),
                        elapsed(old(self).table@[i].sent_at, now),
                        old(self).precision,
                    ),
                    None => r@.len() == 0 && final(self).table@ == old(self).table@,
                },
                None => r@.len() == 0 && final(self).table@ == old(self).table@,
            },
    {
        match key {
            Some(k) => match self.table.match_reply(k) {
                Some(p) => {
                    let labels = self.labels_of(p);
                    let e = if now > p.sent_at { now - p.sent_at } else { 0 };
                    outcome_samples(&self.name, &labels, self.precision, Some(e))
                },
                None => Vec::new(),
            },
            None => Vec::new(),
        }
    }

    /// Declares lost, at `now`, every probe older than the timeout: one loss
    /// sample for each, in order.
    pub fn sweep(&mut self, now: u64) -> (r: Vec<CheckResult>)
        requires
            old(self).wf(),
        ensures
            final(self).wf(),
            final(self).same_target(*old(self)),
            final(self).table@ == live_in(old(self).table@, now, old(self).timeout),
            r@.len() == expired_in(old(self).table@, now, old(self).timeout).len(),
            forall|i: int|
                0 <= i < r@.len() ==> is_sample(
                    #[trigger] r@[i],
                    old(self).name@,
                    old(self).labels_for(expired_in(old(self).table@, now, old(self).timeout)[i]),
                    loss_key(),
                    UNIT,
                ),
    {
        let lost = self.table.sweep(now, self.timeout);
        let mut r: Vec<CheckResult> = Vec::new();
        let mut i: usize = 0;
        while i < lost.len()
            invariant
                self.wf(),
                i <= lost@.len(),
                r@.len() == i,
                forall|j: int|
                    0 <= j < i ==> is_sample(
                        #[trigger] r@[j],
                        self.name@,
                        self.labels_for(lost@[j]),
                        loss_key(),
                        UNIT,
                    ),
            decreases lost@.len() - i,
        {
            let labels = self.labels_of(lost[i]);
            r.push(CheckResult::measurement(&self.name, &labels, key_string(1), UNIT));
            i = i + 1;
        }
        r
    }
}

/// An ICMP echo probe target.
pub struct IcmpChecker {
    pub host: String,
    /// Payload size of every echo request, in bytes.
    pub mtu: u64,
    pub interval: u64,
    pub source_ip: String,
    pub probes: Correlator,
}

/// An ICMP echo request in an IPv4 packet, where its payload fits.
pub open spec fn echo_packet(
    identifier: u16,
    size: u64,
    source: Seq<u8>,
    destination: Seq<u8>,
) -> Option<Seq<u8>> {
    if size + 28 <= MAX_PACKET {
        Some(ipv4_packet(1, source, destination, echo_request(identifier, 0, size as nat)))
    } else {
        None
    }
}

/// Builds the echo request of a probe with identifier `identifier` and
/// sequence number 0, where its payload fits in an IPv4 packet.
pub fn echo_probe_packet(identifier: u16, size: u64, source: [u8; 4], destination: [u8; 4]) -> (r:
    Option<Vec<u8>>)
    ensures
        r matches Some(v) ==> echo_packet(identifier, size, source@, destination@) == Some(v@),
        r is None ==> echo_packet(identifier, size, source@, destination@) is None,
{
    if size > 65507 {
        return None;
    }
    let icmp = build_echo_request(identifier, 0, size as usize);
    Some(build_ipv4(1, source, destination, &icmp))
}

impl IcmpChecker {
    pub open spec fn wf(&self) -> bool {
        self.probes.wf() && !self.probes.label_size
    }

    pub fn new(config: &ProbeConfig) -> (r: IcmpChecker)
        requires
            config.labels.wf(),
        ensures
            r.wf(),
            r.host@ == config.host@,
            r.mtu == if config.mtu@.len() > 0 { config.mtu@[0] } else { 0 },
            r.interval == config.interval,
            r.source_ip@ == config.source_ip@,
            r.probes.name@ == config.name@,
            r.probes.labels@ == config.labels@,
            r.probes.precision == config.precision,
            r.probes.timeout == if config.timeout * 1_000_000 > u64::MAX { u64::MAX as int } else { config.timeout * 1_000_000 },
            r.probes.table@ == Seq::<PendingProbe>::empty(),
    {
        IcmpChecker {
            host: config.host.clone(),
            mtu: if config.mtu.len() > 0 { config.mtu[0] } else { 0 },
            interval: config.interval,
            source_ip: config.source_ip.clone(),
            probes: Correlator::new(
                &config.name,
                &config.labels,
                config.precision,
                secs_to_micros(config.timeout),
                false,
            ),
        }
    }

    /// Draws a random identifier for the next probe, and builds its packet
    /// where its payload fits.
    pub fn prepare_probe(&self, source: [u8; 4], destination: [u8; 4]) -> (r: (
        CorrelationKey,
        Option<Vec<u8>>,
    ))
        ensures
            r.0 matches CorrelationKey::Echo { identifier, sequence } && sequence == 0 && (
            match r.1 {
                Some(v) => echo_packet(identifier, self.mtu, source@, destination@) == Some(v@),
                None => echo_packet(identifier, self.mtu, source@, destination@) is None,
            }),
    {
        let identifier: u16 = rand::random::<u16>();
        (
            CorrelationKey::Echo { identifier, sequence: 0 },
            echo_probe_packet(identifier, self.mtu, source, destination),
        )
    }

    /// An ICMP message arrived at `now`; `from_target` tells whether it came
    /// from the probed host. Only an echo reply from it can answer a probe.
    pub fn on_packet(&mut self, packet: &[u8], from_target: bool, now: u64) -> (r: Vec<CheckResult>)
        requires
            old(self).wf(),
        ensures
            final(self).wf(),
            final(self).host == old(self).host,
            final(self).mtu == old(self).mtu,
            final(self).probes.same_target(old(self).probes),
            match (if from_target { echo_reply_key(packet@) } else { None }) {
                Some(k) => match first_with_key(old(self).probes.table@, k) {
                    Some(i) => final(self).probes.table@ == old(self).probes.table@.remove(i)
                        && are_answer_samples(
                        r@,
                        old(self).probes.name@,
                        old(self).probes.labels@,
                        elapsed(old(self).probes.table@[i].sent_at, now),
                        old(self).probes.precision,
                    ),
                    None => r@.len() == 0 && final(self).probes.table@ == old(self).probes.table@,
                },
                None => r@.len() == 0 && final(self).probes.table@ == old(self).probes.table@,
            },
    {
        let key = if from_target { decode_echo_reply(packet) } else { None };
        self.probes.on_reply(key, now)
    }
}

/// An ICMP path-MTU probe target: each round sends one echo request of each
/// configured payload size.
pub struct IcmpMtuChecker {
    pub host: String,
    /// The payload sizes of a round, in bytes, in order.
    pub mtu: Vec<u64>,
    pub interval: u64,
    /// Seconds between two sizes of a round.
    pub mtu_interval: u64,
    pub source_ip: String,
    pub probes: Correlator,
}

impl IcmpMtuChecker {
    pub open spec fn wf(&self) -> bool {
        self.probes.wf() && self.probes.label_size
    }

    pub fn new(config: &ProbeConfig) -> (r: IcmpMtuChecker)
        requires
            config.labels.wf(),
        ensures
            r.wf(),
            r.host@ == config.host@,
            r.mtu@ == config.mtu@,
            r.interval == config.interval,
            r.mtu_interval == config.mtu_interval,
            r.source_ip@ == config.source_ip@,
            r.probes.name@ == config.name@,
            r.probes.labels@ == config.labels@,
            r.probes.precision == config.precision,
            r.probes.timeout == if config.timeout * 1_000_000 > u64::MAX { u64::MAX as int } else { config.timeout * 1_000_000 },
            r.probes.table@ == Seq::<PendingProbe>::empty(),
    {
        IcmpMtuChecker {
            host: config.host.clone(),
            mtu: config.mtu.clone(),
            interval: config.interval,
            mtu_interval: config.mtu_interval,
            source_ip: config.source_ip.clone(),
            probes: Correlator::new(
                &config.name,
                &config.labels,
                config.precision,
                secs_to_micros(config.timeout),
                true,
            ),
        }
    }

    /// Draws a random identifier for a probe of payload size `size`, and
    /// builds its packet where the payload fits.
    pub fn prepare_probe(&self, size: u64, source: [u8; 4], destination: [u8; 4]) -> (r: (
        CorrelationKey,
        Option<Vec<u8>>,
    ))
        ensures
            r.0 matches CorrelationKey::Echo { identifier, sequence } && sequence == 0 && (
            match r.1 {
                Some(v) => echo_packet(identifier, size, source@, destination@) == Some(v@),
                None => echo_packet(identifier, size, source@, destination@) is None,
            }),
    {
        let identifier: u16 = rand::random::<u16>();
        (
            CorrelationKey::Echo { identifier, sequence: 0 },
            echo_probe_packet(identifier, size, source, destination),
        )
    }

    /// An ICMP message arrived at `now`; `from_target` tells whether it came
    /// from the probed host.
    pub fn on_packet(&mut self, packet: &[u8], from_target: bool, now: u64) -> (r: Vec<CheckResult>)
        requires
            old(self).wf(),
        ensures
            final(self).wf(),
            final(self).host == old(self).host,
            final(self).mtu == old(self).mtu,
            final(self).probes.same_target(old(self).probes),
            match (if from_target { echo_reply_key(packet@) } else { None }) {
                Some(k) => match first_with_key(old(self).probes.table@, k) {
                    Some(i) => final(self).probes.table@ == old(self).probes.table@.remove(i)
                        && are_answer_samples(
                        r@,
                        old(self).probes.name@,
                        old(self).probes.labels_for(old(self).probes.table@[i]),
                        elapsed(old(self).probes.table@[i].sent_at, now),
                        old(self).probes.precision,
                    ),
                    None => r@.len() == 0 && final(self).probes.table@ == old(self).probes.table@,
                },
                None => r@.len() == 0 && final(self).probes.table@ == old(self).probes.table@,
            },
    {
        let key = if from_target { decode_echo_reply(packet) } else { None };
        self.probes.on_reply(key, now)
    }
}

/// A TCP SYN (half-open) probe target.
pub struct SynChecker {
    pub host: String,
    pub port: u16,
    pub interval: u64,
    pub source_ip: String,
    pub probes: Correlator,
}

/// The acknowledgement number that answers a SYN with sequence number `s`.
pub open spec fn expected_ack(s: u32) -> u32 {
    ((s + 1) % 0x1_0000_0000) as u32
}

impl SynChecker {
    pub open spec fn wf(&self) -> bool {
        self.probes.wf() && !self.probes.label_size
    }

    pub fn new(config: &ProbeConfig) -> (r: SynChecker)
        requires
            config.labels.wf(),
        ensures
            r.wf(),
            r.host@ == config.host@,
            r.port == config.port,
            r.interval == config.interval,
            r.source_ip@ == config.source_ip@,
            r.probes.name@ == config.name@,
            r.probes.labels@ == config.labels@,
            r.probes.precision == config.precision,
            r.probes.timeout == if config.timeout * 1_000_000 > u64::MAX { u64::MAX as int } else { config.timeout * 1_000_000 },
            r.probes.table@ == Seq::<PendingProbe>::empty(),
    {
        SynChecker {
            host: config.host.clone(),
            port: config.port,
            interval: config.interval,
            source_ip: config.source_ip.clone(),
            probes: Correlator::new(
                &config.name,
                &config.labels,
                config.precision,
                secs_to_micros(config.timeout),
                false,
            ),
        }
    }

    /// Builds the SYN of a probe with sequence number `sequence`, and the key
    /// that its answer will carry.
    pub fn probe_packet(&self, sequence: u32, source: [u8; 4], destination: [u8; 4]) -> (r: (
        CorrelationKey,
        Vec<u8>,
    ))
        ensures
            r.0 == CorrelationKey::Ack(expected_ack(sequence)),
            r.1@ == ipv4_packet(6, source@, destination@, syn_segment(self.port, sequence, source@, destination@)),
    {
        let segment = build_syn(self.port, sequence, source, destination);
        let ack = sequence.wrapping_add(1);
        assert(ack == expected_ack(sequence));
        (CorrelationKey::Ack(ack), build_ipv4(6, source, destination, &segment))
    }

    /// Draws a random sequence number for the next probe and builds its SYN.
    pub fn prepare_probe(&self, source: [u8; 4], destination: [u8; 4]) -> (r: (CorrelationKey, Vec<u8>))
        ensures
            exists|s: u32|
                r.0 == CorrelationKey::Ack(expected_ack(s)) && r.1@ == ipv4_packet(
                    6,
                    source@,
                    destination@,
                    syn_segment(self.port, s, source@, destination@),
                ),
    {
        let sequence: u32 = rand::random::<u32>();
        self.probe_packet(sequence, source, destination)
    }

    /// A TCP segment arrived at `now`; `from_target` tells whether it came
    /// from the probed host. Only one from the probed port to the probes'
    /// source port can answer a probe.
    pub fn on_packet(&mut self, packet: &[u8], from_target: bool, now: u64) -> (r: Vec<CheckResult>)
        requires
            old(self).wf(),
        ensures
            final(self).wf(),
            final(self).host == old(self).host,
            final(self).port == old(self).port,
            final(self).probes.same_target(old(self).probes),
            match (if from_target { syn_answer_key(packet@, old(self).port) } else { None }) {
                Some(k) => match first_with_key(old(self).probes.table@, k) {
                    Some(i) => final(self).probes.table@ == old(self).probes.table@.remove(i)
                        && are_answer_samples(
                        r@,
                        old(self).probes.name@,
                        old(self).probes.labels@,
                        elapsed(old(self).probes.table@[i].sent_at, now),
                        old(self).probes.precision,
                    ),
                    None => r@.len() == 0 && final(self).probes.table@ == old(self).probes.table@,
                },
                None => r@.len() == 0 && final(self).probes.table@ == old(self).probes.table@,
            },
    {
        let key = if from_target { decode_syn_answer(packet, self.port) } else { None };
        self.probes.on_reply(key, now)
    }
}

/// A TCP connect probe target: one connection attempt per round.
pub struct TcpConnectChecker {
    pub host: String,
    pub interval: u64,
    pub timeout: u64,
    pub name: String,
    pub precision: u64,
    pub labels: LabelMap,
}

impl TcpConnectChecker {
    pub fn new(config: &ProbeConfig) -> (r: TcpConnectChecker)
        requires
            config.labels.wf(),
        ensures
            r.labels.wf(),
            r.host@ == config.host@,
            r.interval == config.interval,
            r.timeout == config.timeout,
            r.name@ == config.name@,
            r.precision == config.precision,
            r.labels@ == config.labels@,
    {
        TcpConnectChecker {
            host: config.host.clone(),
            interval: config.interval,
            timeout: config.timeout,
            name: config.name.clone(),
            precision: config.precision,
            labels: config.labels.duplicate(),
        }
    }

    /// The samples of one attempt: connected after `elapsed` microseconds, or
    /// not connected.
    pub fn outcome(&self, elapsed: Option<u64>) -> (r: Vec<CheckResult>)
        requires
            self.labels.wf(),
        ensures
            match elapsed {
                Some(e) => are_answer_samples(r@, self.name@, self.labels@, e as nat, self.precision),
                None => are_loss_samples(r@, self.name@, self.labels@),
            },
    {
        outcome_samples(&self.name, &self.labels, self.precision, elapsed)
    }
}

/// A UDP echo client probe target: one datagram and its echo per round.
pub struct UdpClientChecker {
    pub host: String,
    pub interval: u64,
    pub timeout: u64,
    pub name: String,
    pub source: String,
    pub precision: u64,
    pub labels: LabelMap,
}

impl UdpClientChecker {
    pub fn new(config: &ProbeConfig) -> (r: UdpClientChecker)
        requires
            config.labels.wf(),
        ensures
            r.labels.wf(),
            r.host@ == config.host@,
            r.interval == config.interval,
            r.timeout == config.timeout,
            r.name@ == config.name@,
            r.source@ == config.source_ip@,
            r.precision == config.precision,
            r.labels@ == config.labels@,
    {
        UdpClientChecker {
            host: config.host.clone(),
            interval: config.interval,
            timeout: config.timeout,
            name: config.name.clone(),
            source: config.source_ip.clone(),
            precision: config.precision,
            labels: config.labels.duplicate(),
        }
    }

    /// The samples of one exchange: echoed after `elapsed` microseconds, or
    /// lost (the datagram could not be sent, or no echo came in time).
    pub fn outcome(&self, elapsed: Option<u64>) -> (r: Vec<CheckResult>)
        requires
            self.labels.wf(),
        ensures
            match elapsed {
                Some(e) => are_answer_samples(r@, self.name@, self.labels@, e as nat, self.precision),
                None => are_loss_samples(r@, self.name@, self.labels@),
            },
    {
        outcome_samples(&self.name, &self.labels, self.precision, elapsed)
    }
}

/// A UDP echo server: it echoes every datagram, and counts each one under
/// its sender's address.
pub struct UdpServerChecker {
    pub host: String,
    pub name: String,
    pub labels: LabelMap,
}

impl UdpServerChecker {
    pub fn new(config: &ProbeConfig) -> (r: UdpServerChecker)
        requires
            config.labels.wf(),
        ensures
            r.labels.wf(),
            r.host@ == config.host@,
            r.name@ == config.name@,
            r.labels@ == config.labels@,
    {
        UdpServerChecker {
            host: config.host.clone(),
            name: config.name.clone(),
            labels: config.labels.duplicate(),
        }
    }

    /// The sample of one datagram from `peer`: a count of 1 under the peer's
    /// address.
    pub fn on_datagram(&self, peer: String) -> (r: CheckResult)
        requires
            self.labels.wf(),
        ensures
            is_sample(r, self.name@, self.labels@, peer@, UNIT),
    {
        CheckResult::measurement(&self.name, &self.labels, peer, UNIT)
    }
}

} // verus!
