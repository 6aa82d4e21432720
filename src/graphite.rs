use vstd::prelude::*;
use crate::config::OutputConfig;
use crate::keyed::LabelMap;
use crate::sample::{decimal, decimal_string, CheckResult};

verus! {

pub const MIN_RECONNECT_DELAY_MS: u64 = 50;

pub const MAX_RECONNECT_DELAY_MS: u64 = 10_000;

/// The number of unsent lines kept when the configuration names none.
pub const MAX_BUFFER_SIZE: u64 = 1000;

/// 2 to the power `n`.
pub open spec fn doubling(n: nat) -> nat
    decreases n,
{
    if n == 0 {
        1
    } else {
        2 * doubling((n - 1) as nat)
    }
}

/// The wait before the next connection attempt after `failures` consecutive
/// failures: 50 ms doubled for each failure, at most 10 s.
pub open spec fn backoff_delay(failures: nat) -> nat {
    let d: nat = (MIN_RECONNECT_DELAY_MS * doubling(failures)) as nat;
    if d > MAX_RECONNECT_DELAY_MS {
        MAX_RECONNECT_DELAY_MS as nat
    } else {
        d
    }
}

proof fn lemma_doubling_grows(a: nat, b: nat)
    requires
        a <= b,
    ensures
        doubling(a) <= doubling(b),
    decreases b,
{
    if a < b {
        lemma_doubling_grows(a, (b - 1) as nat);
    }
}

/// The wait, in milliseconds, after `failures` consecutive connection failures.
pub fn reconnect_delay(failures: u64) -> (r: u64)
    ensures
        r == backoff_delay(failures as nat),
{
    let mut d: u64 = MIN_RECONNECT_DELAY_MS;
    let mut i: u64 = 0;
    while i < failures && d <= MAX_RECONNECT_DELAY_MS
        invariant
            i <= failures,
            d == MIN_RECONNECT_DELAY_MS * doubling(i as nat),
            d <= 2 * MAX_RECONNECT_DELAY_MS,
        decreases failures - i,
    {
        d = d * 2;
        i = i + 1;
    }
    if d > MAX_RECONNECT_DELAY_MS {
        proof {
            lemma_doubling_grows(i as nat, failures as nat);
        }
        MAX_RECONNECT_DELAY_MS
    } else {
        d
    }
}

/// When to try to connect again, in milliseconds of a monotonic clock.
pub struct Backoff {
    /// Consecutive failed connection attempts.
    pub retries: u64,
    /// No attempt is made before this time.
    pub next_try: u64,
}

impl Backoff {
    pub fn new(now: u64) -> (r: Backoff)
        ensures
            r.retries == 0,
            r.next_try == now,
    {
        Backoff { retries: 0, next_try: now }
    }

    /// How long to wait at `now` before the next attempt.
    pub fn wait(&self, now: u64) -> (r: u64)
        ensures
            r == if now < self.next_try { self.next_try - now } else { 0 },
    {
        if now < self.next_try {
            self.next_try - now
        } else {
            0
        }
    }

    /// An attempt at `now` failed: one more failure, and the next attempt
    /// waits for the backoff delay.
    pub fn on_failure(&mut self, now: u64)
        ensures
            final(self).retries == if old(self).retries == u64::MAX { u64::MAX as int } else { old(self).retries + 1 },
            final(self).next_try == if now + backoff_delay(final(self).retries as nat) > u64::MAX {
                u64::MAX as int
            } else {
                now + backoff_delay(final(self).retries as nat)
            },
    {
        if self.retries < u64::MAX {
            self.retries = self.retries + 1;
        }
        let d = reconnect_delay(self.retries);
        self.next_try = if now > u64::MAX - d { u64::MAX } else { now + d };
    }

    /// An attempt succeeded: the failures are no longer consecutive.
    pub fn on_success(&mut self)
        ensures
            final(self).retries == 0,
            final(self).next_try == old(self).next_try,
    {
        self.retries = 0;
    }
}

/// The text of a metric value given in millionths: a sign, the whole part,
/// and the fraction without trailing zeros, if any.
pub open spec fn value_text(v: i64) -> Seq<char> {
    let a: nat = if v < 0 { (-v) as nat } else { v as nat };
    let sign = if v < 0 { seq!['-'] } else { Seq::<char>::empty() };
    let whole = decimal(a / 1_000_000);
    let frac: nat = a % 1_000_000;
    if frac == 0 {
        sign + whole
    } else {
        sign + whole + seq!['.'] + fraction_text(frac, 6)
    }
}

/// `f` written in `width` digits with leading zeros, trailing zeros dropped.
pub open spec fn fraction_text(f: nat, width: nat) -> Seq<char>
    decreases width,
{
    if width > 0 && f % 10 == 0 {
        fraction_text(f / 10, (width - 1) as nat)
    } else {
        zero_padded(decimal(f), width)
    }
}

pub open spec fn zero_padded(s: Seq<char>, width: nat) -> Seq<char> {
    if s.len() < width {
        Seq::new((width - s.len()) as nat, |i: int| '0') + s
    } else {
        s
    }
}

fn lit(s: &str) -> (r: String)
    ensures
        r@ == s@,
{
    String::from_str(s)
}

fn zero_padded_string(s: String, width: usize) -> (r: String)
    ensures
        r@ == zero_padded(s@, width as nat),
{
    if s.unicode_len() >= width {
        return s;
    }
    let n = width - s.unicode_len();
    let mut r = String::new();
    let mut i: usize = 0;
    proof {
        reveal_strlit("0");
    }
    while i < n
        invariant
            i <= n,
            r@ == Seq::new(i as nat, |k: int| '0'),
        decreases n - i,
    {
        proof {
            reveal_strlit("0");
        }
        r.append("0");
        assert(r@ =~= Seq::new((i + 1) as nat, |k: int| '0'));
        i = i + 1;
    }
    r.append(s.as_str());
    r
}

fn fraction_string(f: u64, width: usize) -> (r: String)
    ensures
        r@ == fraction_text(f as nat, width as nat),
    decreases width,
{
    if width > 0 && f % 10 == 0 {
        fraction_string(f / 10, width - 1)
    } else {
        zero_padded_string(decimal_string(f), width)
    }
}

/// Writes a metric value given in millionths.
pub fn value_string(v: i64) -> (r: String)
    ensures
        r@ == value_text(v),
{
    let a: u64 = if v < 0 { (-(v as i128)) as u64 } else { v as u64 };
    let mut r = if v < 0 {
        proof {
            reveal_strlit("-");
        }
        lit("-")
    } else {
        String::new()
    };
    assert(r@ =~= (if v < 0 { seq!['-'] } else { Seq::<char>::empty() }));
    let whole = decimal_string(a / 1_000_000);
    r.append(whole.as_str());
    let frac = a % 1_000_000;
    if frac != 0 {
        proof {
            reveal_strlit(".");
        }
        r.append(".");
        let f = fraction_string(frac, 6);
        r.append(f.as_str());
        assert(r@ =~= value_text(v));
    } else {
        assert(r@ =~= value_text(v));
    }
    r
}

/// The label values named in `names`, in that order, each after a dot; a name
/// that the sample lacks is skipped.
pub open spec fn path_of(names: Seq<String>, labels: Map<Seq<char>, Seq<char>>) -> Seq<char>
    decreases names.len(),
{
    if names.len() == 0 {
        Seq::empty()
    } else if labels.contains_key(names.last()@) {
        path_of(names.drop_last(), labels) + seq!['.'] + labels[names.last()@]
    } else {
        path_of(names.drop_last(), labels)
    }
}

/// One line of the Graphite text protocol:
/// `<prefix>[.<label values>].<metric key> <value> <unix seconds>\n`.
pub open spec fn graphite_line(
    prefix: Seq<char>,
    names: Seq<String>,
    labels: Map<Seq<char>, Seq<char>>,
    key: Seq<char>,
    value: i64,
    secs: u64,
) -> Seq<char> {
    prefix + path_of(names, labels) + seq!['.'] + key + seq![' '] + value_text(value) + seq![' ']
        + decimal(secs as nat) + seq!['\n']
}

/// Writes one line of the Graphite text protocol.
pub fn format_line(
    prefix: &String,
    names: &Vec<String>,
    labels: &LabelMap,
    key: &String,
    value: i64,
    secs: u64,
) -> (r: String)
    requires
        labels.wf(),
    ensures
        r@ == graphite_line(prefix@, names@, labels@, key@, value, secs),
{
    proof {
        reveal_strlit(".");
        reveal_strlit(" ");
        reveal_strlit("\n");
    }
    let mut r = prefix.clone();
    let mut i: usize = 0;
    while i < names.len()
        invariant
            i <= names@.len(),
            labels.wf(),
            r@ == prefix@ + path_of(names@.take(i as int), labels@),
        decreases names@.len() - i,
    {
        proof {
            assert(names@.take(i + 1).drop_last() =~= names@.take(i as int));
        }
        match labels.get(&names[i]) {
            Some(v) => {
                proof {
                    reveal_strlit(".");
                    assert(names@.take(i + 1).last() == names@[i as int]);
                }
                r.append(".");
                r.append(v.as_str());
                assert(r@ =~= prefix@ + path_of(names@.take(i + 1), labels@));
            },
            None => {
                assert(names@.take(i + 1).last() == names@[i as int]);
                assert(r@ =~= prefix@ + path_of(names@.take(i + 1), labels@));
            },
        }
        i = i + 1;
    }
    assert(names@.take(names@.len() as int) =~= names@);
    r.append(".");
    r.append(key.as_str());
    r.append(" ");
    let v = value_string(value);
    r.append(v.as_str());
    r.append(" ");
    let s = decimal_string(secs);
    r.append(s.as_str());
    r.append("\n");
    assert(r@ =~= graphite_line(prefix@, names@, labels@, key@, value, secs));
    r
}

/// `buf` with `line` added at the end, the oldest line dropped if it then
/// holds more than `max`.
pub open spec fn bounded_push(buf: Seq<Seq<char>>, line: Seq<char>, max: u64) -> Seq<Seq<char>> {
    if buf.len() + 1 > max {
        buf.push(line).drop_first()
    } else {
        buf.push(line)
    }
}

/// `buf` after `lines` are added one by one.
pub open spec fn bounded_push_all(buf: Seq<Seq<char>>, lines: Seq<Seq<char>>, max: u64) -> Seq<
    Seq<char>,
>
    decreases lines.len(),
{
    if lines.len() == 0 {
        buf
    } else {
        bounded_push(bounded_push_all(buf, lines.drop_last(), max), lines.last(), max)
    }
}

/// The lines of a sample, one per metric in the sample's order.
pub open spec fn sample_lines(
    prefix: Seq<char>,
    names: Seq<String>,
    s: CheckResult,
    secs: u64,
) -> Seq<Seq<char>> {
    s.values.pairs().map_values(
        |p: (Seq<char>, i64)| graphite_line(prefix, names, s.labels@, p.0, p.1, secs),
    )
}

/// The Graphite sink: it turns samples into lines, and keeps the lines that
/// could not be sent, the oldest dropped beyond `max_buffer`.
pub struct GraphiteOutput {
    pub prefix: String,
    pub names: Vec<String>,
    pub max_buffer: u64,
    pub backoff: Backoff,
    /// The unsent lines, oldest first.
    pub buffer: Vec<String>,
}

impl GraphiteOutput {
    /// The unsent lines, oldest first.
    pub open spec fn pending(&self) -> Seq<Seq<char>> {
        self.buffer@.map_values(|l: String| l@)
    }

    pub fn new(config: &OutputConfig, now: u64) -> (r: GraphiteOutput)
        ensures
            r.prefix@ == config.prefix@,
            r.names@ == config.names@,
            r.max_buffer == config.max_buffer,
            r.backoff.retries == 0,
            r.pending() == Seq::<Seq<char>>::empty(),
    {
        let r = GraphiteOutput {
            prefix: config.prefix.clone(),
            names: clone_names(&config.names),
            max_buffer: config.max_buffer,
            backoff: Backoff::new(now),
            buffer: Vec::new(),
        };
        assert(r.pending() =~= Seq::<Seq<char>>::empty());
        r
    }

    /// Keeps a line to send, dropping the oldest beyond the bound.
    pub fn keep(&mut self, line: String)
        ensures
            final(self).pending() == bounded_push(old(self).pending(), line@, old(self).max_buffer),
            final(self).prefix == old(self).prefix,
            final(self).names == old(self).names,
            final(self).max_buffer == old(self).max_buffer,
            final(self).backoff == old(self).backoff,
    {
        let ghost before = self.pending();
        let ghost l = line@;
        let over = self.buffer.len() as u64 >= self.max_buffer;
        self.buffer.push(line);
        assert(self.pending() =~= before.push(l));
        if over {
            self.buffer.remove(0);
            assert(self.pending() =~= before.push(l).drop_first());
        }
    }

    /// Takes in a sample at `secs` seconds of the Unix epoch: its lines join
    /// the unsent ones, and all of them are handed back to be sent.
    pub fn process_probe(&mut self, probe: &CheckResult, secs: u64) -> (r: Vec<String>)
        requires
            probe.wf(),
        ensures
            r@.map_values(|l: String| l@) == bounded_push_all(
                old(self).pending(),
                sample_lines(old(self).prefix@, old(self).names@, *probe, secs),
                old(self).max_buffer,
            ),
            final(self).pending() == Seq::<Seq<char>>::empty(),
            final(self).prefix == old(self).prefix,
            final(self).names == old(self).names,
            final(self).max_buffer == old(self).max_buffer,
            final(self).backoff == old(self).backoff,
    {
        let ghost lines = sample_lines(self.prefix@, self.names@, *probe, secs);
        let ghost start = self.pending();
        let n = probe.values.len();
        let mut i: usize = 0;
        while i < n
            invariant
                n == probe.values.pairs().len(),
                i <= n,
                probe.wf(),
                lines == sample_lines(old(self).prefix@, old(self).names@, *probe, secs),
                self.prefix == old(self).prefix,
                self.names == old(self).names,
                self.max_buffer == old(self).max_buffer,
                self.backoff == old(self).backoff,
                self.pending() == bounded_push_all(start, lines.take(i as int), self.max_buffer),
            decreases n - i,
        {
            let line = format_line(
                &self.prefix,
                &self.names,
                &probe.labels,
                probe.values.key_at(i),
                probe.values.value_at(i),
                secs,
            );
            self.keep(line);
            proof {
                assert(lines.take(i + 1).drop_last() =~= lines.take(i as int));
            }
            i = i + 1;
        }
        assert(lines.take(n as int) =~= lines);
        let mut out: Vec<String> = Vec::new();
        std::mem::swap(&mut out, &mut self.buffer);
        assert(self.pending() =~= Seq::<Seq<char>>::empty());
        out
    }
}

fn clone_names(names: &Vec<String>) -> (r: Vec<String>)
    ensures
        r@ == names@,
{
    let mut r: Vec<String> = Vec::new();
    let mut i: usize = 0;
    while i < names.len()
        invariant
            i <= names@.len(),
            r@ == names@.take(i as int),
        decreases names@.len() - i,
    {
        r.push(names[i].clone());
        assert(r@ =~= names@.take(i + 1));
        i = i + 1;
    }
    assert(names@.take(names@.len() as int) =~= names@);
    r
}

} // verus!
