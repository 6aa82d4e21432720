use rust_checker::aggregate::{Histogram, StatsCount, StatsTime};
use rust_checker::config::{OutputConfig, ProbeConfig, ProcessConfig};
use rust_checker::graphite::{format_line, reconnect_delay, value_string, Backoff, GraphiteOutput};
use rust_checker::keyed::{LabelMap, ValueMap};
use rust_checker::output::PrintOutput;
use rust_checker::packet::{build_echo_request, build_ipv4, build_syn, decode_echo_reply, decode_syn_answer};
use rust_checker::pending::{CorrelationKey, PendingProbe, PendingTable};
use rust_checker::probe::{
    echo_probe_packet, rtt_of, secs_to_micros, IcmpChecker, IcmpMtuChecker, SynChecker,
    TcpConnectChecker, UdpClientChecker, UdpServerChecker,
};
use rust_checker::sample::{decimal_string, CheckResult, UNIT};
use rust_checker::selector::{labels_pass, route_sample, Route};

fn labels(pairs: &[(&str, &str)]) -> LabelMap {
    let mut m = LabelMap::new();
    for (k, v) in pairs {
        m.insert(k.to_string(), v.to_string());
    }
    m
}

fn sample(name: &str, l: &[(&str, &str)], values: &[(&str, i64)], processes: Vec<u16>) -> CheckResult {
    let mut v = ValueMap::new();
    for (k, x) in values {
        v.insert(k.to_string(), *x);
    }
    CheckResult { name: name.to_string(), values: v, labels: labels(l), processes }
}

fn predicate(pairs: &[(&str, &[&str])]) -> Vec<(String, Vec<String>)> {
    pairs
        .iter()
        .map(|(k, ps)| (k.to_string(), ps.iter().map(|p| p.to_string()).collect()))
        .collect()
}

fn rule(id: u16, m: &[(&str, &[&str])], match_value: &str, stats: &[&str], interval: u64) -> ProcessConfig {
    ProcessConfig {
        id,
        process_name: "stats_count".to_string(),
        keep_name: false,
        labels_to_add: LabelMap::new(),
        match_labels: predicate(m),
        values: stats.iter().map(|s| s.to_string()).collect(),
        match_value: match_value.to_string(),
        interval,
    }
}

fn output(id: u16, m: &[(&str, &[&str])]) -> OutputConfig {
    OutputConfig {
        id,
        output_name: "print".to_string(),
        match_labels: predicate(m),
        address: String::new(),
        prefix: "checks".to_string(),
        names: vec!["host".to_string()],
        max_buffer: 1000,
    }
}

fn probe_config(name: &str, mtu: Vec<u64>) -> ProbeConfig {
    ProbeConfig {
        name: name.to_string(),
        host: "192.0.2.1".to_string(),
        check_type: "icmp".to_string(),
        interval: 5,
        labels: labels(&[("host", "target")]),
        mtu,
        mtu_interval: 1,
        port: 443,
        timeout: 1,
        precision: 1000,
        source_ip: "192.0.2.2".to_string(),
    }
}

fn value(s: &CheckResult, key: &str) -> Option<i64> {
    s.values.get(&key.to_string())
}

fn label(s: &CheckResult, key: &str) -> Option<String> {
    s.labels.get(&key.to_string()).cloned()
}

#[test]
fn stats_over_two_four_six() {
    let config = rule(1, &[], "rtt", &["avg", "low", "high", "sum"], 60);
    let mut agg = StatsTime::new(&config);
    for x in [2, 4, 6] {
        assert!(agg.process_probe(sample("a", &[], &[("rtt", x * UNIT)], vec![])));
    }
    let out = agg.drain();
    assert_eq!(out.len(), 1);
    assert_eq!(value(&out[0], "avg"), Some(4 * UNIT));
    assert_eq!(value(&out[0], "low"), Some(2 * UNIT));
    assert_eq!(value(&out[0], "high"), Some(6 * UNIT));
    assert_eq!(value(&out[0], "sum"), Some(12 * UNIT));
    assert_eq!(out[0].processes, vec![1]);
    assert!(agg.drain().is_empty());
}

#[test]
fn count_window_flushes_once_after_third() {
    let config = rule(9, &[], "loss", &["avg", "sum"], 3);
    let mut agg = StatsCount::new(&config);
    assert!(agg.process_probe(sample("a", &[], &[("loss", 0)], vec![])).is_none());
    assert!(agg.process_probe(sample("a", &[], &[("loss", UNIT)], vec![])).is_none());
    let flushed = agg.process_probe(sample("a", &[], &[("loss", UNIT)], vec![])).unwrap();
    assert_eq!(value(&flushed, "sum"), Some(2 * UNIT));
    assert_eq!(value(&flushed, "avg"), Some(666_666));
    assert_eq!(flushed.processes, vec![9]);
    // the window for "a" started afresh
    assert!(agg.process_probe(sample("a", &[], &[("loss", 0)], vec![])).is_none());
    assert!(agg.process_probe(sample("a", &[], &[("loss", 0)], vec![])).is_none());
    let again = agg.process_probe(sample("a", &[], &[("loss", 0)], vec![])).unwrap();
    assert_eq!(value(&again, "sum"), Some(0));
}

#[test]
fn count_windows_are_per_name() {
    let config = rule(2, &[], "rtt", &["sum"], 2);
    let mut agg = StatsCount::new(&config);
    assert!(agg.process_probe(sample("a", &[], &[("rtt", 1)], vec![])).is_none());
    assert!(agg.process_probe(sample("b", &[], &[("rtt", 10)], vec![])).is_none());
    let a = agg.process_probe(sample("a", &[], &[("rtt", 2)], vec![])).unwrap();
    assert_eq!(a.name, "a");
    assert_eq!(value(&a, "sum"), Some(3));
    let b = agg.process_probe(sample("b", &[], &[("rtt", 20)], vec![])).unwrap();
    assert_eq!(value(&b, "sum"), Some(30));
}

#[test]
fn count_window_of_one_flushes_every_sample() {
    let config = rule(2, &[], "rtt", &["low", "high"], 1);
    let mut agg = StatsCount::new(&config);
    let r = agg.process_probe(sample("a", &[], &[("rtt", -5)], vec![])).unwrap();
    assert_eq!(value(&r, "low"), Some(-5));
    assert_eq!(value(&r, "high"), Some(-5));
}

#[test]
fn sample_without_metric_is_ignored() {
    let config = rule(2, &[], "rtt", &["sum"], 1);
    let mut count = StatsCount::new(&config);
    assert!(count.process_probe(sample("a", &[], &[("loss", 1)], vec![])).is_none());
    let mut time = StatsTime::new(&config);
    assert!(!time.process_probe(sample("a", &[], &[("loss", 1)], vec![])));
    assert!(time.drain().is_empty());
    let mut hist = Histogram::new(&config);
    assert!(!hist.process_probe(sample("a", &[], &[("loss", 1)], vec![])));
    assert!(hist.drain().is_empty());
}

#[test]
fn flush_keeps_first_sample_labels_and_adds_own() {
    let mut config = rule(4, &[], "rtt", &["avg"], 2);
    config.keep_name = true;
    config.labels_to_add = labels(&[("stage", "agg"), ("host", "renamed")]);
    let mut agg = StatsCount::new(&config);
    assert!(agg
        .process_probe(sample("a", &[("host", "h1"), ("zone", "z")], &[("rtt", 3)], vec![1]))
        .is_none());
    let r = agg.process_probe(sample("a", &[("host", "h2")], &[("rtt", 4)], vec![2])).unwrap();
    assert_eq!(label(&r, "zone"), Some("z".to_string()));
    assert_eq!(label(&r, "host"), Some("renamed".to_string()));
    assert_eq!(label(&r, "stage"), Some("agg".to_string()));
    assert_eq!(label(&r, "value"), Some("rtt".to_string()));
    assert_eq!(r.processes, vec![1, 4]);
    // average rounds toward zero
    assert_eq!(value(&r, "avg"), Some(3));
}

#[test]
fn negative_average_rounds_toward_zero() {
    let config = rule(4, &[], "v", &["avg"], 2);
    let mut agg = StatsCount::new(&config);
    assert!(agg.process_probe(sample("a", &[], &[("v", -3)], vec![])).is_none());
    let r = agg.process_probe(sample("a", &[], &[("v", -4)], vec![])).unwrap();
    assert_eq!(value(&r, "avg"), Some(-3));
}

#[test]
fn sum_is_held_to_range() {
    let config = rule(4, &[], "v", &["sum", "avg"], 2);
    let mut agg = StatsCount::new(&config);
    assert!(agg.process_probe(sample("a", &[], &[("v", i64::MAX)], vec![])).is_none());
    let r = agg.process_probe(sample("a", &[], &[("v", i64::MAX)], vec![])).unwrap();
    assert_eq!(value(&r, "sum"), Some(i64::MAX));
    assert_eq!(value(&r, "avg"), Some(i64::MAX));
}

#[test]
fn unknown_statistic_names_are_ignored() {
    let config = rule(4, &[], "v", &["median", "sum"], 1);
    let mut agg = StatsCount::new(&config);
    let r = agg.process_probe(sample("a", &[], &[("v", 5)], vec![])).unwrap();
    assert_eq!(r.values.len(), 1);
    assert_eq!(value(&r, "sum"), Some(5));
}

#[test]
fn histogram_keeps_arrival_order_per_name() {
    let config = rule(5, &[], "rtt", &[], 10);
    let mut hist = Histogram::new(&config);
    assert!(hist.process_probe(sample("a", &[], &[("rtt", 30)], vec![])));
    assert!(hist.process_probe(sample("b", &[], &[("rtt", 7)], vec![])));
    assert!(hist.process_probe(sample("a", &[], &[("rtt", 10)], vec![])));
    assert!(hist.process_probe(sample("a", &[], &[("rtt", 20)], vec![])));
    let out = hist.drain();
    assert_eq!(out.len(), 2);
    assert_eq!(out[0].name, "a");
    assert_eq!(value(&out[0], "0"), Some(30));
    assert_eq!(value(&out[0], "1"), Some(10));
    assert_eq!(value(&out[0], "2"), Some(20));
    assert_eq!(out[0].values.len(), 3);
    assert_eq!(out[1].name, "b");
    assert_eq!(value(&out[1], "0"), Some(7));
    assert_eq!(out[1].processes, vec![5]);
    assert_eq!(hist.interval(), 10);
}

#[test]
fn selector_skips_rule_already_visited() {
    let rules = vec![rule(7, &[("host", &[".*"])], "rtt", &["avg"], 3)];
    let outputs = vec![output(1, &[("host", &[".*"])])];
    let s = sample("a", &[("host", "h")], &[("rtt", 1)], vec![7]);
    assert_eq!(route_sample(&s, &rules, &outputs), Route::Output(0));
    let fresh = sample("a", &[("host", "h")], &[("rtt", 1)], vec![]);
    assert_eq!(route_sample(&fresh, &rules, &outputs), Route::Process(0));
}

#[test]
fn selector_first_matching_rule_wins() {
    let rules = vec![
        rule(1, &[("host", &["^db"])], "rtt", &["avg"], 3),
        rule(2, &[("host", &["^web"])], "rtt", &["avg"], 3),
        rule(3, &[("host", &["web-[0-9]+"])], "rtt", &["avg"], 3),
    ];
    let s = sample("a", &[("host", "web-12")], &[("rtt", 1)], vec![]);
    assert_eq!(route_sample(&s, &rules, &vec![]), Route::Process(1));
}

#[test]
fn selector_requires_metric_key() {
    let rules = vec![rule(1, &[("host", &[".*"])], "rtt", &["avg"], 3)];
    let outputs = vec![output(1, &[("host", &["x"])]), output(2, &[("host", &[".*"])])];
    let s = sample("a", &[("host", "h")], &[("loss", 0)], vec![]);
    assert_eq!(route_sample(&s, &rules, &outputs), Route::Output(1));
}

#[test]
fn selector_drops_unmatched() {
    let rules = vec![rule(1, &[("host", &["^x$"])], "rtt", &["avg"], 3)];
    let outputs = vec![output(1, &[("zone", &[".*"])])];
    let s = sample("a", &[("host", "h")], &[("rtt", 0)], vec![]);
    assert_eq!(route_sample(&s, &rules, &outputs), Route::Drop);
}

#[test]
fn label_predicate_needs_every_key_both_ways() {
    let p = predicate(&[("host", &["^web-[0-9]+$"]), ("zone", &["eu", "us"])]);
    assert!(labels_pass(&p, &labels(&[("host", "web-12"), ("zone", "us")])));
    // a label that the predicate does not name
    assert!(!labels_pass(&p, &labels(&[("host", "web-12"), ("zone", "us"), ("x", "y")])));
    // a key that the predicate names but the sample lacks
    assert!(!labels_pass(&p, &labels(&[("host", "web-12")])));
    assert!(!labels_pass(&p, &labels(&[("host", "db-1"), ("zone", "us")])));
    // an invalid pattern matches nothing
    assert!(!labels_pass(&predicate(&[("host", &["("])]), &labels(&[("host", "(")])));
    assert!(labels_pass(&predicate(&[]), &LabelMap::new()));
}

#[test]
fn backoff_after_three_failures() {
    let mut b = Backoff::new(1000);
    b.on_failure(1000);
    b.on_failure(1000);
    b.on_failure(1000);
    assert_eq!(b.retries, 3);
    assert_eq!(b.next_try, 1400);
    assert_eq!(b.wait(1100), 300);
    assert_eq!(b.wait(2000), 0);
    b.on_success();
    assert_eq!(b.retries, 0);
}

#[test]
fn reconnect_delay_doubles_up_to_ten_seconds() {
    assert_eq!(reconnect_delay(0), 50);
    assert_eq!(reconnect_delay(1), 100);
    assert_eq!(reconnect_delay(3), 400);
    assert_eq!(reconnect_delay(7), 6400);
    assert_eq!(reconnect_delay(8), 10_000);
    assert_eq!(reconnect_delay(64), 10_000);
    assert_eq!(reconnect_delay(u64::MAX), 10_000);
}

#[test]
fn mtu_probes_to_unreachable_host_are_lost_with_sizes() {
    let config = probe_config("mtu", vec![64, 512, 1400]);
    let mut checker = IcmpMtuChecker::new(&config);
    let mut now = 0;
    for size in checker.mtu.clone() {
        let (key, packet) = checker.prepare_probe(size, [192, 0, 2, 2], [192, 0, 2, 1]);
        assert_eq!(packet.unwrap().len() as u64, 28 + size);
        assert!(checker.probes.record_send(key, size, true, now).is_empty());
        now += 1000;
    }
    assert!(checker.probes.sweep(1_000_000).is_empty());
    let lost = checker.probes.sweep(3_000_000);
    assert_eq!(lost.len(), 3);
    let sizes: Vec<Option<String>> = lost.iter().map(|s| label(s, "mtu")).collect();
    assert_eq!(sizes, vec![Some("64".to_string()), Some("512".to_string()), Some("1400".to_string())]);
    for s in &lost {
        assert_eq!(value(s, "loss"), Some(UNIT));
        assert_eq!(s.values.len(), 1);
        assert_eq!(label(s, "host"), Some("target".to_string()));
    }
    assert!(checker.probes.sweep(10_000_000).is_empty());
}

fn echo_reply(identifier: u16, sequence: u16) -> Vec<u8> {
    vec![0, 0, 0, 0, (identifier >> 8) as u8, identifier as u8, (sequence >> 8) as u8, sequence as u8]
}

#[test]
fn answered_probe_yields_rtt_and_no_loss_once() {
    let config = probe_config("echo", vec![56]);
    let mut checker = IcmpChecker::new(&config);
    let (key, packet) = checker.prepare_probe([10, 0, 0, 2], [10, 0, 0, 1]);
    assert_eq!(packet.unwrap().len(), 84);
    let CorrelationKey::Echo { identifier, sequence } = key else { panic!("not an echo key") };
    assert_eq!(sequence, 0);
    assert!(checker.probes.record_send(key, 0, true, 5_000).is_empty());
    // from another host: ignored
    assert!(checker.on_packet(&echo_reply(identifier, sequence), false, 6_000).is_empty());
    let out = checker.on_packet(&echo_reply(identifier, sequence), true, 6_500);
    assert_eq!(out.len(), 2);
    // 1500 us at precision 1000: 1.5
    assert_eq!(value(&out[0], "rtt"), Some(1_500_000));
    assert_eq!(value(&out[1], "loss"), Some(0));
    assert_eq!(out[0].name, "echo");
    assert!(out[0].processes.is_empty());
    // answered once only, and never declared lost
    assert!(checker.on_packet(&echo_reply(identifier, sequence), true, 7_000).is_empty());
    assert!(checker.probes.sweep(100_000_000).is_empty());
}

#[test]
fn failed_send_is_lost_at_once() {
    let config = probe_config("echo", vec![56]);
    let mut checker = IcmpChecker::new(&config);
    let key = CorrelationKey::Echo { identifier: 1, sequence: 0 };
    let out = checker.probes.record_send(key, 0, false, 0);
    assert_eq!(out.len(), 1);
    assert_eq!(value(&out[0], "loss"), Some(UNIT));
    assert_eq!(checker.probes.table.len(), 0);
}

#[test]
fn pending_table_matches_earliest_and_sweeps_expired() {
    let mut t = PendingTable::new();
    let k = CorrelationKey::Ack(5);
    t.add(PendingProbe { key: k, sent_at: 10, extra: 1 });
    t.add(PendingProbe { key: CorrelationKey::Ack(6), sent_at: 20, extra: 2 });
    t.add(PendingProbe { key: k, sent_at: 30, extra: 3 });
    assert_eq!(t.match_reply(k).unwrap().extra, 1);
    assert_eq!(t.match_reply(CorrelationKey::Ack(7)), None);
    // age must exceed the timeout
    assert!(t.sweep(120, 100).is_empty());
    let lost = t.sweep(121, 100);
    assert_eq!(lost.len(), 1);
    assert_eq!(lost[0].extra, 2);
    assert_eq!(t.len(), 1);
}

#[test]
fn syn_probe_is_answered_by_ack() {
    let mut config = probe_config("syn", vec![]);
    config.port = 8080;
    let mut checker = SynChecker::new(&config);
    let (key, packet) = checker.probe_packet(0xffff_ffff, [10, 0, 0, 2], [10, 0, 0, 1]);
    assert_eq!(key, CorrelationKey::Ack(0));
    assert_eq!(packet.len(), 52);
    let (key, packet) = checker.prepare_probe([10, 0, 0, 2], [10, 0, 0, 1]);
    let seq = u32::from_be_bytes([packet[24], packet[25], packet[26], packet[27]]);
    assert_eq!(key, CorrelationKey::Ack(seq.wrapping_add(1)));
    assert!(checker.probes.record_send(key, 0, true, 0).is_empty());
    let ack = seq.wrapping_add(1).to_be_bytes();
    let mut answer = vec![0u8; 20];
    answer[0..2].copy_from_slice(&8080u16.to_be_bytes());
    answer[2..4].copy_from_slice(&6535u16.to_be_bytes());
    answer[8..12].copy_from_slice(&ack);
    let mut wrong_port = answer.clone();
    wrong_port[1] = 81;
    assert!(checker.on_packet(&wrong_port, true, 10).is_empty());
    let out = checker.on_packet(&answer, true, 2_000);
    assert_eq!(out.len(), 2);
    assert_eq!(value(&out[0], "rtt"), Some(2_000_000));
}

fn ones_complement(data: &[u8], skip: usize) -> u16 {
    let mut sum: u32 = 0;
    for (i, pair) in data.chunks(2).enumerate() {
        if i == skip {
            continue;
        }
        let hi = pair[0] as u32;
        let lo = if pair.len() > 1 { pair[1] as u32 } else { 0 };
        sum += (hi << 8) | lo;
    }
    while sum >> 16 != 0 {
        sum = (sum >> 16) + (sum & 0xffff);
    }
    !(sum as u16)
}

#[test]
fn echo_request_carries_checksum() {
    let p = build_echo_request(0x1234, 0, 0);
    assert_eq!(p, vec![8, 0, 0xe5, 0xcb, 0x12, 0x34, 0, 0]);
    let q = build_echo_request(7, 9, 5);
    assert_eq!(q.len(), 13);
    assert_eq!(u16::from_be_bytes([q[2], q[3]]), ones_complement(&q, 1));
}

#[test]
fn ipv4_header_fields_and_checksum() {
    let payload = vec![1, 2, 3];
    let p = build_ipv4(1, [10, 0, 0, 2], [10, 0, 0, 1], &payload);
    assert_eq!(p.len(), 23);
    assert_eq!(&p[0..10], &[0x45, 0, 0, 23, 0, 0, 0x40, 0, 255, 1]);
    assert_eq!(&p[12..20], &[10, 0, 0, 2, 10, 0, 0, 1]);
    assert_eq!(u16::from_be_bytes([p[10], p[11]]), ones_complement(&p[..20], 5));
    assert_ne!(u16::from_be_bytes([p[10], p[11]]), 0);
    assert_eq!(&p[20..], &[1, 2, 3]);
}

#[test]
fn syn_segment_fields_and_checksum() {
    let s = build_syn(443, 0x0102_0304, [10, 0, 0, 2], [10, 0, 0, 1]);
    assert_eq!(s.len(), 32);
    assert_eq!(&s[0..16], &[0x19, 0x87, 0x01, 0xbb, 1, 2, 3, 4, 0, 0, 0, 0, 0x80, 2, 0xfa, 0xf0]);
    assert_eq!(&s[20..], &[2, 4, 5, 0xb4, 4, 2, 1, 3, 3, 8, 0, 0]);
    let mut pseudo = vec![10, 0, 0, 2, 10, 0, 0, 1, 0, 6, 0, 32];
    pseudo.extend_from_slice(&s);
    assert_eq!(u16::from_be_bytes([s[16], s[17]]), ones_complement(&pseudo, 14));
}

#[test]
fn echo_packet_too_large_is_refused() {
    assert!(echo_probe_packet(1, 65507, [0; 4], [0; 4]).is_some());
    assert!(echo_probe_packet(1, 65508, [0; 4], [0; 4]).is_none());
}

#[test]
fn replies_are_decoded() {
    assert_eq!(decode_echo_reply(&echo_reply(0xabcd, 3)), Some(CorrelationKey::Echo { identifier: 0xabcd, sequence: 3 }));
    let mut request = echo_reply(1, 1);
    request[0] = 8;
    assert_eq!(decode_echo_reply(&request), None);
    assert_eq!(decode_echo_reply(&[0, 0, 0]), None);
    assert_eq!(decode_syn_answer(&[0u8; 19], 0), None);
}

#[test]
fn rtt_conversion() {
    assert_eq!(rtt_of(1500, 1000), 1_500_000);
    assert_eq!(rtt_of(1500, 1), 1_500_000_000);
    assert_eq!(rtt_of(7, 0), 7_000_000);
    assert_eq!(rtt_of(u64::MAX, 1), i64::MAX);
    assert_eq!(secs_to_micros(2), 2_000_000);
    assert_eq!(secs_to_micros(u64::MAX), u64::MAX);
}

#[test]
fn synchronous_probe_outcomes() {
    let config = probe_config("tcp", vec![]);
    let tcp = TcpConnectChecker::new(&config);
    let ok = tcp.outcome(Some(250));
    assert_eq!(ok.len(), 2);
    assert_eq!(value(&ok[0], "rtt"), Some(250_000));
    assert_eq!(value(&ok[1], "loss"), Some(0));
    let lost = tcp.outcome(None);
    assert_eq!(lost.len(), 1);
    assert_eq!(value(&lost[0], "loss"), Some(UNIT));
    let udp = UdpClientChecker::new(&config);
    assert_eq!(udp.source, "192.0.2.2");
    assert_eq!(value(&udp.outcome(None)[0], "loss"), Some(UNIT));
    let server = UdpServerChecker::new(&config);
    let s = server.on_datagram("192.0.2.9:4000".to_string());
    assert_eq!(value(&s, "192.0.2.9:4000"), Some(UNIT));
    assert_eq!(label(&s, "host"), Some("target".to_string()));
}

#[test]
fn metric_values_are_written_in_decimal() {
    assert_eq!(value_string(4 * UNIT), "4");
    assert_eq!(value_string(12_400_000), "12.4");
    assert_eq!(value_string(-1_500_000), "-1.5");
    assert_eq!(value_string(1), "0.000001");
    assert_eq!(value_string(0), "0");
    assert_eq!(value_string(i64::MIN), "-9223372036854.775808");
    assert_eq!(decimal_string(0), "0");
    assert_eq!(decimal_string(1400), "1400");
    assert_eq!(decimal_string(u64::MAX), "18446744073709551615");
}

#[test]
fn graphite_line_format() {
    let names = vec!["host".to_string(), "mtu".to_string(), "zone".to_string()];
    let l = labels(&[("host", "a"), ("zone", "eu")]);
    let line = format_line(&"checks".to_string(), &names, &l, &"rtt".to_string(), 1_500_000, 1_700_000_000);
    assert_eq!(line, "checks.a.eu.rtt 1.5 1700000000\n");
}

#[test]
fn graphite_buffer_drops_oldest() {
    let mut config = output(1, &[]);
    config.max_buffer = 2;
    let mut g = GraphiteOutput::new(&config, 0);
    let s = sample("a", &[("host", "h")], &[("x", 1), ("y", 2), ("z", 3)], vec![]);
    let lines = g.process_probe(&s, 10);
    assert_eq!(lines, vec!["checks.h.y 0.000002 10\n".to_string(), "checks.h.z 0.000003 10\n".to_string()]);
    assert!(g.buffer.is_empty());
    g.keep("one\n".to_string());
    g.keep("two\n".to_string());
    g.keep("three\n".to_string());
    assert_eq!(g.buffer, vec!["two\n".to_string(), "three\n".to_string()]);
}

#[test]
fn label_map_replaces_and_extends() {
    let mut a = labels(&[("k", "1"), ("j", "2")]);
    a.insert("k".to_string(), "3".to_string());
    assert_eq!(a.len(), 2);
    assert_eq!(a.get(&"k".to_string()), Some(&"3".to_string()));
    a.extend(&labels(&[("j", "4"), ("m", "5")]));
    assert_eq!(a.len(), 3);
    assert_eq!(a.get(&"j".to_string()), Some(&"4".to_string()));
    assert_eq!(a.duplicate().get(&"m".to_string()), Some(&"5".to_string()));
    assert_eq!(a.get(&"zz".to_string()), None);
}

#[test]
fn print_output_keeps_id() {
    assert_eq!(PrintOutput::new(12).id, 12);
}
