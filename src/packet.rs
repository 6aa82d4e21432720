use vstd::prelude::*;
use crate::pending::CorrelationKey;

verus! {

/// The source port of every SYN probe.
pub const SYN_SOURCE_PORT: u16 = 6535;

/// The largest IPv4 packet.
pub const MAX_PACKET: usize = 65535;

/// The Internet checksum of `data`, with the 16-bit word at index `skipword` left out.
pub uninterp spec fn checksum_of(data: Seq<u8>, skipword: nat) -> u16;

/// The checksum of a transport segment over IPv4, pseudo-header included.
pub uninterp spec fn ipv4_checksum_of(
    data: Seq<u8>,
    skipword: nat,
    source: Seq<u8>,
    destination: Seq<u8>,
    protocol: u8,
) -> u16;

/// Relies on `pnet::util::checksum`: the Internet checksum of the data, with
/// the word at index `skipword` left out. Its 32-bit running sum cannot
/// overflow on data of at most 65535 bytes.
#[verifier::external_body]
fn internet_checksum(data: &Vec<u8>, skipword: usize) -> (r: u16)
    requires
        data@.len() <= MAX_PACKET,
    ensures
        r == checksum_of(data@, skipword as nat),
{
    pnet::util::checksum(data.as_slice(), skipword)
}

/// Relies on `pnet::util::ipv4_checksum`: the checksum of a transport segment
/// and its IPv4 pseudo-header, with the word at index `skipword` left out.
#[verifier::external_body]
fn transport_checksum(
    data: &Vec<u8>,
    skipword: usize,
    source: [u8; 4],
    destination: [u8; 4],
    protocol: u8,
) -> (r: u16)
    requires
        data@.len() <= MAX_PACKET,
    ensures
        r == ipv4_checksum_of(data@, skipword as nat, source@, destination@, protocol),
{
    pnet::util::ipv4_checksum(
        data.as_slice(),
        skipword,
        &[],
        &pnet::util::core_net::Ipv4Addr::from(source),
        &pnet::util::core_net::Ipv4Addr::from(destination),
        pnet::packet::ip::IpNextHeaderProtocol::new(protocol),
    )
}

/// `x` in two bytes, most significant first.
pub open spec fn be16(x: u16) -> Seq<u8> {
    seq![(x / 256) as u8, (x % 256) as u8]
}

/// `x` in four bytes, most significant first.
pub open spec fn be32(x: u32) -> Seq<u8> {
    seq![
        (x / 0x100_0000) as u8,
        ((x / 0x1_0000) % 256) as u8,
        ((x / 256) % 256) as u8,
        (x % 256) as u8,
    ]
}

/// The two bytes at `off`, most significant first.
pub open spec fn read16(b: Seq<u8>, off: int) -> u16 {
    (b[off] * 256 + b[off + 1]) as u16
}

/// The four bytes at `off`, most significant first.
pub open spec fn read32(b: Seq<u8>, off: int) -> u32 {
    (b[off] * 0x100_0000 + b[off + 1] * 0x1_0000 + b[off + 2] * 256 + b[off + 3]) as u32
}

/// `b` with the checksum `c` written at `at`.
pub open spec fn with_checksum(b: Seq<u8>, at: int, c: u16) -> Seq<u8> {
    b.update(at, (c / 256) as u8).update(at + 1, (c % 256) as u8)
}

/// An ICMP echo request before its checksum: type 8, code 0, identifier,
/// sequence number and `len` zero bytes of payload.
pub open spec fn echo_request_raw(identifier: u16, sequence: u16, len: nat) -> Seq<u8> {
    seq![8u8, 0u8, 0u8, 0u8] + be16(identifier) + be16(sequence) + Seq::new(len, |i: int| 0u8)
}

/// An ICMP echo request.
pub open spec fn echo_request(identifier: u16, sequence: u16, len: nat) -> Seq<u8> {
    let raw = echo_request_raw(identifier, sequence, len);
    with_checksum(raw, 2, checksum_of(raw, 1))
}

/// An IPv4 header before its checksum: version 4, five words, the total
/// length, don't-fragment, time to live 255, and the protocol and addresses.
pub open spec fn ipv4_header_raw(total: u16, protocol: u8, source: Seq<u8>, destination: Seq<u8>) -> Seq<u8> {
    seq![0x45u8, 0u8] + be16(total) + seq![0u8, 0u8, 0x40u8, 0u8, 255u8, protocol, 0u8, 0u8]
        + source + destination
}

/// An IPv4 packet around `payload`.
pub open spec fn ipv4_packet(protocol: u8, source: Seq<u8>, destination: Seq<u8>, payload: Seq<u8>) -> Seq<u8> {
    let raw = ipv4_header_raw((20 + payload.len()) as u16, protocol, source, destination);
    with_checksum(raw, 10, checksum_of(raw, 5)) + payload
}

/// A TCP SYN segment before its checksum: a 32-byte header with the options
/// MSS 1460, SACK permitted, a no-op and window scale 8.
pub open spec fn syn_segment_raw(port: u16, sequence: u32) -> Seq<u8> {
    be16(SYN_SOURCE_PORT) + be16(port) + be32(sequence) + be32(0) + seq![0x80u8, 2u8] + be16(
        64240,
    ) + seq![0u8, 0u8, 0u8, 0u8] + seq![2u8, 4u8, 0x05u8, 0xb4u8, 4u8, 2u8, 1u8, 3u8, 3u8, 8u8, 0u8, 0u8]
}

/// A TCP SYN segment from `source` to `destination`.
pub open spec fn syn_segment(port: u16, sequence: u32, source: Seq<u8>, destination: Seq<u8>) -> Seq<u8> {
    let raw = syn_segment_raw(port, sequence);
    with_checksum(raw, 16, ipv4_checksum_of(raw, 8, source, destination, 6))
}

fn push16(v: &mut Vec<u8>, x: u16)
    ensures
        final(v)@ == old(v)@ + be16(x),
{
    v.push((x / 256) as u8);
    v.push((x % 256) as u8);
    assert(final(v)@ =~= old(v)@ + be16(x));
}

fn push32(v: &mut Vec<u8>, x: u32)
    ensures
        final(v)@ == old(v)@ + be32(x),
{
    v.push((x / 0x100_0000) as u8);
    v.push(((x / 0x1_0000) % 256) as u8);
    v.push(((x / 256) % 256) as u8);
    v.push((x % 256) as u8);
    assert(final(v)@ =~= old(v)@ + be32(x));
}

fn push_all(v: &mut Vec<u8>, bytes: &[u8])
    ensures
        final(v)@ == old(v)@ + bytes@,
{
    let mut i: usize = 0;
    while i < bytes.len()
        invariant
            i <= bytes@.len(),
            v@ == old(v)@ + bytes@.take(i as int),
        decreases bytes@.len() - i,
    {
        v.push(bytes[i]);
        assert(bytes@.take(i + 1) =~= bytes@.take(i as int).push(bytes@[i as int]));
        assert(v@ =~= old(v)@ + bytes@.take(i + 1));
        i = i + 1;
    }
    assert(bytes@.take(bytes@.len() as int) =~= bytes@);
}

fn set_checksum(v: &mut Vec<u8>, at: usize, c: u16)
    requires
        at + 1 < old(v)@.len(),
        at < MAX_PACKET,
    ensures
        final(v)@ == with_checksum(old(v)@, at as int, c),
{
    v.set(at, (c / 256) as u8);
    v.set(at + 1, (c % 256) as u8);
}

/// Builds an ICMP echo request with `len` bytes of payload.
pub fn build_echo_request(identifier: u16, sequence: u16, len: usize) -> (r: Vec<u8>)
    requires
        len + 8 <= MAX_PACKET,
    ensures
        r@ == echo_request(identifier, sequence, len as nat),
{
    let mut v: Vec<u8> = Vec::new();
    v.push(8);
    v.push(0);
    v.push(0);
    v.push(0);
    push16(&mut v, identifier);
    push16(&mut v, sequence);
    let ghost head = v@;
    let mut i: usize = 0;
    while i < len
        invariant
            i <= len,
            v@ == head + Seq::new(i as nat, |k: int| 0u8),
        decreases len - i,
    {
        v.push(0);
        assert(v@ =~= head + Seq::new((i + 1) as nat, |k: int| 0u8));
        i = i + 1;
    }
    assert(v@ =~= echo_request_raw(identifier, sequence, len as nat));
    let c = internet_checksum(&v, 1);
    set_checksum(&mut v, 2, c);
    v
}

/// Wraps `payload` in an IPv4 packet from `source` to `destination`.
pub fn build_ipv4(protocol: u8, source: [u8; 4], destination: [u8; 4], payload: &Vec<u8>) -> (r:
    Vec<u8>)
    requires
        payload@.len() + 20 <= MAX_PACKET,
    ensures
        r@ == ipv4_packet(protocol, source@, destination@, payload@),
{
    let total = (20 + payload.len()) as u16;
    let mut v: Vec<u8> = Vec::new();
    v.push(0x45);
    v.push(0);
    push16(&mut v, total);
    v.push(0);
    v.push(0);
    v.push(0x40);
    v.push(0);
    v.push(255);
    v.push(protocol);
    v.push(0);
    v.push(0);
    push_all(&mut v, &source);
    push_all(&mut v, &destination);
    assert(v@ =~= ipv4_header_raw(total, protocol, source@, destination@));
    let c = internet_checksum(&v, 5);
    set_checksum(&mut v, 10, c);
    let ghost header = v@;
    push_all(&mut v, payload.as_slice());
    assert(v@ =~= header + payload@);
    v
}

/// Builds a TCP SYN segment to `port` with sequence number `sequence`.
pub fn build_syn(port: u16, sequence: u32, source: [u8; 4], destination: [u8; 4]) -> (r: Vec<u8>)
    ensures
        r@ == syn_segment(port, sequence, source@, destination@),
{
    let mut v: Vec<u8> = Vec::new();
    push16(&mut v, SYN_SOURCE_PORT);
    push16(&mut v, port);
    push32(&mut v, sequence);
    push32(&mut v, 0);
    v.push(0x80);
    v.push(2);
    push16(&mut v, 64240);
    v.push(0);
    v.push(0);
    v.push(0);
    v.push(0);
    let options: [u8; 12] = [2, 4, 0x05, 0xb4, 4, 2, 1, 3, 3, 8, 0, 0];
    push_all(&mut v, &options);
    assert(options@ =~= seq![2u8, 4u8, 0x05u8, 0xb4u8, 4u8, 2u8, 1u8, 3u8, 3u8, 8u8, 0u8, 0u8]);
    assert(v@ =~= syn_segment_raw(port, sequence));
    let c = transport_checksum(&v, 8, source, destination, 6);
    set_checksum(&mut v, 16, c);
    v
}

fn get16(b: &[u8], off: usize) -> (r: u16)
    requires
        off + 1 < b@.len(),
    ensures
        r == read16(b@, off as int),
{
    (b[off] as u16) * 256 + (b[off + 1] as u16)
}

fn get32(b: &[u8], off: usize) -> (r: u32)
    requires
        off + 3 < b@.len(),
    ensures
        r == read32(b@, off as int),
{
    (b[off] as u32) * 0x100_0000 + (b[off + 1] as u32) * 0x1_0000 + (b[off + 2] as u32) * 256 + (
    b[off + 3] as u32)
}

/// The correlation key of an ICMP message, if it is an echo reply: type 0,
/// at least the 8 bytes of its header.
pub open spec fn echo_reply_key(b: Seq<u8>) -> Option<CorrelationKey> {
    if b.len() >= 8 && b[0] == 0 {
        Some(CorrelationKey::Echo { identifier: read16(b, 4), sequence: read16(b, 6) })
    } else {
        None
    }
}

/// The correlation key of a TCP segment, if it answers a SYN probe sent to
/// `port`: a full 20-byte header from that port to the probes' source port.
pub open spec fn syn_answer_key(b: Seq<u8>, port: u16) -> Option<CorrelationKey> {
    if b.len() >= 20 && read16(b, 0) == port && read16(b, 2) == SYN_SOURCE_PORT {
        Some(CorrelationKey::Ack(read32(b, 8)))
    } else {
        None
    }
}

pub fn decode_echo_reply(b: &[u8]) -> (r: Option<CorrelationKey>)
    ensures
        r == echo_reply_key(b@),
{
    if b.len() >= 8 && b[0] == 0 {
        Some(CorrelationKey::Echo { identifier: get16(b, 4), sequence: get16(b, 6) })
    } else {
        None
    }
}

pub fn decode_syn_answer(b: &[u8], port: u16) -> (r: Option<CorrelationKey>)
    ensures
        r == syn_answer_key(b@, port),
{
    if b.len() >= 20 && get16(b, 0) == port && get16(b, 2) == SYN_SOURCE_PORT {
        Some(CorrelationKey::Ack(get32(b, 8)))
    } else {
        None
    }
}

} // verus!
