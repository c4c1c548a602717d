//! Replies of the virtual network responder to single Ethernet frames.
//!
//! Only ARP requests and ICMP echo requests over IPv4 are answered; every
//! other frame, and every malformed one, gets no reply.

use crate::wire::{
    append_range, be16, checksum_of, opt_seq, internet_checksum, lemma_ones_sum_range, push_u16_be,
    read_u16_be, u16_at, with_u16_at, word_count,
};
use vstd::prelude::*;

verus! {

pub const ETHERTYPE_IPV4: u16 = 0x0800;

pub const ETHERTYPE_ARP: u16 = 0x0806;

pub const ETHERNET_HEADER_LEN: usize = 14;

pub const ARP_MESSAGE_END: usize = 42;

pub const IP_PROTOCOL_ICMP: u8 = 1;

pub const ICMP_ECHO_REQUEST: u8 = 8;

pub const ICMP_ECHO_REPLY: u8 = 0;

pub const ARP_OP_REQUEST: u16 = 1;

/// High byte of the IPv4 flags and fragment offset with Don't Fragment set.
pub const IP_FLAGS_DONT_FRAGMENT: u8 = 0x40;

pub const ARP_OP_REPLY: u16 = 2;

/// The hardware address under which the responder answers.
pub open spec fn relay_mac() -> Seq<u8> {
    seq![0x01u8, 0x02u8, 0x03u8, 0x04u8, 0x05u8, 0x06u8]
}

pub open spec fn eth_dst(f: Seq<u8>) -> Seq<u8> {
    f.subrange(0, 6)
}

pub open spec fn eth_src(f: Seq<u8>) -> Seq<u8> {
    f.subrange(6, 12)
}

pub open spec fn ethertype(f: Seq<u8>) -> int {
    u16_at(f, 12)
}

pub open spec fn arp_oper(f: Seq<u8>) -> int {
    u16_at(f, 20)
}

pub open spec fn arp_sha(f: Seq<u8>) -> Seq<u8> {
    f.subrange(22, 28)
}

pub open spec fn arp_spa(f: Seq<u8>) -> Seq<u8> {
    f.subrange(28, 32)
}

pub open spec fn arp_tha(f: Seq<u8>) -> Seq<u8> {
    f.subrange(32, 38)
}

pub open spec fn arp_tpa(f: Seq<u8>) -> Seq<u8> {
    f.subrange(38, 42)
}

/// The hardware type, protocol type and the two address lengths of an ARP
/// message.
pub open spec fn arp_header(f: Seq<u8>) -> Seq<u8> {
    f.subrange(14, 20)
}

/// An Ethernet frame carrying an ARP request. Its fields are read at the
/// places that Ethernet hardware and IPv4 addresses give them.
pub open spec fn is_arp_request(f: Seq<u8>) -> bool {
    &&& f.len() >= 42
    &&& ethertype(f) == 0x0806
    &&& arp_oper(f) == 1
}

/// The answer to an ARP request: the responder claims the requested address;
/// hardware type, protocol type and address lengths are copied.
pub open spec fn arp_reply_of(f: Seq<u8>) -> Seq<u8> {
    eth_src(f) + eth_dst(f) + be16(0x0806) + arp_header(f) + be16(2) + relay_mac() + arp_tpa(f)
        + arp_sha(f) + arp_spa(f)
}

pub open spec fn ip_version(f: Seq<u8>) -> int {
    f[14] as int / 16
}

pub open spec fn ip_ihl(f: Seq<u8>) -> int {
    f[14] as int % 16
}

pub open spec fn ip_total_len(f: Seq<u8>) -> int {
    u16_at(f, 16)
}

pub open spec fn ip_ident(f: Seq<u8>) -> int {
    u16_at(f, 18)
}

pub open spec fn ip_ttl(f: Seq<u8>) -> u8 {
    f[22]
}

pub open spec fn ip_protocol(f: Seq<u8>) -> u8 {
    f[23]
}

pub open spec fn ip_src(f: Seq<u8>) -> Seq<u8> {
    f.subrange(26, 30)
}

pub open spec fn ip_dst(f: Seq<u8>) -> Seq<u8> {
    f.subrange(30, 34)
}

/// The IPv4 header of a frame, options included.
pub open spec fn ip_header(f: Seq<u8>) -> Seq<u8> {
    f.subrange(14, 14 + ip_ihl(f) * 4)
}

/// The ICMP message that an IPv4 datagram in `f` carries.
pub open spec fn icmp_msg(f: Seq<u8>) -> Seq<u8> {
    f.subrange(14 + ip_ihl(f) * 4, 14 + ip_total_len(f))
}

pub open spec fn icmp_type(m: Seq<u8>) -> u8 {
    m[0]
}

pub open spec fn icmp_code(m: Seq<u8>) -> u8 {
    m[1]
}

pub open spec fn icmp_ident(m: Seq<u8>) -> int {
    u16_at(m, 4)
}

pub open spec fn icmp_seq(m: Seq<u8>) -> int {
    u16_at(m, 6)
}

pub open spec fn icmp_payload(m: Seq<u8>) -> Seq<u8> {
    m.subrange(8, m.len() as int)
}

/// Whether the checksum field at `at` matches the Internet checksum of `s`
/// taken with that field zeroed.
pub open spec fn checksum_field_valid(s: Seq<u8>, at: int) -> bool {
    u16_at(s, at) == checksum_of(with_u16_at(s, at, 0))
}

/// A well-formed IPv4 datagram in an Ethernet frame.
pub open spec fn is_ipv4(f: Seq<u8>) -> bool {
    &&& f.len() >= 34
    &&& ethertype(f) == 0x0800
    &&& ip_version(f) == 4
    &&& ip_ihl(f) >= 5
    &&& ip_total_len(f) >= ip_ihl(f) * 4 + 8
    &&& 14 + ip_total_len(f) <= f.len()
}

/// An ICMP echo request over IPv4, with intact IPv4 header and ICMP
/// checksums.
pub open spec fn is_echo_request(f: Seq<u8>) -> bool {
    &&& is_ipv4(f)
    &&& checksum_field_valid(ip_header(f), 10)
    &&& checksum_field_valid(icmp_msg(f), 2)
    &&& ip_protocol(f) == 1
    &&& icmp_type(icmp_msg(f)) == 8
}

/// The TTL of a reply: one less than the request's, never below zero.
pub open spec fn reply_ttl(ttl: u8) -> u8 {
    if ttl > 0 {
        (ttl - 1) as u8
    } else {
        0
    }
}

/// An echo reply message before its checksum is filled in; the request's
/// code is copied.
pub open spec fn echo_reply_unsummed(m: Seq<u8>) -> Seq<u8> {
    seq![0u8, m[1], 0u8, 0u8] + m.subrange(4, m.len() as int)
}

/// The echo reply to the echo request message `m`.
pub open spec fn echo_reply_of(m: Seq<u8>) -> Seq<u8> {
    with_u16_at(echo_reply_unsummed(m), 2, checksum_of(echo_reply_unsummed(m)) as u16)
}

/// The reply's IPv4 header before its checksum is filled in.
pub open spec fn ip_reply_header_unsummed(f: Seq<u8>, payload_len: int, ident: u16) -> Seq<u8> {
    seq![0x45u8, f[15]] + be16((20 + payload_len) as u16) + be16(ident) + seq![
        0x40u8,
        0u8,
        reply_ttl(ip_ttl(f)),
        1u8,
        0u8,
        0u8,
    ] + ip_dst(f) + ip_src(f)
}

/// The reply's IPv4 header: no options, addresses swapped, fresh
/// identification and checksum.
pub open spec fn ip_reply_header(f: Seq<u8>, payload_len: int, ident: u16) -> Seq<u8> {
    let h = ip_reply_header_unsummed(f, payload_len, ident);
    with_u16_at(h, 10, checksum_of(h) as u16)
}

/// The whole frame that answers the echo request in `f`.
pub open spec fn echo_reply_frame(f: Seq<u8>, ident: u16) -> Seq<u8> {
    eth_src(f) + eth_dst(f) + be16(0x0800) + ip_reply_header(f, icmp_msg(f).len() as int, ident)
        + echo_reply_of(icmp_msg(f))
}

/// The responder's answer to one frame, if any; `ident` is the
/// identification an IPv4 reply carries.
#[verifier::opaque]
pub open spec fn frame_reply(f: Seq<u8>, ident: u16) -> Option<Seq<u8>> {
    if is_arp_request(f) {
        Some(arp_reply_of(f))
    } else if is_echo_request(f) {
        Some(echo_reply_frame(f, ident))
    } else {
        None
    }
}

/// Whether answering `f` uses up an IPv4 identification value.
#[verifier::opaque]
pub open spec fn uses_ident(f: Seq<u8>) -> bool {
    !is_arp_request(f) && is_echo_request(f)
}

fn push_relay_mac(out: &mut Vec<u8>)
    ensures
        final(out)@ == old(out)@ + relay_mac(),
{
    out.push(0x01);
    out.push(0x02);
    out.push(0x03);
    out.push(0x04);
    out.push(0x05);
    out.push(0x06);
    assert(final(out)@ =~= old(out)@ + relay_mac());
}

fn check_arp_request(f: &[u8]) -> (r: bool)
    ensures
        r == is_arp_request(f@),
{
    f.len() >= ARP_MESSAGE_END && read_u16_be(f, 12) == ETHERTYPE_ARP && read_u16_be(f, 20)
        == ARP_OP_REQUEST
}

/// Whether the checksum field at `at` of `f[start..end]` is intact.
fn field_checksum_ok(f: &[u8], start: usize, end: usize, at: usize) -> (r: bool)
    requires
        start <= end <= f@.len(),
        at + 1 < end - start,
    ensures
        r == checksum_field_valid(f@.subrange(start as int, end as int), at as int),
{
    let mut part: Vec<u8> = Vec::new();
    append_range(&mut part, f, start, end);
    let stored = read_u16_be(part.as_slice(), at);
    set_u16_be(&mut part, at, 0);
    internet_checksum(part.as_slice()) == stored
}

fn check_echo_request(f: &[u8]) -> (r: bool)
    ensures
        r == is_echo_request(f@),
{
    if f.len() < 34 || read_u16_be(f, 12) != ETHERTYPE_IPV4 || f[14] / 16 != 4 || f[14] % 16 < 5 {
        return false;
    }
    let hl: usize = (f[14] % 16) as usize * 4;
    let total: usize = read_u16_be(f, 16) as usize;
    if total < hl + 8 || ETHERNET_HEADER_LEN + total > f.len() {
        return false;
    }
    let start: usize = ETHERNET_HEADER_LEN + hl;
    assert(icmp_msg(f@)[0] == f@[start as int]);
    let end: usize = ETHERNET_HEADER_LEN + total;
    f[23] == IP_PROTOCOL_ICMP && f[start] == ICMP_ECHO_REQUEST
        && field_checksum_ok(f, ETHERNET_HEADER_LEN, start, 10)
        && field_checksum_ok(f, start, end, 2)
}

/// Builds the answer to an ARP request.
pub fn arp_reply(f: &[u8]) -> (r: Vec<u8>)
    requires
        is_arp_request(f@),
    ensures
        r@ == arp_reply_of(f@),
{
    let mut out: Vec<u8> = Vec::new();
    append_range(&mut out, f, 6, 12);
    append_range(&mut out, f, 0, 6);
    push_u16_be(&mut out, ETHERTYPE_ARP);
    append_range(&mut out, f, 14, 20);
    push_u16_be(&mut out, ARP_OP_REPLY);
    push_relay_mac(&mut out);
    append_range(&mut out, f, 38, 42);
    append_range(&mut out, f, 22, 28);
    append_range(&mut out, f, 28, 32);
    assert(out@ =~= arp_reply_of(f@));
    out
}

/// Writes the big-endian `v` at `at`.
fn set_u16_be(s: &mut Vec<u8>, at: usize, v: u16)
    requires
        at + 1 < old(s)@.len(),
    ensures
        final(s)@ == with_u16_at(old(s)@, at as int, v),
{
    let n = s.len();
    assert(at + 1 < n);
    let next: usize = at + 1;
    s.set(at, (v / 256) as u8);
    s.set(next, (v % 256) as u8);
}

/// Builds the echo reply message to the echo request message `m[start..end]`.
fn echo_reply_body(f: &[u8], start: usize, end: usize) -> (r: Vec<u8>)
    requires
        start + 8 <= end <= f@.len(),
    ensures
        r@ == echo_reply_of(f@.subrange(start as int, end as int)),
{
    let ghost m = f@.subrange(start as int, end as int);
    let mut body: Vec<u8> = Vec::new();
    body.push(ICMP_ECHO_REPLY);
    body.push(f[start + 1]);
    body.push(0);
    body.push(0);
    append_range(&mut body, f, start + 4, end);
    assert(body@ =~= echo_reply_unsummed(m));
    let c = internet_checksum(body.as_slice());
    set_u16_be(&mut body, 2, c);
    body
}

/// Builds the IPv4 header of the reply to the datagram in `f`.
fn ip_reply_header_bytes(f: &[u8], payload_len: usize, ident: u16) -> (r: Vec<u8>)
    requires
        f@.len() >= 34,
        payload_len + 20 <= 0xffff,
    ensures
        r@ == ip_reply_header(f@, payload_len as int, ident),
{
    let mut h: Vec<u8> = Vec::new();
    h.push(0x45);
    h.push(f[15]);
    push_u16_be(&mut h, (20 + payload_len) as u16);
    push_u16_be(&mut h, ident);
    h.push(IP_FLAGS_DONT_FRAGMENT);
    h.push(0);
    let ttl = f[22];
    h.push(if ttl > 0 { ttl - 1 } else { 0 });
    h.push(IP_PROTOCOL_ICMP);
    h.push(0);
    h.push(0);
    append_range(&mut h, f, 30, 34);
    append_range(&mut h, f, 26, 30);
    assert(h@ =~= ip_reply_header_unsummed(f@, payload_len as int, ident));
    let c = internet_checksum(h.as_slice());
    set_u16_be(&mut h, 10, c);
    h
}

/// Builds the answer to an ICMP echo request.
pub fn echo_reply(f: &[u8], ident: u16) -> (r: Vec<u8>)
    requires
        is_echo_request(f@),
    ensures
        r@ == echo_reply_frame(f@, ident),
{
    let hl: usize = (f[14] % 16) as usize * 4;
    let total: usize = read_u16_be(f, 16) as usize;
    let start: usize = ETHERNET_HEADER_LEN + hl;
    let end: usize = ETHERNET_HEADER_LEN + total;
    let mut out: Vec<u8> = Vec::new();
    append_range(&mut out, f, 6, 12);
    append_range(&mut out, f, 0, 6);
    push_u16_be(&mut out, ETHERTYPE_IPV4);
    let h = ip_reply_header_bytes(f, end - start, ident);
    append_range(&mut out, h.as_slice(), 0, h.len());
    let body = echo_reply_body(f, start, end);
    append_range(&mut out, body.as_slice(), 0, body.len());
    assert(h@.subrange(0, h@.len() as int) =~= h@);
    assert(body@.subrange(0, body@.len() as int) =~= body@);
    assert(out@ =~= echo_reply_frame(f@, ident));
    out
}

/// The responder's answer to one Ethernet frame: an ARP reply, an ICMP echo
/// reply carrying identification `ident`, or nothing.
pub fn reply_to_frame(f: &[u8], ident: u16) -> (r: Option<Vec<u8>>)
    ensures
        opt_seq(r) == frame_reply(f@, ident),
{
    reveal(frame_reply);
    if check_arp_request(f) {
        Some(arp_reply(f))
    } else if check_echo_request(f) {
        Some(echo_reply(f, ident))
    } else {
        None
    }
}

proof fn lemma_u16_field(s: Seq<u8>, at: int, v: u16)
    requires
        0 <= at,
        at + 1 < s.len(),
    ensures
        u16_at(with_u16_at(s, at, v), at) == v,
        with_u16_at(s, at, v).len() == s.len(),
{
}

proof fn lemma_checksum_in_range(s: Seq<u8>)
    ensures
        0 <= checksum_of(s) <= 0xffff,
{
    lemma_ones_sum_range(s, word_count(s));
}

/// Filling a zeroed checksum field with the checksum makes the field valid.
proof fn lemma_summed_field_valid(s: Seq<u8>, at: int)
    requires
        0 <= at,
        at + 1 < s.len(),
        s[at] == 0,
        s[at + 1] == 0,
    ensures
        checksum_field_valid(with_u16_at(s, at, checksum_of(s) as u16), at),
{
    lemma_checksum_in_range(s);
    let t = with_u16_at(s, at, checksum_of(s) as u16);
    lemma_u16_field(s, at, checksum_of(s) as u16);
    assert(with_u16_at(t, at, 0) =~= s);
}

/// An ARP request is answered by an ARP reply in which the responder claims
/// the requested protocol address and addresses the requester.
pub proof fn lemma_arp_round_trip(f: Seq<u8>, ident: u16)
    requires
        is_arp_request(f),
    ensures
        frame_reply(f, ident) == Some(arp_reply_of(f)),
        arp_reply_of(f).len() == 42,
        eth_dst(arp_reply_of(f)) == eth_src(f),
        eth_src(arp_reply_of(f)) == eth_dst(f),
        ethertype(arp_reply_of(f)) == 0x0806,
        arp_header(arp_reply_of(f)) == arp_header(f),
        arp_oper(arp_reply_of(f)) == 2,
        arp_sha(arp_reply_of(f)) == relay_mac(),
        arp_spa(arp_reply_of(f)) == arp_tpa(f),
        arp_tha(arp_reply_of(f)) == arp_sha(f),
        arp_tpa(arp_reply_of(f)) == arp_spa(f),
{
    reveal(frame_reply);
    let r = arp_reply_of(f);
    assert(eth_dst(r) =~= eth_src(f));
    assert(eth_src(r) =~= eth_dst(f));
    assert(arp_sha(r) =~= relay_mac());
    assert(arp_header(r) =~= arp_header(f));
    assert(arp_spa(r) =~= arp_tpa(f));
    assert(arp_tha(r) =~= arp_sha(f));
    assert(arp_tpa(r) =~= arp_spa(f));
}

proof fn lemma_reply_header_fields(f: Seq<u8>, payload_len: int, ident: u16)
    requires
        f.len() >= 34,
    ensures
        ({
            let h = ip_reply_header(f, payload_len, ident);
            &&& h.len() == 20
            &&& h[0] == 0x45
            &&& u16_at(h, 2) == (20 + payload_len) as u16
            &&& u16_at(h, 4) == ident
            &&& h[8] == reply_ttl(ip_ttl(f))
            &&& h[9] == 1
            &&& h.subrange(12, 16) == ip_dst(f)
            &&& h.subrange(16, 20) == ip_src(f)
            &&& checksum_field_valid(h, 10)
        }),
{
    let hu = ip_reply_header_unsummed(f, payload_len, ident);
    let h = ip_reply_header(f, payload_len, ident);
    lemma_summed_field_valid(hu, 10);
    assert(h.subrange(12, 16) =~= ip_dst(f));
    assert(h.subrange(16, 20) =~= ip_src(f));
}

proof fn lemma_echo_body_fields(q: Seq<u8>)
    requires
        q.len() >= 8,
    ensures
        ({
            let m = echo_reply_of(q);
            &&& m.len() == q.len()
            &&& icmp_type(m) == 0
            &&& icmp_code(m) == icmp_code(q)
            &&& icmp_ident(m) == icmp_ident(q)
            &&& icmp_seq(m) == icmp_seq(q)
            &&& icmp_payload(m) == icmp_payload(q)
            &&& checksum_field_valid(m, 2)
        }),
{
    let u = echo_reply_unsummed(q);
    lemma_summed_field_valid(u, 2);
    let m = echo_reply_of(q);
    assert(icmp_payload(m) =~= icmp_payload(q));
}

proof fn lemma_echo_reply_frame_layout(f: Seq<u8>, ident: u16)
    requires
        is_echo_request(f),
    ensures
        ({
            let r = echo_reply_frame(f, ident);
            let m = icmp_msg(f);
            let h = ip_reply_header(f, m.len() as int, ident);
            &&& r.len() == 34 + m.len()
            &&& is_ipv4(r)
            &&& ip_header(r) == h
            &&& icmp_msg(r) == echo_reply_of(m)
            &&& ip_ttl(r) == h[8]
            &&& ip_protocol(r) == h[9]
            &&& ip_ident(r) == u16_at(h, 4)
            &&& ip_src(r) == h.subrange(12, 16)
            &&& ip_dst(r) == h.subrange(16, 20)
            &&& eth_dst(r) == eth_src(f)
            &&& eth_src(r) == eth_dst(f)
        }),
{
    let r = echo_reply_frame(f, ident);
    let m = icmp_msg(f);
    let h = ip_reply_header(f, m.len() as int, ident);
    let b = echo_reply_of(m);
    lemma_reply_header_fields(f, m.len() as int, ident);
    lemma_echo_body_fields(m);
    assert(r.len() == 34 + m.len());
    assert(r[14] == 0x45);
    assert(r[12] == 8 && r[13] == 0);
    assert(r[16] == h[2] && r[17] == h[3]);
    assert(ip_header(r) =~= h);
    assert(icmp_msg(r) =~= b);
    assert(ip_src(r) =~= h.subrange(12, 16));
    assert(ip_dst(r) =~= h.subrange(16, 20));
    assert(eth_dst(r) =~= eth_src(f));
    assert(eth_src(r) =~= eth_dst(f));
}

/// An ICMP echo request is answered by an echo reply with the same
/// identifier, sequence number and payload, whose ICMP checksum and IPv4
/// header checksum are both valid on their own, with the IPv4 addresses
/// swapped and the identification `ident`.
pub proof fn lemma_echo_round_trip(f: Seq<u8>, ident: u16)
    requires
        is_echo_request(f),
    ensures
        frame_reply(f, ident) == Some(echo_reply_frame(f, ident)),
        ({
            let r = echo_reply_frame(f, ident);
            let q = icmp_msg(f);
            let m = icmp_msg(r);
            &&& is_ipv4(r)
            &&& ip_protocol(r) == 1
            &&& ip_src(r) == ip_dst(f)
            &&& ip_dst(r) == ip_src(f)
            &&& ip_ident(r) == ident
            &&& checksum_field_valid(ip_header(r), 10)
            &&& icmp_type(m) == 0
            &&& icmp_code(m) == icmp_code(q)
            &&& icmp_ident(m) == icmp_ident(q)
            &&& icmp_seq(m) == icmp_seq(q)
            &&& icmp_payload(m) == icmp_payload(q)
            &&& checksum_field_valid(m, 2)
        }),
{
    reveal(frame_reply);
    let q = icmp_msg(f);
    lemma_echo_reply_frame_layout(f, ident);
    lemma_reply_header_fields(f, q.len() as int, ident);
    lemma_echo_body_fields(q);
}

/// The reply's TTL is one less than the request's, and zero (never a
/// wrapped-around value) when the request's TTL is zero or one.
pub proof fn lemma_reply_ttl(f: Seq<u8>, ident: u16)
    requires
        is_echo_request(f),
    ensures
        frame_reply(f, ident) == Some(echo_reply_frame(f, ident)),
        ip_ttl(echo_reply_frame(f, ident)) == reply_ttl(ip_ttl(f)),
        ip_ttl(f) <= 1 ==> ip_ttl(echo_reply_frame(f, ident)) == 0,
        ip_ttl(f) >= 1 ==> ip_ttl(echo_reply_frame(f, ident)) == ip_ttl(f) - 1,
{
    reveal(frame_reply);
    lemma_echo_reply_frame_layout(f, ident);
    lemma_reply_header_fields(f, icmp_msg(f).len() as int, ident);
}

/// A reply is never longer than an ARP reply or than the frame it answers.
pub proof fn lemma_reply_len(f: Seq<u8>, ident: u16)
    ensures
        frame_reply(f, ident) matches Some(r) ==> r.len() <= 42 || r.len() <= f.len(),
{
    reveal(frame_reply);
    if !is_arp_request(f) && is_echo_request(f) {
        lemma_echo_reply_frame_layout(f, ident);
    }
}

/// Every echo request uses up an identification value.
pub proof fn lemma_echo_uses_ident(f: Seq<u8>)
    requires
        is_echo_request(f),
    ensures
        uses_ident(f),
{
    reveal(uses_ident);
}

/// A frame that gets no reply uses up no identification value.
pub proof fn lemma_unanswered_uses_no_ident(f: Seq<u8>, ident: u16)
    requires
        frame_reply(f, ident) is None,
    ensures
        !uses_ident(f),
{
    reveal(frame_reply);
    reveal(uses_ident);
}

/// A frame is malformed when it is too short to hold any answerable
/// message, when its IPv4 length field runs past its end, or when its IPv4
/// header or ICMP checksum does not match.
pub open spec fn is_malformed(f: Seq<u8>) -> bool {
    ||| f.len() < 42
    ||| (ethertype(f) == 0x0800 && f.len() >= 18 && 14 + ip_total_len(f) > f.len())
    ||| (ethertype(f) == 0x0800 && is_ipv4(f) && !checksum_field_valid(ip_header(f), 10))
    ||| (ethertype(f) == 0x0800 && is_ipv4(f) && !checksum_field_valid(icmp_msg(f), 2))
}

/// A malformed frame gets no reply.
pub proof fn lemma_malformed_frame_dropped(f: Seq<u8>, ident: u16)
    requires
        is_malformed(f),
    ensures
        frame_reply(f, ident) is None,
        !uses_ident(f),
{
    reveal(frame_reply);
    reveal(uses_ident);
    if f.len() >= 34 && is_ipv4(f) && f.len() < 42 {
        assert(icmp_msg(f).len() >= 8);
    }
}

} // verus!
