use runtime::packet::reply_to_frame;
use runtime::relay::{encode_frame, Relay};
use runtime::wire::internet_checksum;

const GUEST_MAC: [u8; 6] = [0x52, 0x54, 0x00, 0x12, 0x34, 0x56];
const RELAY_MAC: [u8; 6] = [0x01, 0x02, 0x03, 0x04, 0x05, 0x06];

fn arp_request(sender_ip: [u8; 4], target_ip: [u8; 4]) -> Vec<u8> {
    let mut f = vec![0xff; 6];
    f.extend_from_slice(&GUEST_MAC);
    f.extend_from_slice(&[0x08, 0x06, 0x00, 0x01, 0x08, 0x00, 6, 4, 0x00, 0x01]);
    f.extend_from_slice(&GUEST_MAC);
    f.extend_from_slice(&sender_ip);
    f.extend_from_slice(&[0; 6]);
    f.extend_from_slice(&target_ip);
    f
}

fn echo_request(ttl: u8, id: u16, seq: u16, payload: &[u8]) -> Vec<u8> {
    let mut f = RELAY_MAC.to_vec();
    f.extend_from_slice(&GUEST_MAC);
    f.extend_from_slice(&[0x08, 0x00]);
    let total = (20 + 8 + payload.len()) as u16;
    let mut ip = vec![0x45, 0x10];
    ip.extend_from_slice(&total.to_be_bytes());
    ip.extend_from_slice(&[0x12, 0x34, 0x40, 0x00, ttl, 1, 0, 0]);
    ip.extend_from_slice(&[10, 0, 0, 2]);
    ip.extend_from_slice(&[10, 0, 0, 1]);
    let c = ones_complement_checksum(&ip);
    ip[10..12].copy_from_slice(&c.to_be_bytes());
    f.extend_from_slice(&ip);
    let mut icmp = vec![8, 0, 0, 0];
    icmp.extend_from_slice(&id.to_be_bytes());
    icmp.extend_from_slice(&seq.to_be_bytes());
    icmp.extend_from_slice(payload);
    let c = ones_complement_checksum(&icmp);
    icmp[2..4].copy_from_slice(&c.to_be_bytes());
    f.extend_from_slice(&icmp);
    f
}

/// Straightforward folding sum, written independently of the library.
fn ones_complement_checksum(b: &[u8]) -> u16 {
    let mut sum: u32 = 0;
    for pair in b.chunks(2) {
        let w = (pair[0] as u32) << 8 | *pair.get(1).unwrap_or(&0) as u32;
        sum += w;
    }
    while sum > 0xffff {
        sum = (sum & 0xffff) + (sum >> 16);
    }
    !(sum as u16)
}

fn sums_to_all_ones(b: &[u8]) -> bool {
    ones_complement_checksum(b) == 0
}

#[test]
fn checksum_of_rfc1071_example() {
    assert_eq!(internet_checksum(&[0x00, 0x01, 0xf2, 0x03, 0xf4, 0xf5, 0xf6, 0xf7]), 0x220d);
    assert_eq!(internet_checksum(&[]), 0xffff);
    assert_eq!(internet_checksum(&[0x01]), 0xfeff);
}

#[test]
fn checksum_matches_folding_sum() {
    let data: Vec<u8> = (0..=255u8).chain(0..77u8).collect();
    assert_eq!(internet_checksum(&data), ones_complement_checksum(&data));
    let ff = vec![0xffu8; 1001];
    assert_eq!(internet_checksum(&ff), ones_complement_checksum(&ff));
}

#[test]
fn arp_request_is_answered() {
    let req = arp_request([10, 0, 0, 2], [10, 0, 0, 1]);
    let r = reply_to_frame(&req, 0).expect("reply");
    assert_eq!(r.len(), 42);
    assert_eq!(&r[0..6], &GUEST_MAC);
    assert_eq!(&r[6..12], &[0xff; 6]);
    assert_eq!(&r[12..14], &[0x08, 0x06]);
    assert_eq!(&r[14..20], &[0x00, 0x01, 0x08, 0x00, 6, 4]);
    assert_eq!(&r[20..22], &[0x00, 0x02]);
    assert_eq!(&r[22..28], &RELAY_MAC);
    assert_eq!(&r[28..32], &[10, 0, 0, 1]);
    assert_eq!(&r[32..38], &GUEST_MAC);
    assert_eq!(&r[38..42], &[10, 0, 0, 2]);
}

#[test]
fn arp_reply_and_unknown_op_get_no_reply() {
    let mut req = arp_request([10, 0, 0, 2], [10, 0, 0, 1]);
    req[21] = 2;
    assert!(reply_to_frame(&req, 0).is_none());
    let mut other = arp_request([10, 0, 0, 2], [10, 0, 0, 1]);
    other[12] = 0x86;
    other[13] = 0xdd;
    assert!(reply_to_frame(&other, 0).is_none());
}

#[test]
fn echo_request_is_answered() {
    let payload = b"hello, sandbox!";
    let req = echo_request(64, 0x0102, 7, payload);
    let r = reply_to_frame(&req, 0x4242).expect("reply");
    assert_eq!(r.len(), req.len());
    assert_eq!(&r[0..6], &GUEST_MAC);
    assert_eq!(&r[6..12], &RELAY_MAC);
    assert_eq!(&r[12..14], &[0x08, 0x00]);
    assert_eq!(r[14], 0x45);
    assert_eq!(r[15], 0x10);
    assert_eq!(u16::from_be_bytes([r[16], r[17]]) as usize, 20 + 8 + payload.len());
    assert_eq!(u16::from_be_bytes([r[18], r[19]]), 0x4242);
    assert_eq!(&r[20..22], &[0x40, 0x00]);
    assert_eq!(r[22], 63);
    assert_eq!(r[23], 1);
    assert_eq!(&r[26..30], &[10, 0, 0, 1]);
    assert_eq!(&r[30..34], &[10, 0, 0, 2]);
    assert!(sums_to_all_ones(&r[14..34]));
    let icmp = &r[34..];
    assert_eq!(icmp[0], 0);
    assert_eq!(icmp[1], 0);
    assert_eq!(&icmp[4..6], &[0x01, 0x02]);
    assert_eq!(&icmp[6..8], &[0, 7]);
    assert_eq!(&icmp[8..], payload);
    assert!(sums_to_all_ones(icmp));
}

#[test]
fn echo_with_odd_payload_has_valid_checksum() {
    let req = echo_request(9, 1, 2, &[1, 2, 3]);
    let r = reply_to_frame(&req, 3).expect("reply");
    assert!(sums_to_all_ones(&r[34..]));
    assert!(sums_to_all_ones(&r[14..34]));
}

#[test]
fn reply_ttl_is_decremented_without_wrapping() {
    let r = reply_to_frame(&echo_request(5, 1, 1, b"x"), 0).unwrap();
    assert_eq!(r[22], 4);
    let r = reply_to_frame(&echo_request(1, 1, 1, b"x"), 0).unwrap();
    assert_eq!(r[22], 0);
    let r = reply_to_frame(&echo_request(0, 1, 1, b"x"), 0).unwrap();
    assert_eq!(r[22], 0);
}

#[test]
fn echo_reply_and_other_protocols_get_no_reply() {
    let mut reply = echo_request(64, 1, 1, b"x");
    reply[34] = 0;
    assert!(reply_to_frame(&reply, 0).is_none());
    let mut udp = echo_request(64, 1, 1, b"x");
    udp[23] = 17;
    assert!(reply_to_frame(&udp, 0).is_none());
}

#[test]
fn consecutive_replies_carry_consecutive_idents() {
    let mut relay = Relay::new(0xfffe);
    let mut seen = Vec::new();
    for seq in 0..4u16 {
        let r = relay.answer(&echo_request(64, 9, seq, b"ping")).unwrap();
        seen.push(u16::from_be_bytes([r[18], r[19]]));
    }
    assert_eq!(seen, vec![0xfffe, 0xffff, 0x0000, 0x0001]);
    assert_eq!(relay.next_ident(), 2);
}

#[test]
fn arp_replies_do_not_use_idents() {
    let mut relay = Relay::new(10);
    relay.answer(&arp_request([10, 0, 0, 2], [10, 0, 0, 1])).unwrap();
    assert_eq!(relay.next_ident(), 10);
    let r = relay.answer(&echo_request(64, 9, 1, b"")).unwrap();
    assert_eq!(u16::from_be_bytes([r[18], r[19]]), 10);
    assert_eq!(relay.next_ident(), 11);
}

#[test]
fn malformed_frames_are_dropped_harmlessly() {
    let mut relay = Relay::new(100);
    let good = echo_request(64, 1, 1, b"abc");
    assert!(relay.answer(&good[..20]).is_none());
    assert!(relay.answer(&[]).is_none());
    let mut bad_len = good.clone();
    bad_len[16] = 0xff;
    assert!(relay.answer(&bad_len).is_none());
    let mut bad_version = good.clone();
    bad_version[14] = 0x65;
    assert!(relay.answer(&bad_version).is_none());
    assert_eq!(relay.next_ident(), 100);
    let r = relay.answer(&good).unwrap();
    assert_eq!(u16::from_be_bytes([r[18], r[19]]), 100);
}

#[test]
fn encode_frame_prefixes_little_endian_length() {
    assert_eq!(encode_frame(&[1, 2, 3]).unwrap(), vec![3, 0, 1, 2, 3]);
    let big = vec![0u8; 0x1234];
    let e = encode_frame(&big).unwrap();
    assert_eq!(&e[0..2], &[0x34, 0x12]);
    assert_eq!(e.len(), 0x1236);
    assert!(encode_frame(&vec![0u8; 0x10000]).is_none());
}

#[test]
fn partial_reads_are_assembled_into_frames() {
    let mut relay = Relay::new(0);
    let req = arp_request([10, 0, 0, 2], [10, 0, 0, 1]);
    let wire = encode_frame(&req).unwrap();
    relay.receive(&wire[..1]);
    assert!(relay.poll().is_none());
    relay.receive(&wire[1..30]);
    assert!(relay.poll().is_none());
    relay.receive(&wire[30..]);
    relay.receive(&[5, 0, 1, 2]);
    let out = relay.poll().expect("a whole frame").expect("a reply");
    let expected = reply_to_frame(&req, 0).unwrap();
    assert_eq!(out, encode_frame(&expected).unwrap());
    assert!(relay.poll().is_none());
    relay.receive(&[3, 4, 5]);
    assert_eq!(relay.poll(), Some(None));
    assert!(relay.poll().is_none());
}

#[test]
fn next_frame_takes_one_frame_at_a_time() {
    let mut relay = Relay::new(0);
    relay.receive(&[2, 0, 9, 8, 0, 0, 1, 0]);
    assert_eq!(relay.next_frame(), Some(vec![9, 8]));
    assert_eq!(relay.next_frame(), Some(vec![]));
    assert_eq!(relay.next_frame(), None);
    relay.receive(&[7]);
    assert_eq!(relay.next_frame(), Some(vec![7]));
}

#[test]
fn corrupt_checksums_get_no_reply() {
    let good = echo_request(64, 5, 6, b"payload");
    let mut bad_payload = good.clone();
    bad_payload[44] ^= 0x01;
    assert!(reply_to_frame(&bad_payload, 0).is_none());
    let mut bad_header = good.clone();
    bad_header[24] ^= 0x80;
    assert!(reply_to_frame(&bad_header, 0).is_none());
    let mut relay = Relay::new(7);
    assert!(relay.answer(&bad_header).is_none());
    assert_eq!(relay.next_ident(), 7);
    assert!(relay.answer(&good).is_some());
    assert_eq!(relay.next_ident(), 8);
}

#[test]
fn arp_reply_copies_hardware_and_protocol_fields() {
    let mut req = arp_request([10, 0, 0, 2], [10, 0, 0, 1]);
    req[14..20].copy_from_slice(&[0x00, 0x06, 0x86, 0xdd, 6, 16]);
    let r = reply_to_frame(&req, 0).expect("reply");
    assert_eq!(&r[14..20], &[0x00, 0x06, 0x86, 0xdd, 6, 16]);
    assert_eq!(&r[20..22], &[0x00, 0x02]);
    assert_eq!(&r[22..28], &[1, 2, 3, 4, 5, 6]);
    assert_eq!(&r[28..32], &[10, 0, 0, 1]);
}

#[test]
fn echo_request_code_is_copied() {
    let mut req = echo_request(64, 3, 4, b"code");
    let icmp_start = 34;
    req[icmp_start + 1] = 5;
    let c = ones_complement_checksum(&{
        let mut m = req[icmp_start..].to_vec();
        m[2] = 0;
        m[3] = 0;
        m
    });
    req[icmp_start + 2..icmp_start + 4].copy_from_slice(&c.to_be_bytes());
    let r = reply_to_frame(&req, 0).expect("reply");
    assert_eq!(r[34], 0);
    assert_eq!(r[35], 5);
    assert!(sums_to_all_ones(&r[34..]));
}
