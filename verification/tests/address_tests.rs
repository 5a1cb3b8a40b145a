use ndproxy::address::{
    addr_in_prefix, construct_v6addr, encode_v6, gen_solicited_node_multicast_address, netmapv6,
    nptv6, pfx_csum, V6Addr, V6Prefix,
};

fn addr(segs: [u16; 8]) -> V6Addr {
    V6Addr { segs }
}

fn prefix(segs: [u16; 8], len: u8) -> V6Prefix {
    V6Prefix { network: addr(segs), len }
}

#[test]
fn test_pfx_csum_value() {
    // 2001:db9::/64: one's complement of 0x2001 + 0x0db9
    let p = prefix([0x2001, 0x0db9, 0, 0, 0, 0, 0, 0], 64);
    assert_eq!(pfx_csum(&p), 0xffff - (0x2001 + 0x0db9));
}

#[test]
fn test_nptv6_rewrite_and_back() {
    // 2001:db9::feed moved from 2001:db9::/64 into 2001:db9:beef::/64
    let upstream = prefix([0x2001, 0x0db9, 0, 0, 0, 0, 0, 0], 64);
    let downstream = prefix([0x2001, 0x0db9, 0xbeef, 0, 0, 0, 0, 0], 64);
    let cs_u = pfx_csum(&upstream);
    let cs_d = pfx_csum(&downstream);
    let incoming = addr([0x2001, 0x0db9, 0, 0, 0, 0, 0, 0xfeed]);

    let outgoing = nptv6(cs_u, cs_d, &incoming, &downstream);
    // the segment behind the prefix absorbs the checksum difference
    assert_eq!(outgoing.segs, [0x2001, 0x0db9, 0xbeef, 0, 0x4110, 0, 0, 0xfeed]);

    let reverted = nptv6(cs_d, cs_u, &outgoing, &upstream);
    assert_eq!(reverted, incoming);
}

#[test]
fn test_nptv6_checksum_neutral() {
    // RFC 6296: the 16-bit one's-complement sum of the address is unchanged
    let upstream = prefix([0x2001, 0x0db8, 1, 0, 0, 0, 0, 0], 48);
    let downstream = prefix([0x2001, 0x0db8, 0xffff, 0, 0, 0, 0, 0], 48);
    let cs_u = pfx_csum(&upstream);
    let cs_d = pfx_csum(&downstream);
    let incoming = addr([0x2001, 0x0db8, 1, 0, 0xa, 0, 0, 1]);

    let outgoing = nptv6(cs_u, cs_d, &incoming, &downstream);
    assert_eq!(outgoing.segs, [0x2001, 0x0db8, 0xffff, 1, 0xa, 0, 0, 1]);

    let sum_in: u64 = incoming.segs.iter().map(|s| *s as u64).sum();
    let sum_out: u64 = outgoing.segs.iter().map(|s| *s as u64).sum();
    assert_eq!(sum_in % 0xffff, sum_out % 0xffff);
}

#[test]
fn test_nptv6_wraparound_segment() {
    // the round trip is the identity up to the one's-complement wraparound:
    // a segment of all ones comes back as zero; both spell zero there
    let upstream = prefix([0x2001, 0x0db9, 0, 0, 0, 0, 0, 0], 64);
    let downstream = prefix([0x2001, 0x0db9, 0, 0, 0, 0, 0, 0], 64);
    let cs = pfx_csum(&upstream);
    let incoming = addr([0x2001, 0x0db9, 0, 0, 0xffff, 0, 0, 1]);
    let outgoing = nptv6(cs, cs, &incoming, &downstream);
    let reverted = nptv6(cs, cs, &outgoing, &upstream);
    assert_eq!(reverted.segs[4], 0);
    assert_eq!(outgoing.segs[4], 0);
}

#[test]
fn test_netmap_rewrite_and_back() {
    let upstream = prefix([0x2001, 0x0db9, 0, 0, 0, 0, 0, 0], 64);
    let downstream = prefix([0x2001, 0x0db9, 0xbeef, 0, 0, 0, 0, 0], 64);
    let incoming = addr([0x2001, 0x0db9, 0, 0, 0, 0, 0, 0xfeed]);

    let outgoing = netmapv6(&incoming, &downstream);
    assert_eq!(outgoing.segs, [0x2001, 0x0db9, 0xbeef, 0, 0, 0, 0, 0xfeed]);

    let reverted = netmapv6(&outgoing, &upstream);
    assert_eq!(reverted, incoming);
}

#[test]
fn test_netmap_keeps_host_bits() {
    // 2001:db8:1::abcd:1234 mapped into 2001:db8:9::/64
    let downstream = prefix([0x2001, 0x0db8, 9, 0, 0, 0, 0, 0], 64);
    let incoming = addr([0x2001, 0x0db8, 1, 0, 0, 0, 0xabcd, 0x1234]);
    let outgoing = netmapv6(&incoming, &downstream);
    assert_eq!(outgoing.segs, [0x2001, 0x0db8, 9, 0, 0, 0, 0xabcd, 0x1234]);
}

#[test]
fn test_netmap_idempotent() {
    // applying the same netmap twice changes nothing more
    let downstream = prefix([0x2001, 0x0db8, 9, 0, 0, 0, 0, 0], 64);
    let incoming = addr([0x2001, 0x0db8, 1, 0, 0, 0, 0xabcd, 0x1234]);
    let once = netmapv6(&incoming, &downstream);
    let twice = netmapv6(&once, &downstream);
    assert_eq!(once, twice);
}

#[test]
fn test_solicited_node_multicast() {
    // 2001:db9::dead:feed solicited-node group is ff02::1:ffad:feed
    let node = addr([0x2001, 0x0db9, 0, 0, 0, 0, 0xdead, 0xfeed]);
    let sn = gen_solicited_node_multicast_address(&node);
    assert_eq!(sn.segs, [0xff02, 0, 0, 0, 0, 1, 0xffad, 0xfeed]);
}

#[test]
fn test_construct_v6addr_short_input() {
    // fewer than sixteen bytes cannot spell an address
    assert!(construct_v6addr(&[0u8; 15]).is_none());
    assert!(construct_v6addr(&[]).is_none());
    let a = construct_v6addr(&[0u8; 16]).unwrap();
    assert_eq!(a.segs, [0; 8]);
}

#[test]
fn test_decode_encode_round_trip() {
    // decoding what an address encodes gives the address back
    let a = addr([0x2001, 0x0db8, 0xbeef, 0x0001, 0xfe80, 0x0000, 0xabcd, 0x1234]);
    let bytes = encode_v6(&a);
    assert_eq!(bytes.len(), 16);
    assert_eq!(bytes[0], 0x20);
    assert_eq!(bytes[1], 0x01);
    assert_eq!(bytes[15], 0x34);
    let b = construct_v6addr(&bytes).unwrap();
    assert_eq!(a, b);
}

#[test]
fn test_addr_in_prefix() {
    let p = prefix([0x2001, 0x0db8, 0, 0, 0, 0, 0, 0], 64);
    assert!(addr_in_prefix(&p, &addr([0x2001, 0x0db8, 0, 0, 0, 0, 0, 0x123])));
    assert!(!addr_in_prefix(&p, &addr([0x2001, 0x0db9, 0, 0, 0, 0, 0, 0x123])));
    // a prefix length that splits a segment
    let ll = prefix([0xfe80, 0, 0, 0, 0, 0, 0, 0], 10);
    assert!(addr_in_prefix(&ll, &addr([0xfe80, 0, 0, 0, 0, 0, 0, 1])));
    assert!(addr_in_prefix(&ll, &addr([0xfebf, 0, 0, 0, 0, 0, 0, 1])));
    assert!(!addr_in_prefix(&ll, &addr([0xfec0, 0, 0, 0, 0, 0, 0, 1])));
}
