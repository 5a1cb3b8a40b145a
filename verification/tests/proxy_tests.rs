use ndproxy::address::{check_prefix, V6Addr, V6Prefix};
use ndproxy::bpf::{na_filter_program, ns_filter_program};
use ndproxy::conf::NDConfig;
use ndproxy::interfaces::{extend_ifaces, get_ifaces_with_name, get_specified_iface, NDInterface, RawInterface};
use ndproxy::na_monitor::NAMonitor;
use ndproxy::nd_proxy::NDProxy;
use ndproxy::neighbors::NeighborsCache;
use ndproxy::ns_monitor::NSMonitor;
use ndproxy::routing::{construst_routing_table, RoutingTable};
use ndproxy::types::{AddressMangling, Proxy};

fn addr(segs: [u16; 8]) -> V6Addr {
    V6Addr { segs }
}

fn prefix(segs: [u16; 8], len: u8) -> V6Prefix {
    V6Prefix { network: addr(segs), len }
}

fn iface(name: &str, scope_id: u32, link_addr: V6Addr, hwaddr: [u8; 6]) -> NDInterface {
    NDInterface { name: name.to_string(), scope_id, link_addr, hwaddr }
}

/// A captured solicitation frame: IPv6 header (40 bytes) followed by the
/// ICMPv6 solicitation, with the given source and target addresses.
fn ns_frame(src: &V6Addr, target: &V6Addr) -> Vec<u8> {
    let mut frame = vec![0u8; 72];
    frame[6] = 58; // next header: ICMPv6
    frame[40] = 135; // Neighbor Solicitation
    for i in 0..8 {
        frame[8 + 2 * i] = (src.segs[i] >> 8) as u8;
        frame[9 + 2 * i] = (src.segs[i] & 0xff) as u8;
        frame[48 + 2 * i] = (target.segs[i] >> 8) as u8;
        frame[49 + 2 * i] = (target.segs[i] & 0xff) as u8;
    }
    frame
}

fn table_for(pfx: V6Prefix, sink: usize) -> RoutingTable {
    construst_routing_table(vec![(pfx, sink)])
}

// ---- neighbor cache ----

#[test]
fn test_cache_present_until_ttl() {
    // present from insertion exactly until the time to live elapses
    let mut cache = NeighborsCache::new(600);
    let a = addr([0x2001, 0x0db8, 0, 0, 0, 0, 0, 5]);
    assert!(!cache.exists_entry(3, &a, 1000));
    cache.mark_present(3, &a, 1000);
    assert!(cache.exists_entry(3, &a, 1000));
    assert!(cache.exists_entry(3, &a, 1599));
    assert!(!cache.exists_entry(3, &a, 1600)); // expired
    assert!(!cache.exists_entry(4, &a, 1000)); // other scope
    assert!(!cache.exists_entry(3, &addr([0; 8]), 1000)); // other address
}

#[test]
fn test_cache_refresh_extends_lifetime() {
    let mut cache = NeighborsCache::new(600);
    let a = addr([0x2001, 0x0db8, 0, 0, 0, 0, 0, 5]);
    cache.mark_present(3, &a, 0);
    cache.mark_present(3, &a, 500);
    assert!(cache.exists_entry(3, &a, 1099));
    assert!(!cache.exists_entry(3, &a, 1100));
}

// ---- routing table ----

#[test]
fn test_lookup_prefers_longest_prefix() {
    let wide = prefix([0x2001, 0x0db8, 0, 0, 0, 0, 0, 0], 32);
    let narrow = prefix([0x2001, 0x0db8, 1, 0, 0, 0, 0, 0], 48);
    let table = construst_routing_table(vec![(wide, 0), (narrow, 1)]);

    let inside_narrow = addr([0x2001, 0x0db8, 1, 0, 0, 0, 0, 7]);
    let (pfx, sink) = table.lookup(&inside_narrow).unwrap();
    assert_eq!(sink, 1);
    assert_eq!(pfx.len, 48);

    let inside_wide = addr([0x2001, 0x0db8, 2, 0, 0, 0, 0, 7]);
    let (pfx, sink) = table.lookup(&inside_wide).unwrap();
    assert_eq!(sink, 0);
    assert_eq!(pfx.len, 32);

    let outside = addr([0x2002, 0, 0, 0, 0, 0, 0, 7]);
    assert!(table.lookup(&outside).is_none());
}

// ---- solicitation monitor ----

fn monitor() -> NSMonitor {
    let pfx = prefix([0x2001, 0x0db8, 0, 0, 0, 0, 0, 0], 64);
    let eth0 = iface("eth0", 2, addr([0xfe80, 0, 0, 0, 0, 0, 0, 1]), [2, 0, 0, 0, 0, 1]);
    NSMonitor::new(table_for(pfx, 0), eth0)
}

#[test]
fn test_monitor_drops_short_frame() {
    // frames shorter than 64 bytes are dropped silently
    let m = monitor();
    assert!(m.handle_frame(vec![0u8; 63]).is_none());
    assert!(m.handle_frame(Vec::new()).is_none());
}

#[test]
fn test_monitor_drops_unrouted_target() {
    // a target without a route is dropped
    let m = monitor();
    let src = addr([0xfe80, 0, 0, 0, 0, 0, 0, 0xa]);
    let stranger = addr([0x2001, 0x0db9, 0, 0, 0, 0, 0, 5]);
    assert!(m.handle_frame(ns_frame(&src, &stranger)).is_none());
}

#[test]
fn test_monitor_drops_subnet_router_anycast() {
    // a solicitation for the prefix's own network address is dropped
    let m = monitor();
    let src = addr([0xfe80, 0, 0, 0, 0, 0, 0, 0xa]);
    let network_itself = addr([0x2001, 0x0db8, 0, 0, 0, 0, 0, 0]);
    assert!(m.handle_frame(ns_frame(&src, &network_itself)).is_none());
}

#[test]
fn test_monitor_forwards_routed_target() {
    let m = monitor();
    let src = addr([0xfe80, 0, 0, 0, 0, 0, 0, 0xa]);
    let target = addr([0x2001, 0x0db8, 0, 0, 0, 0, 0, 0x123]);
    let frame = ns_frame(&src, &target);
    let fwd = m.handle_frame(frame.clone()).unwrap();
    assert_eq!(fwd.sink, 0);
    assert_eq!(fwd.scope_id, 2);
    assert_eq!(fwd.tgt_addr, target);
    assert_eq!(fwd.packet, frame);
}

#[test]
fn test_monitor_preserves_capture_order() {
    // events reach the proxy in the order the frames were captured
    let m = monitor();
    let src = addr([0xfe80, 0, 0, 0, 0, 0, 0, 0xa]);
    let t1 = addr([0x2001, 0x0db8, 0, 0, 0, 0, 0, 1]);
    let t2 = addr([0x2001, 0x0db8, 0, 0, 0, 0, 0, 2]);
    let batch = vec![
        ns_frame(&src, &t1),
        vec![0u8; 10],                // dropped: short
        ns_frame(&src, &addr([0x2001, 0x0db8, 0, 0, 0, 0, 0, 0])), // dropped: anycast
        ns_frame(&src, &t2),
    ];
    let events = m.handle_frames(batch);
    assert_eq!(events.len(), 2);
    assert_eq!(events[0].tgt_addr, t1);
    assert_eq!(events[1].tgt_addr, t2);
}

// ---- advertisement monitor ----

#[test]
fn test_na_monitor_marks_cache() {
    // a captured advertisement makes the target present
    let eth1 = iface("eth1", 3, addr([0xfe80, 0, 0, 0, 0, 0, 0, 2]), [2, 0, 0, 0, 0, 2]);
    let m = NAMonitor::new(eth1);
    let mut cache = NeighborsCache::new(600);
    let host = addr([0x2001, 0x0db8, 0, 0, 0, 0, 0, 5]);
    let sender = addr([0xfe80, 0, 0, 0, 0, 0, 0, 0x55]);

    let seen = m.handle_frame(&ns_frame(&sender, &host), &mut cache, 1000).unwrap();
    assert_eq!(seen, host);
    assert!(cache.exists_entry(3, &host, 1000));
    assert!(!cache.exists_entry(3, &host, 1600));
}

#[test]
fn test_na_monitor_drops_short_frame() {
    // the advertisement monitor also drops short frames silently
    let eth1 = iface("eth1", 3, addr([0xfe80, 0, 0, 0, 0, 0, 0, 2]), [2, 0, 0, 0, 0, 2]);
    let m = NAMonitor::new(eth1);
    let mut cache = NeighborsCache::new(600);
    assert!(m.handle_frame(&vec![0u8; 63], &mut cache, 0).is_none());
    let host = addr([0x2001, 0x0db8, 0, 0, 0, 0, 0, 5]);
    assert!(!cache.exists_entry(3, &host, 0));
}

// ---- the proxy state machine ----

fn static_config() -> NDConfig {
    NDConfig::new(
        "test".to_string(),
        "static".to_string(),
        prefix([0x2001, 0x0db8, 0, 0, 0, 0, 0, 0], 64),
        None,
        None,
        None,
        None,
    )
    .unwrap()
}

fn forward_config(mangling: Option<(&str, V6Prefix)>) -> NDConfig {
    let (method, local) = match mangling {
        Some((m, p)) => (Some(m.to_string()), Some(p)),
        None => (None, None),
    };
    NDConfig::new(
        "test".to_string(),
        "forward".to_string(),
        prefix([0x2001, 0x0db8, 0, 0, 0, 0, 0, 0], 64),
        None,
        None,
        method,
        local,
    )
    .unwrap()
}

fn upstream_eth0() -> NDInterface {
    iface("eth0", 2, addr([0xfe80, 0, 0, 0, 0, 0, 0, 1]), [0x02, 0, 0, 0, 0, 0x01])
}

fn downstream_eth1() -> NDInterface {
    iface("eth1", 3, addr([0xfe80, 0, 0, 0, 0, 0, 0, 2]), [0x02, 0, 0, 0, 0, 0x02])
}

#[test]
fn test_static_mode_answers_at_once() {
    // static mode: one advertisement straight back to the source
    let proxy = NDProxy::new(static_config(), vec![upstream_eth0()], Vec::new());
    let cache = NeighborsCache::new(600);
    let src = addr([0xfe80, 0, 0, 0, 0, 0, 0, 0xa]);
    let target = addr([0x2001, 0x0db8, 0, 0, 0, 0, 0, 0x123]);
    let frame = ns_frame(&src, &target);

    let acts = proxy.run(2, &target, &frame, &cache, 0).unwrap();
    assert_eq!(acts.len(), 1);
    let na = &acts[0];
    assert_eq!(na.dst, src); // back to the solicitation's source
    assert_eq!(na.scope_id, 2); // on the ingress interface
    assert_eq!(na.hop_limit, 255); // RFC 4861
    assert_eq!(na.payload[0], 136);
    assert_eq!(na.payload[4] & 0x20, 0); // Override cleared
    // the advertised target is the original, untranslated address
    assert_eq!(&na.payload[8..24], &[0x20, 0x01, 0x0d, 0xb8, 0, 0, 0, 0, 0, 0, 0, 0, 0, 0, 0x01, 0x23]);
    assert_eq!(&na.payload[26..32], &[0x02, 0, 0, 0, 0, 0x01]);
}

#[test]
fn test_static_mode_gates_unknown_scope() {
    let proxy = NDProxy::new(static_config(), vec![upstream_eth0()], Vec::new());
    let cache = NeighborsCache::new(600);
    let src = addr([0xfe80, 0, 0, 0, 0, 0, 0, 0xa]);
    let target = addr([0x2001, 0x0db8, 0, 0, 0, 0, 0, 0x123]);
    let acts = proxy.run(7, &target, &ns_frame(&src, &target), &cache, 0).unwrap();
    assert!(acts.is_empty());
}

#[test]
fn test_forward_mode_probes_when_cache_empty() {
    // empty cache: unicast probe and multicast probe, no advertisement yet
    let proxy = NDProxy::new(forward_config(None), vec![upstream_eth0()], vec![downstream_eth1()]);
    let cache = NeighborsCache::new(600);
    let src = addr([0xfe80, 0, 0, 0, 0, 0, 0, 0xa]);
    let target = addr([0x2001, 0x0db8, 0, 0, 0, 0, 0, 5]);

    let acts = proxy.run(2, &target, &ns_frame(&src, &target), &cache, 1000).unwrap();
    assert_eq!(acts.len(), 2);

    // unicast probe to the (unrewritten) target on the downstream interface
    assert_eq!(acts[0].dst, target);
    assert_eq!(acts[0].scope_id, 3);
    assert_eq!(acts[0].hop_limit, 255);
    assert_eq!(acts[0].payload[0], 135);
    assert_eq!(&acts[0].payload[26..32], &[0x02, 0, 0, 0, 0, 0x02]);

    // multicast probe to the solicited-node group ff02::1:ff00:5
    assert_eq!(acts[1].dst, addr([0xff02, 0, 0, 0, 0, 1, 0xff00, 5]));
    assert_eq!(acts[1].scope_id, 3);
    assert_eq!(acts[1].payload[0], 135);
    // both probes solicit the same target
    assert_eq!(&acts[0].payload[8..24], &acts[1].payload[8..24]);
}

#[test]
fn test_forward_mode_answers_after_cache_confirms() {
    // once the downstream host advertised, the next solicitation is
    // answered upstream
    let proxy = NDProxy::new(forward_config(None), vec![upstream_eth0()], vec![downstream_eth1()]);
    let mut cache = NeighborsCache::new(600);
    let src = addr([0xfe80, 0, 0, 0, 0, 0, 0, 0xa]);
    let target = addr([0x2001, 0x0db8, 0, 0, 0, 0, 0, 5]);

    // the advertisement monitor observed the host on eth1
    let na_mon = NAMonitor::new(downstream_eth1());
    na_mon.handle_frame(&ns_frame(&target, &target), &mut cache, 1000);

    let acts = proxy.run(2, &target, &ns_frame(&src, &target), &cache, 1001).unwrap();
    assert_eq!(acts.len(), 2);
    assert_eq!(acts[0].payload[0], 135); // the unicast probe is still sent
    let na = &acts[1];
    assert_eq!(na.payload[0], 136);
    assert_eq!(na.dst, src);
    assert_eq!(na.scope_id, 2);
    assert_eq!(na.payload[4] & 0x20, 0);
}

#[test]
fn test_forward_mode_cache_expiry_goes_back_to_probing() {
    // an expired confirmation no longer fires an advertisement
    let proxy = NDProxy::new(forward_config(None), vec![upstream_eth0()], vec![downstream_eth1()]);
    let mut cache = NeighborsCache::new(600);
    let src = addr([0xfe80, 0, 0, 0, 0, 0, 0, 0xa]);
    let target = addr([0x2001, 0x0db8, 0, 0, 0, 0, 0, 5]);
    cache.mark_present(3, &target, 1000);

    let acts = proxy.run(2, &target, &ns_frame(&src, &target), &cache, 1700).unwrap();
    assert_eq!(acts.len(), 2);
    assert_eq!(acts[0].payload[0], 135);
    assert_eq!(acts[1].payload[0], 135); // multicast probe, no advertisement
}

#[test]
fn test_forward_mode_npt_rewrite() {
    // probes go to the NPTv6-rewritten target
    let proxied = prefix([0x2001, 0x0db8, 1, 0, 0, 0, 0, 0], 48);
    let local = prefix([0x2001, 0x0db8, 0xffff, 0, 0, 0, 0, 0], 48);
    let config = NDConfig::new(
        "npt".to_string(),
        "forward".to_string(),
        proxied,
        None,
        None,
        Some("npt".to_string()),
        Some(local),
    )
    .unwrap();
    assert_eq!(config.address_mangling, AddressMangling::Npt);
    let proxy = NDProxy::new(config, vec![upstream_eth0()], vec![downstream_eth1()]);
    let cache = NeighborsCache::new(600);
    let src = addr([0xfe80, 0, 0, 0, 0, 0, 0, 0xa]);
    let target = addr([0x2001, 0x0db8, 1, 0, 0xa, 0, 0, 1]);

    let acts = proxy.run(2, &target, &ns_frame(&src, &target), &cache, 0).unwrap();
    assert_eq!(acts.len(), 2);
    let rewritten = addr([0x2001, 0x0db8, 0xffff, 1, 0xa, 0, 0, 1]);
    assert_eq!(acts[0].dst, rewritten);
    // the probe solicits the rewritten address
    assert_eq!(acts[0].payload[8], 0x20);
    assert_eq!(acts[0].payload[9], 0x01);
    assert_eq!(acts[0].payload[12], 0xff);
    assert_eq!(acts[0].payload[13], 0xff);
    assert_eq!(acts[0].payload[15], 0x01); // segment that absorbed the difference
}

#[test]
fn test_forward_mode_netmap_rewrite() {
    // probes go to the netmap-rewritten target, host bits kept
    let proxied = prefix([0x2001, 0x0db8, 1, 0, 0, 0, 0, 0], 64);
    let local = prefix([0x2001, 0x0db8, 9, 0, 0, 0, 0, 0], 64);
    let config = NDConfig::new(
        "netmap".to_string(),
        "forward".to_string(),
        proxied,
        None,
        None,
        Some("netmap".to_string()),
        Some(local),
    )
    .unwrap();
    let proxy = NDProxy::new(config, vec![upstream_eth0()], vec![downstream_eth1()]);
    let cache = NeighborsCache::new(600);
    let src = addr([0xfe80, 0, 0, 0, 0, 0, 0, 0xa]);
    let target = addr([0x2001, 0x0db8, 1, 0, 0, 0, 0xabcd, 0x1234]);

    let acts = proxy.run(2, &target, &ns_frame(&src, &target), &cache, 0).unwrap();
    assert_eq!(acts.len(), 2);
    assert_eq!(acts[0].dst, addr([0x2001, 0x0db8, 9, 0, 0, 0, 0xabcd, 0x1234]));
}

#[test]
fn test_empty_interface_sets_never_fire() {
    // a proxy with no proxied or no forwarded interface stays quiet
    let cache = NeighborsCache::new(600);
    let src = addr([0xfe80, 0, 0, 0, 0, 0, 0, 0xa]);
    let target = addr([0x2001, 0x0db8, 0, 0, 0, 0, 0, 5]);
    let frame = ns_frame(&src, &target);

    let no_upstream = NDProxy::new(forward_config(None), Vec::new(), vec![downstream_eth1()]);
    assert!(no_upstream.run(2, &target, &frame, &cache, 0).unwrap().is_empty());

    let no_downstream = NDProxy::new(forward_config(None), vec![upstream_eth0()], Vec::new());
    assert!(no_downstream.run(2, &target, &frame, &cache, 0).unwrap().is_empty());

    let static_no_upstream = NDProxy::new(static_config(), Vec::new(), Vec::new());
    assert!(static_no_upstream.run(2, &target, &frame, &cache, 0).unwrap().is_empty());
}

#[test]
fn test_forward_skips_ingress_scope_probe() {
    // a downstream interface equal to the ingress one is not probed
    let proxy = NDProxy::new(
        forward_config(None),
        vec![upstream_eth0()],
        vec![upstream_eth0(), downstream_eth1()],
    );
    let cache = NeighborsCache::new(600);
    let src = addr([0xfe80, 0, 0, 0, 0, 0, 0, 0xa]);
    let target = addr([0x2001, 0x0db8, 0, 0, 0, 0, 0, 5]);
    let acts = proxy.run(2, &target, &ns_frame(&src, &target), &cache, 0).unwrap();
    // one unicast and one multicast probe, both only towards scope 3
    assert_eq!(acts.len(), 2);
    assert!(acts.iter().all(|a| a.scope_id == 3));
}

// ---- configuration ----

#[test]
fn test_ndconfig_defaults() {
    let c = static_config();
    assert_eq!(c.proxy_type, Proxy::Static);
    assert_eq!(c.proxied_ifaces, vec!["*".to_string()]);
    assert!(c.forwarded_ifaces.is_empty()); // static mode forwards nowhere
    assert_eq!(c.address_mangling, AddressMangling::Nochange);
    assert_eq!(c.dst_pfx, c.proxied_pfx);

    let f = forward_config(None);
    assert_eq!(f.proxy_type, Proxy::Forward);
    assert_eq!(f.forwarded_ifaces, vec!["*".to_string()]);
}

#[test]
fn test_ndconfig_explicit_fields() {
    let c = NDConfig::new(
        "conf2".to_string(),
        "forward".to_string(),
        prefix([0x2001, 0x0db8, 0, 0, 0, 0, 0, 0], 64),
        Some(vec!["lo".to_string()]),
        Some(vec!["veth0".to_string()]),
        Some("netmap".to_string()),
        Some(prefix([0x2001, 0x0db9, 0, 0, 0, 0, 0, 0], 64)),
    )
    .unwrap();
    assert_eq!(c.name, "conf2");
    assert_eq!(c.proxy_type, Proxy::Forward);
    assert_eq!(c.proxied_ifaces, vec!["lo".to_string()]);
    assert_eq!(c.forwarded_ifaces, vec!["veth0".to_string()]);
    assert_eq!(c.address_mangling, AddressMangling::Netmap);
    assert_eq!(c.dst_pfx, prefix([0x2001, 0x0db9, 0, 0, 0, 0, 0, 0], 64));

    // an unknown rewrite method means no rewrite
    let d = NDConfig::new(
        "conf3".to_string(),
        "static".to_string(),
        prefix([0x2001, 0x0db8, 0, 0, 0, 0, 0, 0], 64),
        None,
        None,
        Some("other".to_string()),
        Some(prefix([0x2001, 0x0db9, 0, 0, 0, 0, 0, 0], 64)),
    )
    .unwrap();
    assert_eq!(d.address_mangling, AddressMangling::Nochange);
}

// ---- interfaces ----

fn raw_iface(name: &str, index: u32, mac: Option<[u8; 6]>, v6_addrs: Vec<V6Addr>) -> RawInterface {
    RawInterface { name: name.to_string(), index, mac, v6_addrs }
}

#[test]
fn test_get_specified_iface() {
    let ll = addr([0xfe80, 0, 0, 0, 0, 0, 0, 1]);
    let global = addr([0x2001, 0x0db8, 0, 0, 0, 0, 0, 1]);

    let with_ll = raw_iface("eth0", 2, Some([1, 2, 3, 4, 5, 6]), vec![global, ll]);
    let nd = get_specified_iface(&with_ll).unwrap();
    assert_eq!(nd.name, "eth0");
    assert_eq!(nd.scope_id, 2);
    assert_eq!(nd.link_addr, ll);
    assert_eq!(nd.hwaddr, [1, 2, 3, 4, 5, 6]);

    // without a link-local address the interface is not used
    let without_ll = raw_iface("eth1", 3, Some([1, 2, 3, 4, 5, 6]), vec![global]);
    assert!(get_specified_iface(&without_ll).is_none());

    // a missing MAC becomes all zero
    let no_mac = raw_iface("eth2", 4, None, vec![ll]);
    assert_eq!(get_specified_iface(&no_mac).unwrap().hwaddr, [0; 6]);
}

#[test]
fn test_get_ifaces_with_name() {
    let ret = get_ifaces_with_name(&vec!["lo".to_string()], &Vec::new());
    assert_eq!(ret.len(), 0);
}

#[test]
fn test_get_ifaces_with_name_selection() {
    let ll = addr([0xfe80, 0, 0, 0, 0, 0, 0, 1]);
    let candidates = vec![
        raw_iface("eth0", 2, Some([1, 0, 0, 0, 0, 0]), vec![ll]),
        raw_iface("eth1", 3, Some([2, 0, 0, 0, 0, 0]), vec![ll]),
        raw_iface("eth2", 4, Some([3, 0, 0, 0, 0, 0]), Vec::new()), // no link local
    ];

    let all = get_ifaces_with_name(&vec!["*".to_string()], &candidates);
    assert_eq!(all.len(), 2);

    let named = get_ifaces_with_name(&vec!["eth1".to_string()], &candidates);
    assert_eq!(named.len(), 1);
    assert_eq!(named[0].scope_id, 3);

    let none = get_ifaces_with_name(&vec!["eth2".to_string()], &candidates);
    assert!(none.is_empty());
}

// ---- packet filters ----

#[test]
fn test_filter_programs() {
    let ns = ns_filter_program();
    assert_eq!(ns.len(), 6);
    assert_eq!((ns[0].code, ns[0].k), (0x30, 6)); // load next header
    assert_eq!((ns[1].code, ns[1].k, ns[1].jf), (0x15, 58, 3));
    assert_eq!((ns[2].code, ns[2].k), (0x30, 40)); // load ICMPv6 type
    assert_eq!((ns[3].code, ns[3].k, ns[3].jf), (0x15, 135, 1));
    assert_eq!((ns[4].code, ns[4].k), (0x06, u32::MAX));
    assert_eq!((ns[5].code, ns[5].k), (0x06, 0));

    let na = na_filter_program();
    assert_eq!(na[3].k, 136);
    assert_eq!(na[1].k, 58);
}

#[test]
fn test_check_prefix() {
    assert!(check_prefix(&prefix([0x2001, 0x0db8, 0, 0, 0, 0, 0, 0], 64)));
    assert!(check_prefix(&prefix([0; 8], 0)));
    assert!(check_prefix(&prefix([0xfe80, 0, 0, 0, 0, 0, 0, 0], 10)));
    // host bits set
    assert!(!check_prefix(&prefix([0x2001, 0x0db8, 0, 0, 0, 0, 0, 1], 64)));
    assert!(!check_prefix(&prefix([0xfe81, 0, 0, 0, 0, 0, 0, 0], 10)));
    // length out of range
    assert!(!check_prefix(&prefix([0; 8], 129)));
}

#[test]
fn test_extend_ifaces_unions_by_scope() {
    let a = iface("eth0", 2, addr([0xfe80, 0, 0, 0, 0, 0, 0, 1]), [1, 0, 0, 0, 0, 0]);
    let b = iface("eth1", 3, addr([0xfe80, 0, 0, 0, 0, 0, 0, 2]), [2, 0, 0, 0, 0, 0]);
    let b2 = iface("eth1b", 3, addr([0xfe80, 0, 0, 0, 0, 0, 0, 3]), [3, 0, 0, 0, 0, 0]);

    let mut union: Vec<NDInterface> = Vec::new();
    extend_ifaces(&mut union, &vec![a.clone(), b.clone()]);
    assert_eq!(union.len(), 2);
    // a later record with a known scope id replaces the earlier one
    extend_ifaces(&mut union, &vec![b2.clone()]);
    assert_eq!(union.len(), 2);
    assert!(union.iter().any(|i| i.scope_id == 3 && i.name == "eth1b"));
    assert!(union.iter().any(|i| i.scope_id == 2));
}
