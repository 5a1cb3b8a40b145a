//! The per-prefix proxy state machine: it consumes one queued Neighbor
//! Solicitation at a time and decides which packets leave, and where. In
//! `Static` mode the advertisement is returned at once; in `Forward`
//! mode the target is rewritten, the downstream interfaces are probed,
//! and the advertisement is returned only once the neighbor cache
//! confirms the rewritten target. Sending and receiving live outside the
//! library; every emitted packet is returned as data.

use vstd::prelude::*;

use crate::address::{
    gen_solicited_node_multicast_address, hostmask_seg, netmapv6, npt_seg, nptv6, pfx_csum,
    pfx_csum_spec, V6Addr, V6Prefix,
};
use crate::conf::NDConfig;
use crate::interfaces::NDInterface;
use crate::neighbors::{is_live, NeighborsCache};
use crate::packets::{
    addr_of_bytes_at, decode_addr_at, generate_NA_forwarded, generate_NS_packet, is_na_packet,
    is_ns_packet,
};
use crate::types::{AddressMangling, Error, Proxy};

verus! {

/// One packet to be sent: the ICMPv6 payload, the destination address,
/// the scope id selecting the egress interface, and the hop limit the
/// sending socket must be configured with (255 for every NDP message,
/// RFC 4861).
pub struct OutPacket {
    pub payload: Vec<u8>,
    pub dst: V6Addr,
    pub scope_id: u32,
    pub hop_limit: u8,
}

/// The all-zero (unspecified) address.
pub open spec fn unspec_segs() -> Seq<u16> {
    Seq::new(8, |i: int| 0u16)
}

fn unspecified_addr() -> (r: V6Addr)
    ensures
        r@ =~= unspec_segs(),
{
    V6Addr { segs: [0; 8] }
}

/// The solicited-node multicast address of `a` (RFC 4291).
pub open spec fn sn_multicast(a: Seq<u16>) -> Seq<u16> {
    seq![0xff02u16, 0u16, 0u16, 0u16, 0u16, 1u16, (0xff00u16 | (a[6] & 0xff)) as u16, a[7]]
}

/// The first interface of the list carrying this scope id.
pub open spec fn find_iface(ifs: Seq<NDInterface>, scope_id: u32) -> Option<NDInterface>
    decreases ifs.len(),
{
    if ifs.len() == 0 {
        None
    } else if ifs.first().scope_id == scope_id {
        Some(ifs.first())
    } else {
        find_iface(ifs.drop_first(), scope_id)
    }
}

proof fn lemma_find_iface_at(ifs: Seq<NDInterface>, scope_id: u32, i: int)
    requires
        0 <= i < ifs.len(),
        ifs[i].scope_id == scope_id,
        forall|j: int| 0 <= j < i ==> (#[trigger] ifs[j]).scope_id != scope_id,
    ensures
        find_iface(ifs, scope_id) == Some(ifs[i]),
    decreases ifs.len(),
{
    if i > 0 {
        lemma_find_iface_at(ifs.drop_first(), scope_id, i - 1);
    }
}

proof fn lemma_find_iface_none(ifs: Seq<NDInterface>, scope_id: u32)
    requires
        forall|j: int| 0 <= j < ifs.len() ==> (#[trigger] ifs[j]).scope_id != scope_id,
    ensures
        find_iface(ifs, scope_id) is None,
    decreases ifs.len(),
{
    if ifs.len() > 0 {
        lemma_find_iface_none(ifs.drop_first(), scope_id);
    }
}

/// The downstream interfaces probed for a solicitation that came in on
/// `origin_scope_id`: all but the one it came in on, in order.
pub open spec fn probe_targets(ifs: Seq<NDInterface>, origin_scope_id: u32) -> Seq<NDInterface>
    decreases ifs.len(),
{
    if ifs.len() == 0 {
        Seq::empty()
    } else {
        let rest = probe_targets(ifs.drop_last(), origin_scope_id);
        if ifs.last().scope_id != origin_scope_id {
            rest.push(ifs.last())
        } else {
            rest
        }
    }
}

/// `a` is the probe solicitation sent out of `iface` towards `dst` for
/// target `tgt`: a well-formed solicitation with the interface's
/// link-local source and MAC option, hop limit 255, addressed to `dst`
/// on that interface.
pub open spec fn is_probe_for(a: OutPacket, iface: NDInterface, dst: Seq<u16>, tgt: Seq<u16>) -> bool {
    &&& is_ns_packet(a.payload@, iface.link_addr@, dst, tgt, Some(iface.hwaddr@))
    &&& a.dst@ == dst
    &&& a.scope_id == iface.scope_id
    &&& a.hop_limit == 255
}

/// `a` is the advertisement answered upstream for a solicitation from
/// `origin` asking for `target`: sent back to the solicitation's source
/// on the interface it came in on, advertising the original
/// (pre-rewrite) target, with the Override bit cleared.
pub open spec fn is_na_action(
    a: OutPacket,
    origin: Seq<u16>,
    target: Seq<u16>,
    mac: Seq<u8>,
    flag: u8,
    scope_id: u32,
) -> bool {
    &&& is_na_packet(a.payload@, unspec_segs(), origin, target, mac, flag)
    &&& a.dst@ == origin
    &&& a.scope_id == scope_id
    &&& a.hop_limit == 255
}

/// Some downstream interface has the address alive in the cache.
pub open spec fn any_downstream_live(
    ifs: Seq<NDInterface>,
    cache: Map<(u32, Seq<u16>), u64>,
    addr: Seq<u16>,
    now: u64,
) -> bool {
    exists|k: int| 0 <= k < ifs.len() && is_live(cache, (#[trigger] ifs[k]).scope_id, addr, now)
}

/// The proxy of one configured prefix.
pub struct NDProxy {
    pub proxy_type: Proxy,
    pub proxied_prefix: V6Prefix,
    /// Precomputed at construction to amortise the NPTv6 cost.
    pub proxied_prefix_csum: u16,
    pub address_mangling: AddressMangling,
    pub rewrite_prefix: V6Prefix,
    /// Precomputed at construction to amortise the NPTv6 cost.
    pub rewrite_prefix_csum: u16,
    /// The flag byte of emitted advertisements; the codec clears its
    /// Override bit.
    pub na_flag: u8,
    pub upstream_ifs: Vec<NDInterface>,
    pub downstream_ifs: Vec<NDInterface>,
}

impl NDProxy {
    /// The internal invariant: sound prefixes, matching stored
    /// checksums, and a rewrite prefix a rewrite can work with.
    pub open spec fn wf(&self) -> bool {
        &&& self.proxied_prefix.wf()
        &&& self.rewrite_prefix.wf()
        &&& self.address_mangling is Npt ==> self.rewrite_prefix.len < 128
        &&& self.proxied_prefix_csum == pfx_csum_spec(self.proxied_prefix.network@)
        &&& self.rewrite_prefix_csum == pfx_csum_spec(self.rewrite_prefix.network@)
    }

    /// Build the proxy of one configuration, with the interface records
    /// its names selected. The prefix checksums are computed here, once.
    pub fn new(
        config: NDConfig,
        upstream_ifs: Vec<NDInterface>,
        downstream_ifs: Vec<NDInterface>,
    ) -> (r: NDProxy)
        requires
            config.wf(),
        ensures
            r.wf(),
            r.proxy_type == config.proxy_type,
            r.proxied_prefix == config.proxied_pfx,
            r.address_mangling == config.address_mangling,
            r.rewrite_prefix == config.dst_pfx,
            r.na_flag == 0,
            r.upstream_ifs@ == upstream_ifs@,
            r.downstream_ifs@ == downstream_ifs@,
    {
        let proxied_prefix_csum = pfx_csum(&config.proxied_pfx);
        let rewrite_prefix_csum = pfx_csum(&config.dst_pfx);
        NDProxy {
            proxy_type: config.proxy_type,
            proxied_prefix: config.proxied_pfx,
            proxied_prefix_csum,
            address_mangling: config.address_mangling,
            rewrite_prefix: config.dst_pfx,
            rewrite_prefix_csum,
            na_flag: 0,
            upstream_ifs,
            downstream_ifs,
        }
    }

    /// The rewritten form of a solicited target: unchanged, netmap, or
    /// NPTv6, as configured.
    pub open spec fn rewritten_target(&self, tgt: Seq<u16>) -> Seq<u16> {
        match self.address_mangling {
            AddressMangling::Nochange => tgt,
            AddressMangling::Netmap => Seq::new(
                8,
                |i: int|
                    (
                    (tgt[i] & hostmask_seg(self.rewrite_prefix.len as int, i))
                        | self.rewrite_prefix.network@[i]),
            ),
            AddressMangling::Npt => {
                let idx = self.rewrite_prefix.len as int / 16;
                Seq::new(
                    8,
                    |i: int|
                        if i < idx {
                            self.rewrite_prefix.network@[i]
                        } else if i == idx {
                            npt_seg(
                                self.proxied_prefix_csum,
                                self.rewrite_prefix_csum,
                                tgt[i],
                            )
                        } else {
                            tgt[i]
                        },
                )
            },
        }
    }

    /// Rewrite a solicited target as configured.
    pub fn rewrite_addr(&self, tgt_addr: &V6Addr) -> (r: V6Addr)
        requires
            self.wf(),
        ensures
            r@ =~= self.rewritten_target(tgt_addr@),
    {
        match self.address_mangling {
            AddressMangling::Nochange => *tgt_addr,
            AddressMangling::Netmap => netmapv6(tgt_addr, &self.rewrite_prefix),
            AddressMangling::Npt => nptv6(
                self.proxied_prefix_csum,
                self.rewrite_prefix_csum,
                tgt_addr,
                &self.rewrite_prefix,
            ),
        }
    }

    /// The index of the first upstream interface with this scope id.
    fn find_upstream_index(&self, scope_id: u32) -> (r: Option<usize>)
        ensures
            match r {
                Some(k) => k < self.upstream_ifs@.len() && find_iface(self.upstream_ifs@, scope_id)
                    == Some(self.upstream_ifs@[k as int]),
                None => find_iface(self.upstream_ifs@, scope_id) is None,
            },
    {
        let n = self.upstream_ifs.len();
        let mut k: usize = 0;
        while k < n
            invariant
                k <= n,
                n == self.upstream_ifs@.len(),
                forall|j: int|
                    0 <= j < k ==> (#[trigger] self.upstream_ifs@[j]).scope_id != scope_id,
            decreases n - k,
        {
            if self.upstream_ifs[k].scope_id == scope_id {
                proof {
                    lemma_find_iface_at(self.upstream_ifs@, scope_id, k as int);
                }
                return Some(k);
            }
            k += 1;
        }
        proof {
            lemma_find_iface_none(self.upstream_ifs@, scope_id);
        }
        None
    }

    /// Whether any downstream interface has the rewritten target alive
    /// in the cache at `now`.
    fn any_neighbor_cached(&self, cache: &NeighborsCache, addr: &V6Addr, now: u64) -> (r: bool)
        requires
            cache.wf(),
        ensures
            r == any_downstream_live(self.downstream_ifs@, cache@, addr@, now),
    {
        let n = self.downstream_ifs.len();
        let mut k: usize = 0;
        while k < n
            invariant
                k <= n,
                cache.wf(),
                n == self.downstream_ifs@.len(),
                forall|j: int|
                    0 <= j < k ==> !is_live(
                        cache@,
                        (#[trigger] self.downstream_ifs@[j]).scope_id,
                        addr@,
                        now,
                    ),
            decreases n - k,
        {
            if cache.exists_entry(self.downstream_ifs[k].scope_id, addr, now) {
                proof {
                    assert(is_live(cache@, self.downstream_ifs@[k as int].scope_id, addr@, now));
                }
                return true;
            }
            k += 1;
        }
        false
    }

    /// Build the advertisement answered upstream: source unspecified,
    /// destination the solicitation's origin, target the proxied
    /// (pre-rewrite) address, with this proxy's flag byte and the MAC of
    /// the answering interface as target link-layer address.
    pub fn send_na_to_upstream(
        &self,
        ns_origin: &V6Addr,
        proxied_addr: &V6Addr,
        src_hwaddr: &[u8; 6],
        scope_id: u32,
    ) -> (r: Result<OutPacket, Error>)
        ensures
            r is Ok,
            is_na_action(
                r->Ok_0,
                ns_origin@,
                proxied_addr@,
                src_hwaddr@,
                self.na_flag,
                scope_id,
            ),
    {
        let unspec = unspecified_addr();
        let payload = match generate_NA_forwarded(
            &unspec,
            ns_origin,
            proxied_addr,
            src_hwaddr,
            self.na_flag,
        ) {
            Ok(p) => p,
            Err(e) => {
                return Err(e);
            },
        };
        Ok(OutPacket { payload, dst: *ns_origin, scope_id, hop_limit: 255 })
    }

    /// Build one probe solicitation per downstream interface other than
    /// the one the solicitation came in on, each sent from that
    /// interface's link-local address with its MAC as source
    /// link-layer-address option.
    pub fn forward_ns_to_downstream(
        &self,
        dst_addr: &V6Addr,
        ns_tgt_addr: &V6Addr,
        origin_scope_id: u32,
    ) -> (r: Result<Vec<OutPacket>, Error>)
        ensures
            r is Ok,
            r->Ok_0@.len() == probe_targets(self.downstream_ifs@, origin_scope_id).len(),
            forall|j: int|
                0 <= j < r->Ok_0@.len() ==> is_probe_for(
                    #[trigger] r->Ok_0@[j],
                    probe_targets(self.downstream_ifs@, origin_scope_id)[j],
                    dst_addr@,
                    ns_tgt_addr@,
                ),
    {
        let mut out: Vec<OutPacket> = Vec::new();
        let n = self.downstream_ifs.len();
        let mut i: usize = 0;
        proof {
            assert(self.downstream_ifs@.subrange(0, 0) =~= Seq::<NDInterface>::empty());
        }
        while i < n
            invariant
                i <= n,
                n == self.downstream_ifs@.len(),
                out@.len() == probe_targets(
                    self.downstream_ifs@.subrange(0, i as int),
                    origin_scope_id,
                ).len(),
                forall|j: int|
                    0 <= j < out@.len() ==> is_probe_for(
                        #[trigger] out@[j],
                        probe_targets(self.downstream_ifs@.subrange(0, i as int), origin_scope_id)[
                            j
                        ],
                        dst_addr@,
                        ns_tgt_addr@,
                    ),
            decreases n - i,
        {
            proof {
                assert(self.downstream_ifs@.subrange(0, i + 1).drop_last()
                    =~= self.downstream_ifs@.subrange(0, i as int));
                assert(self.downstream_ifs@.subrange(0, i + 1).last() == self.downstream_ifs@[
                    i as int
                ]);
            }
            let iface = &self.downstream_ifs[i];
            if iface.scope_id != origin_scope_id {
                let payload = match generate_NS_packet(
                    &iface.link_addr,
                    dst_addr,
                    ns_tgt_addr,
                    Some(&iface.hwaddr),
                ) {
                    Ok(p) => p,
                    Err(e) => {
                        return Err(e);
                    },
                };
                let ghost out_before = out@;
                out.push(OutPacket { payload, dst: *dst_addr, scope_id: iface.scope_id, hop_limit: 255 });
                proof {
                    assert(out@ =~= out_before.push(out@[out@.len() - 1]));
                }
            }
            i += 1;
        }
        proof {
            assert(self.downstream_ifs@.subrange(0, n as int) =~= self.downstream_ifs@);
        }
        Ok(out)
    }

    /// What a static-mode proxy answers to one solicitation: nothing if
    /// the ingress interface is not proxied; otherwise exactly the one
    /// advertisement back to the solicitation's source.
    pub open spec fn static_response_ok(
        &self,
        scope_id: u32,
        tgt: Seq<u16>,
        frame: Seq<u8>,
        acts: Seq<OutPacket>,
    ) -> bool {
        match find_iface(self.upstream_ifs@, scope_id) {
            None => acts.len() == 0,
            Some(uif) => acts.len() == 1 && is_na_action(
                acts[0],
                addr_of_bytes_at(frame, 8),
                tgt,
                uif.hwaddr@,
                self.na_flag,
                scope_id,
            ),
        }
    }

    /// What a forward-mode proxy answers to one solicitation: nothing if
    /// the ingress interface is not proxied; otherwise unicast probes for
    /// the rewritten target to every other downstream interface and, if
    /// the cache confirms the rewritten target on some downstream
    /// interface, the advertisement upstream; if not, solicited-node
    /// multicast probes instead, so that the answering host populates the
    /// cache for the next solicitation.
    pub open spec fn forward_response_ok(
        &self,
        scope_id: u32,
        tgt: Seq<u16>,
        frame: Seq<u8>,
        cache: Map<(u32, Seq<u16>), u64>,
        now: u64,
        acts: Seq<OutPacket>,
    ) -> bool {
        match find_iface(self.upstream_ifs@, scope_id) {
            None => acts.len() == 0,
            Some(uif) => {
                let rw = self.rewritten_target(tgt);
                let probes = probe_targets(self.downstream_ifs@, scope_id);
                &&& forall|j: int|
                    0 <= j < probes.len() ==> is_probe_for(#[trigger] acts[j], probes[j], rw, rw)
                &&& if any_downstream_live(self.downstream_ifs@, cache, rw, now) {
                    &&& acts.len() == probes.len() + 1
                    &&& is_na_action(
                        acts[probes.len() as int],
                        addr_of_bytes_at(frame, 8),
                        tgt,
                        uif.hwaddr@,
                        self.na_flag,
                        scope_id,
                    )
                } else {
                    &&& acts.len() == 2 * probes.len()
                    &&& forall|j: int|
                        0 <= j < probes.len() ==> is_probe_for(
                            #[trigger] acts[probes.len() + j],
                            probes[j],
                            sn_multicast(rw),
                            rw,
                        )
                }
            },
        }
    }

    /// Process one solicitation in static mode: answer at once, with no
    /// probing and no cache interaction.
    pub fn run_static(&self, scope_id: u32, tgt_addr: &V6Addr, packet: &Vec<u8>) -> (r: Result<
        Vec<OutPacket>,
        Error,
    >)
        requires
            self.wf(),
            packet@.len() >= 64,
        ensures
            r is Ok,
            self.static_response_ok(scope_id, tgt_addr@, packet@, r->Ok_0@),
    {
        let uidx = match self.find_upstream_index(scope_id) {
            Some(k) => k,
            None => {
                return Ok(Vec::new());
            },
        };
        let macaddr = self.upstream_ifs[uidx].hwaddr;
        let src_addr = decode_addr_at(packet, 8);
        let na = match self.send_na_to_upstream(&src_addr, tgt_addr, &macaddr, scope_id) {
            Ok(p) => p,
            Err(e) => {
                return Err(e);
            },
        };
        let mut acts: Vec<OutPacket> = Vec::new();
        acts.push(na);
        Ok(acts)
    }

    /// Process one solicitation in forward mode: rewrite the target,
    /// probe, and answer only a target the cache confirms.
    pub fn run_forward(
        &self,
        scope_id: u32,
        tgt_addr: &V6Addr,
        packet: &Vec<u8>,
        neighbors_cache: &NeighborsCache,
        now: u64,
    ) -> (r: Result<Vec<OutPacket>, Error>)
        requires
            self.wf(),
            packet@.len() >= 64,
            neighbors_cache.wf(),
        ensures
            r is Ok,
            self.forward_response_ok(
                scope_id,
                tgt_addr@,
                packet@,
                neighbors_cache@,
                now,
                r->Ok_0@,
            ),
    {
        let uidx = match self.find_upstream_index(scope_id) {
            Some(k) => k,
            None => {
                return Ok(Vec::new());
            },
        };
        let macaddr = self.upstream_ifs[uidx].hwaddr;

        // Step B: rewrite the target address as configured.
        let rewritten = self.rewrite_addr(tgt_addr);

        // Step C1: unicast probes towards the rewritten target.
        let mut acts = match self.forward_ns_to_downstream(&rewritten, &rewritten, scope_id) {
            Ok(v) => v,
            Err(e) => {
                return Err(e);
            },
        };

        // Step C2: only a target some downstream interface confirmed
        // recently is advertised upstream.
        if self.any_neighbor_cached(neighbors_cache, &rewritten, now) {
            let src_addr = decode_addr_at(packet, 8);
            let na = match self.send_na_to_upstream(&src_addr, tgt_addr, &macaddr, scope_id) {
                Ok(p) => p,
                Err(e) => {
                    return Err(e);
                },
            };
            acts.push(na);
        } else {
            // Step C3: multicast probes, so the real host advertises
            // itself and the cache learns it for the next solicitation.
            let sn = gen_solicited_node_multicast_address(&rewritten);
            proof {
                assert(sn@ =~= sn_multicast(rewritten@));
            }
            let mut more = match self.forward_ns_to_downstream(&sn, &rewritten, scope_id) {
                Ok(v) => v,
                Err(e) => {
                    return Err(e);
                },
            };
            let ghost acts_before = acts@;
            acts.append(&mut more);
            proof {
                assert(acts@.len() == 2 * probe_targets(self.downstream_ifs@, scope_id).len());
            }
        }
        Ok(acts)
    }

    /// Process one queued solicitation as the configured mode asks.
    pub fn run(
        &self,
        scope_id: u32,
        tgt_addr: &V6Addr,
        packet: &Vec<u8>,
        neighbors_cache: &NeighborsCache,
        now: u64,
    ) -> (r: Result<Vec<OutPacket>, Error>)
        requires
            self.wf(),
            packet@.len() >= 64,
            neighbors_cache.wf(),
        ensures
            r is Ok,
            match self.proxy_type {
                Proxy::Static => self.static_response_ok(scope_id, tgt_addr@, packet@, r->Ok_0@),
                Proxy::Forward => self.forward_response_ok(
                    scope_id,
                    tgt_addr@,
                    packet@,
                    neighbors_cache@,
                    now,
                    r->Ok_0@,
                ),
            },
    {
        match self.proxy_type {
            Proxy::Static => self.run_static(scope_id, tgt_addr, packet),
            Proxy::Forward => self.run_forward(scope_id, tgt_addr, packet, neighbors_cache, now),
        }
    }
}

/// A proxy with no proxied (upstream) interface never emits a packet,
/// whatever solicitations arrive and whatever the cache holds.
pub proof fn lemma_no_upstream_never_fires(
    p: NDProxy,
    scope_id: u32,
    tgt: Seq<u16>,
    frame: Seq<u8>,
    cache: Map<(u32, Seq<u16>), u64>,
    now: u64,
    acts: Seq<OutPacket>,
)
    requires
        p.upstream_ifs@.len() == 0,
        p.static_response_ok(scope_id, tgt, frame, acts) || p.forward_response_ok(
            scope_id,
            tgt,
            frame,
            cache,
            now,
            acts,
        ),
    ensures
        acts.len() == 0,
{
}

/// A forward-mode proxy with no forwarded (downstream) interface never
/// emits a packet: there is nothing to probe, and no downstream
/// interface can ever confirm the target.
pub proof fn lemma_no_downstream_never_fires(
    p: NDProxy,
    scope_id: u32,
    tgt: Seq<u16>,
    frame: Seq<u8>,
    cache: Map<(u32, Seq<u16>), u64>,
    now: u64,
    acts: Seq<OutPacket>,
)
    requires
        p.downstream_ifs@.len() == 0,
        p.forward_response_ok(scope_id, tgt, frame, cache, now, acts),
    ensures
        acts.len() == 0,
{
}

} // verus!
