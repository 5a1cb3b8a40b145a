//! The Neighbor Solicitation monitor of one upstream interface: it
//! decides, frame by frame, whether a captured solicitation is handed to
//! a proxy, and to which. Short frames are dropped, unrouted targets are
//! dropped, and a solicitation for a prefix's own network address (the
//! subnet-router anycast of RFC 4291) is dropped.

use vstd::prelude::*;

use crate::address::V6Addr;
use crate::interfaces::NDInterface;
use crate::packets::{addr_of_bytes_at, parse_ns_fields};
use crate::routing::{spec_lookup, RoutingTable};

verus! {

/// One solicitation on its way to a proxy: the sink index the routing
/// table gave, the scope id of the capturing interface, the solicited
/// target, and the raw frame.
pub struct NsForward {
    pub sink: usize,
    pub scope_id: u32,
    pub tgt_addr: V6Addr,
    pub packet: Vec<u8>,
}

impl NsForward {
    /// The event as plain values, for stating laws about sequences of
    /// events.
    pub open spec fn view_tuple(&self) -> (usize, u32, Seq<u16>, Seq<u8>) {
        (self.sink, self.scope_id, self.tgt_addr@, self.packet@)
    }
}

/// The monitor's verdict on one captured frame: the sink and target of
/// the forwarded solicitation, or nothing.
pub open spec fn ns_decision(
    table: Seq<(crate::address::V6Prefix, usize)>,
    frame: Seq<u8>,
) -> Option<(usize, Seq<u16>)> {
    if frame.len() < 64 {
        None
    } else {
        let tgt = addr_of_bytes_at(frame, 48);
        match spec_lookup(table, tgt) {
            None => None,
            Some((pfx, sink)) => if pfx.network@ == tgt {
                None
            } else {
                Some((sink, tgt))
            },
        }
    }
}

/// The events a monitor of `scope_id` forwards for a sequence of
/// captured frames, in capture order.
pub open spec fn ns_events(
    table: Seq<(crate::address::V6Prefix, usize)>,
    scope_id: u32,
    frames: Seq<Seq<u8>>,
) -> Seq<(usize, u32, Seq<u16>, Seq<u8>)>
    decreases frames.len(),
{
    if frames.len() == 0 {
        Seq::empty()
    } else {
        let rest = ns_events(table, scope_id, frames.drop_last());
        match ns_decision(table, frames.last()) {
            None => rest,
            Some((sink, tgt)) => rest.push((sink, scope_id, tgt, frames.last())),
        }
    }
}

/// Capture order is kept: the events of frames observed earlier stand,
/// unchanged and in order, before the events of frames observed later.
pub proof fn lemma_ns_events_fifo(
    table: Seq<(crate::address::V6Prefix, usize)>,
    scope_id: u32,
    earlier: Seq<Seq<u8>>,
    later: Seq<Seq<u8>>,
)
    ensures
        ns_events(table, scope_id, earlier + later) == ns_events(table, scope_id, earlier)
            + ns_events(table, scope_id, later),
    decreases later.len(),
{
    if later.len() == 0 {
        assert(earlier + later =~= earlier);
        assert(ns_events(table, scope_id, earlier) + ns_events(table, scope_id, later)
            =~= ns_events(table, scope_id, earlier));
    } else {
        lemma_ns_events_fifo(table, scope_id, earlier, later.drop_last());
        assert((earlier + later).drop_last() =~= earlier + later.drop_last());
        assert((earlier + later).last() == later.last());
        match ns_decision(table, later.last()) {
            None => {},
            Some((sink, tgt)) => {
                assert(ns_events(table, scope_id, earlier) + ns_events(
                    table,
                    scope_id,
                    later.drop_last(),
                ).push((sink, scope_id, tgt, later.last())) =~= (ns_events(table, scope_id, earlier)
                    + ns_events(table, scope_id, later.drop_last())).push(
                    (sink, scope_id, tgt, later.last()),
                ));
            },
        }
    }
}

/// The solicitation monitor of one upstream interface: the routing table
/// and the interface it captures on. The capturing socket lives outside
/// the library and hands frames in.
pub struct NSMonitor {
    routing_table: RoutingTable,
    iface: NDInterface,
}

impl NSMonitor {
    pub closed spec fn wf(&self) -> bool {
        self.routing_table.wf()
    }

    pub closed spec fn spec_routing_table(&self) -> Seq<(crate::address::V6Prefix, usize)> {
        self.routing_table@
    }

    pub closed spec fn spec_iface(&self) -> NDInterface {
        self.iface
    }

    pub fn new(routing_table: RoutingTable, iface: NDInterface) -> (r: NSMonitor)
        requires
            routing_table.wf(),
        ensures
            r.wf(),
            r.spec_routing_table() == routing_table@,
            r.spec_iface() == iface,
    {
        NSMonitor { routing_table, iface }
    }

    /// Decide one captured frame: a frame shorter than 64 bytes is
    /// dropped; a target without a route is dropped; a target equal to
    /// the network address of its most specific route is dropped; any
    /// other solicitation is forwarded to the sink of that route.
    pub fn handle_frame(&self, packet: Vec<u8>) -> (r: Option<NsForward>)
        requires
            self.wf(),
        ensures
            match ns_decision(self.spec_routing_table(), packet@) {
                None => r is None,
                Some((sink, tgt)) => {
                    &&& r is Some
                    &&& r->Some_0.sink == sink
                    &&& r->Some_0.scope_id == self.spec_iface().scope_id
                    &&& r->Some_0.tgt_addr@ == tgt
                    &&& r->Some_0.packet@ == packet@
                    &&& packet@.len() >= 64
                },
            },
    {
        if packet.len() < 64 {
            return None;
        }
        let (_src, _dst, tgt_addr) = parse_ns_fields(&packet);
        match self.routing_table.lookup(&tgt_addr) {
            None => None,
            Some((pfx, sink)) => {
                // Do not answer for the subnet-router anycast address.
                if pfx.network.same(&tgt_addr) {
                    None
                } else {
                    Some(
                        NsForward {
                            sink,
                            scope_id: self.iface.scope_id,
                            tgt_addr,
                            packet,
                        },
                    )
                }
            },
        }
    }

    /// Decide a batch of captured frames in order. Together with
    /// `lemma_ns_events_fifo` this states the ordering guarantee of the
    /// monitor: events reach the proxy in capture order.
    pub fn handle_frames(&self, packets: Vec<Vec<u8>>) -> (r: Vec<NsForward>)
        requires
            self.wf(),
        ensures
            r@.map_values(|e: NsForward| e.view_tuple()) == ns_events(
                self.spec_routing_table(),
                self.spec_iface().scope_id,
                packets@.map_values(|p: Vec<u8>| p@),
            ),
    {
        let ghost frames: Seq<Seq<u8>> = packets@.map_values(|p: Vec<u8>| p@);
        let mut out: Vec<NsForward> = Vec::new();
        let n = packets.len();
        proof {
            assert(frames.subrange(0, 0) =~= Seq::<Seq<u8>>::empty());
            assert(out@.map_values(|e: NsForward| e.view_tuple()) =~= Seq::<(
                usize,
                u32,
                Seq<u16>,
                Seq<u8>,
            )>::empty());
        }
        let mut k: usize = 0;
        while k < n
            invariant
                k <= n,
                self.wf(),
                n == packets@.len(),
                frames == packets@.map_values(|p: Vec<u8>| p@),
                out@.map_values(|e: NsForward| e.view_tuple()) == ns_events(
                    self.spec_routing_table(),
                    self.spec_iface().scope_id,
                    frames.subrange(0, k as int),
                ),
            decreases n - k,
        {
            let ghost out_before = out@;
            let pkt = packets[k].clone();
            proof {
                assert(pkt@ == frames[k as int]);
                assert(frames.subrange(0, k + 1).drop_last() =~= frames.subrange(0, k as int));
                assert(frames.subrange(0, k + 1).last() == frames[k as int]);
            }
            match self.handle_frame(pkt) {
                None => {},
                Some(ev) => {
                    out.push(ev);
                    proof {
                        assert(out@ =~= out_before.push(ev));
                        assert(out@.map_values(|e: NsForward| e.view_tuple())
                            =~= out_before.map_values(|e: NsForward| e.view_tuple()).push(
                            ev.view_tuple(),
                        ));
                    }
                },
            }
            k += 1;
        }
        proof {
            assert(frames.subrange(0, n as int) =~= frames);
        }
        out
    }
}

} // verus!
