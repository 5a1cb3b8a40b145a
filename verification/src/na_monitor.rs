//! The Neighbor Advertisement monitor of one downstream interface: every
//! captured advertisement marks its target as present in the shared
//! neighbor cache, under this interface's scope id. Frames shorter than
//! 64 bytes are dropped.

use vstd::prelude::*;

use crate::address::V6Addr;
use crate::interfaces::NDInterface;
use crate::neighbors::{expiry_after, NeighborsCache};
use crate::packets::{addr_of_bytes_at, parse_ns_fields};

verus! {

/// The advertisement monitor of one downstream interface. The capturing
/// socket lives outside the library and hands frames in; the shared
/// cache is handed to each call.
pub struct NAMonitor {
    iface: NDInterface,
}

impl NAMonitor {
    pub closed spec fn spec_iface(&self) -> NDInterface {
        self.iface
    }

    pub fn new(iface: NDInterface) -> (r: NAMonitor)
        ensures
            r.spec_iface() == iface,
    {
        NAMonitor { iface }
    }

    /// Record one captured advertisement: a frame shorter than 64 bytes
    /// leaves the cache untouched; otherwise the advertised target is
    /// marked present on this interface at time `now`.
    pub fn handle_frame(
        &self,
        packet: &Vec<u8>,
        neighbors_cache: &mut NeighborsCache,
        now: u64,
    ) -> (r: Option<V6Addr>)
        requires
            old(neighbors_cache).wf(),
        ensures
            final(neighbors_cache).wf(),
            final(neighbors_cache).spec_ttl() == old(neighbors_cache).spec_ttl(),
            packet@.len() < 64 ==> r is None && final(neighbors_cache)@ == old(neighbors_cache)@,
            packet@.len() >= 64 ==> {
                &&& r is Some
                &&& r->Some_0@ == addr_of_bytes_at(packet@, 48)
                &&& final(neighbors_cache)@ =~= old(neighbors_cache)@.insert(
                    (self.spec_iface().scope_id, addr_of_bytes_at(packet@, 48)),
                    expiry_after(now, old(neighbors_cache).spec_ttl()),
                )
            },
    {
        if packet.len() < 64 {
            return None;
        }
        let (_src, _dst, tgt_addr) = parse_ns_fields(packet);
        neighbors_cache.mark_present(self.iface.scope_id, &tgt_addr, now);
        Some(tgt_addr)
    }
}

} // verus!
