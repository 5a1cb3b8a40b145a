//! The longest-prefix-match routing table: it maps a solicited target
//! address to the proxy instance owning the most specific matching
//! prefix. Built once at startup, read-only afterwards; the value of an
//! entry is the index of the proxy's channel sink.

use vstd::prelude::*;

use crate::address::{addr_in_prefix, prefix_matches, V6Addr, V6Prefix};

verus! {

/// Scan the entries front to back, keeping the first entry of the
/// greatest matching prefix length.
pub open spec fn spec_lookup(entries: Seq<(V6Prefix, usize)>, addr: Seq<u16>) -> Option<
    (V6Prefix, usize),
>
    decreases entries.len(),
{
    if entries.len() == 0 {
        None
    } else {
        let prev = spec_lookup(entries.drop_last(), addr);
        let last = entries.last();
        if prefix_matches(last.0, addr) && (prev is None || prev->Some_0.0.len < last.0.len) {
            Some(last)
        } else {
            prev
        }
    }
}

/// What the scan returns: a matching entry of maximal prefix length, and
/// `None` exactly when no entry matches.
pub proof fn lemma_spec_lookup_properties(entries: Seq<(V6Prefix, usize)>, addr: Seq<u16>)
    ensures
        spec_lookup(entries, addr) is None <==> forall|k: int|
            0 <= k < entries.len() ==> !prefix_matches(entries[k].0, addr),
        spec_lookup(entries, addr) is Some ==> {
            let best = spec_lookup(entries, addr)->Some_0;
            &&& exists|k: int| 0 <= k < entries.len() && entries[k] == best
            &&& prefix_matches(best.0, addr)
            &&& forall|k: int|
                0 <= k < entries.len() && prefix_matches(#[trigger] entries[k].0, addr)
                    ==> entries[k].0.len <= best.0.len
        },
    decreases entries.len(),
{
    if entries.len() > 0 {
        lemma_spec_lookup_properties(entries.drop_last(), addr);
        assert(forall|k: int| 0 <= k < entries.len() - 1 ==> entries.drop_last()[k] == entries[k]);
        if spec_lookup(entries, addr) is Some {
            let best = spec_lookup(entries, addr)->Some_0;
            if spec_lookup(entries.drop_last(), addr) is Some && best == spec_lookup(
                entries.drop_last(),
                addr,
            )->Some_0 {
                let w = choose|k: int|
                    0 <= k < entries.len() - 1 && entries.drop_last()[k] == best;
                assert(entries[w] == best);
            }
        }
    }
}

/// The routing table: prefix entries with the channel-sink index of the
/// proxy that owns each prefix.
pub struct RoutingTable {
    entries: Vec<(V6Prefix, usize)>,
}

impl View for RoutingTable {
    type V = Seq<(V6Prefix, usize)>;

    closed spec fn view(&self) -> Seq<(V6Prefix, usize)> {
        self.entries@
    }
}

impl RoutingTable {
    /// Every stored prefix is well formed.
    pub open spec fn wf(&self) -> bool {
        forall|k: int| 0 <= k < self@.len() ==> (#[trigger] self@[k]).0.wf()
    }

    /// The most specific entry whose prefix contains `addr`, or `None`
    /// when no entry does.
    pub fn lookup(&self, addr: &V6Addr) -> (r: Option<(V6Prefix, usize)>)
        requires
            self.wf(),
        ensures
            r == spec_lookup(self@, addr@),
    {
        let n = self.entries.len();
        let mut best: Option<(V6Prefix, usize)> = None;
        let mut k: usize = 0;
        proof {
            assert(self@.subrange(0, 0) =~= Seq::<(V6Prefix, usize)>::empty());
        }
        while k < n
            invariant
                k <= n,
                n == self@.len(),
                self.wf(),
                best == spec_lookup(self@.subrange(0, k as int), addr@),
            decreases n - k,
        {
            proof {
                assert(self@.subrange(0, k + 1).drop_last() =~= self@.subrange(0, k as int));
                assert(self@.subrange(0, k + 1).last() == self@[k as int]);
            }
            let (pfx, sink) = self.entries[k];
            if addr_in_prefix(&pfx, addr) {
                let better = match best {
                    None => true,
                    Some((bp, _)) => bp.len < pfx.len,
                };
                if better {
                    best = Some((pfx, sink));
                }
            }
            k += 1;
        }
        proof {
            assert(self@.subrange(0, n as int) =~= self@);
        }
        best
    }
}

/// Create a routing table from a list of route entries.
pub fn construst_routing_table(prelude: Vec<(V6Prefix, usize)>) -> (r: RoutingTable)
    requires
        forall|k: int| 0 <= k < prelude@.len() ==> (#[trigger] prelude@[k]).0.wf(),
    ensures
        r.wf(),
        r@ == prelude@,
{
    RoutingTable { entries: prelude }
}

} // verus!
