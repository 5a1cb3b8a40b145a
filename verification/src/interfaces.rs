//! Network interface records and their selection by name: an interface
//! takes part in proxying only if it carries a link-local address. The
//! operating system's enumeration is handed in as plain records.

use vstd::prelude::*;

use crate::address::V6Addr;

verus! {

/// An interface taking part in proxying: name, OS scope id, link-local
/// address and MAC address. Built during startup, never mutated.
#[derive(Debug, Clone, PartialEq)]
pub struct NDInterface {
    pub name: String,
    pub scope_id: u32,
    pub link_addr: V6Addr,
    pub hwaddr: [u8; 6],
}

impl NDInterface {
    /// A copy equal to the record, field for field; the supervisor
    /// copies records when it unions interface sets.
    pub fn clone_record(&self) -> (r: NDInterface)
        ensures
            r == *self,
    {
        NDInterface {
            name: self.name.clone(),
            scope_id: self.scope_id,
            link_addr: self.link_addr,
            hwaddr: self.hwaddr,
        }
    }
}

/// One interface as the operating system's enumeration reports it: name,
/// index, MAC address if any, and its IPv6 addresses in order.
#[derive(Debug, Clone)]
pub struct RawInterface {
    pub name: String,
    pub index: u32,
    pub mac: Option<[u8; 6]>,
    pub v6_addrs: Vec<V6Addr>,
}

/// The address is link local: its first two octets are fe80.
pub open spec fn is_link_local(a: Seq<u16>) -> bool {
    a[0] == 0xfe80u16
}

/// The first link-local address of the list, if any.
pub open spec fn first_link_local(addrs: Seq<V6Addr>) -> Option<V6Addr>
    decreases addrs.len(),
{
    if addrs.len() == 0 {
        None
    } else if is_link_local(addrs.first()@) {
        Some(addrs.first())
    } else {
        first_link_local(addrs.drop_first())
    }
}

proof fn lemma_first_link_local_at(addrs: Seq<V6Addr>, i: int)
    requires
        0 <= i < addrs.len(),
        is_link_local(addrs[i]@),
        forall|j: int| 0 <= j < i ==> !is_link_local(#[trigger] addrs[j]@),
    ensures
        first_link_local(addrs) == Some(addrs[i]),
    decreases addrs.len(),
{
    if i > 0 {
        lemma_first_link_local_at(addrs.drop_first(), i - 1);
    }
}

proof fn lemma_first_link_local_none(addrs: Seq<V6Addr>)
    requires
        forall|j: int| 0 <= j < addrs.len() ==> !is_link_local(#[trigger] addrs[j]@),
    ensures
        first_link_local(addrs) is None,
    decreases addrs.len(),
{
    if addrs.len() > 0 {
        lemma_first_link_local_none(addrs.drop_first());
    }
}

/// The MAC octets an interface record ends up with: the reported ones, or
/// zeroes when the OS reports none.
pub open spec fn mac_of(m: Option<[u8; 6]>) -> Seq<u8> {
    match m {
        Some(x) => x@,
        None => Seq::new(6, |i: int| 0u8),
    }
}

/// `nd` is the record that selecting `raw` produces.
pub open spec fn selects_to(raw: RawInterface, nd: NDInterface) -> bool {
    &&& first_link_local(raw.v6_addrs@) == Some(nd.link_addr)
    &&& nd.name@ == raw.name@
    &&& nd.scope_id == raw.index
    &&& nd.hwaddr@ == mac_of(raw.mac)
}

/// The reported interface carries at least one link-local address.
pub open spec fn has_link_local(raw: RawInterface) -> bool {
    exists|k: int| 0 <= k < raw.v6_addrs@.len() && is_link_local(#[trigger] raw.v6_addrs@[k]@)
}

/// Build the proxying record of one reported interface: its first
/// link-local address is taken; an interface without one is not used.
pub fn get_specified_iface(raw: &RawInterface) -> (r: Option<NDInterface>)
    ensures
        r is Some <==> has_link_local(*raw),
        r is Some ==> selects_to(*raw, r->Some_0),
{
    let n = raw.v6_addrs.len();
    let mut i: usize = 0;
    while i < n
        invariant
            i <= n,
            n == raw.v6_addrs@.len(),
            forall|j: int| 0 <= j < i ==> !is_link_local(#[trigger] raw.v6_addrs@[j]@),
        decreases n - i,
    {
        let a = raw.v6_addrs[i];
        if a.segs[0] == 0xfe80 {
            let hwaddr: [u8; 6] = match raw.mac {
                Some(m) => m,
                None => [0; 6],
            };
            proof {
                assert(is_link_local(raw.v6_addrs@[i as int]@));
                lemma_first_link_local_at(raw.v6_addrs@, i as int);
                assert(mac_of(raw.mac) =~= hwaddr@);
            }
            return Some(
                NDInterface {
                    name: raw.name.clone(),
                    scope_id: raw.index,
                    link_addr: a,
                    hwaddr,
                },
            );
        }
        i += 1;
    }
    proof {
        lemma_first_link_local_none(raw.v6_addrs@);
    }
    None
}

/// Some name of the list reads `s`.
pub open spec fn names_contain(names: Seq<String>, s: Seq<char>) -> bool {
    exists|k: int| 0 <= k < names.len() && #[trigger] names[k]@ == s
}

/// The name list selects this reported interface: it holds the wildcard
/// or the interface's own name.
pub open spec fn name_selected(names: Seq<String>, raw: RawInterface) -> bool {
    names_contain(names, "*"@) || names_contain(names, raw.name@)
}

/// `nd` is the selection of some candidate that the name list selects.
pub open spec fn from_selected(
    names: Seq<String>,
    candidates: Seq<RawInterface>,
    nd: NDInterface,
) -> bool {
    exists|j: int|
        0 <= j < candidates.len() && name_selected(names, #[trigger] candidates[j]) && selects_to(
            candidates[j],
            nd,
        )
}

/// Some record of the list carries this scope id.
pub open spec fn scope_present(s: Seq<NDInterface>, scope_id: u32) -> bool {
    exists|k: int| 0 <= k < s.len() && (#[trigger] s[k]).scope_id == scope_id
}

fn contains_str(names: &Vec<String>, s: &String) -> (r: bool)
    ensures
        r == names_contain(names@, s@),
{
    let n = names.len();
    let mut i: usize = 0;
    while i < n
        invariant
            i <= n,
            n == names@.len(),
            forall|j: int| 0 <= j < i ==> #[trigger] names@[j]@ != s@,
        decreases n - i,
    {
        let nm: &String = &names[i];
        if nm.eq(s) {
            return true;
        }
        i += 1;
    }
    false
}

/// Given the interface names of a configuration and the operating
/// system's enumeration, return the selected interfaces, one record per
/// scope id. `*` among the names selects every interface.
pub fn get_ifaces_with_name(names: &Vec<String>, candidates: &Vec<RawInterface>) -> (r: Vec<
    NDInterface,
>)
    ensures
        forall|k1: int, k2: int| 0 <= k1 < k2 < r@.len() ==> r@[k1].scope_id != r@[k2].scope_id,
        forall|k: int| 0 <= k < r@.len() ==> from_selected(names@, candidates@, #[trigger] r@[k]),
        forall|j: int|
            0 <= j < candidates@.len() && name_selected(names@, #[trigger] candidates@[j])
                && has_link_local(candidates@[j]) ==> scope_present(r@, candidates@[j].index),
{
    let star: String = "*".to_owned();
    let has_star = contains_str(names, &star);
    let mut out: Vec<NDInterface> = Vec::new();
    let n = candidates.len();
    let mut i: usize = 0;
    while i < n
        invariant
            i <= n,
            n == candidates@.len(),
            has_star == names_contain(names@, "*"@),
            forall|k1: int, k2: int|
                0 <= k1 < k2 < out@.len() ==> out@[k1].scope_id != out@[k2].scope_id,
            forall|k: int|
                0 <= k < out@.len() ==> from_selected(names@, candidates@, #[trigger] out@[k]),
            forall|j: int|
                0 <= j < i && name_selected(names@, #[trigger] candidates@[j]) && has_link_local(
                    candidates@[j],
                ) ==> scope_present(out@, candidates@[j].index),
        decreases n - i,
    {
        let ghost out_in = out@;
        let cand = &candidates[i];
        let wanted = has_star || contains_str(names, &cand.name);
        if wanted {
            if let Some(nd) = get_specified_iface(cand) {
                // One record per scope id: a later interface with the same
                // scope replaces the earlier one.
                let m = out.len();
                let mut k: usize = 0;
                while k < m && out[k].scope_id != nd.scope_id
                    invariant
                        k <= m,
                        m == out@.len(),
                        forall|k2: int| 0 <= k2 < k ==> out@[k2].scope_id != nd.scope_id,
                    decreases m - k,
                {
                    k += 1;
                }
                proof {
                    assert(name_selected(names@, candidates@[i as int]));
                    assert(selects_to(candidates@[i as int], nd));
                    assert(from_selected(names@, candidates@, nd));
                    assert(nd.scope_id == candidates@[i as int].index);
                }
                let ghost out0 = out@;
                if k < m {
                    out[k] = nd;
                    proof {
                        assert(out@ =~= out0.update(k as int, nd));
                        assert(out0[k as int].scope_id == nd.scope_id);
                        assert forall|k1: int, k2: int|
                            0 <= k1 < k2 < out@.len() implies out@[k1].scope_id
                            != out@[k2].scope_id by {
                            assert(out@[k1].scope_id == out0[k1].scope_id);
                            assert(out@[k2].scope_id == out0[k2].scope_id);
                        }
                    }
                } else {
                    out.push(nd);
                    proof {
                        assert(out@ =~= out0.push(nd));
                    }
                }
                proof {
                    assert forall|k2: int| 0 <= k2 < out@.len() implies from_selected(
                        names@,
                        candidates@,
                        #[trigger] out@[k2],
                    ) by {
                        if k2 < out0.len() && out@[k2] == out0[k2] {
                            assert(from_selected(names@, candidates@, out0[k2]));
                        } else {
                            assert(out@[k2] == nd);
                        }
                    }
                    assert forall|j: int|
                        0 <= j < i + 1 && name_selected(names@, #[trigger] candidates@[j])
                            && has_link_local(candidates@[j]) implies scope_present(
                        out@,
                        candidates@[j].index,
                    ) by {
                        if j == i as int {
                            if k < m {
                                assert(out@[k as int].scope_id == candidates@[j].index);
                            } else {
                                assert(out@[out@.len() - 1].scope_id == candidates@[j].index);
                            }
                        } else {
                            assert(scope_present(out0, candidates@[j].index));
                            let w = choose|k2: int|
                                0 <= k2 < out0.len() && (#[trigger] out0[k2]).scope_id
                                    == candidates@[j].index;
                            assert(out@[w].scope_id == out0[w].scope_id);
                        }
                    }
                }
            } else {
                proof {
                    assert(!has_link_local(candidates@[i as int]));
                }
            }
        } else {
            proof {
                assert(!name_selected(names@, candidates@[i as int]));
            }
        }
        i += 1;
    }
    out
}

/// Merge newly selected interfaces into a running union, keyed by scope
/// id: a record of `extra` replaces an earlier record with the same
/// scope id, as the supervisor unions the interface sets of all
/// configurations.
pub fn extend_ifaces(base: &mut Vec<NDInterface>, extra: &Vec<NDInterface>)
    requires
        forall|k1: int, k2: int|
            0 <= k1 < k2 < old(base)@.len() ==> old(base)@[k1].scope_id != old(base)@[k2].scope_id,
    ensures
        forall|k1: int, k2: int|
            0 <= k1 < k2 < final(base)@.len()
                ==> final(base)@[k1].scope_id != final(base)@[k2].scope_id,
        forall|k: int|
            0 <= k < final(base)@.len() ==> old(base)@.contains(#[trigger] final(base)@[k])
                || extra@.contains(final(base)@[k]),
        forall|j: int|
            0 <= j < extra@.len() ==> scope_present(final(base)@, (#[trigger] extra@[j]).scope_id),
        forall|k: int|
            0 <= k < old(base)@.len() ==> scope_present(
                final(base)@,
                (#[trigger] old(base)@[k]).scope_id,
            ),
{
    let n = extra.len();
    let mut i: usize = 0;
    while i < n
        invariant
            i <= n,
            n == extra@.len(),
            forall|k1: int, k2: int|
                0 <= k1 < k2 < base@.len() ==> base@[k1].scope_id != base@[k2].scope_id,
            forall|k: int|
                0 <= k < base@.len() ==> old(base)@.contains(#[trigger] base@[k])
                    || extra@.contains(base@[k]),
            forall|j: int|
                0 <= j < i ==> scope_present(base@, (#[trigger] extra@[j]).scope_id),
            forall|k: int|
                0 <= k < old(base)@.len() ==> scope_present(
                    base@,
                    (#[trigger] old(base)@[k]).scope_id,
                ),
        decreases n - i,
    {
        let nd = extra[i].clone_record();
        proof {
            assert(extra@.contains(extra@[i as int]));
        }
        let m = base.len();
        let mut k: usize = 0;
        while k < m && base[k].scope_id != nd.scope_id
            invariant
                k <= m,
                m == base@.len(),
                forall|k2: int| 0 <= k2 < k ==> base@[k2].scope_id != nd.scope_id,
            decreases m - k,
        {
            k += 1;
        }
        let ghost base0 = base@;
        if k < m {
            base[k] = nd;
            proof {
                assert(base@ =~= base0.update(k as int, extra@[i as int]));
                assert(base0[k as int].scope_id == extra@[i as int].scope_id);
                assert forall|k1: int, k2: int|
                    0 <= k1 < k2 < base@.len() implies base@[k1].scope_id
                    != base@[k2].scope_id by {
                    assert(base@[k1].scope_id == base0[k1].scope_id);
                    assert(base@[k2].scope_id == base0[k2].scope_id);
                }
                assert(base@[k as int].scope_id == extra@[i as int].scope_id);
            }
        } else {
            base.push(nd);
            proof {
                assert(base@ =~= base0.push(extra@[i as int]));
                assert(base@[base@.len() - 1].scope_id == extra@[i as int].scope_id);
            }
        }
        proof {
            assert forall|j: int| 0 <= j < i + 1 implies scope_present(
                base@,
                (#[trigger] extra@[j]).scope_id,
            ) by {
                if j == i as int {
                    if k < m {
                        assert(base@[k as int].scope_id == extra@[j].scope_id);
                    } else {
                        assert(base@[base@.len() - 1].scope_id == extra@[j].scope_id);
                    }
                } else {
                    assert(scope_present(base0, extra@[j].scope_id));
                    let w = choose|k2: int|
                        0 <= k2 < base0.len() && (#[trigger] base0[k2]).scope_id == extra@[
                            j
                        ].scope_id;
                    assert(base@[w].scope_id == base0[w].scope_id);
                }
            }
            assert forall|k3: int| 0 <= k3 < old(base)@.len() implies scope_present(
                base@,
                (#[trigger] old(base)@[k3]).scope_id,
            ) by {
                assert(scope_present(base0, old(base)@[k3].scope_id));
                let w = choose|k2: int|
                    0 <= k2 < base0.len() && (#[trigger] base0[k2]).scope_id == old(base)@[
                        k3
                    ].scope_id;
                assert(base@[w].scope_id == base0[w].scope_id);
            }
        }
        i += 1;
    }
}

} // verus!
