//! IPv6 addresses and prefixes as plain 16-bit segments, and the stateless
//! rewrite arithmetic: NPTv6 (RFC 6296), netmap, solicited-node multicast
//! synthesis (RFC 4291), and raw-byte decoding.

use vstd::prelude::*;

verus! {

/// An IPv6 address as its eight 16-bit segments, network byte order.
#[derive(Debug, Clone, Copy, PartialEq, Eq)]
pub struct V6Addr {
    pub segs: [u16; 8],
}

impl View for V6Addr {
    type V = Seq<u16>;

    open spec fn view(&self) -> Seq<u16> {
        self.segs@
    }
}

impl V6Addr {
    pub open spec fn wf(&self) -> bool {
        self@.len() == 8
    }

    /// Segment-wise equality; the spec-level `==` of the views.
    pub fn same(&self, other: &V6Addr) -> (r: bool)
        ensures
            r == (self@ =~= other@),
    {
        let mut i: usize = 0;
        while i < 8
            invariant
                i <= 8,
                forall|j: int| 0 <= j < i ==> self@[j] == other@[j],
            decreases 8 - i,
        {
            if self.segs[i] != other.segs[i] {
                return false;
            }
            i += 1;
        }
        true
    }
}

/// An IPv6 prefix: a network address whose host bits are all zero, and a
/// prefix length in bits.
#[derive(Debug, Clone, Copy, PartialEq, Eq)]
pub struct V6Prefix {
    pub network: V6Addr,
    pub len: u8,
}

/// How many of the prefix's bits fall into segment `i`.
pub open spec fn seg_bits(len: int, i: int) -> int {
    if len - 16 * i < 0 {
        0
    } else if len - 16 * i > 16 {
        16
    } else {
        len - 16 * i
    }
}

/// The netmask of segment `i` for a prefix of `len` bits.
pub open spec fn netmask_seg(len: int, i: int) -> u16 {
    let b = seg_bits(len, i);
    if b == 0 {
        0u16
    } else {
        (0xffffu16 << ((16 - b) as u16)) as u16
    }
}

/// The hostmask of segment `i`: the bits segment `i` keeps for the host part.
pub open spec fn hostmask_seg(len: int, i: int) -> u16 {
    !netmask_seg(len, i)
}

impl V6Prefix {
    /// A prefix is well formed when its length fits in 128 bits and the
    /// network address has all host bits zero.
    pub open spec fn wf(&self) -> bool {
        &&& self.len <= 128
        &&& forall|i: int|
            0 <= i < 8 ==> (self.network@[i] & hostmask_seg(self.len as int, i)) == 0
    }
}

/// `addr` lies inside `pfx`: the masked segments agree with the network.
pub open spec fn prefix_matches(pfx: V6Prefix, addr: Seq<u16>) -> bool {
    forall|i: int|
        0 <= i < 8 ==> (addr[i] & netmask_seg(pfx.len as int, i)) == pfx.network@[i]
}

/// Compute the netmask of segment `i` for a prefix of `len` bits.
pub fn netmask_segment(len: u8, i: usize) -> (r: u16)
    requires
        len <= 128,
        i < 8,
    ensures
        r == netmask_seg(len as int, i as int),
{
    let lo: u8 = (16 * i) as u8;
    if len <= lo {
        0
    } else if len >= lo + 16 {
        proof {
            assert(0xffffu16 << 0u16 == 0xffffu16) by (bit_vector);
        }
        0xffff
    } else {
        let b: u8 = len - lo;
        0xffffu16 << ((16 - b) as u16)
    }
}

/// Test whether `addr` lies inside `pfx`.
pub fn addr_in_prefix(pfx: &V6Prefix, addr: &V6Addr) -> (r: bool)
    requires
        pfx.len <= 128,
    ensures
        r == prefix_matches(*pfx, addr@),
{
    let mut i: usize = 0;
    while i < 8
        invariant
            i <= 8,
            pfx.len <= 128,
            forall|j: int|
                0 <= j < i ==> (addr@[j] & netmask_seg(pfx.len as int, j)) == pfx.network@[j],
        decreases 8 - i,
    {
        let m = netmask_segment(pfx.len, i);
        if addr.segs[i] & m != pfx.network.segs[i] {
            proof {
                assert((addr@[i as int] & netmask_seg(pfx.len as int, i as int))
                    != pfx.network@[i as int]);
            }
            return false;
        }
        i += 1;
    }
    true
}

/// Test that a prefix is well formed: length within 128 bits, host bits
/// of the network address all zero. The boundary that builds prefixes
/// from parsed text checks them here before handing them to the library.
pub fn check_prefix(pfx: &V6Prefix) -> (r: bool)
    ensures
        r == pfx.wf(),
{
    if pfx.len > 128 {
        return false;
    }
    let mut i: usize = 0;
    while i < 8
        invariant
            i <= 8,
            pfx.len <= 128,
            forall|j: int|
                0 <= j < i ==> (pfx.network@[j] & hostmask_seg(pfx.len as int, j)) == 0,
        decreases 8 - i,
    {
        let m = netmask_segment(pfx.len, i);
        if pfx.network.segs[i] & !m != 0 {
            proof {
                assert((pfx.network@[i as int] & hostmask_seg(pfx.len as int, i as int)) != 0);
            }
            return false;
        }
        i += 1;
    }
    true
}

/// The plain sum of a sequence of 16-bit segments.
pub open spec fn seg_sum(s: Seq<u16>) -> int
    decreases s.len(),
{
    if s.len() == 0 {
        0
    } else {
        seg_sum(s.drop_last()) + s.last()
    }
}

/// The prefix checksum of NPTv6: the one's complement of the 16-bit
/// one's-complement sum of the network's segments.
pub open spec fn pfx_csum_spec(segs: Seq<u16>) -> int {
    0xffff - (seg_sum(segs) % 0xffff)
}

proof fn lemma_seg_sum_bound(s: Seq<u16>)
    ensures
        0 <= seg_sum(s) <= s.len() * 0xffff,
    decreases s.len(),
{
    if s.len() > 0 {
        lemma_seg_sum_bound(s.drop_last());
    }
}

/// Compute the NPTv6 checksum of a prefix.
pub fn pfx_csum(prefix: &V6Prefix) -> (r: u16)
    ensures
        r == pfx_csum_spec(prefix.network@),
        1 <= r <= 0xffff,
{
    let mut sum: u32 = 0;
    let mut i: usize = 0;
    proof {
        assert(prefix.network@.subrange(0, 0) =~= Seq::<u16>::empty());
    }
    while i < 8
        invariant
            i <= 8,
            sum == seg_sum(prefix.network@.subrange(0, i as int)),
            sum <= i * 0xffff,
        decreases 8 - i,
    {
        proof {
            assert(prefix.network@.subrange(0, i + 1).drop_last() =~= prefix.network@.subrange(
                0,
                i as int,
            ));
        }
        sum = sum + prefix.network.segs[i] as u32;
        i += 1;
    }
    proof {
        assert(prefix.network@.subrange(0, 8) =~= prefix.network@);
    }
    let m: u32 = sum % 0xffff;
    assert((m ^ 0xffff) == 0xffff - m) by (bit_vector)
        requires
            m < 0xffff,
    ;
    (m ^ 0xffff) as u16
}

/// The rewritten segment of NPTv6: the incoming segment adjusted by the
/// one's-complement difference of the two prefix checksums.
pub open spec fn npt_seg(upstream_csum: u16, downstream_csum: u16, seg: u16) -> u16 {
    ((downstream_csum - upstream_csum + seg) % 0xffff) as u16
}

/// Perform the NPTv6 rewrite of RFC 6296: the first `len / 16` segments are
/// replaced by the destination prefix, and the following segment absorbs the
/// checksum difference.
pub fn nptv6(
    upstream_pfx_csum: u16,
    downstream_pfx_csum: u16,
    upstream_addr: &V6Addr,
    downstream_pfx: &V6Prefix,
) -> (r: V6Addr)
    requires
        downstream_pfx.len < 128,
    ensures
        forall|i: int|
            0 <= i < downstream_pfx.len as int / 16 ==> r@[i] == downstream_pfx.network@[i],
        r@[downstream_pfx.len as int / 16] == npt_seg(
            upstream_pfx_csum,
            downstream_pfx_csum,
            upstream_addr@[downstream_pfx.len as int / 16],
        ),
        forall|i: int| downstream_pfx.len as int / 16 < i < 8 ==> r@[i] == upstream_addr@[i],
{
    let pfx_len: usize = (downstream_pfx.len / 16) as usize;
    let mut segments: [u16; 8] = upstream_addr.segs;
    let to_be_translated_segment = segments[pfx_len];

    // downstream_csum - upstream_csum + seg, shifted by 0xffff to stay
    // non-negative; the shift vanishes modulo 0xffff.
    let sum2: u32 = downstream_pfx_csum as u32 + (0xffff - upstream_pfx_csum as u32)
        + to_be_translated_segment as u32;

    let mut i: usize = 0;
    while i < pfx_len
        invariant
            i <= pfx_len,
            pfx_len < 8,
            forall|j: int| 0 <= j < i ==> segments@[j] == downstream_pfx.network@[j],
            forall|j: int| i <= j < 8 ==> segments@[j] == upstream_addr@[j],
        decreases pfx_len - i,
    {
        segments[i] = downstream_pfx.network.segs[i];
        i += 1;
    }

    let adjusted: u16 = (sum2 % 0xffff) as u16;
    proof {
        let d = downstream_pfx_csum as int;
        let u = upstream_pfx_csum as int;
        let s = upstream_addr@[pfx_len as int] as int;
        vstd::arithmetic::div_mod::lemma_mod_sub_multiples_vanish(d - u + s, 0xffff);
        assert(sum2 as int == (d - u + s) + 0xffff);
    }
    segments[pfx_len] = adjusted;
    V6Addr { segs: segments }
}

/// Rewrite the prefix of an address, keeping the host bits: the netmap
/// translation of netfilter.
pub fn netmapv6(upstream_addr: &V6Addr, downstream_prefix: &V6Prefix) -> (r: V6Addr)
    requires
        downstream_prefix.len <= 128,
    ensures
        forall|i: int|
            0 <= i < 8 ==> r@[i] == (
            (upstream_addr@[i] & hostmask_seg(downstream_prefix.len as int, i))
                | downstream_prefix.network@[i]),
{
    let mut segments: [u16; 8] = [0; 8];
    let mut i: usize = 0;
    while i < 8
        invariant
            i <= 8,
            downstream_prefix.len <= 128,
            forall|j: int|
                0 <= j < i ==> segments@[j] == ((upstream_addr@[j] & hostmask_seg(
                    downstream_prefix.len as int,
                    j,
                )) | downstream_prefix.network@[j]),
        decreases 8 - i,
    {
        let nm = netmask_segment(downstream_prefix.len, i);
        segments[i] = (upstream_addr.segs[i] & !nm) | downstream_prefix.network.segs[i];
        i += 1;
    }
    V6Addr { segs: segments }
}

/// Build the solicited-node multicast address of RFC 4291: `ff02::1:ff`
/// followed by the low 24 bits of the target.
pub fn gen_solicited_node_multicast_address(solicited_node_addr: &V6Addr) -> (r: V6Addr)
    ensures
        r@[0] == 0xff02u16,
        r@[1] == 0u16,
        r@[2] == 0u16,
        r@[3] == 0u16,
        r@[4] == 0u16,
        r@[5] == 1u16,
        r@[6] == (0xff00u16 | (solicited_node_addr@[6] & 0xff)),
        r@[7] == solicited_node_addr@[7],
{
    let seg6: u16 = 0xff00u16 | (solicited_node_addr.segs[6] & 0xff);
    V6Addr { segs: [0xff02, 0, 0, 0, 0, 1, seg6, solicited_node_addr.segs[7]] }
}

/// The 16-bit segment that bytes `2 * i` and `2 * i + 1` of `b` spell.
pub open spec fn seg_of_bytes(b: Seq<u8>, i: int) -> u16 {
    (b[2 * i] * 256 + b[2 * i + 1]) as u16
}

/// Decode an address from the first sixteen bytes of a buffer; `None` when
/// the buffer is shorter than that.
pub fn construct_v6addr(octets: &[u8]) -> (r: Option<V6Addr>)
    ensures
        r is Some <==> octets@.len() >= 16,
        r is Some ==> forall|i: int| 0 <= i < 8 ==> r->Some_0@[i] == seg_of_bytes(octets@, i),
{
    if octets.len() < 16 {
        return None;
    }
    let mut segments: [u16; 8] = [0; 8];
    let mut i: usize = 0;
    while i < 8
        invariant
            i <= 8,
            octets@.len() >= 16,
            forall|j: int| 0 <= j < i ==> segments@[j] == seg_of_bytes(octets@, j),
        decreases 8 - i,
    {
        segments[i] = (octets[2 * i] as u16) * 256 + (octets[2 * i + 1] as u16);
        i += 1;
    }
    Some(V6Addr { segs: segments })
}

/// The sum of a sequence of segments splits at any index.
proof fn lemma_seg_sum_split(s: Seq<u16>, k: int)
    requires
        0 <= k <= s.len(),
    ensures
        seg_sum(s) == seg_sum(s.subrange(0, k)) + seg_sum(s.subrange(k, s.len() as int)),
    decreases s.len(),
{
    if k == s.len() {
        assert(s.subrange(0, k) =~= s);
        assert(s.subrange(k, s.len() as int) =~= Seq::<u16>::empty());
    } else {
        lemma_seg_sum_split(s.drop_last(), k);
        assert(s.drop_last().subrange(0, k) =~= s.subrange(0, k));
        assert(s.subrange(k, s.len() as int).drop_last() =~= s.drop_last().subrange(
            k,
            s.len() - 1,
        ));
    }
}

/// A sequence of zero segments sums to zero.
proof fn lemma_seg_sum_zero(s: Seq<u16>)
    requires
        forall|i: int| 0 <= i < s.len() ==> s[i] == 0u16,
    ensures
        seg_sum(s) == 0,
    decreases s.len(),
{
    if s.len() > 0 {
        lemma_seg_sum_zero(s.drop_last());
    }
}

/// The sum of a one-segment subrange is that segment.
proof fn lemma_seg_sum_singleton(s: Seq<u16>, k: int)
    requires
        0 <= k < s.len(),
    ensures
        seg_sum(s.subrange(k, k + 1)) == s[k],
{
    let t = s.subrange(k, k + 1);
    assert(t.drop_last() =~= Seq::<u16>::empty());
    assert(seg_sum(t.drop_last()) == 0);
    assert(seg_sum(t) == seg_sum(t.drop_last()) + t.last());
    assert(t.last() == s[k]);
}

/// The segment written by an NPTv6 rewrite compensates, in one's-complement
/// arithmetic, for the difference of the two prefix sums: adding the
/// destination prefix's segments and the rewritten segment gives the same
/// 16-bit one's-complement sum as adding the source prefix's segments and
/// the original segment. This is the checksum-neutrality of RFC 6296,
/// stated at the segment that absorbs the adjustment.
pub proof fn lemma_npt_segment_compensation(
    up_net: Seq<u16>,
    down_net: Seq<u16>,
    cu: u16,
    cv: u16,
    seg: u16,
)
    requires
        cu == pfx_csum_spec(up_net),
        cv == pfx_csum_spec(down_net),
    ensures
        (seg_sum(down_net) + npt_seg(cu, cv, seg)) % 0xffff == (seg_sum(up_net) + seg) % 0xffff,
{
    let m: int = 0xffff;
    let su = seg_sum(up_net);
    let sd = seg_sum(down_net);
    lemma_seg_sum_bound(up_net);
    lemma_seg_sum_bound(down_net);
    let r = npt_seg(cu, cv, seg) as int;
    assert(r == (su % m - sd % m + seg) % m);
    vstd::arithmetic::div_mod::lemma_add_mod_noop_right(sd, su % m - sd % m + seg, m);
    assert((sd + r) % m == (sd + (su % m - sd % m + seg)) % m);
    vstd::arithmetic::div_mod::lemma_fundamental_div_mod(sd, m);
    assert(sd - sd % m == m * (sd / m));
    assert(sd + (su % m - sd % m + seg) == m * (sd / m) + (su % m + seg));
    vstd::arithmetic::div_mod::lemma_mod_multiples_vanish(sd / m, su % m + seg, m);
    vstd::arithmetic::div_mod::lemma_add_mod_noop_right(seg as int, su, m);
    assert((seg + su % m) % m == (seg + su) % m);
}

/// Checksum neutrality of the full NPTv6 rewrite: when the prefix lengths
/// are equal and a whole number of segments, and the input address lies in
/// the source prefix, the rewritten address has the same 16-bit
/// one's-complement sum as the input.
pub proof fn lemma_npt_checksum_neutral(
    up: V6Prefix,
    down: V6Prefix,
    addr: V6Addr,
    r: V6Addr,
)
    requires
        up.wf(),
        down.wf(),
        addr.wf(),
        r.wf(),
        up.len == down.len,
        down.len % 16 == 0,
        down.len < 128,
        prefix_matches(up, addr@),
        forall|i: int|
            0 <= i < down.len as int / 16 ==> r@[i] == down.network@[i],
        r@[down.len as int / 16] == npt_seg(
            (pfx_csum_spec(up.network@)) as u16,
            (pfx_csum_spec(down.network@)) as u16,
            addr@[down.len as int / 16],
        ),
        forall|i: int| down.len as int / 16 < i < 8 ==> r@[i] == addr@[i],
    ensures
        seg_sum(r@) % 0xffff == seg_sum(addr@) % 0xffff,
{
    let m: int = 0xffff;
    let len = down.len as int;
    let idx = len / 16;
    assert(0 <= idx < 8);
    let orig = addr@[idx];
    let rew = r@[idx];

    // Masks: full for segments below idx, empty from idx on.
    assert(0xffffu16 << 0u16 == 0xffffu16) by (bit_vector);
    assert forall|i: int| 0 <= i < idx implies netmask_seg(len, i) == 0xffffu16 by {
        assert(len >= 16 * (i + 1)) by {
            vstd::arithmetic::div_mod::lemma_fundamental_div_mod(len, 16);
        }
    }
    assert forall|i: int| idx <= i < 8 implies netmask_seg(len, i) == 0u16 by {
        assert(len <= 16 * i) by {
            vstd::arithmetic::div_mod::lemma_fundamental_div_mod(len, 16);
        }
    }

    // Below idx the address equals the source network; from idx on both
    // networks are zero.
    assert forall|i: int| 0 <= i < idx implies addr@[i] == up.network@[i] by {
        let a = addr@[i];
        assert(a & 0xffffu16 == a) by (bit_vector);
    }
    assert forall|i: int| idx <= i < 8 implies up.network@[i] == 0u16 && down.network@[i] == 0u16
        by {
        let u = up.network@[i];
        let d = down.network@[i];
        assert(u & hostmask_seg(len, i) == 0 && d & hostmask_seg(len, i) == 0);
        assert(hostmask_seg(len, i) == !0u16);
        assert(u & !0u16 == u) by (bit_vector);
        assert(d & !0u16 == d) by (bit_vector);
    }

    // Split the three sums around segment idx.
    lemma_seg_sum_split(addr@, idx);
    lemma_seg_sum_split(addr@.subrange(idx, 8), 1);
    assert(addr@.subrange(idx, 8).subrange(0, 1) =~= addr@.subrange(idx, idx + 1));
    assert(addr@.subrange(idx, 8).subrange(1, 8 - idx) =~= addr@.subrange(idx + 1, 8));
    lemma_seg_sum_singleton(addr@, idx);

    lemma_seg_sum_split(r@, idx);
    lemma_seg_sum_split(r@.subrange(idx, 8), 1);
    assert(r@.subrange(idx, 8).subrange(0, 1) =~= r@.subrange(idx, idx + 1));
    assert(r@.subrange(idx, 8).subrange(1, 8 - idx) =~= r@.subrange(idx + 1, 8));
    lemma_seg_sum_singleton(r@, idx);

    lemma_seg_sum_split(up.network@, idx);
    lemma_seg_sum_zero(up.network@.subrange(idx, 8));
    lemma_seg_sum_split(down.network@, idx);
    lemma_seg_sum_zero(down.network@.subrange(idx, 8));

    assert(addr@.subrange(0, idx) =~= up.network@.subrange(0, idx));
    assert(r@.subrange(0, idx) =~= down.network@.subrange(0, idx));
    assert(r@.subrange(idx + 1, 8) =~= addr@.subrange(idx + 1, 8));

    let su = seg_sum(up.network@);
    let sd = seg_sum(down.network@);
    let tail = seg_sum(addr@.subrange(idx + 1, 8));
    assert(seg_sum(addr@) == su + orig + tail);
    assert(seg_sum(r@) == sd + rew + tail);

    lemma_npt_segment_compensation(
        up.network@,
        down.network@,
        (pfx_csum_spec(up.network@)) as u16,
        (pfx_csum_spec(down.network@)) as u16,
        orig,
    );
    assert((sd + rew) % m == (su + orig) % m);
    vstd::arithmetic::div_mod::lemma_add_mod_noop(sd + rew, tail, m);
    vstd::arithmetic::div_mod::lemma_add_mod_noop(su + orig, tail, m);
}

/// A netmap rewrite keeps the host bits of the input and takes the prefix
/// bits of the destination network.
pub proof fn lemma_netmap_bits(addr: V6Addr, pfx: V6Prefix, r: V6Addr)
    requires
        pfx.wf(),
        forall|i: int|
            0 <= i < 8 ==> r@[i] == ((addr@[i] & hostmask_seg(pfx.len as int, i))
                | pfx.network@[i]),
    ensures
        forall|i: int|
            0 <= i < 8 ==> (r@[i] & hostmask_seg(pfx.len as int, i)) == (addr@[i] & hostmask_seg(
                pfx.len as int,
                i,
            )),
        forall|i: int|
            0 <= i < 8 ==> (r@[i] & netmask_seg(pfx.len as int, i)) == pfx.network@[i],
{
    assert forall|i: int| 0 <= i < 8 implies (r@[i] & hostmask_seg(pfx.len as int, i)) == (
    addr@[i] & hostmask_seg(pfx.len as int, i)) && (r@[i] & netmask_seg(pfx.len as int, i))
        == pfx.network@[i] by {
        let x = addr@[i];
        let n = pfx.network@[i];
        let nm = netmask_seg(pfx.len as int, i);
        assert(n & !nm == 0 ==> ((x & !nm) | n) & !nm == x & !nm) by (bit_vector);
        assert(n & !nm == 0 ==> ((x & !nm) | n) & nm == n) by (bit_vector);
    }
}

/// Applying a netmap rewrite twice with the same destination prefix gives
/// the same address as applying it once.
pub proof fn lemma_netmap_idempotent(addr: V6Addr, pfx: V6Prefix, once: V6Addr, twice: V6Addr)
    requires
        pfx.wf(),
        forall|i: int|
            0 <= i < 8 ==> once@[i] == ((addr@[i] & hostmask_seg(pfx.len as int, i))
                | pfx.network@[i]),
        forall|i: int|
            0 <= i < 8 ==> twice@[i] == ((once@[i] & hostmask_seg(pfx.len as int, i))
                | pfx.network@[i]),
    ensures
        twice@ =~= once@,
{
    assert forall|i: int| 0 <= i < 8 implies twice@[i] == once@[i] by {
        let x = addr@[i];
        let n = pfx.network@[i];
        let nm = netmask_seg(pfx.len as int, i);
        assert(n & !nm == 0 ==> ((((x & !nm) | n) & !nm) | n) == ((x & !nm) | n)) by (bit_vector);
    }
}

/// Applying the NPTv6 segment adjustment from one prefix to the other and
/// back restores the segment, except that a segment of all ones comes back
/// as zero (the one's-complement wraparound: both spell zero).
pub proof fn lemma_npt_round_trip_segment(cu: u16, cv: u16, seg: u16)
    ensures
        seg != 0xffff ==> npt_seg(cv, cu, npt_seg(cu, cv, seg)) == seg,
        seg == 0xffff ==> npt_seg(cv, cu, npt_seg(cu, cv, seg)) == 0u16,
{
    let m: int = 0xffff;
    let r1 = npt_seg(cu, cv, seg) as int;
    assert(r1 == (cv - cu + seg) % m);
    vstd::arithmetic::div_mod::lemma_add_mod_noop_right(cu - cv, cv - cu + seg, m);
    assert((cu - cv + r1) % m == (cu - cv + (cv - cu + seg)) % m);
    if seg != 0xffff {
        vstd::arithmetic::div_mod::lemma_small_mod(seg as nat, m as nat);
    } else {
        vstd::arithmetic::div_mod::lemma_mod_self_0(m);
    }
}

/// Decoding the sixteen bytes an address encodes to gives back the same
/// eight segments.
pub proof fn lemma_decode_encode_round_trip(b: Seq<u8>, a: V6Addr)
    requires
        b.len() == 16,
        forall|i: int| 0 <= i < 8 ==> b[2 * i] == (a@[i] >> 8u16) as u8,
        forall|i: int| 0 <= i < 8 ==> b[2 * i + 1] == (a@[i] & 0xff) as u8,
    ensures
        forall|i: int| 0 <= i < 8 ==> seg_of_bytes(b, i) == a@[i],
{
    assert forall|i: int| 0 <= i < 8 implies seg_of_bytes(b, i) == a@[i] by {
        let s = a@[i];
        assert(((s >> 8u16) as u8) * 256 + ((s & 0xff) as u8) == s) by (bit_vector);
    }
}

/// Encode an address as its sixteen bytes, network byte order.
pub fn encode_v6(addr: &V6Addr) -> (r: Vec<u8>)
    ensures
        r@.len() == 16,
        forall|i: int| 0 <= i < 8 ==> r@[2 * i] == (addr@[i] >> 8u16) as u8,
        forall|i: int| 0 <= i < 8 ==> r@[2 * i + 1] == (addr@[i] & 0xff) as u8,
{
    let mut out: Vec<u8> = Vec::new();
    let mut i: usize = 0;
    while i < 8
        invariant
            i <= 8,
            out@.len() == 2 * i,
            forall|j: int| 0 <= j < i ==> out@[2 * j] == (addr@[j] >> 8u16) as u8,
            forall|j: int| 0 <= j < i ==> out@[2 * j + 1] == (addr@[j] & 0xff) as u8,
        decreases 8 - i,
    {
        out.push((addr.segs[i] >> 8) as u8);
        out.push((addr.segs[i] & 0xff) as u8);
        i += 1;
    }
    out
}

} // verus!
