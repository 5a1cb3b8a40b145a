//! Building and parsing of Neighbor Discovery messages: ICMPv6 Neighbor
//! Advertisements (type 136) and Neighbor Solicitations (type 135) with
//! their link-layer-address options, and the ICMPv6 checksum over the IPv6
//! pseudo-header (RFC 4861, RFC 4443).

use vstd::prelude::*;

use crate::address::{encode_v6, seg_of_bytes, seg_sum, V6Addr};
use crate::types::Error;

verus! {

/// The 16-bit words a byte string spells, big endian.
pub open spec fn bytes_to_words(b: Seq<u8>) -> Seq<u16> {
    Seq::new((b.len() / 2) as nat, |i: int| seg_of_bytes(b, i))
}

/// The words of the IPv6 pseudo-header of RFC 2460: source address,
/// destination address, upper-layer length, and next-header 58 (ICMPv6).
pub open spec fn pseudo_header_words(src: Seq<u16>, dst: Seq<u16>, ulen: u16) -> Seq<u16> {
    src + dst + seq![0u16, ulen, 0u16, 58u16]
}

/// The words the ICMPv6 checksum of a packet is computed over.
pub open spec fn checksum_words(src: Seq<u16>, dst: Seq<u16>, b: Seq<u8>) -> Seq<u16> {
    pseudo_header_words(src, dst, b.len() as u16) + bytes_to_words(b)
}

/// End-around-carry reduction of a sum to 16 bits, as the internet
/// checksum folds it.
pub open spec fn oc_fold(x: int) -> int
    decreases x,
        when x >= 0
        via oc_fold_decreases
{
    if x <= 0xffff {
        x
    } else {
        oc_fold(x % 0x10000 + x / 0x10000)
    }
}

#[via_fn]
proof fn oc_fold_decreases(x: int) {
    if x > 0xffff {
        vstd::arithmetic::div_mod::lemma_fundamental_div_mod(x, 0x10000);
        vstd::arithmetic::div_mod::lemma_div_is_ordered(0x10000, x, 0x10000);
        vstd::arithmetic::div_mod::lemma_div_by_self(0x10000);
        assert(x / 0x10000 >= 1);
        assert(x % 0x10000 + x / 0x10000 < x);
    }
}

/// The internet checksum of a word sequence: the one's complement of the
/// folded sum.
pub open spec fn internet_checksum(words: Seq<u16>) -> u16 {
    (0xffff - oc_fold(seg_sum(words))) as u16
}

/// A transmitted word sequence passes checksum verification: summing every
/// word, the stored checksum included, folds to sixteen one bits; that is,
/// the sum is a positive multiple of 0xffff.
pub open spec fn checksum_valid(words: Seq<u16>) -> bool {
    &&& seg_sum(words) % 0xffff == 0
    &&& seg_sum(words) > 0
}

/// Folding keeps the value's residue modulo 0xffff and lands in 16 bits.
proof fn lemma_oc_fold_mod(x: int)
    requires
        x >= 0,
    ensures
        oc_fold(x) % 0xffff == x % 0xffff,
        0 <= oc_fold(x) <= 0xffff,
    decreases x,
{
    if x > 0xffff {
        vstd::arithmetic::div_mod::lemma_fundamental_div_mod(x, 0x10000);
        vstd::arithmetic::div_mod::lemma_div_is_ordered(0x10000, x, 0x10000);
        vstd::arithmetic::div_mod::lemma_div_by_self(0x10000);
        assert(x / 0x10000 >= 1);
        let x2 = x % 0x10000 + x / 0x10000;
        lemma_oc_fold_mod(x2);
        // x == 0x10000 * (x / 0x10000) + x % 0x10000, so x - x2 is a
        // multiple of 0xffff.
        assert(x == 0xffff * (x / 0x10000) + x2);
        vstd::arithmetic::div_mod::lemma_mod_multiples_vanish(x / 0x10000, x2, 0xffff);
    }
}

/// The sum of a four-word sequence, spelled out.
proof fn lemma_seg_sum4(a: u16, b: u16, c: u16, d: u16)
    ensures
        seg_sum(seq![a, b, c, d]) == a + b + c + d,
{
    let t: Seq<u16> = seq![a, b, c, d];
    assert(t.drop_last() =~= seq![a, b, c]);
    assert(seq![a, b, c].drop_last() =~= seq![a, b]);
    assert(seq![a, b].drop_last() =~= seq![a]);
    assert(seq![a].drop_last() =~= Seq::<u16>::empty());
    assert(seg_sum(Seq::<u16>::empty()) == 0);
    assert(seg_sum(seq![a]) == a);
    assert(seg_sum(seq![a, b]) == a + b);
    assert(seg_sum(seq![a, b, c]) == a + b + c);
}

/// The sum of a concatenation is the sum of the parts.
pub proof fn lemma_seg_sum_concat(a: Seq<u16>, b: Seq<u16>)
    ensures
        seg_sum(a + b) == seg_sum(a) + seg_sum(b),
    decreases b.len(),
{
    if b.len() == 0 {
        assert(a + b =~= a);
    } else {
        lemma_seg_sum_concat(a, b.drop_last());
        assert((a + b).drop_last() =~= a + b.drop_last());
        assert(seg_sum(a + b) == seg_sum((a + b).drop_last()) + (a + b).last());
    }
}

/// Updating one word changes the sum by the difference of the words.
proof fn lemma_seg_sum_update(s: Seq<u16>, k: int, v: u16)
    requires
        0 <= k < s.len(),
    ensures
        seg_sum(s.update(k, v)) == seg_sum(s) - s[k] + v,
    decreases s.len(),
{
    if k == s.len() - 1 {
        assert(s.update(k, v).drop_last() =~= s.drop_last());
    } else {
        lemma_seg_sum_update(s.drop_last(), k, v);
        assert(s.update(k, v).drop_last() =~= s.drop_last().update(k, v));
        assert(s.update(k, v).last() == s.last());
    }
}

/// Storing the computed checksum where a zero word stood makes the word
/// sequence pass checksum verification.
pub proof fn lemma_checksum_validates(words: Seq<u16>, pos: int)
    requires
        0 <= pos < words.len(),
        words[pos] == 0u16,
    ensures
        checksum_valid(words.update(pos, internet_checksum(words))),
{
    let m: int = 0xffff;
    let s = seg_sum(words);
    lemma_seg_sum_bound_words(words);
    lemma_oc_fold_mod(s);
    let c = internet_checksum(words) as int;
    assert(c == m - oc_fold(s));
    lemma_seg_sum_update(words, pos, internet_checksum(words));
    let s2 = seg_sum(words.update(pos, internet_checksum(words)));
    assert(s2 == s + c);
    assert(s2 == (s - oc_fold(s)) + m);
    vstd::arithmetic::div_mod::lemma_mod_add_multiples_vanish(s - oc_fold(s), m);
    vstd::arithmetic::div_mod::lemma_sub_mod_noop_right(s, s, m);
    assert((s - oc_fold(s)) % m == (s - s % m) % m) by {
        assert(oc_fold(s) % m == s % m);
        vstd::arithmetic::div_mod::lemma_sub_mod_noop_right(s, oc_fold(s), m);
    }
    vstd::arithmetic::div_mod::lemma_fundamental_div_mod(s, m);
    assert(s - s % m == m * (s / m));
    vstd::arithmetic::div_mod::lemma_mod_multiples_basic(s / m, m);
    if s == 0 {
        assert(oc_fold(s) == 0);
        assert(s2 == m);
    }
}

proof fn lemma_seg_sum_bound_words(s: Seq<u16>)
    ensures
        0 <= seg_sum(s) <= s.len() * 0xffff,
    decreases s.len(),
{
    if s.len() > 0 {
        lemma_seg_sum_bound_words(s.drop_last());
    }
}

/// Compute the ICMPv6 checksum of `pkt` over the pseudo-header of `src`
/// and `dst`. The packet's own checksum field is expected to hold zero.
pub fn icmpv6_checksum(src: &V6Addr, dst: &V6Addr, pkt: &Vec<u8>) -> (r: u16)
    requires
        pkt@.len() % 2 == 0,
        pkt@.len() <= 1500,
    ensures
        r == internet_checksum(checksum_words(src@, dst@, pkt@)),
{
    let ghost w: Seq<u16> = checksum_words(src@, dst@, pkt@);
    let mut sum: u32 = 0;
    let mut i: usize = 0;
    proof {
        assert(src@.subrange(0, 0) =~= Seq::<u16>::empty());
    }
    while i < 8
        invariant
            i <= 8,
            sum == seg_sum(src@.subrange(0, i as int)),
            sum <= i * 0xffff,
        decreases 8 - i,
    {
        proof {
            assert(src@.subrange(0, i + 1).drop_last() =~= src@.subrange(0, i as int));
        }
        sum = sum + src.segs[i] as u32;
        i += 1;
    }
    proof {
        assert(src@.subrange(0, 8) =~= src@);
        assert(dst@.subrange(0, 0) =~= Seq::<u16>::empty());
    }
    let ghost sum_src = sum as int;
    let mut j: usize = 0;
    while j < 8
        invariant
            j <= 8,
            sum_src <= 8 * 0xffff,
            sum == sum_src + seg_sum(dst@.subrange(0, j as int)),
            sum <= sum_src + j * 0xffff,
        decreases 8 - j,
    {
        proof {
            assert(dst@.subrange(0, j + 1).drop_last() =~= dst@.subrange(0, j as int));
        }
        sum = sum + dst.segs[j] as u32;
        j += 1;
    }
    proof {
        assert(dst@.subrange(0, 8) =~= dst@);
    }
    sum = sum + pkt.len() as u32 + 58;

    let ghost pw: Seq<u16> = bytes_to_words(pkt@);
    let ghost sum_ph = sum as int;
    proof {
        let tail: Seq<u16> = seq![0u16, pkt@.len() as u16, 0u16, 58u16];
        lemma_seg_sum4(0u16, pkt@.len() as u16, 0u16, 58u16);
        assert(seg_sum(tail) == pkt@.len() + 58);
        lemma_seg_sum_concat(src@, dst@);
        lemma_seg_sum_concat(src@ + dst@, tail);
        assert(pseudo_header_words(src@, dst@, pkt@.len() as u16) =~= (src@ + dst@) + tail);
        assert(sum_ph == seg_sum(pseudo_header_words(src@, dst@, pkt@.len() as u16)));
        assert(pw.subrange(0, 0) =~= Seq::<u16>::empty());
    }

    let nwords = pkt.len() / 2;
    let mut wi: usize = 0;
    while wi < nwords
        invariant
            wi <= nwords,
            nwords == pkt@.len() / 2,
            pkt@.len() % 2 == 0,
            pkt@.len() <= 1500,
            sum_ph <= 18 * 0xffff,
            pw == bytes_to_words(pkt@),
            sum == sum_ph + seg_sum(pw.subrange(0, wi as int)),
            sum <= sum_ph + wi * 0xffff,
        decreases nwords - wi,
    {
        proof {
            assert(pw.subrange(0, wi + 1).drop_last() =~= pw.subrange(0, wi as int));
            assert(pw[wi as int] == seg_of_bytes(pkt@, wi as int));
        }
        let word: u16 = (pkt[2 * wi] as u16) * 256 + (pkt[2 * wi + 1] as u16);
        sum = sum + word as u32;
        wi += 1;
    }
    proof {
        assert(pw.subrange(0, nwords as int) =~= pw);
        lemma_seg_sum_concat(pseudo_header_words(src@, dst@, pkt@.len() as u16), pw);
        assert(sum as int == seg_sum(w));
    }

    let ghost total: int = sum as int;
    let mut folded: u32 = sum;
    while folded > 0xffff
        invariant
            folded >= 0,
            oc_fold(folded as int) == oc_fold(total),
        decreases folded,
    {
        let lo = folded & 0xffff;
        let hi = folded >> 16;
        proof {
            let f = folded;
            assert(f & 0xffff == f % 0x10000) by (bit_vector);
            assert(f >> 16 == f / 0x10000) by (bit_vector);
            assert(f > 0xffff ==> f % 0x10000 + f / 0x10000 < f) by (bit_vector);
        }
        folded = lo + hi;
    }
    proof {
        assert(oc_fold(folded as int) == folded as int);
        assert(folded as int == oc_fold(total));
        lemma_oc_fold_mod(total);
    }
    let low: u16 = folded as u16;
    proof {
        let f = low;
        assert(low == folded);
        assert((!f) as int == 0xffff - f) by (bit_vector);
    }
    !low
}

/// The flag byte an emitted Neighbor Advertisement carries: the caller's
/// flags with the Override bit (0x20) forced to zero.
pub open spec fn na_flag_byte(flag: u8) -> u8 {
    flag & 0xdf
}

/// The byte layout of a Neighbor Advertisement this proxy emits: ICMPv6
/// type 136, code 0, the caller's flags with Override cleared, the
/// advertised target, exactly one target-link-layer-address option, and a
/// checksum that validates against the pseudo-header of `src` and `dst`.
pub open spec fn is_na_packet(
    b: Seq<u8>,
    src: Seq<u16>,
    dst: Seq<u16>,
    target: Seq<u16>,
    mac: Seq<u8>,
    flag: u8,
) -> bool {
    &&& b.len() == 32
    &&& b[0] == 136u8
    &&& b[1] == 0u8
    &&& b[4] == na_flag_byte(flag)
    &&& (b[4] & 0x20u8) == 0u8
    &&& b[5] == 0u8
    &&& b[6] == 0u8
    &&& b[7] == 0u8
    &&& forall|i: int| 0 <= i < 8 ==> b[8 + 2 * i] == (target[i] >> 8u16) as u8
    &&& forall|i: int| 0 <= i < 8 ==> b[9 + 2 * i] == (target[i] & 0xff) as u8
    &&& b[24] == 2u8
    &&& b[25] == 1u8
    &&& forall|i: int| 0 <= i < 6 ==> b[26 + i] == mac[i]
    &&& checksum_valid(checksum_words(src, dst, b))
}

/// The byte layout of a Neighbor Solicitation this proxy emits: ICMPv6
/// type 135, code 0, the solicited target, a source-link-layer-address
/// option exactly when a MAC is given, and a checksum that validates
/// against the pseudo-header of `src` and `dst`.
pub open spec fn is_ns_packet(
    b: Seq<u8>,
    src: Seq<u16>,
    dst: Seq<u16>,
    target: Seq<u16>,
    mac: Option<Seq<u8>>,
) -> bool {
    &&& b.len() == (if mac is Some {
        32int
    } else {
        24int
    })
    &&& b[0] == 135u8
    &&& b[1] == 0u8
    &&& b[4] == 0u8
    &&& b[5] == 0u8
    &&& b[6] == 0u8
    &&& b[7] == 0u8
    &&& forall|i: int| 0 <= i < 8 ==> b[8 + 2 * i] == (target[i] >> 8u16) as u8
    &&& forall|i: int| 0 <= i < 8 ==> b[9 + 2 * i] == (target[i] & 0xff) as u8
    &&& mac is Some ==> b[24] == 1u8 && b[25] == 1u8 && forall|i: int|
        0 <= i < 6 ==> b[26 + i] == mac->0[i]
    &&& checksum_valid(checksum_words(src, dst, b))
}

/// Write the checksum into bytes 2 and 3 of a packet whose checksum field
/// holds zero, and conclude that the packet verifies.
fn store_checksum(pkt: &mut Vec<u8>, src: &V6Addr, dst: &V6Addr)
    requires
        old(pkt)@.len() % 2 == 0,
        4 <= old(pkt)@.len() <= 1500,
        old(pkt)@[2] == 0u8,
        old(pkt)@[3] == 0u8,
    ensures
        final(pkt)@.len() == old(pkt)@.len(),
        forall|i: int|
            0 <= i < old(pkt)@.len() && i != 2 && i != 3 ==> final(pkt)@[i] == old(pkt)@[i],
        checksum_valid(checksum_words(src@, dst@, final(pkt)@)),
{
    let ghost b0: Seq<u8> = pkt@;
    let ghost w0: Seq<u16> = checksum_words(src@, dst@, b0);
    let cks = icmpv6_checksum(src, dst, pkt);
    let hi: u8 = (cks >> 8) as u8;
    let lo: u8 = (cks & 0xff) as u8;
    pkt[2] = hi;
    pkt[3] = lo;
    proof {
        let b1 = pkt@;
        let c = cks;
        assert(((c >> 8u16) as u8) * 256 + ((c & 0xff) as u8) == c) by (bit_vector);
        assert(seg_of_bytes(b1, 1) == cks);
        assert(bytes_to_words(b1) =~= bytes_to_words(b0).update(1, cks)) by {
            assert forall|i: int|
                0 <= i < b1.len() / 2 && i != 1 implies seg_of_bytes(b1, i) == seg_of_bytes(
                b0,
                i,
            ) by {
                assert(b1[2 * i] == b0[2 * i]);
                assert(b1[2 * i + 1] == b0[2 * i + 1]);
            }
        }
        assert(checksum_words(src@, dst@, b1) =~= w0.update(21, cks));
        assert(w0[21] == seg_of_bytes(b0, 1));
        assert(seg_of_bytes(b0, 1) == 0u16);
        lemma_checksum_validates(w0, 21);
    }
}

/// Generate a Neighbor Advertisement to be forwarded upstream. The
/// Override bit of `flag` is forced to zero; the one option carries
/// `src_hwaddr` as the target link-layer address.
#[allow(non_snake_case)]
pub fn generate_NA_forwarded(
    src_addr: &V6Addr,
    dst_addr: &V6Addr,
    proxied_addr: &V6Addr,
    src_hwaddr: &[u8; 6],
    flag: u8,
) -> (r: Result<Vec<u8>, Error>)
    ensures
        r is Ok,
        is_na_packet(r->Ok_0@, src_addr@, dst_addr@, proxied_addr@, src_hwaddr@, flag),
{
    let mut pkt: Vec<u8> = Vec::new();
    pkt.push(136);
    pkt.push(0);
    pkt.push(0);
    pkt.push(0);
    let fb: u8 = flag & 0xdf;
    proof {
        let f = flag;
        assert(((f & 0xdf) & 0x20) == 0) by (bit_vector);
    }
    pkt.push(fb);
    pkt.push(0);
    pkt.push(0);
    pkt.push(0);
    let tb = encode_v6(proxied_addr);
    let mut k: usize = 0;
    while k < 16
        invariant
            k <= 16,
            tb@.len() == 16,
            pkt@.len() == 8 + k,
            forall|j: int| 0 <= j < 8 ==> pkt@[j] == seq![136u8, 0, 0, 0, na_flag_byte(flag), 0, 0, 0][j],
            forall|j: int| 0 <= j < k ==> pkt@[8 + j] == tb@[j],
        decreases 16 - k,
    {
        pkt.push(tb[k]);
        k += 1;
    }
    pkt.push(2);
    pkt.push(1);
    let mut k2: usize = 0;
    while k2 < 6
        invariant
            k2 <= 6,
            tb@.len() == 16,
            pkt@.len() == 26 + k2,
            forall|j: int| 0 <= j < 8 ==> pkt@[j] == seq![136u8, 0, 0, 0, na_flag_byte(flag), 0, 0, 0][j],
            forall|j: int| 0 <= j < 16 ==> pkt@[8 + j] == tb@[j],
            pkt@[24] == 2u8,
            pkt@[25] == 1u8,
            forall|j: int| 0 <= j < k2 ==> pkt@[26 + j] == src_hwaddr@[j],
        decreases 6 - k2,
    {
        pkt.push(src_hwaddr[k2]);
        k2 += 1;
    }
    store_checksum(&mut pkt, src_addr, dst_addr);
    Ok(pkt)
}

/// Generate a Neighbor Solicitation. A source-link-layer-address option is
/// included exactly when `src_hwaddr` is given, so an unsolicited probe
/// with unspecified source can omit it (RFC 4861).
#[allow(non_snake_case)]
pub fn generate_NS_packet(
    src_addr: &V6Addr,
    dst_addr: &V6Addr,
    solicited_addr: &V6Addr,
    src_hwaddr: Option<&[u8; 6]>,
) -> (r: Result<Vec<u8>, Error>)
    ensures
        r is Ok,
        is_ns_packet(
            r->Ok_0@,
            src_addr@,
            dst_addr@,
            solicited_addr@,
            match src_hwaddr {
                Some(m) => Some(m@),
                None => None,
            },
        ),
{
    let mut pkt: Vec<u8> = Vec::new();
    pkt.push(135);
    pkt.push(0);
    pkt.push(0);
    pkt.push(0);
    pkt.push(0);
    pkt.push(0);
    pkt.push(0);
    pkt.push(0);
    let tb = encode_v6(solicited_addr);
    let mut k: usize = 0;
    while k < 16
        invariant
            k <= 16,
            tb@.len() == 16,
            pkt@.len() == 8 + k,
            forall|j: int| 0 <= j < 8 ==> pkt@[j] == seq![135u8, 0, 0, 0, 0, 0, 0, 0][j],
            forall|j: int| 0 <= j < k ==> pkt@[8 + j] == tb@[j],
        decreases 16 - k,
    {
        pkt.push(tb[k]);
        k += 1;
    }
    match src_hwaddr {
        Some(mac) => {
            pkt.push(1);
            pkt.push(1);
            let mut k2: usize = 0;
            while k2 < 6
                invariant
                    k2 <= 6,
                    tb@.len() == 16,
                    pkt@.len() == 26 + k2,
                    forall|j: int| 0 <= j < 8 ==> pkt@[j] == seq![135u8, 0, 0, 0, 0, 0, 0, 0][j],
                    forall|j: int| 0 <= j < 16 ==> pkt@[8 + j] == tb@[j],
                    pkt@[24] == 1u8,
                    pkt@[25] == 1u8,
                    forall|j: int| 0 <= j < k2 ==> pkt@[26 + j] == mac@[j],
                decreases 6 - k2,
            {
                pkt.push(mac[k2]);
                k2 += 1;
            }
            store_checksum(&mut pkt, src_addr, dst_addr);
            Ok(pkt)
        },
        None => {
            store_checksum(&mut pkt, src_addr, dst_addr);
            Ok(pkt)
        },
    }
}

/// The eight segments spelled by the sixteen bytes of `b` at `off`.
pub open spec fn addr_of_bytes_at(b: Seq<u8>, off: int) -> Seq<u16> {
    Seq::new(8, |i: int| (b[off + 2 * i] * 256 + b[off + 2 * i + 1]) as u16)
}

/// Decode the address held at byte offset `off` of a received frame.
pub fn decode_addr_at(pkt: &Vec<u8>, off: usize) -> (r: V6Addr)
    requires
        off + 16 <= pkt@.len(),
    ensures
        r@ =~= addr_of_bytes_at(pkt@, off as int),
{
    let n: usize = pkt.len();
    let mut segments: [u16; 8] = [0; 8];
    let mut i: usize = 0;
    while i < 8
        invariant
            i <= 8,
            off + 16 <= n,
            n == pkt@.len(),
            forall|j: int|
                0 <= j < i ==> segments@[j] == (pkt@[off + 2 * j] * 256 + pkt@[off + 2 * j
                    + 1]) as u16,
        decreases 8 - i,
    {
        segments[i] = (pkt[off + 2 * i] as u16) * 256 + (pkt[off + 2 * i + 1] as u16);
        i += 1;
    }
    V6Addr { segs: segments }
}

/// Extract source, destination and target address from a full IPv6 +
/// ICMPv6 Neighbor Solicitation frame of at least 64 bytes; the ICMPv6
/// type was already validated in the kernel by the attached filter.
pub fn parse_ns_fields(pkt: &Vec<u8>) -> (r: (V6Addr, V6Addr, V6Addr))
    requires
        pkt@.len() >= 64,
    ensures
        r.0@ =~= addr_of_bytes_at(pkt@, 8),
        r.1@ =~= addr_of_bytes_at(pkt@, 24),
        r.2@ =~= addr_of_bytes_at(pkt@, 48),
{
    let src = decode_addr_at(pkt, 8);
    let dst = decode_addr_at(pkt, 24);
    let target = decode_addr_at(pkt, 48);
    (src, dst, target)
}

} // verus!
