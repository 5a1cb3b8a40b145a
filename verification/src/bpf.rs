//! The kernel packet filters of the monitors, as plain data: a classic
//! BPF program accepts a frame exactly when its IPv6 next-header is
//! ICMPv6 and its ICMPv6 type is the one the monitor watches for.
//! Rejected frames never reach user space. Attaching the program to a
//! socket happens outside the library.

use vstd::prelude::*;

verus! {

/* instruction classes */
pub const BPF_LD: u16 = 0x00;

pub const BPF_JMP: u16 = 0x05;

pub const BPF_RET: u16 = 0x06;

/* ld fields: byte-sized absolute load */
pub const BPF_B: u16 = 0x10;

pub const BPF_ABS: u16 = 0x20;

/* jmp fields: compare accumulator with the constant */
pub const BPF_JEQ: u16 = 0x10;

pub const BPF_K: u16 = 0x00;

/// IPv6 next-header value of ICMPv6.
pub const IPPROTO_ICMPV6: u32 = 58;

/// ICMPv6 type of a Neighbor Solicitation.
pub const ICMPV6_TYPE_NS: u32 = 135;

/// ICMPv6 type of a Neighbor Advertisement.
pub const ICMPV6_TYPE_NA: u32 = 136;

/// One classic BPF instruction, as the kernel takes it.
#[derive(Debug, Clone, Copy, PartialEq, Eq, Structural)]
pub struct BPFFilter {
    pub code: u16,
    pub jt: u8,
    pub jf: u8,
    pub k: u32,
}

/// A statement instruction: no branches.
pub fn bpf_stmt(code: u16, k: u32) -> (r: BPFFilter)
    ensures
        r == (BPFFilter { code, jt: 0u8, jf: 0u8, k }),
{
    BPFFilter { code, jt: 0, jf: 0, k }
}

/// A jump instruction with its true and false displacements.
pub fn bpf_jump(code: u16, k: u32, jt: u8, jf: u8) -> (r: BPFFilter)
    ensures
        r == (BPFFilter { code, jt, jf, k }),
{
    BPFFilter { code, jt, jf, k }
}

/// Evaluate the instruction subset these programs use, from program
/// counter `pc` with accumulator `acc`: absolute byte loads, equality
/// jumps, and constant returns. A load beyond the frame, an unknown
/// instruction, or running off the program rejects the frame, as the
/// kernel does.
pub open spec fn bpf_eval(prog: Seq<BPFFilter>, frame: Seq<u8>, pc: int, acc: u32) -> bool
    decreases prog.len() - pc,
        when 0 <= pc
{
    if pc >= prog.len() {
        false
    } else {
        let ins = prog[pc];
        if ins.code == BPF_LD | BPF_B | BPF_ABS {
            if ins.k < frame.len() {
                bpf_eval(prog, frame, pc + 1, frame[ins.k as int] as u32)
            } else {
                false
            }
        } else if ins.code == BPF_JMP | BPF_JEQ | BPF_K {
            let t = if acc == ins.k {
                pc + 1 + ins.jt
            } else {
                pc + 1 + ins.jf
            };
            if t < prog.len() {
                bpf_eval(prog, frame, t, acc)
            } else {
                false
            }
        } else if ins.code == BPF_RET | BPF_K {
            ins.k != 0
        } else {
            false
        }
    }
}

/// The program accepts the frame.
pub open spec fn bpf_accepts(prog: Seq<BPFFilter>, frame: Seq<u8>) -> bool {
    bpf_eval(prog, frame, 0, 0)
}

/// The six instructions that accept exactly the ICMPv6 frames of type
/// `icmpv6_type`: next-header checked at byte 6 of the IPv6 header, the
/// type at byte 40, the first byte behind the header.
pub open spec fn icmpv6_type_filter(icmpv6_type: u32) -> Seq<BPFFilter> {
    seq![
        BPFFilter { code: BPF_LD | BPF_B | BPF_ABS, jt: 0u8, jf: 0u8, k: 6u32 },
        BPFFilter { code: BPF_JMP | BPF_JEQ | BPF_K, jt: 0u8, jf: 3u8, k: IPPROTO_ICMPV6 },
        BPFFilter { code: BPF_LD | BPF_B | BPF_ABS, jt: 0u8, jf: 0u8, k: 40u32 },
        BPFFilter { code: BPF_JMP | BPF_JEQ | BPF_K, jt: 0u8, jf: 1u8, k: icmpv6_type },
        BPFFilter { code: BPF_RET | BPF_K, jt: 0u8, jf: 0u8, k: 0xffffffffu32 },
        BPFFilter { code: BPF_RET | BPF_K, jt: 0u8, jf: 0u8, k: 0u32 },
    ]
}

/// What the filter lets through: exactly the frames long enough to hold
/// both checked bytes, whose next-header is ICMPv6 and whose ICMPv6 type
/// is the watched one.
pub proof fn lemma_icmpv6_filter_accepts(icmpv6_type: u32, frame: Seq<u8>)
    ensures
        bpf_accepts(icmpv6_type_filter(icmpv6_type), frame) <==> frame.len() > 40 && frame[6]
            == 58 && frame[40] == icmpv6_type,
{
    let prog = icmpv6_type_filter(icmpv6_type);
    assert((BPF_LD | BPF_B | BPF_ABS) == 0x30u16) by (bit_vector);
    assert((BPF_JMP | BPF_JEQ | BPF_K) == 0x15u16) by (bit_vector);
    assert((BPF_RET | BPF_K) == 0x06u16) by (bit_vector);
    if frame.len() <= 6 {
        assert(!bpf_eval(prog, frame, 0, 0));
    } else if frame[6] != 58 {
        assert(bpf_eval(prog, frame, 0, 0) == bpf_eval(prog, frame, 1, frame[6] as u32));
        assert(bpf_eval(prog, frame, 1, frame[6] as u32) == bpf_eval(
            prog,
            frame,
            5,
            frame[6] as u32,
        ));
        assert(!bpf_eval(prog, frame, 5, frame[6] as u32));
    } else if frame.len() <= 40 {
        assert(bpf_eval(prog, frame, 0, 0) == bpf_eval(prog, frame, 1, 58u32));
        assert(bpf_eval(prog, frame, 1, 58u32) == bpf_eval(prog, frame, 2, 58u32));
        assert(!bpf_eval(prog, frame, 2, 58u32));
    } else if frame[40] != icmpv6_type {
        assert(bpf_eval(prog, frame, 0, 0) == bpf_eval(prog, frame, 1, 58u32));
        assert(bpf_eval(prog, frame, 1, 58u32) == bpf_eval(prog, frame, 2, 58u32));
        assert(bpf_eval(prog, frame, 2, 58u32) == bpf_eval(prog, frame, 3, frame[40] as u32));
        assert(bpf_eval(prog, frame, 3, frame[40] as u32) == bpf_eval(
            prog,
            frame,
            5,
            frame[40] as u32,
        ));
        assert(!bpf_eval(prog, frame, 5, frame[40] as u32));
    } else {
        assert(bpf_eval(prog, frame, 0, 0) == bpf_eval(prog, frame, 1, 58u32));
        assert(bpf_eval(prog, frame, 1, 58u32) == bpf_eval(prog, frame, 2, 58u32));
        assert(bpf_eval(prog, frame, 2, 58u32) == bpf_eval(prog, frame, 3, icmpv6_type));
        assert(bpf_eval(prog, frame, 3, icmpv6_type) == bpf_eval(prog, frame, 4, icmpv6_type));
        assert(bpf_eval(prog, frame, 4, icmpv6_type));
    }
}

/// The in-kernel filter of the solicitation monitors: it passes exactly
/// the IPv6 frames carrying an ICMPv6 Neighbor Solicitation.
pub fn ns_filter_program() -> (r: Vec<BPFFilter>)
    ensures
        r@ == icmpv6_type_filter(ICMPV6_TYPE_NS),
{
    filter_program(ICMPV6_TYPE_NS)
}

/// The in-kernel filter of the advertisement monitors: it passes exactly
/// the IPv6 frames carrying an ICMPv6 Neighbor Advertisement.
pub fn na_filter_program() -> (r: Vec<BPFFilter>)
    ensures
        r@ == icmpv6_type_filter(ICMPV6_TYPE_NA),
{
    filter_program(ICMPV6_TYPE_NA)
}

fn filter_program(icmpv6_type: u32) -> (r: Vec<BPFFilter>)
    ensures
        r@ == icmpv6_type_filter(icmpv6_type),
{
    let mut prog: Vec<BPFFilter> = Vec::new();
    // offset of the next-header field in the IPv6 header
    prog.push(bpf_stmt(BPF_LD | BPF_B | BPF_ABS, 6));
    prog.push(bpf_jump(BPF_JMP | BPF_JEQ | BPF_K, IPPROTO_ICMPV6, 0, 3));
    // size of the IPv6 header + offset of the ICMPv6 type field
    prog.push(bpf_stmt(BPF_LD | BPF_B | BPF_ABS, 40));
    prog.push(bpf_jump(BPF_JMP | BPF_JEQ | BPF_K, icmpv6_type, 0, 1));
    prog.push(bpf_stmt(BPF_RET | BPF_K, 0xffffffff));
    prog.push(bpf_stmt(BPF_RET | BPF_K, 0));
    proof {
        assert(prog@ =~= icmpv6_type_filter(icmpv6_type));
    }
    prog
}

} // verus!
