use vstd::prelude::*;
use crate::arch::{Bus, BusView, Fault, SystemMode, bus_read_spec, bus_write_spec, run_spec};
use crate::arch::alu::{
    acc_rot, acc_rot_spec, add16, add16_spec, alu, alu_spec, lemma_alu_flags, bit_spec, cb_rot, cb_rot_spec, daa,
    daa_spec, dec, dec_spec, flag_c, flag_z, flags, flags_spec, inc, inc_spec, mask, rel_jump,
    rel_jump_spec, res_spec, set_spec, sp_offset, sp_offset_spec, test_bit, carry_flag, zero_flag,
};
use crate::arch::decode::{Op, decode, decode_spec};
use crate::arch::regs::{
    Regs, cond_spec, dec16, hi_byte, inc16, initial_regs, lo_byte, pair, r8_spec, rp2_spec, rp_spec,
    set_r8_spec, set_rp2_spec, set_rp_spec,
};

verus! {

/// The one bus transaction (or none) of an M-cycle.
#[derive(Clone, Copy, Debug, PartialEq, Eq, Structural)]
pub enum Access {
    Idle,
    Read(u16),
    Write(u16, u8),
}

/// An instruction in flight: its M-cycle index (1 is the cycle that fetched
/// the opcode) and two scratch bytes that carry operands between M-cycles.
#[derive(Clone, Copy, Debug, PartialEq, Eq, Structural)]
pub struct InstructionProcedure {
    pub done: bool,
    pub op: Op,
    pub mcycle: u8,
    pub tmp0: u8,
    pub tmp1: u8,
}

impl InstructionProcedure {
    pub open spec fn wf(&self) -> bool {
        &&& self.op.wf()
        &&& 1 <= self.mcycle <= 6
        &&& !self.done
    }

    pub fn new(op: Op) -> (r: Self)
        ensures
            r == (InstructionProcedure { done: false, op, mcycle: 1, tmp0: 0, tmp1: 0 }),
    {
        InstructionProcedure { done: false, op, mcycle: 1, tmp0: 0, tmp1: 0 }
    }
}

pub open spec fn fin(p: InstructionProcedure) -> InstructionProcedure {
    InstructionProcedure { done: true, ..p }
}

/// The 16-bit operand assembled from the two fetched bytes (low byte first).
pub open spec fn nn_spec(p: InstructionProcedure) -> u16 {
    pair(p.tmp1, p.tmp0)
}

/// indirect[p]: (BC), (DE), (HL+), (HL-).
pub open spec fn ind_addr_spec(r: Regs, p: u8) -> u16 {
    if p == 0 { r.bc_spec() } else if p == 1 { r.de_spec() } else { r.hl_spec() }
}

/// The registers after an indirect access: HL moves on for (HL+) and (HL-).
pub open spec fn ind_post_spec(r: Regs, p: u8) -> Regs {
    if p == 2 {
        set_rp_spec(r, 2, inc16(r.hl_spec()))
    } else if p == 3 {
        set_rp_spec(r, 2, dec16(r.hl_spec()))
    } else {
        r
    }
}

/// The byte that a CB-prefixed opcode `cb` stores for operand `v`
/// (rotations and shifts, RES, SET; BIT stores nothing).
pub open spec fn cb_result_spec(cb: u8, v: u8, f: u8) -> u8 {
    let x = cb / 64;
    let y = (cb / 8) % 8;
    if x == 0 { cb_rot_spec(y, v, f).0 } else if x == 2 { res_spec(y, v) } else if x == 3 { set_spec(y, v) } else { v }
}

/// F after a CB-prefixed opcode `cb` on operand `v`; RES and SET keep F.
pub open spec fn cb_flags_spec(cb: u8, v: u8, f: u8) -> u8 {
    let x = cb / 64;
    let y = (cb / 8) % 8;
    if x == 0 { cb_rot_spec(y, v, f).1 } else if x == 1 { bit_spec(y, v, f) } else { f }
}

pub open spec fn pc_inc(r: Regs) -> Regs {
    Regs { pc: inc16(r.pc), ..r }
}

pub open spec fn sp_inc(r: Regs) -> Regs {
    Regs { sp: inc16(r.sp), ..r }
}

pub open spec fn sp_dec(r: Regs) -> Regs {
    Regs { sp: dec16(r.sp), ..r }
}

pub open spec fn with_regs(c: Cpu, r: Regs) -> Cpu {
    Cpu { regs: r, ..c }
}

/// The bus transaction of the current M-cycle of `p`.
#[verifier::opaque]
pub open spec fn access_spec(p: InstructionProcedure, c: Cpu) -> Access {
    let r = c.regs;
    let m = p.mcycle;
    match p.op {
        Op::LdNnSp => if m == 2 || m == 3 { Access::Read(r.pc) } else if m == 4 {
            Access::Write(nn_spec(p), lo_byte(r.sp))
        } else if m == 5 { Access::Write(inc16(nn_spec(p)), hi_byte(r.sp)) } else { Access::Idle },
        Op::Jr | Op::JrCond(_) | Op::AluN(_) | Op::AddSpD | Op::LdHlSpD => if m == 2 { Access::Read(r.pc) } else { Access::Idle },
        Op::LdRpNn(_) | Op::Jp | Op::JpCond(_) => if m == 2 || m == 3 { Access::Read(r.pc) } else { Access::Idle },
        Op::LdIndA(q) => if m == 2 { Access::Write(ind_addr_spec(r, q), r.a) } else { Access::Idle },
        Op::LdAInd(q) => if m == 2 { Access::Read(ind_addr_spec(r, q)) } else { Access::Idle },
        Op::IncR(y) => if y == 6 && m == 2 { Access::Read(r.hl_spec()) } else if y == 6 && m == 3 {
            Access::Write(r.hl_spec(), inc_spec(p.tmp0, r.f).0)
        } else { Access::Idle },
        Op::DecR(y) => if y == 6 && m == 2 { Access::Read(r.hl_spec()) } else if y == 6 && m == 3 {
            Access::Write(r.hl_spec(), dec_spec(p.tmp0, r.f).0)
        } else { Access::Idle },
        Op::LdRN(y) => if m == 2 { Access::Read(r.pc) } else if m == 3 && y == 6 {
            Access::Write(r.hl_spec(), p.tmp0)
        } else { Access::Idle },
        Op::LdRR(y, z) => if m == 2 && z == 6 { Access::Read(r.hl_spec()) } else if m == 2 && y == 6 {
            Access::Write(r.hl_spec(), r8_spec(r, z))
        } else { Access::Idle },
        Op::AluR(_, z) => if m == 2 && z == 6 { Access::Read(r.hl_spec()) } else { Access::Idle },
        Op::RetCond(_) => if m == 3 || m == 4 { Access::Read(r.sp) } else { Access::Idle },
        Op::Pop(_) | Op::Ret => if m == 2 || m == 3 { Access::Read(r.sp) } else { Access::Idle },
        Op::LdhNA => if m == 2 { Access::Read(r.pc) } else if m == 3 {
            Access::Write((0xFF00 + p.tmp0) as u16, r.a)
        } else { Access::Idle },
        Op::LdhANn => if m == 2 { Access::Read(r.pc) } else if m == 3 {
            Access::Read((0xFF00 + p.tmp0) as u16)
        } else { Access::Idle },
        Op::LdCA => if m == 2 { Access::Write((0xFF00 + r.c) as u16, r.a) } else { Access::Idle },
        Op::LdAC => if m == 2 { Access::Read((0xFF00 + r.c) as u16) } else { Access::Idle },
        Op::LdNnA => if m == 2 || m == 3 { Access::Read(r.pc) } else if m == 4 {
            Access::Write(nn_spec(p), r.a)
        } else { Access::Idle },
        Op::LdANn => if m == 2 || m == 3 { Access::Read(r.pc) } else if m == 4 {
            Access::Read(nn_spec(p))
        } else { Access::Idle },
        Op::Call | Op::CallCond(_) => if m == 2 || m == 3 { Access::Read(r.pc) } else if m == 5 {
            Access::Write(dec16(r.sp), hi_byte(r.pc))
        } else if m == 6 { Access::Write(dec16(r.sp), lo_byte(r.pc)) } else { Access::Idle },
        Op::Push(q) => if m == 3 { Access::Write(dec16(r.sp), hi_byte(rp2_spec(r, q))) } else if m == 4 {
            Access::Write(dec16(r.sp), lo_byte(rp2_spec(r, q)))
        } else { Access::Idle },
        Op::Rst(_) => if m == 3 { Access::Write(dec16(r.sp), hi_byte(r.pc)) } else if m == 4 {
            Access::Write(dec16(r.sp), lo_byte(r.pc))
        } else { Access::Idle },
        Op::Prefix => if m == 2 { Access::Read(r.pc) } else if m == 3 { Access::Read(r.hl_spec()) } else if m == 4 {
            Access::Write(r.hl_spec(), cb_result_spec(p.tmp0, p.tmp1, r.f))
        } else { Access::Idle },
        _ => Access::Idle,
    }
}

pub open spec fn set_tmp0(p: InstructionProcedure, v: u8) -> InstructionProcedure {
    InstructionProcedure { tmp0: v, ..p }
}

pub open spec fn set_tmp1(p: InstructionProcedure, v: u8) -> InstructionProcedure {
    InstructionProcedure { tmp1: v, ..p }
}

pub open spec fn with_f(r: Regs, f: u8) -> Regs {
    Regs { f, ..r }
}

/// The work of the current M-cycle of `p` once its bus transaction is over;
/// `v` is the byte read, if it read one. Sets `done` on the last M-cycle.
#[verifier::opaque]
pub open spec fn complete_spec(p: InstructionProcedure, c: Cpu, v: u8) -> (InstructionProcedure, Cpu) {
    let r = c.regs;
    let m = p.mcycle;
    match p.op {
        Op::Nop => (fin(p), c),
        Op::LdNnSp => if m == 1 || m == 4 { (p, c) } else if m == 2 { (set_tmp0(p, v), with_regs(c, pc_inc(r))) }
            else if m == 3 { (set_tmp1(p, v), with_regs(c, pc_inc(r))) } else { (fin(p), c) },
        Op::Jr => if m == 1 { (p, c) } else if m == 2 { (set_tmp0(p, v), with_regs(c, pc_inc(r))) }
            else { (fin(p), with_regs(c, Regs { pc: rel_jump_spec(r.pc, p.tmp0), ..r })) },
        Op::JrCond(cc) => if m == 1 { (p, c) } else if m == 2 {
            let p2 = set_tmp0(p, v);
            (if cond_spec(r.f, cc) { p2 } else { fin(p2) }, with_regs(c, pc_inc(r)))
        } else { (fin(p), with_regs(c, Regs { pc: rel_jump_spec(r.pc, p.tmp0), ..r })) },
        Op::LdRpNn(q) => if m == 1 { (p, c) } else if m == 2 {
            (p, with_regs(c, set_rp_spec(pc_inc(r), q, pair(hi_byte(rp_spec(r, q)), v))))
        } else { (fin(p), with_regs(c, set_rp_spec(pc_inc(r), q, pair(v, lo_byte(rp_spec(r, q)))))) },
        Op::AddHlRp(q) => if m == 1 { (p, c) } else {
            let s = add16_spec(r.hl_spec(), rp_spec(r, q));
            (fin(p), with_regs(c, with_f(set_rp_spec(r, 2, s.result), flags_spec(flag_z(r.f), false, s.half, s.carry))))
        },
        Op::LdIndA(q) => if m == 1 { (p, c) } else { (fin(p), with_regs(c, ind_post_spec(r, q))) },
        Op::LdAInd(q) => if m == 1 { (p, c) } else { (fin(p), with_regs(c, Regs { a: v, ..ind_post_spec(r, q) })) },
        Op::IncRp(q) => if m == 1 { (p, c) } else { (fin(p), with_regs(c, set_rp_spec(r, q, inc16(rp_spec(r, q))))) },
        Op::DecRp(q) => if m == 1 { (p, c) } else { (fin(p), with_regs(c, set_rp_spec(r, q, dec16(rp_spec(r, q))))) },
        Op::IncR(y) => if y != 6 {
            let (x, f) = inc_spec(r8_spec(r, y), r.f);
            (fin(p), with_regs(c, with_f(set_r8_spec(r, y, x), f)))
        } else if m == 1 { (p, c) } else if m == 2 { (set_tmp0(p, v), c) }
            else { (fin(p), with_regs(c, with_f(r, inc_spec(p.tmp0, r.f).1))) },
        Op::DecR(y) => if y != 6 {
            let (x, f) = dec_spec(r8_spec(r, y), r.f);
            (fin(p), with_regs(c, with_f(set_r8_spec(r, y, x), f)))
        } else if m == 1 { (p, c) } else if m == 2 { (set_tmp0(p, v), c) }
            else { (fin(p), with_regs(c, with_f(r, dec_spec(p.tmp0, r.f).1))) },
        Op::LdRN(y) => if m == 1 { (p, c) } else if m == 2 {
            if y != 6 { (fin(p), with_regs(c, set_r8_spec(pc_inc(r), y, v))) }
            else { (set_tmp0(p, v), with_regs(c, pc_inc(r))) }
        } else { (fin(p), c) },
        Op::AccRot(y) => {
            let (a, f) = acc_rot_spec(y, r.a, r.f);
            (fin(p), with_regs(c, Regs { a, f, ..r }))
        },
        Op::Daa => {
            let (a, f) = daa_spec(r.a, r.f);
            (fin(p), with_regs(c, Regs { a, f, ..r }))
        },
        Op::Cpl => (fin(p), with_regs(c, Regs { a: (255 - r.a) as u8, f: flags_spec(flag_z(r.f), true, true, flag_c(r.f)), ..r })),
        Op::Scf => (fin(p), with_regs(c, with_f(r, flags_spec(flag_z(r.f), false, false, true)))),
        Op::Ccf => (fin(p), with_regs(c, with_f(r, flags_spec(flag_z(r.f), false, false, !flag_c(r.f))))),
        Op::LdRR(y, z) => if y != 6 && z != 6 { (fin(p), with_regs(c, set_r8_spec(r, y, r8_spec(r, z)))) }
            else if m == 1 { (p, c) }
            else if z == 6 { (fin(p), with_regs(c, set_r8_spec(r, y, v))) } else { (fin(p), c) },
        Op::AluR(y, z) => if z != 6 {
            let (a, f) = alu_spec(y, r.a, r8_spec(r, z), r.f);
            (fin(p), with_regs(c, Regs { a, f, ..r }))
        } else if m == 1 { (p, c) } else {
            let (a, f) = alu_spec(y, r.a, v, r.f);
            (fin(p), with_regs(c, Regs { a, f, ..r }))
        },
        Op::AluN(y) => if m == 1 { (p, c) } else {
            let (a, f) = alu_spec(y, r.a, v, r.f);
            (fin(p), with_regs(c, Regs { a, f, ..pc_inc(r) }))
        },
        Op::RetCond(cc) => if m == 1 { (p, c) } else if m == 2 { (if cond_spec(r.f, cc) { p } else { fin(p) }, c) }
            else if m == 3 { (set_tmp0(p, v), with_regs(c, sp_inc(r))) }
            else if m == 4 { (set_tmp1(p, v), with_regs(c, sp_inc(r))) }
            else { (fin(p), with_regs(c, Regs { pc: nn_spec(p), ..r })) },
        Op::LdhNA => if m == 1 { (p, c) } else if m == 2 { (set_tmp0(p, v), with_regs(c, pc_inc(r))) } else { (fin(p), c) },
        Op::LdhANn => if m == 1 { (p, c) } else if m == 2 { (set_tmp0(p, v), with_regs(c, pc_inc(r))) }
            else { (fin(p), with_regs(c, Regs { a: v, ..r })) },
        Op::AddSpD => if m == 1 || m == 3 { (p, c) } else if m == 2 { (set_tmp0(p, v), with_regs(c, pc_inc(r))) } else {
            let (sp, f) = sp_offset_spec(r.sp, p.tmp0);
            (fin(p), with_regs(c, Regs { sp, f, ..r }))
        },
        Op::LdHlSpD => if m == 1 { (p, c) } else if m == 2 { (set_tmp0(p, v), with_regs(c, pc_inc(r))) } else {
            let (w, f) = sp_offset_spec(r.sp, p.tmp0);
            (fin(p), with_regs(c, with_f(set_rp_spec(r, 2, w), f)))
        },
        Op::Pop(q) => if m == 1 { (p, c) } else if m == 2 {
            (p, with_regs(c, set_rp2_spec(sp_inc(r), q, pair(hi_byte(rp2_spec(r, q)), v))))
        } else { (fin(p), with_regs(c, set_rp2_spec(sp_inc(r), q, pair(v, lo_byte(rp2_spec(r, q)))))) },
        Op::Ret => if m == 1 { (p, c) } else if m == 2 { (set_tmp0(p, v), with_regs(c, sp_inc(r))) }
            else if m == 3 { (set_tmp1(p, v), with_regs(c, sp_inc(r))) }
            else { (fin(p), with_regs(c, Regs { pc: nn_spec(p), ..r })) },
        Op::JpHl => (fin(p), with_regs(c, Regs { pc: r.hl_spec(), ..r })),
        Op::LdSpHl => if m == 1 { (p, c) } else { (fin(p), with_regs(c, Regs { sp: r.hl_spec(), ..r })) },
        Op::JpCond(cc) => if m == 1 { (p, c) } else if m == 2 { (set_tmp0(p, v), with_regs(c, pc_inc(r))) }
            else if m == 3 { (if cond_spec(r.f, cc) { set_tmp1(p, v) } else { fin(set_tmp1(p, v)) }, with_regs(c, pc_inc(r))) }
            else { (fin(p), with_regs(c, Regs { pc: nn_spec(p), ..r })) },
        Op::LdCA => if m == 1 { (p, c) } else { (fin(p), c) },
        Op::LdAC => if m == 1 { (p, c) } else { (fin(p), with_regs(c, Regs { a: v, ..r })) },
        Op::LdNnA => if m == 1 { (p, c) } else if m == 2 { (set_tmp0(p, v), with_regs(c, pc_inc(r))) }
            else if m == 3 { (set_tmp1(p, v), with_regs(c, pc_inc(r))) } else { (fin(p), c) },
        Op::LdANn => if m == 1 { (p, c) } else if m == 2 { (set_tmp0(p, v), with_regs(c, pc_inc(r))) }
            else if m == 3 { (set_tmp1(p, v), with_regs(c, pc_inc(r))) } else { (fin(p), with_regs(c, Regs { a: v, ..r })) },
        Op::Jp => if m == 1 { (p, c) } else if m == 2 { (set_tmp0(p, v), with_regs(c, pc_inc(r))) }
            else if m == 3 { (set_tmp1(p, v), with_regs(c, pc_inc(r))) }
            else { (fin(p), with_regs(c, Regs { pc: nn_spec(p), ..r })) },
        Op::Di => (fin(p), Cpu { ime: false, ime_pending: false, ime_counter: 0, ..c }),
        Op::Ei => (fin(p), Cpu { ime_pending: true, ime_counter: 0, ..c }),
        Op::CallCond(cc) => if m == 1 || m == 4 { (p, c) } else if m == 2 { (set_tmp0(p, v), with_regs(c, pc_inc(r))) }
            else if m == 3 { (if cond_spec(r.f, cc) { set_tmp1(p, v) } else { fin(set_tmp1(p, v)) }, with_regs(c, pc_inc(r))) }
            else if m == 5 { (p, with_regs(c, sp_dec(r))) }
            else { (fin(p), with_regs(c, Regs { pc: nn_spec(p), sp: dec16(r.sp), ..r })) },
        Op::Call => if m == 1 || m == 4 { (p, c) } else if m == 2 { (set_tmp0(p, v), with_regs(c, pc_inc(r))) }
            else if m == 3 { (set_tmp1(p, v), with_regs(c, pc_inc(r))) }
            else if m == 5 { (p, with_regs(c, sp_dec(r))) }
            else { (fin(p), with_regs(c, Regs { pc: nn_spec(p), sp: dec16(r.sp), ..r })) },
        Op::Push(_) => if m == 1 || m == 2 { (p, c) } else if m == 3 { (p, with_regs(c, sp_dec(r))) }
            else { (fin(p), with_regs(c, sp_dec(r))) },
        Op::Rst(y) => if m == 1 || m == 2 { (p, c) } else if m == 3 { (p, with_regs(c, sp_dec(r))) }
            else { (fin(p), with_regs(c, Regs { pc: (8 * y) as u16, sp: dec16(r.sp), ..r })) },
        Op::Prefix => if m == 1 { (p, c) } else if m == 2 {
            let p2 = set_tmp0(p, v);
            let r2 = pc_inc(r);
            let z = v % 8;
            if z == 6 { (p2, with_regs(c, r2)) } else {
                let x = r8_spec(r, z);
                let r3 = if v / 64 == 1 { r2 } else { set_r8_spec(r2, z, cb_result_spec(v, x, r.f)) };
                (fin(p2), with_regs(c, with_f(r3, cb_flags_spec(v, x, r.f))))
            }
        } else if m == 3 {
            if p.tmp0 / 64 == 1 { (fin(p), with_regs(c, with_f(r, cb_flags_spec(p.tmp0, v, r.f)))) }
            else { (set_tmp1(p, v), c) }
        } else { (fin(p), with_regs(c, with_f(r, cb_flags_spec(p.tmp0, p.tmp1, r.f)))) },
    }
}

/// The processor: registers, interrupt-master-enable and its delay latch,
/// the T-cycle counter and the instruction in flight.
#[derive(Clone, Copy, Debug)]
pub struct Cpu {
    pub mode: SystemMode,
    pub tcount: u8,
    pub procedure: Option<InstructionProcedure>,
    pub regs: Regs,
    pub ime: bool,
    pub ime_pending: bool,
    pub ime_counter: u8,
}

fn inc16_exec(w: u16) -> (r: u16)
    ensures
        r == inc16(w),
{
    if w == 0xFFFF { 0 } else { w + 1 }
}

fn dec16_exec(w: u16) -> (r: u16)
    ensures
        r == dec16(w),
{
    if w == 0 { 0xFFFF } else { w - 1 }
}

fn nn(p: &InstructionProcedure) -> (r: u16)
    ensures
        r == nn_spec(*p),
{
    reveal(pair);
    reveal(hi_byte);
    reveal(lo_byte);
    p.tmp1 as u16 * 256 + p.tmp0 as u16
}

fn ind_addr(r: &Regs, q: u8) -> (a: u16)
    ensures
        a == ind_addr_spec(*r, q),
{
    if q == 0 { r.bc() } else if q == 1 { r.de() } else { r.hl() }
}

fn ind_post(r: Regs, q: u8) -> (r2: Regs)
    ensures
        r2 == ind_post_spec(r, q),
{
    let mut r2 = r;
    if q == 2 {
        r2.set_hl(inc16_exec(r.hl()));
    } else if q == 3 {
        r2.set_hl(dec16_exec(r.hl()));
    }
    r2
}

fn cb_result(cb: u8, v: u8, f: u8) -> (r: u8)
    ensures
        r == cb_result_spec(cb, v, f),
{
    let x = cb / 64;
    let y = (cb / 8) % 8;
    if x == 0 {
        cb_rot(y, v, f).0
    } else if x == 2 {
        v & !mask(y)
    } else if x == 3 {
        v | mask(y)
    } else {
        v
    }
}

fn cb_flags(cb: u8, v: u8, f: u8) -> (r: u8)
    ensures
        r == cb_flags_spec(cb, v, f),
{
    let x = cb / 64;
    let y = (cb / 8) % 8;
    if x == 0 {
        cb_rot(y, v, f).1
    } else if x == 1 {
        test_bit(y, v, f)
    } else {
        f
    }
}

/// The bus transaction of the current M-cycle of `p`.
pub fn access(p: &InstructionProcedure, c: &Cpu) -> (a: Access)
    requires
        p.op.wf(),
    ensures
        a == access_spec(*p, *c),
{
    reveal(pair);
    reveal(hi_byte);
    reveal(lo_byte);
    reveal(access_spec);
    let r = &c.regs;
    let m = p.mcycle;
    match p.op {
        Op::LdNnSp => if m == 2 || m == 3 { Access::Read(r.pc) } else if m == 4 {
            Access::Write(nn(p), r.splo())
        } else if m == 5 { Access::Write(inc16_exec(nn(p)), r.sphi()) } else { Access::Idle },
        Op::Jr | Op::JrCond(_) | Op::AluN(_) | Op::AddSpD | Op::LdHlSpD => if m == 2 { Access::Read(r.pc) } else { Access::Idle },
        Op::LdRpNn(_) | Op::Jp | Op::JpCond(_) => if m == 2 || m == 3 { Access::Read(r.pc) } else { Access::Idle },
        Op::LdIndA(q) => if m == 2 { Access::Write(ind_addr(r, q), r.a) } else { Access::Idle },
        Op::LdAInd(q) => if m == 2 { Access::Read(ind_addr(r, q)) } else { Access::Idle },
        Op::IncR(y) => if y == 6 && m == 2 { Access::Read(r.hl()) } else if y == 6 && m == 3 {
            Access::Write(r.hl(), inc(p.tmp0, r.f).0)
        } else { Access::Idle },
        Op::DecR(y) => if y == 6 && m == 2 { Access::Read(r.hl()) } else if y == 6 && m == 3 {
            Access::Write(r.hl(), dec(p.tmp0, r.f).0)
        } else { Access::Idle },
        Op::LdRN(y) => if m == 2 { Access::Read(r.pc) } else if m == 3 && y == 6 {
            Access::Write(r.hl(), p.tmp0)
        } else { Access::Idle },
        Op::LdRR(y, z) => if m == 2 && z == 6 { Access::Read(r.hl()) } else if m == 2 && y == 6 {
            Access::Write(r.hl(), r.r8(z))
        } else { Access::Idle },
        Op::AluR(_, z) => if m == 2 && z == 6 { Access::Read(r.hl()) } else { Access::Idle },
        Op::RetCond(_) => if m == 3 || m == 4 { Access::Read(r.sp) } else { Access::Idle },
        Op::Pop(_) | Op::Ret => if m == 2 || m == 3 { Access::Read(r.sp) } else { Access::Idle },
        Op::LdhNA => if m == 2 { Access::Read(r.pc) } else if m == 3 {
            Access::Write(0xFF00 + p.tmp0 as u16, r.a)
        } else { Access::Idle },
        Op::LdhANn => if m == 2 { Access::Read(r.pc) } else if m == 3 {
            Access::Read(0xFF00 + p.tmp0 as u16)
        } else { Access::Idle },
        Op::LdCA => if m == 2 { Access::Write(0xFF00 + r.c as u16, r.a) } else { Access::Idle },
        Op::LdAC => if m == 2 { Access::Read(0xFF00 + r.c as u16) } else { Access::Idle },
        Op::LdNnA => if m == 2 || m == 3 { Access::Read(r.pc) } else if m == 4 {
            Access::Write(nn(p), r.a)
        } else { Access::Idle },
        Op::LdANn => if m == 2 || m == 3 { Access::Read(r.pc) } else if m == 4 {
            Access::Read(nn(p))
        } else { Access::Idle },
        Op::Call | Op::CallCond(_) => if m == 2 || m == 3 { Access::Read(r.pc) } else if m == 5 {
            Access::Write(dec16_exec(r.sp), r.pchi())
        } else if m == 6 { Access::Write(dec16_exec(r.sp), r.pclo()) } else { Access::Idle },
        Op::Push(q) => if m == 3 { Access::Write(dec16_exec(r.sp), (r.rp2(q) / 256) as u8) } else if m == 4 {
            Access::Write(dec16_exec(r.sp), (r.rp2(q) % 256) as u8)
        } else { Access::Idle },
        Op::Rst(_) => if m == 3 { Access::Write(dec16_exec(r.sp), r.pchi()) } else if m == 4 {
            Access::Write(dec16_exec(r.sp), r.pclo())
        } else { Access::Idle },
        Op::Prefix => if m == 2 { Access::Read(r.pc) } else if m == 3 { Access::Read(r.hl()) } else if m == 4 {
            Access::Write(r.hl(), cb_result(p.tmp0, p.tmp1, r.f))
        } else { Access::Idle },
        _ => Access::Idle,
    }
}

fn pc_next(r: Regs) -> (r2: Regs)
    ensures
        r2 == pc_inc(r),
{
    Regs { pc: inc16_exec(r.pc), ..r }
}

fn sp_next(r: Regs) -> (r2: Regs)
    ensures
        r2 == sp_inc(r),
{
    Regs { sp: inc16_exec(r.sp), ..r }
}

fn sp_prev(r: Regs) -> (r2: Regs)
    ensures
        r2 == sp_dec(r),
{
    Regs { sp: dec16_exec(r.sp), ..r }
}

fn done(p: InstructionProcedure) -> (r: InstructionProcedure)
    ensures
        r == fin(p),
{
    InstructionProcedure { done: true, ..p }
}

fn regs_with_rp(r: Regs, q: u8, v: u16) -> (r2: Regs)
    ensures
        r2 == set_rp_spec(r, q, v),
{
    let mut r2 = r;
    r2.set_rp(q, v);
    r2
}

fn regs_with_rp2(r: Regs, q: u8, v: u16) -> (r2: Regs)
    ensures
        r2 == set_rp2_spec(r, q, v),
{
    let mut r2 = r;
    r2.set_rp2(q, v);
    r2
}

fn regs_with_r8(r: Regs, i: u8, v: u8) -> (r2: Regs)
    ensures
        r2 == set_r8_spec(r, i, v),
{
    let mut r2 = r;
    r2.set_r8(i, v);
    r2
}

/// The work of the current M-cycle of `p` once its bus transaction is over.
pub fn complete(p: InstructionProcedure, c: Cpu, v: u8) -> (out: (InstructionProcedure, Cpu))
    requires
        p.op.wf(),
    ensures
        out == complete_spec(p, c, v),
{
    reveal(pair);
    reveal(hi_byte);
    reveal(lo_byte);
    reveal(complete_spec);
    let r = c.regs;
    let m = p.mcycle;
    let t0 = InstructionProcedure { tmp0: v, ..p };
    let t1 = InstructionProcedure { tmp1: v, ..p };
    let jump = Cpu { regs: Regs { pc: p.tmp1 as u16 * 256 + p.tmp0 as u16, ..r }, ..c };
    let fetched = Cpu { regs: pc_next(r), ..c };
    match p.op {
        Op::Nop => (done(p), c),
        Op::LdNnSp => if m == 1 || m == 4 { (p, c) } else if m == 2 { (t0, fetched) }
            else if m == 3 { (t1, fetched) } else { (done(p), c) },
        Op::Jr => if m == 1 { (p, c) } else if m == 2 { (t0, fetched) }
            else { (done(p), Cpu { regs: Regs { pc: rel_jump(r.pc, p.tmp0), ..r }, ..c }) },
        Op::JrCond(cc) => if m == 1 { (p, c) } else if m == 2 {
            (if r.cond(cc) { t0 } else { done(t0) }, fetched)
        } else { (done(p), Cpu { regs: Regs { pc: rel_jump(r.pc, p.tmp0), ..r }, ..c }) },
        Op::LdRpNn(q) => if m == 1 { (p, c) } else if m == 2 {
            (p, Cpu { regs: regs_with_rp(pc_next(r), q, (r.rp(q) / 256) * 256 + v as u16), ..c })
        } else { (done(p), Cpu { regs: regs_with_rp(pc_next(r), q, v as u16 * 256 + r.rp(q) % 256), ..c }) },
        Op::AddHlRp(q) => if m == 1 { (p, c) } else {
            let s = add16(r.hl(), r.rp(q));
            let f = flags(zero_flag(r.f), false, s.half, s.carry);
            (done(p), Cpu { regs: Regs { f, ..regs_with_rp(r, 2, s.result) }, ..c })
        },
        Op::LdIndA(q) => if m == 1 { (p, c) } else { (done(p), Cpu { regs: ind_post(r, q), ..c }) },
        Op::LdAInd(q) => if m == 1 { (p, c) } else { (done(p), Cpu { regs: Regs { a: v, ..ind_post(r, q) }, ..c }) },
        Op::IncRp(q) => if m == 1 { (p, c) } else { (done(p), Cpu { regs: regs_with_rp(r, q, inc16_exec(r.rp(q))), ..c }) },
        Op::DecRp(q) => if m == 1 { (p, c) } else { (done(p), Cpu { regs: regs_with_rp(r, q, dec16_exec(r.rp(q))), ..c }) },
        Op::IncR(y) => if y != 6 {
            let (x, f) = inc(r.r8(y), r.f);
            (done(p), Cpu { regs: Regs { f, ..regs_with_r8(r, y, x) }, ..c })
        } else if m == 1 { (p, c) } else if m == 2 { (t0, c) }
            else { (done(p), Cpu { regs: Regs { f: inc(p.tmp0, r.f).1, ..r }, ..c }) },
        Op::DecR(y) => if y != 6 {
            let (x, f) = dec(r.r8(y), r.f);
            (done(p), Cpu { regs: Regs { f, ..regs_with_r8(r, y, x) }, ..c })
        } else if m == 1 { (p, c) } else if m == 2 { (t0, c) }
            else { (done(p), Cpu { regs: Regs { f: dec(p.tmp0, r.f).1, ..r }, ..c }) },
        Op::LdRN(y) => if m == 1 { (p, c) } else if m == 2 {
            if y != 6 { (done(p), Cpu { regs: regs_with_r8(pc_next(r), y, v), ..c }) }
            else { (t0, fetched) }
        } else { (done(p), c) },
        Op::AccRot(y) => {
            let (a, f) = acc_rot(y, r.a, r.f);
            (done(p), Cpu { regs: Regs { a, f, ..r }, ..c })
        },
        Op::Daa => {
            let (a, f) = daa(r.a, r.f);
            (done(p), Cpu { regs: Regs { a, f, ..r }, ..c })
        },
        Op::Cpl => (done(p), Cpu { regs: Regs { a: 255 - r.a, f: flags(zero_flag(r.f), true, true, carry_flag(r.f)), ..r }, ..c }),
        Op::Scf => (done(p), Cpu { regs: Regs { f: flags(zero_flag(r.f), false, false, true), ..r }, ..c }),
        Op::Ccf => (done(p), Cpu { regs: Regs { f: flags(zero_flag(r.f), false, false, !carry_flag(r.f)), ..r }, ..c }),
        Op::LdRR(y, z) => if y != 6 && z != 6 { (done(p), Cpu { regs: regs_with_r8(r, y, r.r8(z)), ..c }) }
            else if m == 1 { (p, c) }
            else if z == 6 { (done(p), Cpu { regs: regs_with_r8(r, y, v), ..c }) } else { (done(p), c) },
        Op::AluR(y, z) => if z != 6 {
            let (a, f) = alu(y, r.a, r.r8(z), r.f);
            (done(p), Cpu { regs: Regs { a, f, ..r }, ..c })
        } else if m == 1 { (p, c) } else {
            let (a, f) = alu(y, r.a, v, r.f);
            (done(p), Cpu { regs: Regs { a, f, ..r }, ..c })
        },
        Op::AluN(y) => if m == 1 { (p, c) } else {
            let (a, f) = alu(y, r.a, v, r.f);
            (done(p), Cpu { regs: Regs { a, f, ..pc_next(r) }, ..c })
        },
        Op::RetCond(cc) => if m == 1 { (p, c) } else if m == 2 { (if r.cond(cc) { p } else { done(p) }, c) }
            else if m == 3 { (t0, Cpu { regs: sp_next(r), ..c }) }
            else if m == 4 { (t1, Cpu { regs: sp_next(r), ..c }) }
            else { (done(p), jump) },
        Op::LdhNA => if m == 1 { (p, c) } else if m == 2 { (t0, fetched) } else { (done(p), c) },
        Op::LdhANn => if m == 1 { (p, c) } else if m == 2 { (t0, fetched) }
            else { (done(p), Cpu { regs: Regs { a: v, ..r }, ..c }) },
        Op::AddSpD => if m == 1 || m == 3 { (p, c) } else if m == 2 { (t0, fetched) } else {
            let (sp, f) = sp_offset(r.sp, p.tmp0);
            (done(p), Cpu { regs: Regs { sp, f, ..r }, ..c })
        },
        Op::LdHlSpD => if m == 1 { (p, c) } else if m == 2 { (t0, fetched) } else {
            let (w, f) = sp_offset(r.sp, p.tmp0);
            (done(p), Cpu { regs: Regs { f, ..regs_with_rp(r, 2, w) }, ..c })
        },
        Op::Pop(q) => if m == 1 { (p, c) } else if m == 2 {
            (p, Cpu { regs: regs_with_rp2(sp_next(r), q, (r.rp2(q) / 256) * 256 + v as u16), ..c })
        } else { (done(p), Cpu { regs: regs_with_rp2(sp_next(r), q, v as u16 * 256 + r.rp2(q) % 256), ..c }) },
        Op::Ret => if m == 1 { (p, c) } else if m == 2 { (t0, Cpu { regs: sp_next(r), ..c }) }
            else if m == 3 { (t1, Cpu { regs: sp_next(r), ..c }) }
            else { (done(p), jump) },
        Op::JpHl => (done(p), Cpu { regs: Regs { pc: r.hl(), ..r }, ..c }),
        Op::LdSpHl => if m == 1 { (p, c) } else { (done(p), Cpu { regs: Regs { sp: r.hl(), ..r }, ..c }) },
        Op::JpCond(cc) => if m == 1 { (p, c) } else if m == 2 { (t0, fetched) }
            else if m == 3 { (if r.cond(cc) { t1 } else { done(t1) }, fetched) }
            else { (done(p), jump) },
        Op::LdCA => if m == 1 { (p, c) } else { (done(p), c) },
        Op::LdAC => if m == 1 { (p, c) } else { (done(p), Cpu { regs: Regs { a: v, ..r }, ..c }) },
        Op::LdNnA => if m == 1 { (p, c) } else if m == 2 { (t0, fetched) }
            else if m == 3 { (t1, fetched) } else { (done(p), c) },
        Op::LdANn => if m == 1 { (p, c) } else if m == 2 { (t0, fetched) }
            else if m == 3 { (t1, fetched) } else { (done(p), Cpu { regs: Regs { a: v, ..r }, ..c }) },
        Op::Jp => if m == 1 { (p, c) } else if m == 2 { (t0, fetched) }
            else if m == 3 { (t1, fetched) }
            else { (done(p), jump) },
        Op::Di => (done(p), Cpu { ime: false, ime_pending: false, ime_counter: 0, ..c }),
        Op::Ei => (done(p), Cpu { ime_pending: true, ime_counter: 0, ..c }),
        Op::CallCond(cc) => if m == 1 || m == 4 { (p, c) } else if m == 2 { (t0, fetched) }
            else if m == 3 { (if r.cond(cc) { t1 } else { done(t1) }, fetched) }
            else if m == 5 { (p, Cpu { regs: sp_prev(r), ..c }) }
            else { (done(p), Cpu { regs: Regs { pc: nn(&p), sp: dec16_exec(r.sp), ..r }, ..c }) },
        Op::Call => if m == 1 || m == 4 { (p, c) } else if m == 2 { (t0, fetched) }
            else if m == 3 { (t1, fetched) }
            else if m == 5 { (p, Cpu { regs: sp_prev(r), ..c }) }
            else { (done(p), Cpu { regs: Regs { pc: nn(&p), sp: dec16_exec(r.sp), ..r }, ..c }) },
        Op::Push(_) => if m == 1 || m == 2 { (p, c) } else if m == 3 { (p, Cpu { regs: sp_prev(r), ..c }) }
            else { (done(p), Cpu { regs: sp_prev(r), ..c }) },
        Op::Rst(y) => if m == 1 || m == 2 { (p, c) } else if m == 3 { (p, Cpu { regs: sp_prev(r), ..c }) }
            else { (done(p), Cpu { regs: Regs { pc: 8 * y as u16, sp: dec16_exec(r.sp), ..r }, ..c }) },
        Op::Prefix => if m == 1 { (p, c) } else if m == 2 {
            let r2 = pc_next(r);
            let z = v % 8;
            if z == 6 { (t0, Cpu { regs: r2, ..c }) } else {
                let x = r.r8(z);
                let r3 = if v / 64 == 1 { r2 } else { regs_with_r8(r2, z, cb_result(v, x, r.f)) };
                (done(t0), Cpu { regs: Regs { f: cb_flags(v, x, r.f), ..r3 }, ..c })
            }
        } else if m == 3 {
            if p.tmp0 / 64 == 1 { (done(p), Cpu { regs: Regs { f: cb_flags(p.tmp0, v, r.f), ..r }, ..c }) }
            else { (t1, c) }
        } else { (done(p), Cpu { regs: Regs { f: cb_flags(p.tmp0, p.tmp1, r.f), ..r }, ..c }) },
    }
}

pub open spec fn next_mcycle(p: InstructionProcedure) -> InstructionProcedure {
    InstructionProcedure { mcycle: (p.mcycle + 1) as u8, ..p }
}

/// One M-cycle of `p`: its bus transaction, then its work; the M-cycle
/// index moves on.
pub open spec fn step_spec(p: InstructionProcedure, c: Cpu, b: BusView) -> Result<(InstructionProcedure, Cpu, BusView), Fault> {
    match access_spec(p, c) {
        Access::Idle => {
            let (p2, c2) = complete_spec(p, c, 0);
            Ok((next_mcycle(p2), c2, b))
        },
        Access::Read(a) => match bus_read_spec(b, a) {
            Ok(v) => {
                let (p2, c2) = complete_spec(p, c, v);
                Ok((next_mcycle(p2), c2, b))
            },
            Err(e) => Err(e),
        },
        Access::Write(a, d) => match bus_write_spec(b, a, d) {
            Ok(b2) => {
                let (p2, c2) = complete_spec(p, c, 0);
                Ok((next_mcycle(p2), c2, b2))
            },
            Err(e) => Err(e),
        },
    }
}

/// The IME-enable latch, advanced at each instruction boundary: two
/// advances after EI, IME is set and the latch cleared.
pub open spec fn latch_spec(c: Cpu) -> Cpu {
    if c.ime_pending {
        if c.ime_counter + 1 >= 2 {
            Cpu { ime: true, ime_pending: false, ime_counter: 0, ..c }
        } else {
            Cpu { ime_counter: (c.ime_counter + 1) as u8, ..c }
        }
    } else {
        c
    }
}

/// The instruction to step at an M-cycle boundary: the one in flight, or a
/// new one fetched at PC and decoded (after the IME latch advances).
pub open spec fn begin_spec(c: Cpu, b: BusView) -> Result<(InstructionProcedure, Cpu), Fault> {
    match c.procedure {
        Some(p) => Ok((p, c)),
        None => {
            let c1 = latch_spec(c);
            match bus_read_spec(b, c1.regs.pc) {
                Err(e) => Err(e),
                Ok(opcode) => match decode_spec(opcode) {
                    Err(e) => Err(e),
                    Ok(op) => Ok((
                        InstructionProcedure { done: false, op, mcycle: 1, tmp0: 0, tmp1: 0 },
                        with_regs(c1, pc_inc(c1.regs)),
                    )),
                },
            }
        },
    }
}

/// One T-cycle. Off the M-cycle boundary only the T-cycle counter moves;
/// on it, one M-cycle of the current instruction runs, and a finished
/// instruction is dropped.
pub open spec fn tcycle_spec(c: Cpu, b: BusView) -> Result<(Cpu, BusView), Fault> {
    if c.tcount != 0 {
        Ok((Cpu { tcount: ((c.tcount + 1) % 4) as u8, ..c }, b))
    } else {
        match begin_spec(c, b) {
            Err(e) => Err(e),
            Ok((p, c1)) => match step_spec(p, c1, b) {
                Err(e) => Err(e),
                Ok((p2, c2, b2)) => Ok((
                    Cpu { procedure: if p2.done { None } else { Some(p2) }, tcount: 1, ..c2 },
                    b2,
                )),
            },
        }
    }
}

impl Cpu {
    /// The processor at power-on.
    pub open spec fn new_spec(mode: SystemMode) -> Cpu {
        Cpu {
            mode,
            tcount: 0,
            procedure: None,
            regs: initial_regs(mode),
            ime: false,
            ime_pending: false,
            ime_counter: 0,
        }
    }

    pub open spec fn wf(&self) -> bool {
        &&& self.regs.wf()
        &&& self.tcount < 4
        &&& self.ime_counter < 2
        &&& (self.procedure matches Some(p) ==> p.wf())
    }

    /// The SuperGameboy2 mode is not provided.
    pub fn new(mode: SystemMode) -> (r: Self)
        requires
            mode != SystemMode::SuperGameboy2,
        ensures
            r.wf(),
            r == Cpu::new_spec(mode),
    {
        Cpu {
            mode,
            tcount: 0,
            procedure: None,
            regs: Regs::new(mode),
            ime: false,
            ime_pending: false,
            ime_counter: 0,
        }
    }

    /// Runs one T-cycle against `bus`.
    pub fn tcycle(&mut self, bus: &mut Bus) -> (r: Result<(), Fault>)
        requires
            old(self).wf(),
            old(bus).wf(),
        ensures
            match tcycle_spec(*old(self), old(bus)@) {
                Ok((c, b)) => r is Ok && *final(self) == c && final(bus)@ == b && final(self).wf() && final(bus).wf(),
                Err(e) => r == Err::<(), Fault>(e),
            },
    {
        if self.tcount != 0 {
            self.tcount = (self.tcount + 1) % 4;
            return Ok(());
        }
        let p = match self.procedure {
            Some(p) => p,
            None => {
                if self.ime_pending {
                    if self.ime_counter + 1 >= 2 {
                        self.ime = true;
                        self.ime_pending = false;
                        self.ime_counter = 0;
                    } else {
                        self.ime_counter = self.ime_counter + 1;
                    }
                }
                let opcode = match bus.read(self.regs.pc) {
                    Ok(v) => v,
                    Err(e) => return Err(e),
                };
                let op = match decode(opcode) {
                    Ok(op) => op,
                    Err(e) => return Err(e),
                };
                self.regs.pc = inc16_exec(self.regs.pc);
                InstructionProcedure::new(op)
            },
        };
        let mut p = p;
        match p.step(self, bus) {
            Ok(()) => {},
            Err(e) => return Err(e),
        }
        self.procedure = if p.done { None } else { Some(p) };
        self.tcount = 1;
        proof {
            lemma_tcycle_wf(*old(self), old(bus)@);
        }
        Ok(())
    }
}

impl InstructionProcedure {
    /// Runs the current M-cycle: its bus transaction, then its work.
    pub fn step(&mut self, cpu: &mut Cpu, bus: &mut Bus) -> (r: Result<(), Fault>)
        requires
            old(self).wf(),
            old(bus).wf(),
        ensures
            match step_spec(*old(self), *old(cpu), old(bus)@) {
                Ok((p, c, b)) => r is Ok && *final(self) == p && *final(cpu) == c && final(bus)@ == b,
                Err(e) => r == Err::<(), Fault>(e),
            },
            final(bus).wf(),
    {
        let v: u8 = match access(self, cpu) {
            Access::Idle => 0,
            Access::Read(a) => match bus.read(a) {
                Ok(v) => v,
                Err(e) => return Err(e),
            },
            Access::Write(a, d) => match bus.write(a, d) {
                Ok(()) => 0,
                Err(e) => return Err(e),
            },
        };
        let (p2, c2) = complete(*self, *cpu, v);
        proof {
            lemma_complete_shape(*self, *cpu, v);
        }
        *self = InstructionProcedure { mcycle: p2.mcycle + 1, ..p2 };
        *cpu = c2;
        Ok(())
    }
}

/// The work of an M-cycle leaves the instruction, its M-cycle index and the
/// T-cycle counter alone, keeps the IME latch in range, and a procedure
/// that is not done has M-cycles left.
pub proof fn lemma_complete_shape(p: InstructionProcedure, c: Cpu, v: u8)
    requires
        p.wf(),
    ensures
        ({
            let (p2, c2) = complete_spec(p, c, v);
            &&& (c.ime_counter < 2 ==> c2.ime_counter < 2)
            &&& c2.tcount == c.tcount
            &&& p2.op == p.op
            &&& p2.mcycle == p.mcycle
            &&& (!p2.done ==> p.mcycle < 6)
        }),
{
    reveal(complete_spec);
}

/// The work of an M-cycle keeps F's low nibble zero.
pub proof fn lemma_complete_flags(p: InstructionProcedure, c: Cpu, v: u8)
    requires
        p.wf(),
        c.regs.wf(),
    ensures
        complete_spec(p, c, v).1.regs.wf(),
{
    // One small proof per handful of instructions keeps each solver query small.
    if p.op is Nop || p.op is LdNnSp || p.op is Jr || p.op is JrCond {
        lemma_complete_flags_0(p, c, v);
    } else if p.op is LdRpNn || p.op is AddHlRp || p.op is LdIndA || p.op is LdAInd {
        lemma_complete_flags_1(p, c, v);
    } else if p.op is IncRp || p.op is DecRp || p.op is IncR || p.op is DecR {
        lemma_complete_flags_2(p, c, v);
    } else if p.op is LdRN || p.op is AccRot || p.op is Daa || p.op is Cpl {
        lemma_complete_flags_3(p, c, v);
    } else if p.op is Scf || p.op is Ccf || p.op is LdRR || p.op is AluR {
        lemma_complete_flags_4(p, c, v);
    } else if p.op is AluN || p.op is RetCond || p.op is LdhNA || p.op is AddSpD {
        lemma_complete_flags_5(p, c, v);
    } else if p.op is LdhANn || p.op is LdHlSpD || p.op is Pop || p.op is Ret {
        lemma_complete_flags_6(p, c, v);
    } else if p.op is JpHl || p.op is LdSpHl || p.op is JpCond || p.op is LdCA {
        lemma_complete_flags_7(p, c, v);
    } else if p.op is LdNnA || p.op is LdAC || p.op is LdANn || p.op is Jp {
        lemma_complete_flags_8(p, c, v);
    } else if p.op is Di || p.op is Ei || p.op is CallCond || p.op is Push {
        lemma_complete_flags_9(p, c, v);
    } else if p.op is Call || p.op is Rst || p.op is Prefix {
        lemma_complete_flags_10(p, c, v);
    }
}

proof fn lemma_complete_flags_0(p: InstructionProcedure, c: Cpu, v: u8)
    requires
        p.wf(),
        c.regs.wf(),
        p.op is Nop || p.op is LdNnSp || p.op is Jr || p.op is JrCond,
    ensures
        complete_spec(p, c, v).1.regs.wf(),
{
    reveal(complete_spec);
    lemma_flags_low_nibble();
}

proof fn lemma_complete_flags_1(p: InstructionProcedure, c: Cpu, v: u8)
    requires
        p.wf(),
        c.regs.wf(),
        p.op is LdRpNn || p.op is AddHlRp || p.op is LdIndA || p.op is LdAInd,
    ensures
        complete_spec(p, c, v).1.regs.wf(),
{
    reveal(complete_spec);
    lemma_flags_low_nibble();
}

proof fn lemma_complete_flags_2(p: InstructionProcedure, c: Cpu, v: u8)
    requires
        p.wf(),
        c.regs.wf(),
        p.op is IncRp || p.op is DecRp || p.op is IncR || p.op is DecR,
    ensures
        complete_spec(p, c, v).1.regs.wf(),
{
    reveal(complete_spec);
    lemma_flags_low_nibble();
}

proof fn lemma_complete_flags_3(p: InstructionProcedure, c: Cpu, v: u8)
    requires
        p.wf(),
        c.regs.wf(),
        p.op is LdRN || p.op is AccRot || p.op is Daa || p.op is Cpl,
    ensures
        complete_spec(p, c, v).1.regs.wf(),
{
    reveal(complete_spec);
    lemma_flags_low_nibble();
}

proof fn lemma_complete_flags_4(p: InstructionProcedure, c: Cpu, v: u8)
    requires
        p.wf(),
        c.regs.wf(),
        p.op is Scf || p.op is Ccf || p.op is LdRR || p.op is AluR,
    ensures
        complete_spec(p, c, v).1.regs.wf(),
{
    reveal(complete_spec);
    lemma_flags_low_nibble();
}

proof fn lemma_complete_flags_5(p: InstructionProcedure, c: Cpu, v: u8)
    requires
        p.wf(),
        c.regs.wf(),
        p.op is AluN || p.op is RetCond || p.op is LdhNA || p.op is AddSpD,
    ensures
        complete_spec(p, c, v).1.regs.wf(),
{
    reveal(complete_spec);
    lemma_flags_low_nibble();
}

proof fn lemma_complete_flags_6(p: InstructionProcedure, c: Cpu, v: u8)
    requires
        p.wf(),
        c.regs.wf(),
        p.op is LdhANn || p.op is LdHlSpD || p.op is Pop || p.op is Ret,
    ensures
        complete_spec(p, c, v).1.regs.wf(),
{
    reveal(complete_spec);
    lemma_flags_low_nibble();
}

proof fn lemma_complete_flags_7(p: InstructionProcedure, c: Cpu, v: u8)
    requires
        p.wf(),
        c.regs.wf(),
        p.op is JpHl || p.op is LdSpHl || p.op is JpCond || p.op is LdCA,
    ensures
        complete_spec(p, c, v).1.regs.wf(),
{
    reveal(complete_spec);
    lemma_flags_low_nibble();
}

proof fn lemma_complete_flags_8(p: InstructionProcedure, c: Cpu, v: u8)
    requires
        p.wf(),
        c.regs.wf(),
        p.op is LdNnA || p.op is LdAC || p.op is LdANn || p.op is Jp,
    ensures
        complete_spec(p, c, v).1.regs.wf(),
{
    reveal(complete_spec);
    lemma_flags_low_nibble();
}

proof fn lemma_complete_flags_9(p: InstructionProcedure, c: Cpu, v: u8)
    requires
        p.wf(),
        c.regs.wf(),
        p.op is Di || p.op is Ei || p.op is CallCond || p.op is Push,
    ensures
        complete_spec(p, c, v).1.regs.wf(),
{
    reveal(complete_spec);
    lemma_flags_low_nibble();
}

proof fn lemma_complete_flags_10(p: InstructionProcedure, c: Cpu, v: u8)
    requires
        p.wf(),
        c.regs.wf(),
        p.op is Call || p.op is Rst || p.op is Prefix,
    ensures
        complete_spec(p, c, v).1.regs.wf(),
{
    reveal(complete_spec);
    lemma_flags_low_nibble();
}

pub proof fn lemma_complete_wf(p: InstructionProcedure, c: Cpu, v: u8)
    requires
        p.wf(),
        c.regs.wf(),
        c.ime_counter < 2,
    ensures
        ({
            let (p2, c2) = complete_spec(p, c, v);
            &&& c2.regs.wf()
            &&& c2.ime_counter < 2
            &&& c2.tcount == c.tcount
            &&& p2.op == p.op
            &&& p2.mcycle == p.mcycle
            &&& (!p2.done ==> p.mcycle < 6)
        }),
{
    lemma_complete_shape(p, c, v);
    lemma_complete_flags(p, c, v);
}

/// Every flag byte that the instructions build has a zero low nibble.
pub proof fn lemma_flags_low_nibble()
    ensures
        forall|z: bool, n: bool, h: bool, cy: bool| #[trigger] flags_spec(z, n, h, cy) % 16 == 0,
        forall|x: u8| #![trigger (x / 16 * 16)] ((x / 16 * 16) as u8) % 16 == 0,
        forall|y: u8, a: u8, v: u8, f: u8| #[trigger] alu_spec(y, a, v, f).1 % 16 == 0,
{
    assert forall|y: u8, a: u8, v: u8, f: u8| #[trigger] alu_spec(y, a, v, f).1 % 16 == 0 by {
        lemma_alu_flags(y, a, v, f);
    }
    assert forall|x: u8| #![trigger (x / 16 * 16)] ((x / 16 * 16) as u8) % 16 == 0 by {
        assert(((x / 16 * 16) as u8) % 16 == 0) by (bit_vector);
    }
}

/// Writes keep the sizes of the bus's memories.
pub proof fn lemma_write_wf(b: BusView, addr: u16, data: u8)
    requires
        b.wf(),
    ensures
        bus_write_spec(b, addr, data) matches Ok(b2) ==> b2.wf(),
{
    reveal(bus_write_spec);
}

/// Every T-cycle keeps the processor well formed: in particular F's low
/// four bits stay zero.
pub proof fn lemma_tcycle_wf(c: Cpu, b: BusView)
    requires
        c.wf(),
        b.wf(),
    ensures
        tcycle_spec(c, b) matches Ok((c2, b2)) ==> c2.wf() && b2.wf(),
{
    if c.tcount == 0 {
        if let Ok((p, c1)) = begin_spec(c, b) {
            lemma_complete_wf(p, c1, 0);
            if let Access::Read(a) = access_spec(p, c1) {
                if let Ok(v) = bus_read_spec(b, a) {
                    lemma_complete_wf(p, c1, v);
                }
            }
            if let Access::Write(a, d) = access_spec(p, c1) {
                lemma_write_wf(b, a, d);
            }
        }
    }
}

/// Only DI and EI touch the IME flag and its latch in the work of an M-cycle.
pub proof fn lemma_complete_ime(p: InstructionProcedure, c: Cpu, v: u8)
    requires
        p.wf(),
    ensures
        complete_spec(p, c, v).1.ime == (if p.op is Di { false } else { c.ime }),
        !(p.op is Di || p.op is Ei) ==> complete_spec(p, c, v).1.ime_pending == c.ime_pending
            && complete_spec(p, c, v).1.ime_counter == c.ime_counter,
        p.op is Ei ==> complete_spec(p, c, v).1.ime_pending && complete_spec(p, c, v).1.ime_counter == 0
            && complete_spec(p, c, v).0.done && complete_spec(p, c, v).1.regs == c.regs
            && complete_spec(p, c, v).1.ime == c.ime,
{
    if p.op is Ei {
        lemma_complete_ei(p, c, v);
    } else {
        lemma_complete_ime_others(p, c, v);
    }
}

proof fn lemma_complete_ei(p: InstructionProcedure, c: Cpu, v: u8)
    requires
        p.op is Ei,
    ensures
        complete_spec(p, c, v).1 == (Cpu { ime_pending: true, ime_counter: 0, ..c }),
        complete_spec(p, c, v).0.done,
{
    reveal(complete_spec);
}

#[verifier::rlimit(80)]
proof fn lemma_complete_ime_others(p: InstructionProcedure, c: Cpu, v: u8)
    requires
        p.wf(),
        !(p.op is Ei),
    ensures
        complete_spec(p, c, v).1.ime == (if p.op is Di { false } else { c.ime }),
        !(p.op is Di) ==> complete_spec(p, c, v).1.ime_pending == c.ime_pending
            && complete_spec(p, c, v).1.ime_counter == c.ime_counter,
{
    reveal(complete_spec);
}

/// The opcode that decodes to DI.
proof fn lemma_decode_di(opcode: u8)
    ensures
        decode_spec(opcode) == Ok::<Op, Fault>(Op::Di) <==> opcode == 0xF3,
{
}

/// IME is set only when the latch that EI started matures at an instruction
/// boundary, and cleared only by DI (opcode 0xF3) in its single M-cycle.
pub proof fn lemma_ime_transitions(c: Cpu, b: BusView)
    requires
        c.wf(),
        b.wf(),
    ensures
        tcycle_spec(c, b) matches Ok((c2, b2)) ==> {
            &&& (c2.ime && !c.ime ==> c.tcount == 0 && c.procedure is None && c.ime_pending
                && c.ime_counter == 1)
            &&& (!c2.ime && c.ime ==> c.tcount == 0 && (begin_spec(c, b) matches Ok((p, _)) && p.op
                == Op::Di) && (c.procedure is None ==> bus_read_spec(b, c.regs.pc) == Ok::<u8, Fault>(
                0xF3)))
        },
{
    if c.tcount == 0 {
        if let Ok((p, c1)) = begin_spec(c, b) {
            lemma_complete_ime(p, c1, 0);
            if let Access::Read(a) = access_spec(p, c1) {
                if let Ok(v) = bus_read_spec(b, a) {
                    lemma_complete_ime(p, c1, v);
                }
            }
            if c.procedure is None {
                if let Ok(opcode) = bus_read_spec(b, latch_spec(c).regs.pc) {
                    lemma_decode_di(opcode);
                }
            }
        }
    }
}

/// The documented length in M-cycles of an instruction; a conditional one
/// depends on F, a CB-prefixed one on its second opcode byte `cb`.
pub open spec fn timing(op: Op, f: u8, cb: u8) -> int {
    match op {
        Op::Nop | Op::AccRot(_) | Op::Daa | Op::Cpl | Op::Scf | Op::Ccf | Op::JpHl | Op::Di | Op::Ei => 1,
        Op::LdRR(y, z) => if y == 6 || z == 6 { 2 } else { 1 },
        Op::AluR(_, z) => if z == 6 { 2 } else { 1 },
        Op::IncR(y) | Op::DecR(y) => if y == 6 { 3 } else { 1 },
        Op::LdRN(y) => if y == 6 { 3 } else { 2 },
        Op::AluN(_) | Op::LdIndA(_) | Op::LdAInd(_) | Op::IncRp(_) | Op::DecRp(_) | Op::AddHlRp(_)
        | Op::LdSpHl | Op::LdCA | Op::LdAC => 2,
        Op::LdRpNn(_) | Op::LdhNA | Op::LdhANn | Op::Pop(_) | Op::LdHlSpD | Op::Jr => 3,
        Op::LdNnA | Op::LdANn | Op::Push(_) | Op::Ret | Op::Jp | Op::Rst(_) | Op::AddSpD => 4,
        Op::LdNnSp => 5,
        Op::Call => 6,
        Op::JrCond(cc) => if cond_spec(f, cc) { 3 } else { 2 },
        Op::JpCond(cc) => if cond_spec(f, cc) { 4 } else { 3 },
        Op::CallCond(cc) => if cond_spec(f, cc) { 6 } else { 3 },
        Op::RetCond(cc) => if cond_spec(f, cc) { 5 } else { 2 },
        Op::Prefix => if cb % 8 != 6 { 2 } else if cb / 64 == 1 { 3 } else { 4 },
    }
}

/// The CB opcode of a prefixed instruction as known in M-cycle `p.mcycle`:
/// the byte being fetched in M-cycle 2, the stored one after.
pub open spec fn cb_byte(p: InstructionProcedure, v: u8) -> u8 {
    if p.mcycle == 2 { v } else { p.tmp0 }
}

/// An instruction retires in exactly its documented M-cycle: the work of
/// M-cycle m sets `done` if and only if m is the instruction's length.
/// With one M-cycle per four T-cycles, an instruction takes four times its
/// documented M-cycles in T-cycles.
pub proof fn lemma_retires_on_documented_cycle(p: InstructionProcedure, c: Cpu, v: u8)
    requires
        p.wf(),
        p.mcycle <= timing(p.op, c.regs.f, cb_byte(p, v)),
    ensures
        complete_spec(p, c, v).0.done <==> p.mcycle == timing(p.op, c.regs.f, cb_byte(p, v)),
{
    reveal(complete_spec);
}

/// Off the M-cycle boundary a T-cycle only moves the T-cycle counter, so
/// each M-cycle is four T-cycles.
pub proof fn lemma_mcycle_is_four_tcycles(c: Cpu, b: BusView)
    requires
        c.tcount == 0,
        tcycle_spec(c, b) is Ok,
    ensures
        ({
            let (c1, b1) = tcycle_spec(c, b)->Ok_0;
            &&& c1.tcount == 1
            &&& run_spec(c, b, 4) == Ok::<(Cpu, BusView), Fault>((Cpu { tcount: 0, ..c1 }, b1))
            &&& forall|k: nat| 1 <= k < 4 ==> (#[trigger] run_spec(c, b, k) matches Ok((ck, bk)) && ck
                == Cpu { tcount: k as u8, ..c1 } && bk == b1)
        }),
{
    reveal_with_fuel(run_spec, 5);
    let (c1, b1) = tcycle_spec(c, b)->Ok_0;
    assert(run_spec(c, b, 1) == run_spec(c1, b1, 0));
    assert(run_spec(c, b, 2) == run_spec(c1, b1, 1));
    assert(run_spec(c, b, 3) == run_spec(c1, b1, 2));
}

/// The instruction's length in bytes: the opcode (two bytes with the CB
/// prefix) and its immediate operands.
pub open spec fn length(op: Op) -> int {
    match op {
        Op::Prefix | Op::AluN(_) | Op::LdRN(_) | Op::Jr | Op::JrCond(_) | Op::LdhNA | Op::LdhANn
        | Op::AddSpD | Op::LdHlSpD => 2,
        Op::LdRpNn(_) | Op::LdNnSp | Op::LdNnA | Op::LdANn | Op::Jp | Op::JpCond(_) | Op::Call
        | Op::CallCond(_) => 3,
        _ => 1,
    }
}

pub open spec fn is_branch(op: Op) -> bool {
    match op {
        Op::Jr | Op::JrCond(_) | Op::Jp | Op::JpCond(_) | Op::JpHl | Op::Call | Op::CallCond(_)
        | Op::Ret | Op::RetCond(_) | Op::Rst(_) => true,
        _ => false,
    }
}

/// The bytes after the opcode are fetched at PC in M-cycles 2 up to the
/// instruction's length, each moving PC on by one; in its other M-cycles an
/// instruction that does not branch leaves PC alone. With the opcode fetch
/// at decode, such an instruction leaves PC at its start plus its length.
pub proof fn lemma_pc_advance(p: InstructionProcedure, c: Cpu, v: u8)
    requires
        p.wf(),
        p.mcycle <= timing(p.op, c.regs.f, cb_byte(p, v)),
    ensures
        2 <= p.mcycle <= length(p.op) ==> access_spec(p, c) == Access::Read(c.regs.pc)
            && complete_spec(p, c, v).1.regs.pc == inc16(c.regs.pc),
        !(2 <= p.mcycle <= length(p.op)) && !is_branch(p.op) ==> complete_spec(p, c, v).1.regs.pc
            == c.regs.pc,
{
    // One small proof per handful of instructions keeps each solver query small.
    if p.op is Nop || p.op is LdNnSp || p.op is Jr || p.op is JrCond {
        lemma_pc_advance_0(p, c, v);
    } else if p.op is LdRpNn || p.op is AddHlRp || p.op is LdIndA || p.op is LdAInd {
        if p.op is LdRpNn {
            lemma_pc_advance_1a(p, c, v);
        } else if p.op is AddHlRp {
            lemma_pc_advance_1b(p, c, v);
        } else if p.op is LdIndA {
            lemma_pc_advance_1c(p, c, v);
        } else if p.op is LdAInd {
            lemma_pc_advance_1d(p, c, v);
        }
    } else if p.op is IncRp || p.op is DecRp || p.op is IncR || p.op is DecR {
        lemma_pc_advance_2(p, c, v);
    } else if p.op is LdRN || p.op is AccRot || p.op is Daa || p.op is Cpl {
        lemma_pc_advance_3(p, c, v);
    } else if p.op is Scf || p.op is Ccf || p.op is LdRR || p.op is AluR {
        lemma_pc_advance_4(p, c, v);
    } else if p.op is AluN || p.op is RetCond || p.op is LdhNA || p.op is AddSpD {
        if p.op is AluN {
            lemma_pc_advance_5a(p, c, v);
        } else if p.op is RetCond {
            lemma_pc_advance_5b(p, c, v);
        } else if p.op is LdhNA {
            lemma_pc_advance_5c(p, c, v);
        } else if p.op is AddSpD {
            lemma_pc_advance_5d(p, c, v);
        }
    } else if p.op is LdhANn || p.op is LdHlSpD || p.op is Pop || p.op is Ret {
        lemma_pc_advance_6(p, c, v);
    } else if p.op is JpHl || p.op is LdSpHl || p.op is JpCond || p.op is LdCA {
        lemma_pc_advance_7(p, c, v);
    } else if p.op is LdNnA || p.op is LdAC || p.op is LdANn || p.op is Jp {
        lemma_pc_advance_8(p, c, v);
    } else if p.op is Di || p.op is Ei || p.op is CallCond || p.op is Push {
        lemma_pc_advance_9(p, c, v);
    } else if p.op is Call || p.op is Rst || p.op is Prefix {
        lemma_pc_advance_10(p, c, v);
    }
}

proof fn lemma_pc_advance_0(p: InstructionProcedure, c: Cpu, v: u8)
    requires
        p.wf(),
        p.mcycle <= timing(p.op, c.regs.f, cb_byte(p, v)),
        p.op is Nop || p.op is LdNnSp || p.op is Jr || p.op is JrCond,
    ensures
        2 <= p.mcycle <= length(p.op) ==> access_spec(p, c) == Access::Read(c.regs.pc)
            && complete_spec(p, c, v).1.regs.pc == inc16(c.regs.pc),
        !(2 <= p.mcycle <= length(p.op)) && !is_branch(p.op) ==> complete_spec(p, c, v).1.regs.pc
            == c.regs.pc,
{
    reveal(access_spec);
    reveal(complete_spec);
}

proof fn lemma_pc_advance_1a(p: InstructionProcedure, c: Cpu, v: u8)
    requires
        p.wf(),
        p.mcycle <= timing(p.op, c.regs.f, cb_byte(p, v)),
        p.op is LdRpNn,
    ensures
        2 <= p.mcycle <= length(p.op) ==> access_spec(p, c) == Access::Read(c.regs.pc)
            && complete_spec(p, c, v).1.regs.pc == inc16(c.regs.pc),
        !(2 <= p.mcycle <= length(p.op)) && !is_branch(p.op) ==> complete_spec(p, c, v).1.regs.pc
            == c.regs.pc,
{
    reveal(access_spec);
    reveal(complete_spec);
}

proof fn lemma_pc_advance_1b(p: InstructionProcedure, c: Cpu, v: u8)
    requires
        p.wf(),
        p.mcycle <= timing(p.op, c.regs.f, cb_byte(p, v)),
        p.op is AddHlRp,
    ensures
        2 <= p.mcycle <= length(p.op) ==> access_spec(p, c) == Access::Read(c.regs.pc)
            && complete_spec(p, c, v).1.regs.pc == inc16(c.regs.pc),
        !(2 <= p.mcycle <= length(p.op)) && !is_branch(p.op) ==> complete_spec(p, c, v).1.regs.pc
            == c.regs.pc,
{
    reveal(access_spec);
    reveal(complete_spec);
}

proof fn lemma_pc_advance_1c(p: InstructionProcedure, c: Cpu, v: u8)
    requires
        p.wf(),
        p.mcycle <= timing(p.op, c.regs.f, cb_byte(p, v)),
        p.op is LdIndA,
    ensures
        2 <= p.mcycle <= length(p.op) ==> access_spec(p, c) == Access::Read(c.regs.pc)
            && complete_spec(p, c, v).1.regs.pc == inc16(c.regs.pc),
        !(2 <= p.mcycle <= length(p.op)) && !is_branch(p.op) ==> complete_spec(p, c, v).1.regs.pc
            == c.regs.pc,
{
    reveal(access_spec);
    reveal(complete_spec);
}

proof fn lemma_pc_advance_1d(p: InstructionProcedure, c: Cpu, v: u8)
    requires
        p.wf(),
        p.mcycle <= timing(p.op, c.regs.f, cb_byte(p, v)),
        p.op is LdAInd,
    ensures
        2 <= p.mcycle <= length(p.op) ==> access_spec(p, c) == Access::Read(c.regs.pc)
            && complete_spec(p, c, v).1.regs.pc == inc16(c.regs.pc),
        !(2 <= p.mcycle <= length(p.op)) && !is_branch(p.op) ==> complete_spec(p, c, v).1.regs.pc
            == c.regs.pc,
{
    reveal(access_spec);
    reveal(complete_spec);
}


proof fn lemma_pc_advance_2(p: InstructionProcedure, c: Cpu, v: u8)
    requires
        p.wf(),
        p.mcycle <= timing(p.op, c.regs.f, cb_byte(p, v)),
        p.op is IncRp || p.op is DecRp || p.op is IncR || p.op is DecR,
    ensures
        2 <= p.mcycle <= length(p.op) ==> access_spec(p, c) == Access::Read(c.regs.pc)
            && complete_spec(p, c, v).1.regs.pc == inc16(c.regs.pc),
        !(2 <= p.mcycle <= length(p.op)) && !is_branch(p.op) ==> complete_spec(p, c, v).1.regs.pc
            == c.regs.pc,
{
    reveal(access_spec);
    reveal(complete_spec);
}

proof fn lemma_pc_advance_3(p: InstructionProcedure, c: Cpu, v: u8)
    requires
        p.wf(),
        p.mcycle <= timing(p.op, c.regs.f, cb_byte(p, v)),
        p.op is LdRN || p.op is AccRot || p.op is Daa || p.op is Cpl,
    ensures
        2 <= p.mcycle <= length(p.op) ==> access_spec(p, c) == Access::Read(c.regs.pc)
            && complete_spec(p, c, v).1.regs.pc == inc16(c.regs.pc),
        !(2 <= p.mcycle <= length(p.op)) && !is_branch(p.op) ==> complete_spec(p, c, v).1.regs.pc
            == c.regs.pc,
{
    reveal(access_spec);
    reveal(complete_spec);
}

proof fn lemma_pc_advance_4(p: InstructionProcedure, c: Cpu, v: u8)
    requires
        p.wf(),
        p.mcycle <= timing(p.op, c.regs.f, cb_byte(p, v)),
        p.op is Scf || p.op is Ccf || p.op is LdRR || p.op is AluR,
    ensures
        2 <= p.mcycle <= length(p.op) ==> access_spec(p, c) == Access::Read(c.regs.pc)
            && complete_spec(p, c, v).1.regs.pc == inc16(c.regs.pc),
        !(2 <= p.mcycle <= length(p.op)) && !is_branch(p.op) ==> complete_spec(p, c, v).1.regs.pc
            == c.regs.pc,
{
    reveal(access_spec);
    reveal(complete_spec);
}

proof fn lemma_pc_advance_5a(p: InstructionProcedure, c: Cpu, v: u8)
    requires
        p.wf(),
        p.mcycle <= timing(p.op, c.regs.f, cb_byte(p, v)),
        p.op is AluN,
    ensures
        2 <= p.mcycle <= length(p.op) ==> access_spec(p, c) == Access::Read(c.regs.pc)
            && complete_spec(p, c, v).1.regs.pc == inc16(c.regs.pc),
        !(2 <= p.mcycle <= length(p.op)) && !is_branch(p.op) ==> complete_spec(p, c, v).1.regs.pc
            == c.regs.pc,
{
    reveal(access_spec);
    reveal(complete_spec);
}

proof fn lemma_pc_advance_5b(p: InstructionProcedure, c: Cpu, v: u8)
    requires
        p.wf(),
        p.mcycle <= timing(p.op, c.regs.f, cb_byte(p, v)),
        p.op is RetCond,
    ensures
        2 <= p.mcycle <= length(p.op) ==> access_spec(p, c) == Access::Read(c.regs.pc)
            && complete_spec(p, c, v).1.regs.pc == inc16(c.regs.pc),
        !(2 <= p.mcycle <= length(p.op)) && !is_branch(p.op) ==> complete_spec(p, c, v).1.regs.pc
            == c.regs.pc,
{
    reveal(access_spec);
    reveal(complete_spec);
}

proof fn lemma_pc_advance_5c(p: InstructionProcedure, c: Cpu, v: u8)
    requires
        p.wf(),
        p.mcycle <= timing(p.op, c.regs.f, cb_byte(p, v)),
        p.op is LdhNA,
    ensures
        2 <= p.mcycle <= length(p.op) ==> access_spec(p, c) == Access::Read(c.regs.pc)
            && complete_spec(p, c, v).1.regs.pc == inc16(c.regs.pc),
        !(2 <= p.mcycle <= length(p.op)) && !is_branch(p.op) ==> complete_spec(p, c, v).1.regs.pc
            == c.regs.pc,
{
    reveal(access_spec);
    reveal(complete_spec);
}

proof fn lemma_pc_advance_5d(p: InstructionProcedure, c: Cpu, v: u8)
    requires
        p.wf(),
        p.mcycle <= timing(p.op, c.regs.f, cb_byte(p, v)),
        p.op is AddSpD,
    ensures
        2 <= p.mcycle <= length(p.op) ==> access_spec(p, c) == Access::Read(c.regs.pc)
            && complete_spec(p, c, v).1.regs.pc == inc16(c.regs.pc),
        !(2 <= p.mcycle <= length(p.op)) && !is_branch(p.op) ==> complete_spec(p, c, v).1.regs.pc
            == c.regs.pc,
{
    reveal(access_spec);
    reveal(complete_spec);
}


proof fn lemma_pc_advance_6(p: InstructionProcedure, c: Cpu, v: u8)
    requires
        p.wf(),
        p.mcycle <= timing(p.op, c.regs.f, cb_byte(p, v)),
        p.op is LdhANn || p.op is LdHlSpD || p.op is Pop || p.op is Ret,
    ensures
        2 <= p.mcycle <= length(p.op) ==> access_spec(p, c) == Access::Read(c.regs.pc)
            && complete_spec(p, c, v).1.regs.pc == inc16(c.regs.pc),
        !(2 <= p.mcycle <= length(p.op)) && !is_branch(p.op) ==> complete_spec(p, c, v).1.regs.pc
            == c.regs.pc,
{
    reveal(access_spec);
    reveal(complete_spec);
}

proof fn lemma_pc_advance_7(p: InstructionProcedure, c: Cpu, v: u8)
    requires
        p.wf(),
        p.mcycle <= timing(p.op, c.regs.f, cb_byte(p, v)),
        p.op is JpHl || p.op is LdSpHl || p.op is JpCond || p.op is LdCA,
    ensures
        2 <= p.mcycle <= length(p.op) ==> access_spec(p, c) == Access::Read(c.regs.pc)
            && complete_spec(p, c, v).1.regs.pc == inc16(c.regs.pc),
        !(2 <= p.mcycle <= length(p.op)) && !is_branch(p.op) ==> complete_spec(p, c, v).1.regs.pc
            == c.regs.pc,
{
    reveal(access_spec);
    reveal(complete_spec);
}

proof fn lemma_pc_advance_8(p: InstructionProcedure, c: Cpu, v: u8)
    requires
        p.wf(),
        p.mcycle <= timing(p.op, c.regs.f, cb_byte(p, v)),
        p.op is LdNnA || p.op is LdAC || p.op is LdANn || p.op is Jp,
    ensures
        2 <= p.mcycle <= length(p.op) ==> access_spec(p, c) == Access::Read(c.regs.pc)
            && complete_spec(p, c, v).1.regs.pc == inc16(c.regs.pc),
        !(2 <= p.mcycle <= length(p.op)) && !is_branch(p.op) ==> complete_spec(p, c, v).1.regs.pc
            == c.regs.pc,
{
    reveal(access_spec);
    reveal(complete_spec);
}

proof fn lemma_pc_advance_9(p: InstructionProcedure, c: Cpu, v: u8)
    requires
        p.wf(),
        p.mcycle <= timing(p.op, c.regs.f, cb_byte(p, v)),
        p.op is Di || p.op is Ei || p.op is CallCond || p.op is Push,
    ensures
        2 <= p.mcycle <= length(p.op) ==> access_spec(p, c) == Access::Read(c.regs.pc)
            && complete_spec(p, c, v).1.regs.pc == inc16(c.regs.pc),
        !(2 <= p.mcycle <= length(p.op)) && !is_branch(p.op) ==> complete_spec(p, c, v).1.regs.pc
            == c.regs.pc,
{
    reveal(access_spec);
    reveal(complete_spec);
}

proof fn lemma_pc_advance_10(p: InstructionProcedure, c: Cpu, v: u8)
    requires
        p.wf(),
        p.mcycle <= timing(p.op, c.regs.f, cb_byte(p, v)),
        p.op is Call || p.op is Rst || p.op is Prefix,
    ensures
        2 <= p.mcycle <= length(p.op) ==> access_spec(p, c) == Access::Read(c.regs.pc)
            && complete_spec(p, c, v).1.regs.pc == inc16(c.regs.pc),
        !(2 <= p.mcycle <= length(p.op)) && !is_branch(p.op) ==> complete_spec(p, c, v).1.regs.pc
            == c.regs.pc,
{
    reveal(access_spec);
    reveal(complete_spec);
}

/// The work of an M-cycle keeps what an instruction's length depends on: a
/// conditional instruction leaves F alone, and a prefixed one keeps PC at
/// its second byte until fetching it, then keeps that byte in `tmp0`.
pub proof fn lemma_complete_keeps_timing(p: InstructionProcedure, c: Cpu, v: u8)
    requires
        p.wf(),
    ensures
        (p.op is JrCond || p.op is JpCond || p.op is CallCond || p.op is RetCond)
            ==> complete_spec(p, c, v).1.regs.f == c.regs.f,
        p.op is Prefix && p.mcycle == 1 ==> complete_spec(p, c, v).1.regs.pc == c.regs.pc,
        p.op is Prefix && p.mcycle == 2 ==> complete_spec(p, c, v).0.tmp0 == v,
        p.op is Prefix && p.mcycle >= 3 ==> complete_spec(p, c, v).0.tmp0 == p.tmp0,
        p.op is Prefix && p.mcycle == 1 ==> access_spec(p, c) == Access::Idle,
{
    if p.op is JrCond || p.op is JpCond {
        lemma_keeps_timing_jumps(p, c, v);
    } else if p.op is CallCond || p.op is RetCond {
        lemma_keeps_timing_calls(p, c, v);
    } else if p.op is Prefix {
        lemma_keeps_timing_prefix(p, c, v);
    }
}

proof fn lemma_keeps_timing_jumps(p: InstructionProcedure, c: Cpu, v: u8)
    requires
        p.wf(),
        p.op is JrCond || p.op is JpCond,
    ensures
        complete_spec(p, c, v).1.regs.f == c.regs.f,
{
    reveal(complete_spec);
}

proof fn lemma_keeps_timing_calls(p: InstructionProcedure, c: Cpu, v: u8)
    requires
        p.wf(),
        p.op is CallCond || p.op is RetCond,
    ensures
        complete_spec(p, c, v).1.regs.f == c.regs.f,
{
    reveal(complete_spec);
}

proof fn lemma_keeps_timing_prefix(p: InstructionProcedure, c: Cpu, v: u8)
    requires
        p.wf(),
        p.op is Prefix,
    ensures
        p.mcycle == 1 ==> complete_spec(p, c, v).1.regs.pc == c.regs.pc,
        p.mcycle == 2 ==> complete_spec(p, c, v).0.tmp0 == v,
        p.mcycle >= 3 ==> complete_spec(p, c, v).0.tmp0 == p.tmp0,
        p.mcycle == 1 ==> access_spec(p, c) == Access::Idle,
{
    reveal(complete_spec);
    reveal(access_spec);
}

/// The M-cycle by whose end an instruction has written scratch byte
/// `tmp0`: it reads the byte only after. 7 for an instruction that never
/// reads it.
pub open spec fn tmp0_written(op: Op) -> int {
    match op {
        Op::LdNnSp | Op::Jr | Op::JrCond(_) | Op::IncR(_) | Op::DecR(_) | Op::LdRN(_) | Op::LdhNA
        | Op::LdhANn | Op::AddSpD | Op::LdHlSpD | Op::Ret | Op::JpCond(_) | Op::LdNnA | Op::LdANn
        | Op::Jp | Op::CallCond(_) | Op::Call | Op::Prefix => 2,
        Op::RetCond(_) => 3,
        _ => 7,
    }
}

/// The same for scratch byte `tmp1`.
pub open spec fn tmp1_written(op: Op) -> int {
    match op {
        Op::LdNnSp | Op::Ret | Op::JpCond(_) | Op::LdNnA | Op::LdANn | Op::Jp | Op::CallCond(_)
        | Op::Call | Op::Prefix => 3,
        Op::RetCond(_) => 4,
        _ => 7,
    }
}

/// Two procedures at the same point of the same instruction whose scratch
/// bytes may differ only where the instruction has not written them yet.
pub open spec fn scratch_agree(p: InstructionProcedure, q: InstructionProcedure) -> bool {
    &&& p.op == q.op
    &&& p.mcycle == q.mcycle
    &&& p.done == q.done
    &&& (p.done || p.tmp0 == q.tmp0 || p.mcycle <= tmp0_written(p.op))
    &&& (p.done || p.tmp1 == q.tmp1 || p.mcycle <= tmp1_written(p.op))
}

/// Scratch bytes are don't-care until written: two procedures that agree
/// but for scratch bytes not yet written make the same bus transaction and
/// leave the same processor state in their M-cycle, and still agree after
/// it. So what an earlier instruction left in the scratch bytes never
/// matters, and they need not be reset.
pub proof fn lemma_scratch_dont_care(p: InstructionProcedure, q: InstructionProcedure, c: Cpu, v: u8)
    requires
        p.wf(),
        scratch_agree(p, q),
    ensures
        access_spec(p, c) == access_spec(q, c),
        complete_spec(p, c, v).1 == complete_spec(q, c, v).1,
        scratch_agree(complete_spec(p, c, v).0, complete_spec(q, c, v).0),
{
    // One small proof per handful of instructions keeps each solver query small.
    if p.op is Nop || p.op is LdNnSp || p.op is Jr || p.op is JrCond {
        lemma_scratch_dont_care_0(p, q, c, v);
    } else if p.op is LdRpNn || p.op is AddHlRp || p.op is LdIndA || p.op is LdAInd {
        lemma_scratch_dont_care_1(p, q, c, v);
    } else if p.op is IncRp || p.op is DecRp || p.op is IncR || p.op is DecR {
        lemma_scratch_dont_care_2(p, q, c, v);
    } else if p.op is LdRN || p.op is AccRot || p.op is Daa || p.op is Cpl {
        lemma_scratch_dont_care_3(p, q, c, v);
    } else if p.op is Scf || p.op is Ccf || p.op is LdRR || p.op is AluR {
        lemma_scratch_dont_care_4(p, q, c, v);
    } else if p.op is AluN || p.op is RetCond || p.op is LdhNA || p.op is AddSpD {
        lemma_scratch_dont_care_5(p, q, c, v);
    } else if p.op is LdhANn || p.op is LdHlSpD || p.op is Pop || p.op is Ret {
        lemma_scratch_dont_care_6(p, q, c, v);
    } else if p.op is JpHl || p.op is LdSpHl || p.op is JpCond || p.op is LdCA {
        lemma_scratch_dont_care_7(p, q, c, v);
    } else if p.op is LdNnA || p.op is LdAC || p.op is LdANn || p.op is Jp {
        lemma_scratch_dont_care_8(p, q, c, v);
    } else if p.op is Di || p.op is Ei || p.op is CallCond || p.op is Push {
        lemma_scratch_dont_care_9(p, q, c, v);
    } else if p.op is Call || p.op is Rst || p.op is Prefix {
        lemma_scratch_dont_care_10(p, q, c, v);
    }
}

proof fn lemma_scratch_dont_care_0(p: InstructionProcedure, q: InstructionProcedure, c: Cpu, v: u8)
    requires
        p.wf(),
        scratch_agree(p, q),
        p.op is Nop || p.op is LdNnSp || p.op is Jr || p.op is JrCond,
    ensures
        access_spec(p, c) == access_spec(q, c),
        complete_spec(p, c, v).1 == complete_spec(q, c, v).1,
        scratch_agree(complete_spec(p, c, v).0, complete_spec(q, c, v).0),
{
    reveal(access_spec);
    reveal(complete_spec);
}

proof fn lemma_scratch_dont_care_1(p: InstructionProcedure, q: InstructionProcedure, c: Cpu, v: u8)
    requires
        p.wf(),
        scratch_agree(p, q),
        p.op is LdRpNn || p.op is AddHlRp || p.op is LdIndA || p.op is LdAInd,
    ensures
        access_spec(p, c) == access_spec(q, c),
        complete_spec(p, c, v).1 == complete_spec(q, c, v).1,
        scratch_agree(complete_spec(p, c, v).0, complete_spec(q, c, v).0),
{
    reveal(access_spec);
    reveal(complete_spec);
}

proof fn lemma_scratch_dont_care_2(p: InstructionProcedure, q: InstructionProcedure, c: Cpu, v: u8)
    requires
        p.wf(),
        scratch_agree(p, q),
        p.op is IncRp || p.op is DecRp || p.op is IncR || p.op is DecR,
    ensures
        access_spec(p, c) == access_spec(q, c),
        complete_spec(p, c, v).1 == complete_spec(q, c, v).1,
        scratch_agree(complete_spec(p, c, v).0, complete_spec(q, c, v).0),
{
    reveal(access_spec);
    reveal(complete_spec);
}

proof fn lemma_scratch_dont_care_3(p: InstructionProcedure, q: InstructionProcedure, c: Cpu, v: u8)
    requires
        p.wf(),
        scratch_agree(p, q),
        p.op is LdRN || p.op is AccRot || p.op is Daa || p.op is Cpl,
    ensures
        access_spec(p, c) == access_spec(q, c),
        complete_spec(p, c, v).1 == complete_spec(q, c, v).1,
        scratch_agree(complete_spec(p, c, v).0, complete_spec(q, c, v).0),
{
    reveal(access_spec);
    reveal(complete_spec);
}

proof fn lemma_scratch_dont_care_4(p: InstructionProcedure, q: InstructionProcedure, c: Cpu, v: u8)
    requires
        p.wf(),
        scratch_agree(p, q),
        p.op is Scf || p.op is Ccf || p.op is LdRR || p.op is AluR,
    ensures
        access_spec(p, c) == access_spec(q, c),
        complete_spec(p, c, v).1 == complete_spec(q, c, v).1,
        scratch_agree(complete_spec(p, c, v).0, complete_spec(q, c, v).0),
{
    reveal(access_spec);
    reveal(complete_spec);
}

proof fn lemma_scratch_dont_care_5(p: InstructionProcedure, q: InstructionProcedure, c: Cpu, v: u8)
    requires
        p.wf(),
        scratch_agree(p, q),
        p.op is AluN || p.op is RetCond || p.op is LdhNA || p.op is AddSpD,
    ensures
        access_spec(p, c) == access_spec(q, c),
        complete_spec(p, c, v).1 == complete_spec(q, c, v).1,
        scratch_agree(complete_spec(p, c, v).0, complete_spec(q, c, v).0),
{
    reveal(access_spec);
    reveal(complete_spec);
}

proof fn lemma_scratch_dont_care_6(p: InstructionProcedure, q: InstructionProcedure, c: Cpu, v: u8)
    requires
        p.wf(),
        scratch_agree(p, q),
        p.op is LdhANn || p.op is LdHlSpD || p.op is Pop || p.op is Ret,
    ensures
        access_spec(p, c) == access_spec(q, c),
        complete_spec(p, c, v).1 == complete_spec(q, c, v).1,
        scratch_agree(complete_spec(p, c, v).0, complete_spec(q, c, v).0),
{
    reveal(access_spec);
    reveal(complete_spec);
}

proof fn lemma_scratch_dont_care_7(p: InstructionProcedure, q: InstructionProcedure, c: Cpu, v: u8)
    requires
        p.wf(),
        scratch_agree(p, q),
        p.op is JpHl || p.op is LdSpHl || p.op is JpCond || p.op is LdCA,
    ensures
        access_spec(p, c) == access_spec(q, c),
        complete_spec(p, c, v).1 == complete_spec(q, c, v).1,
        scratch_agree(complete_spec(p, c, v).0, complete_spec(q, c, v).0),
{
    reveal(access_spec);
    reveal(complete_spec);
}

proof fn lemma_scratch_dont_care_8(p: InstructionProcedure, q: InstructionProcedure, c: Cpu, v: u8)
    requires
        p.wf(),
        scratch_agree(p, q),
        p.op is LdNnA || p.op is LdAC || p.op is LdANn || p.op is Jp,
    ensures
        access_spec(p, c) == access_spec(q, c),
        complete_spec(p, c, v).1 == complete_spec(q, c, v).1,
        scratch_agree(complete_spec(p, c, v).0, complete_spec(q, c, v).0),
{
    reveal(access_spec);
    reveal(complete_spec);
}

proof fn lemma_scratch_dont_care_9(p: InstructionProcedure, q: InstructionProcedure, c: Cpu, v: u8)
    requires
        p.wf(),
        scratch_agree(p, q),
        p.op is Di || p.op is Ei || p.op is CallCond || p.op is Push,
    ensures
        access_spec(p, c) == access_spec(q, c),
        complete_spec(p, c, v).1 == complete_spec(q, c, v).1,
        scratch_agree(complete_spec(p, c, v).0, complete_spec(q, c, v).0),
{
    reveal(access_spec);
    reveal(complete_spec);
}

proof fn lemma_scratch_dont_care_10(p: InstructionProcedure, q: InstructionProcedure, c: Cpu, v: u8)
    requires
        p.wf(),
        scratch_agree(p, q),
        p.op is Call || p.op is Rst || p.op is Prefix,
    ensures
        access_spec(p, c) == access_spec(q, c),
        complete_spec(p, c, v).1 == complete_spec(q, c, v).1,
        scratch_agree(complete_spec(p, c, v).0, complete_spec(q, c, v).0),
{
    reveal(access_spec);
    reveal(complete_spec);
}

} // verus!
