use vstd::prelude::*;
use crate::arch::{BusView, Fault, bus_read_spec, bus_write_spec, is_ram, lemma_ram_write, ram_slot, run_spec};
use crate::arch::cpu::{
    Access, Cpu, InstructionProcedure, access_spec, begin_spec, cb_byte, complete_spec, is_branch, latch_spec,
    length, lemma_complete_ime, lemma_complete_keeps_timing, lemma_complete_wf, lemma_mcycle_is_four_tcycles, lemma_pc_advance,
    lemma_retires_on_documented_cycle, lemma_write_wf, next_mcycle, pc_inc, step_spec, tcycle_spec, timing,
    with_regs,
};
use crate::arch::decode::{Op, decode_spec, lemma_decode_wf};
use crate::arch::alu::{
    alu_spec, cb_rot_spec, flag_c, flags_spec, lemma_cp_is_sub_without_store, lemma_flags_read, lemma_logic_ops,
    lemma_rotation_cycles, rot_iter, rot_spec,
};
use crate::arch::regs::{
    Regs, r8_spec, set_r8_spec, dec16, hi_byte, inc16, lemma_inc_dec16, lemma_pair_bytes, lemma_set_rp2_same, lo_byte, pair, rp2_spec,
    set_rp2_spec,
};

verus! {

/// One M-cycle from a boundary: a T-cycle that steps the instruction, with
/// the T-cycle counter back at zero after the three quiet T-cycles.
pub open spec fn mstep_spec(c: Cpu, b: BusView) -> Result<(Cpu, BusView), Fault> {
    match tcycle_spec(c, b) {
        Ok((c1, b1)) => Ok((Cpu { tcount: 0, ..c1 }, b1)),
        Err(e) => Err(e),
    }
}

/// Running n + m T-cycles is running n, then m.
pub proof fn lemma_run_split(c: Cpu, b: BusView, n: nat, m: nat)
    ensures
        run_spec(c, b, n + m) == match run_spec(c, b, n) {
            Ok((c1, b1)) => run_spec(c1, b1, m),
            Err(e) => Err(e),
        },
    decreases n,
{
    if n > 0 {
        assert(run_spec(c, b, n + m) == match tcycle_spec(c, b) {
            Ok((c1, b1)) => run_spec(c1, b1, (n + m - 1) as nat),
            Err(e) => Err(e),
        });
        if let Ok((c1, b1)) = tcycle_spec(c, b) {
            lemma_run_split(c1, b1, (n - 1) as nat, m);
            assert((n - 1) as nat + m == (n + m - 1) as nat);
        }
    }
}

/// Four T-cycles from the M-cycle boundary are one M-cycle.
pub proof fn lemma_mstep(c: Cpu, b: BusView)
    requires
        c.tcount == 0,
    ensures
        run_spec(c, b, 4) == mstep_spec(c, b),
{
    if tcycle_spec(c, b) is Ok {
        lemma_mcycle_is_four_tcycles(c, b);
    } else {
        assert(run_spec(c, b, 4) == mstep_spec(c, b));
    }
}

/// The state at an instruction boundary.
pub open spec fn at_boundary(c: Cpu) -> bool {
    c.tcount == 0 && c.procedure is None
}

proof fn lemma_decode_push_pop(q: u8)
    requires
        q < 4,
    ensures
        decode_spec((0xC5 + 16 * q) as u8) == Ok::<Op, Fault>(Op::Push(q)),
        decode_spec((0xC1 + 16 * q) as u8) == Ok::<Op, Fault>(Op::Pop(q)),
{
}

/// The M-cycles of PUSH: two quiet ones, then the two stack writes.
proof fn lemma_push_cycle(p: InstructionProcedure, c: Cpu, v: u8)
    requires
        p.op matches Op::Push(q) && q < 4,
        1 <= p.mcycle <= 4,
    ensures
        ({
            let q = p.op->Push_0;
            let r = c.regs;
            &&& access_spec(p, c) == if p.mcycle == 3 {
                Access::Write(dec16(r.sp), hi_byte(rp2_spec(r, q)))
            } else if p.mcycle == 4 {
                Access::Write(dec16(r.sp), lo_byte(rp2_spec(r, q)))
            } else {
                Access::Idle
            }
            &&& complete_spec(p, c, v) == if p.mcycle <= 2 {
                (p, c)
            } else if p.mcycle == 3 {
                (p, with_regs(c, Regs { sp: dec16(r.sp), ..r }))
            } else {
                (InstructionProcedure { done: true, ..p }, with_regs(c, Regs { sp: dec16(r.sp), ..r }))
            }
        }),
{
    reveal(access_spec);
    reveal(complete_spec);
}

/// PUSH rp2[q] from a boundary: four M-cycles that write the pair's high
/// byte below SP and its low byte below that, and leave SP two lower.
pub proof fn lemma_push(c: Cpu, b: BusView, q: u8)
    requires
        c.wf(),
        b.wf(),
        at_boundary(c),
        q < 4,
        bus_read_spec(b, c.regs.pc) == Ok::<u8, Fault>((0xC5 + 16 * q) as u8),
        is_ram(dec16(c.regs.sp)),
        is_ram(dec16(dec16(c.regs.sp))),
    ensures
        run_spec(c, b, 16) matches Ok((c2, b2)) && {
            &&& at_boundary(c2)
            &&& c2.regs == (Regs { sp: dec16(dec16(c.regs.sp)), pc: inc16(c.regs.pc), ..c.regs })
            &&& c2.ime == latch_spec(c).ime
            &&& c2.ime_pending == latch_spec(c).ime_pending
            &&& c2.ime_counter == latch_spec(c).ime_counter
            &&& b2.wf()
            &&& b2.mem.wbank == b.mem.wbank
            &&& bus_read_spec(b2, dec16(c.regs.sp)) == Ok::<u8, Fault>(hi_byte(rp2_spec(c.regs, q)))
            &&& bus_read_spec(b2, dec16(dec16(c.regs.sp))) == Ok::<u8, Fault>(lo_byte(rp2_spec(c.regs, q)))
            &&& forall|a: u16| #![trigger bus_read_spec(b2, a)]
                !(is_ram(a) && (ram_slot(b, a) == ram_slot(b, dec16(c.regs.sp)) || ram_slot(b, a)
                    == ram_slot(b, dec16(dec16(c.regs.sp))))) ==> bus_read_spec(b2, a) == bus_read_spec(b, a)
        },
{
    lemma_decode_push_pop(q);
    let r = c.regs;
    let hi = hi_byte(rp2_spec(r, q));
    let lo = lo_byte(rp2_spec(r, q));
    let s1 = dec16(r.sp);
    let s2 = dec16(s1);
    let c1 = latch_spec(c);
    let ca = with_regs(c1, pc_inc(c1.regs));
    let p1 = InstructionProcedure { done: false, op: Op::Push(q), mcycle: 1, tmp0: 0, tmp1: 0 };
    // M-cycle 1: fetch and decode.
    assert(begin_spec(c, b) == Ok::<(InstructionProcedure, Cpu), Fault>((p1, ca)));
    let p2 = next_mcycle(p1);
    lemma_push_cycle(p1, ca, 0);
    assert(step_spec(p1, ca, b) == Ok::<(InstructionProcedure, Cpu, BusView), Fault>((p2, ca, b)));
    let k1 = Cpu { procedure: Some(p2), tcount: 0, ..ca };
    lemma_mstep(c, b);
    assert(run_spec(c, b, 4) == Ok::<(Cpu, BusView), Fault>((k1, b)));
    // M-cycle 2: internal delay.
    let p3 = next_mcycle(p2);
    lemma_push_cycle(p2, k1, 0);
    assert(step_spec(p2, k1, b) == Ok::<(InstructionProcedure, Cpu, BusView), Fault>((p3, k1, b)));
    let k2 = Cpu { procedure: Some(p3), tcount: 0, ..k1 };
    lemma_mstep(k1, b);
    assert(run_spec(k1, b, 4) == Ok::<(Cpu, BusView), Fault>((k2, b)));
    // M-cycle 3: write the high byte.
    lemma_ram_write(b, s1, hi);
    let b3 = bus_write_spec(b, s1, hi)->Ok_0;
    let p4 = next_mcycle(p3);
    let k3r = Regs { sp: s1, ..k2.regs };
    lemma_push_cycle(p3, k2, 0);
    assert(step_spec(p3, k2, b) == Ok::<(InstructionProcedure, Cpu, BusView), Fault>((p4, with_regs(k2, k3r), b3)));
    let k3 = Cpu { procedure: Some(p4), tcount: 0, regs: k3r, ..k2 };
    lemma_mstep(k2, b);
    assert(run_spec(k2, b, 4) == Ok::<(Cpu, BusView), Fault>((k3, b3)));
    // M-cycle 4: write the low byte.
    lemma_ram_write(b3, s2, lo);
    let b4 = bus_write_spec(b3, s2, lo)->Ok_0;
    let k4r = Regs { sp: s2, ..k3r };
    assert(rp2_spec(k3r, q) == rp2_spec(r, q));
    lemma_push_cycle(p4, k3, 0);
    let p5 = next_mcycle(InstructionProcedure { done: true, ..p4 });
    assert(step_spec(p4, k3, b3) == Ok::<(InstructionProcedure, Cpu, BusView), Fault>((p5, with_regs(k3, k4r), b4)));
    let k4 = Cpu { procedure: None, tcount: 0, regs: k4r, ..k3 };
    lemma_mstep(k3, b3);
    assert(run_spec(k3, b3, 4) == Ok::<(Cpu, BusView), Fault>((k4, b4)));
    lemma_run_split(c, b, 4, 12);
    lemma_run_split(k1, b, 4, 8);
    lemma_run_split(k2, b, 4, 4);
    assert(run_spec(k4, b4, 0) == Ok::<(Cpu, BusView), Fault>((k4, b4)));
    assert(ram_slot(b3, s2) == ram_slot(b, s2));
    assert(ram_slot(b, s1) != ram_slot(b, s2));
}

/// The M-cycles of POP: a quiet one, then the low byte from SP and the high
/// byte from SP + 1.
proof fn lemma_pop_cycle(p: InstructionProcedure, c: Cpu, v: u8)
    requires
        p.op matches Op::Pop(q) && q < 4,
        1 <= p.mcycle <= 3,
    ensures
        ({
            let q = p.op->Pop_0;
            let r = c.regs;
            let r2 = Regs { sp: inc16(r.sp), ..r };
            &&& access_spec(p, c) == if p.mcycle == 1 { Access::Idle } else { Access::Read(r.sp) }
            &&& complete_spec(p, c, v) == if p.mcycle == 1 {
                (p, c)
            } else if p.mcycle == 2 {
                (p, with_regs(c, set_rp2_spec(r2, q, pair(hi_byte(rp2_spec(r, q)), v))))
            } else {
                (InstructionProcedure { done: true, ..p }, with_regs(c, set_rp2_spec(r2, q, pair(v, lo_byte(rp2_spec(r, q))))))
            }
        }),
{
    reveal(access_spec);
    reveal(complete_spec);
}

/// POP rp2[q] from a boundary: three M-cycles that load the pair from the
/// two bytes at SP (F keeps only its high nibble) and leave SP two higher.
pub proof fn lemma_pop(c: Cpu, b: BusView, q: u8)
    requires
        c.wf(),
        b.wf(),
        at_boundary(c),
        q < 4,
        bus_read_spec(b, c.regs.pc) == Ok::<u8, Fault>((0xC1 + 16 * q) as u8),
        bus_read_spec(b, c.regs.sp) is Ok,
        bus_read_spec(b, inc16(c.regs.sp)) is Ok,
    ensures
        run_spec(c, b, 12) matches Ok((c2, b2)) && {
            let lo = bus_read_spec(b, c.regs.sp)->Ok_0;
            let hi = bus_read_spec(b, inc16(c.regs.sp))->Ok_0;
            &&& at_boundary(c2)
            &&& c2.regs == set_rp2_spec(
                Regs { sp: inc16(inc16(c.regs.sp)), pc: inc16(c.regs.pc), ..c.regs },
                q,
                pair(hi, lo),
            )
            &&& c2.ime == latch_spec(c).ime
            &&& c2.ime_pending == latch_spec(c).ime_pending
            &&& c2.ime_counter == latch_spec(c).ime_counter
            &&& b2 == b
        },
{
    lemma_decode_push_pop(q);
    let r = c.regs;
    let lo = bus_read_spec(b, r.sp)->Ok_0;
    let hi = bus_read_spec(b, inc16(r.sp))->Ok_0;
    let c1 = latch_spec(c);
    let ca = with_regs(c1, pc_inc(c1.regs));
    let p1 = InstructionProcedure { done: false, op: Op::Pop(q), mcycle: 1, tmp0: 0, tmp1: 0 };
    assert(begin_spec(c, b) == Ok::<(InstructionProcedure, Cpu), Fault>((p1, ca)));
    let p2 = next_mcycle(p1);
    lemma_pop_cycle(p1, ca, 0);
    assert(step_spec(p1, ca, b) == Ok::<(InstructionProcedure, Cpu, BusView), Fault>((p2, ca, b)));
    let k1 = Cpu { procedure: Some(p2), tcount: 0, ..ca };
    lemma_mstep(c, b);
    // M-cycle 2: the low byte.
    let ra = k1.regs;
    let r2 = set_rp2_spec(Regs { sp: inc16(ra.sp), ..ra }, q, pair(hi_byte(rp2_spec(ra, q)), lo));
    lemma_pop_cycle(p2, k1, lo);
    let p3 = next_mcycle(p2);
    assert(step_spec(p2, k1, b) == Ok::<(InstructionProcedure, Cpu, BusView), Fault>((p3, with_regs(k1, r2), b)));
    let k2 = Cpu { procedure: Some(p3), tcount: 0, regs: r2, ..k1 };
    lemma_mstep(k1, b);
    // M-cycle 3: the high byte.
    assert(r2.sp == inc16(r.sp));
    let r3 = set_rp2_spec(Regs { sp: inc16(r2.sp), ..r2 }, q, pair(hi, lo_byte(rp2_spec(r2, q))));
    lemma_pop_cycle(p3, k2, hi);
    let p4 = next_mcycle(InstructionProcedure { done: true, ..p3 });
    assert(step_spec(p3, k2, b) == Ok::<(InstructionProcedure, Cpu, BusView), Fault>((p4, with_regs(k2, r3), b)));
    let k3 = Cpu { procedure: None, tcount: 0, regs: r3, ..k2 };
    lemma_mstep(k2, b);
    lemma_run_split(c, b, 4, 8);
    lemma_run_split(k1, b, 4, 4);
    assert(run_spec(k3, b, 0) == Ok::<(Cpu, BusView), Fault>((k3, b)));
    // The registers: the two byte writes make the pair.
    lemma_pair_bytes(hi, lo, rp2_spec(ra, q));
    lemma_pair_bytes(hi_byte(rp2_spec(ra, q)), lo, 0);
    lemma_pair_bytes(r.a, r.f, 0);
    lemma_pair_bytes(r.b, r.c, 0);
    lemma_pair_bytes(r.d, r.e, 0);
    lemma_pair_bytes(r.h, r.l, 0);
    lemma_pair_bytes(hi_byte(rp2_spec(ra, q)), (lo / 16 * 16) as u8, 0);
    lemma_pair_bytes(hi, (lo / 16 * 16) as u8, 0);
    assert(r3 == set_rp2_spec(Regs { sp: inc16(inc16(r.sp)), pc: inc16(r.pc), ..r }, q, pair(hi, lo)));
}

/// PUSH rp2[q] followed at once by POP rp2[q] gives back every register,
/// the pushed pair and SP included (F's low nibble is always zero, so AF
/// comes back whole too), with PC past the two instructions. The stack
/// bytes must be RAM, and the POP opcode must not be one of them.
pub proof fn lemma_push_then_pop(c: Cpu, b: BusView, q: u8)
    requires
        c.wf(),
        b.wf(),
        at_boundary(c),
        q < 4,
        bus_read_spec(b, c.regs.pc) == Ok::<u8, Fault>((0xC5 + 16 * q) as u8),
        bus_read_spec(b, inc16(c.regs.pc)) == Ok::<u8, Fault>((0xC1 + 16 * q) as u8),
        is_ram(dec16(c.regs.sp)),
        is_ram(dec16(dec16(c.regs.sp))),
        !(is_ram(inc16(c.regs.pc)) && (ram_slot(b, inc16(c.regs.pc)) == ram_slot(b, dec16(c.regs.sp))
            || ram_slot(b, inc16(c.regs.pc)) == ram_slot(b, dec16(dec16(c.regs.sp))))),
    ensures
        run_spec(c, b, 28) matches Ok((c2, b2)) && at_boundary(c2) && c2.regs == (Regs {
            pc: inc16(inc16(c.regs.pc)),
            ..c.regs
        }),
{
    let r = c.regs;
    lemma_push(c, b, q);
    let (c1, b1) = run_spec(c, b, 16)->Ok_0;
    assert(c1.wf());
    lemma_inc_dec16(dec16(r.sp));
    lemma_inc_dec16(r.sp);
    lemma_pop(c1, b1, q);
    let (c2, b2) = run_spec(c1, b1, 12)->Ok_0;
    lemma_run_split(c, b, 16, 12);
    lemma_pair_bytes(0, 0, rp2_spec(r, q));
    let rr = Regs { pc: inc16(inc16(r.pc)), ..r };
    assert(rp2_spec(rr, q) == rp2_spec(r, q));
    lemma_set_rp2_same(rr, q);
    assert(c2.regs == set_rp2_spec(rr, q, rp2_spec(rr, q)));
}

/// `w + k` wrapping at 16 bits.
pub open spec fn add16w(w: u16, k: int) -> u16 {
    ((w + k) % 65536) as u16
}

/// The CB opcode that a prefixed instruction runs: until it is fetched, the
/// byte at PC; after, the stored one.
pub open spec fn cb_of(p: InstructionProcedure, c1: Cpu, b: BusView) -> u8 {
    if p.mcycle <= 2 {
        match bus_read_spec(b, c1.regs.pc) {
            Ok(v) => v,
            Err(_) => 0,
        }
    } else {
        p.tmp0
    }
}

/// How many operand bytes are still to be fetched from M-cycle m on.
pub open spec fn fetches_left(op: Op, m: int) -> int {
    if m <= 2 {
        length(op) - 1
    } else if m <= length(op) {
        length(op) - m + 1
    } else {
        0
    }
}

/// The M-cycles of an instruction in flight: `p` is about to run its
/// M-cycle `p.mcycle` from `c` (and, after the opcode fetch, from `c1`).
/// Until its documented last M-cycle no instruction boundary comes; four
/// T-cycles after it, one does, and an instruction that does not branch
/// has PC past the operand bytes it had left to fetch.
#[verifier::rlimit(60)]
proof fn lemma_procedure_runs_to_length(c: Cpu, b: BusView, p: InstructionProcedure, c1: Cpu)
    requires
        c.tcount == 0,
        b.wf(),
        begin_spec(c, b) == Ok::<(InstructionProcedure, Cpu), Fault>((p, c1)),
        p.wf(),
        c1.regs.wf(),
        c1.ime_counter < 2,
        p.mcycle <= timing(p.op, c1.regs.f, cb_of(p, c1, b)),
    ensures
        ({
            let n = timing(p.op, c1.regs.f, cb_of(p, c1, b)) - p.mcycle + 1;
            &&& forall|k: nat| 1 <= k < n ==> (#[trigger] run_spec(c, b, 4 * k) matches Ok((ck, bk))
                ==> !at_boundary(ck))
            &&& run_spec(c, b, (4 * n) as nat) matches Ok((cn, bn)) ==> at_boundary(cn) && (!is_branch(p.op)
                ==> cn.regs.pc == add16w(c1.regs.pc, fetches_left(p.op, p.mcycle as int))) && (!(p.op is Di
                || p.op is Ei) ==> cn.ime == c1.ime && cn.ime_pending == c1.ime_pending && cn.ime_counter
                == c1.ime_counter)
        }),
    decreases 7 - p.mcycle,
{
    let t = timing(p.op, c1.regs.f, cb_of(p, c1, b));
    let n = t - p.mcycle + 1;
    lemma_mstep(c, b);
    assert forall|k: nat| 1 <= k implies #[trigger] run_spec(c, b, 4 * k) == match run_spec(c, b, 4) {
        Ok((c4, b4)) => run_spec(c4, b4, (4 * k - 4) as nat),
        Err(e) => Err(e),
    } by {
        if 1 <= k {
            lemma_run_split(c, b, 4, (4 * k - 4) as nat);
        }
    }
    match step_spec(p, c1, b) {
        Err(e) => {
            assert forall|k: nat| 1 <= k implies #[trigger] run_spec(c, b, 4 * k) is Err by {}
            assert(run_spec(c, b, (4 * n) as nat) is Err);
        },
        Ok((p2, c2, b2)) => {
            let v: u8 = match access_spec(p, c1) {
                Access::Read(a) => bus_read_spec(b, a)->Ok_0,
                _ => 0,
            };
            assert(complete_spec(p, c1, v).1 == c2);
            assert(next_mcycle(complete_spec(p, c1, v).0) == p2);
            assert(length(p.op) <= timing(p.op, c1.regs.f, cb_byte(p, v)));
            if p.mcycle <= timing(p.op, c1.regs.f, cb_byte(p, v)) {
                lemma_pc_advance(p, c1, v);
            }
            lemma_complete_keeps_timing(p, c1, v);
            lemma_complete_wf(p, c1, v);
            lemma_complete_ime(p, c1, v);
            if let Access::Write(a, d) = access_spec(p, c1) {
                lemma_write_wf(b, a, d);
            }
            if !(p.op is Prefix) || p.mcycle >= 2 {
                assert(timing(p.op, c1.regs.f, cb_byte(p, v)) == timing(p.op, c1.regs.f, cb_of(p, c1, b)));
                lemma_retires_on_documented_cycle(p, c1, v);
            } else {
                assert(timing(p.op, c1.regs.f, cb_of(p, c1, b)) >= 2);
                assert(timing(p.op, c1.regs.f, cb_byte(p, v)) >= 2);
                lemma_retires_on_documented_cycle(p, c1, v);
            }
            let cn = Cpu { procedure: if p2.done { None } else { Some(p2) }, tcount: 0, ..c2 };
            assert(run_spec(c, b, 4) == Ok::<(Cpu, BusView), Fault>((cn, b2)));
            if p2.done {
                assert(n == 1);
                assert(run_spec(cn, b2, 0) == Ok::<(Cpu, BusView), Fault>((cn, b2)));
                assert(!is_branch(p.op) ==> length(p.op) <= t);
            } else {
                assert(begin_spec(cn, b2) == Ok::<(InstructionProcedure, Cpu), Fault>((p2, cn)));
                if p.op is Prefix && p.mcycle == 1 {
                    assert(b2 == b);
                }
                assert(timing(p2.op, cn.regs.f, cb_of(p2, cn, b2)) == t);
                lemma_procedure_runs_to_length(cn, b2, p2, cn);
                assert forall|k: nat| 1 <= k < n implies (#[trigger] run_spec(c, b, 4 * k) matches Ok((ck, bk))
                    ==> !at_boundary(ck)) by {
                    if k >= 2 {
                        let j = (k - 1) as nat;
                        assert(4 * k - 4 == 4 * j);
                    }
                }
                let j = (n - 1) as nat;
                assert(4 * n - 4 == 4 * j);
            }
        },
    }
}

/// The byte after the opcode at `pc`: a prefixed instruction's CB opcode.
pub open spec fn second_byte(b: BusView, pc: u16) -> u8 {
    match bus_read_spec(b, inc16(pc)) {
        Ok(v) => v,
        Err(_) => 0,
    }
}

/// Instruction timing: from an instruction boundary whose opcode fetch and
/// decode succeed, the next boundary comes exactly four T-cycles per
/// documented M-cycle of that instruction later (F decides for a
/// conditional one, the second byte for a CB-prefixed one), and none
/// before; an instruction that does not branch then has PC at its start
/// plus its length.
pub proof fn lemma_instruction_timing(c: Cpu, b: BusView)
    requires
        c.wf(),
        b.wf(),
        at_boundary(c),
        begin_spec(c, b) is Ok,
    ensures
        ({
            let op = begin_spec(c, b)->Ok_0.0.op;
            let n = timing(op, c.regs.f, second_byte(b, c.regs.pc));
            &&& forall|k: nat| 1 <= k < n ==> (#[trigger] run_spec(c, b, 4 * k) matches Ok((ck, bk))
                ==> !at_boundary(ck))
            &&& run_spec(c, b, (4 * n) as nat) matches Ok((cn, bn)) ==> at_boundary(cn) && (!is_branch(op)
                ==> cn.regs.pc == add16w(c.regs.pc, length(op))) && (!(op is Di || op is Ei) ==> cn.ime
                == latch_spec(c).ime && cn.ime_pending == latch_spec(c).ime_pending && cn.ime_counter
                == latch_spec(c).ime_counter)
        }),
{
    let (p, c1) = begin_spec(c, b)->Ok_0;
    lemma_decode_wf(bus_read_spec(b, latch_spec(c).regs.pc)->Ok_0);
    assert(c1.regs.f == c.regs.f);
    assert(cb_of(p, c1, b) == second_byte(b, c.regs.pc));
    lemma_procedure_runs_to_length(c, b, p, c1);
}

/// EI takes effect after the next instruction: through the whole of the
/// instruction that follows EI (one that is neither DI nor EI) IME keeps
/// its value, and at the fetch after that instruction the latch sets it.
pub proof fn lemma_ei_delay(c: Cpu, b: BusView)
    requires
        c.wf(),
        b.wf(),
        at_boundary(c),
        bus_read_spec(b, c.regs.pc) == Ok::<u8, Fault>(0xFB),
        bus_read_spec(b, inc16(c.regs.pc)) matches Ok(x) && decode_spec(x) matches Ok(op) && !(op is Di
            || op is Ei),
    ensures
        ({
            let op = decode_spec(bus_read_spec(b, inc16(c.regs.pc))->Ok_0)->Ok_0;
            let n = timing(op, c.regs.f, second_byte(b, inc16(c.regs.pc)));
            run_spec(c, b, (4 + 4 * n) as nat) matches Ok((cx, bx)) ==> {
                &&& at_boundary(cx)
                &&& cx.ime == latch_spec(c).ime
                &&& latch_spec(cx).ime
            }
        }),
{
    let r = c.regs;
    assert(decode_spec(0xFB) == Ok::<Op, Fault>(Op::Ei));
    let c1 = latch_spec(c);
    let ca = with_regs(c1, pc_inc(c1.regs));
    let p1 = InstructionProcedure { done: false, op: Op::Ei, mcycle: 1, tmp0: 0, tmp1: 0 };
    assert(begin_spec(c, b) == Ok::<(InstructionProcedure, Cpu), Fault>((p1, ca)));
    lemma_ei_cycle(p1, ca);
    lemma_complete_ime(p1, ca, 0);
    lemma_complete_wf(p1, ca, 0);
    let (q1, ce) = complete_spec(p1, ca, 0);
    assert(step_spec(p1, ca, b) == Ok::<(InstructionProcedure, Cpu, BusView), Fault>((next_mcycle(q1), ce, b)));
    let k1 = Cpu { procedure: None, tcount: 0, ..ce };
    lemma_mstep(c, b);
    assert(run_spec(c, b, 4) == Ok::<(Cpu, BusView), Fault>((k1, b)));
    assert(k1.regs.pc == inc16(r.pc));
    assert(k1.regs.f == r.f);
    assert(k1.ime_pending && k1.ime_counter == 0);
    assert(k1.ime == c1.ime);
    lemma_instruction_timing(k1, b);
    let op = begin_spec(k1, b)->Ok_0.0.op;
    let n = timing(op, k1.regs.f, second_byte(b, k1.regs.pc));
    lemma_run_split(c, b, 4, (4 * n) as nat);
}

/// EI's single M-cycle makes no bus access.
proof fn lemma_ei_cycle(p: InstructionProcedure, c: Cpu)
    requires
        p.op is Ei,
    ensures
        access_spec(p, c) == Access::Idle,
{
    reveal(access_spec);
}

/// The M-cycles of `alu[y] A,n`: a quiet one, then the operand fetch and
/// the operation.
proof fn lemma_alu_imm_cycle(p: InstructionProcedure, c: Cpu, v: u8)
    requires
        p.op matches Op::AluN(y) && y < 8,
        1 <= p.mcycle <= 2,
    ensures
        ({
            let y = p.op->AluN_0;
            let r = c.regs;
            &&& access_spec(p, c) == if p.mcycle == 1 { Access::Idle } else { Access::Read(r.pc) }
            &&& complete_spec(p, c, v) == if p.mcycle == 1 {
                (p, c)
            } else {
                (InstructionProcedure { done: true, ..p }, with_regs(c, Regs {
                    a: alu_spec(y, r.a, v, r.f).0,
                    f: alu_spec(y, r.a, v, r.f).1,
                    pc: inc16(r.pc),
                    ..r
                }))
            }
        }),
{
    reveal(access_spec);
    reveal(complete_spec);
}

/// `alu[y] A,n` (opcode 0xC6 + 8y) from a boundary: eight T-cycles that
/// set (A, F) to `alu[y]` of A and the operand byte, move PC past both
/// bytes, and touch nothing else.
pub proof fn lemma_alu_imm(c: Cpu, b: BusView, y: u8)
    requires
        c.wf(),
        b.wf(),
        at_boundary(c),
        y < 8,
        bus_read_spec(b, c.regs.pc) == Ok::<u8, Fault>((0xC6 + 8 * y) as u8),
        bus_read_spec(b, inc16(c.regs.pc)) is Ok,
    ensures
        run_spec(c, b, 8) matches Ok((c2, b2)) && {
            let n = bus_read_spec(b, inc16(c.regs.pc))->Ok_0;
            let r = c.regs;
            &&& at_boundary(c2)
            &&& b2 == b
            &&& c2.regs == (Regs {
                a: alu_spec(y, r.a, n, r.f).0,
                f: alu_spec(y, r.a, n, r.f).1,
                pc: inc16(inc16(r.pc)),
                ..r
            })
        },
{
    assert(decode_spec((0xC6 + 8 * y) as u8) == Ok::<Op, Fault>(Op::AluN(y)));
    let r = c.regs;
    let n = bus_read_spec(b, inc16(r.pc))->Ok_0;
    let c1 = latch_spec(c);
    let ca = with_regs(c1, pc_inc(c1.regs));
    let p1 = InstructionProcedure { done: false, op: Op::AluN(y), mcycle: 1, tmp0: 0, tmp1: 0 };
    assert(begin_spec(c, b) == Ok::<(InstructionProcedure, Cpu), Fault>((p1, ca)));
    let p2 = next_mcycle(p1);
    lemma_alu_imm_cycle(p1, ca, 0);
    assert(step_spec(p1, ca, b) == Ok::<(InstructionProcedure, Cpu, BusView), Fault>((p2, ca, b)));
    let k1 = Cpu { procedure: Some(p2), tcount: 0, ..ca };
    lemma_mstep(c, b);
    lemma_alu_imm_cycle(p2, k1, n);
    let r2 = Regs { a: alu_spec(y, r.a, n, r.f).0, f: alu_spec(y, r.a, n, r.f).1, pc: inc16(inc16(r.pc)), ..r };
    let p3 = next_mcycle(InstructionProcedure { done: true, ..p2 });
    assert(step_spec(p2, k1, b) == Ok::<(InstructionProcedure, Cpu, BusView), Fault>((p3, with_regs(k1, r2), b)));
    let k2 = Cpu { procedure: None, tcount: 0, regs: r2, ..k1 };
    lemma_mstep(k1, b);
    lemma_run_split(c, b, 4, 4);
    assert(run_spec(k1, b, 4) == Ok::<(Cpu, BusView), Fault>((k2, b)));
}

/// `AND A,0xFF` (E6 FF) run on the processor keeps A and sets Z = (A == 0),
/// N = 0, H = 1, C = 0.
pub proof fn lemma_and_ff_on_cpu(c: Cpu, b: BusView)
    requires
        c.wf(),
        b.wf(),
        at_boundary(c),
        bus_read_spec(b, c.regs.pc) == Ok::<u8, Fault>(0xE6),
        bus_read_spec(b, inc16(c.regs.pc)) == Ok::<u8, Fault>(0xFF),
    ensures
        run_spec(c, b, 8) matches Ok((c2, b2)) && c2.regs == (Regs {
            f: flags_spec(c.regs.a == 0, false, true, false),
            pc: inc16(inc16(c.regs.pc)),
            ..c.regs
        }),
{
    lemma_alu_imm(c, b, 4);
    lemma_logic_ops(c.regs.a, 0xFF, c.regs.f);
}

/// CP n and SUB n run on the processor from the same state leave the same
/// flags and the same registers, but for A, which CP keeps.
pub proof fn lemma_cp_is_sub_on_cpu(c: Cpu, b_sub: BusView, b_cp: BusView, n: u8)
    requires
        c.wf(),
        b_sub.wf(),
        b_cp.wf(),
        at_boundary(c),
        bus_read_spec(b_sub, c.regs.pc) == Ok::<u8, Fault>(0xD6),
        bus_read_spec(b_cp, c.regs.pc) == Ok::<u8, Fault>(0xFE),
        bus_read_spec(b_sub, inc16(c.regs.pc)) == Ok::<u8, Fault>(n),
        bus_read_spec(b_cp, inc16(c.regs.pc)) == Ok::<u8, Fault>(n),
    ensures
        run_spec(c, b_sub, 8) matches Ok((cs, bs)) && run_spec(c, b_cp, 8) matches Ok((cc, bc)) && {
            &&& cc.regs.f == cs.regs.f
            &&& cc.regs.a == c.regs.a
            &&& cc.regs == (Regs { a: c.regs.a, ..cs.regs })
        },
{
    lemma_alu_imm(c, b_sub, 2);
    lemma_alu_imm(c, b_cp, 7);
    lemma_cp_is_sub_without_store(c.regs.a, n, c.regs.f);
}

/// The M-cycles of a CB-prefixed rotation or shift of a register: a quiet
/// one, then the fetch of the second byte and the operation.
proof fn lemma_cb_rot_cycle(p: InstructionProcedure, c: Cpu, v: u8)
    requires
        p.op is Prefix,
        1 <= p.mcycle <= 2,
        v / 64 == 0,
        v % 8 != 6,
    ensures
        ({
            let r = c.regs;
            let y = (v / 8) % 8;
            let z = v % 8;
            let res = cb_rot_spec(y, r8_spec(r, z), r.f);
            &&& access_spec(p, c) == if p.mcycle == 1 { Access::Idle } else { Access::Read(r.pc) }
            &&& p.mcycle == 1 ==> complete_spec(p, c, v) == (p, c)
            &&& p.mcycle == 2 ==> complete_spec(p, c, v).0.done && complete_spec(p, c, v).1 == with_regs(c, Regs {
                f: res.1,
                ..set_r8_spec(Regs { pc: inc16(r.pc), ..r }, z, res.0)
            })
        }),
{
    reveal(access_spec);
    reveal(complete_spec);
}

/// A CB-prefixed rotation or shift rot[y] of register r[z] (bytes CB and
/// 8y + z) from a boundary: eight T-cycles that set r[z] and F as rot[y]
/// gives, move PC past both bytes, and touch nothing else.
pub proof fn lemma_cb_rot(c: Cpu, b: BusView, y: u8, z: u8)
    requires
        c.wf(),
        b.wf(),
        at_boundary(c),
        y < 8,
        z < 8,
        z != 6,
        bus_read_spec(b, c.regs.pc) == Ok::<u8, Fault>(0xCB),
        bus_read_spec(b, inc16(c.regs.pc)) == Ok::<u8, Fault>((8 * y + z) as u8),
    ensures
        run_spec(c, b, 8) matches Ok((c2, b2)) && {
            let r = c.regs;
            let res = cb_rot_spec(y, r8_spec(r, z), r.f);
            &&& at_boundary(c2)
            &&& c2.wf()
            &&& b2 == b
            &&& c2.regs == (Regs { f: res.1, ..set_r8_spec(Regs { pc: inc16(inc16(r.pc)), ..r }, z, res.0) })
        },
{
    assert(decode_spec(0xCB) == Ok::<Op, Fault>(Op::Prefix));
    let r = c.regs;
    let v = (8 * y + z) as u8;
    assert(v / 64 == 0 && v % 8 == z && (v / 8) % 8 == y);
    let c1 = latch_spec(c);
    let ca = with_regs(c1, pc_inc(c1.regs));
    let p1 = InstructionProcedure { done: false, op: Op::Prefix, mcycle: 1, tmp0: 0, tmp1: 0 };
    assert(begin_spec(c, b) == Ok::<(InstructionProcedure, Cpu), Fault>((p1, ca)));
    let p2 = next_mcycle(p1);
    lemma_cb_rot_cycle(p1, ca, v);
    lemma_cb_rot_cycle(p1, ca, 0);
    assert(step_spec(p1, ca, b) == Ok::<(InstructionProcedure, Cpu, BusView), Fault>((p2, ca, b)));
    let k1 = Cpu { procedure: Some(p2), tcount: 0, ..ca };
    lemma_mstep(c, b);
    lemma_cb_rot_cycle(p2, k1, v);
    let (q2, c2) = complete_spec(p2, k1, v);
    assert(step_spec(p2, k1, b) == Ok::<(InstructionProcedure, Cpu, BusView), Fault>((next_mcycle(q2), c2, b)));
    let k2 = Cpu { procedure: None, tcount: 0, ..c2 };
    lemma_mstep(k1, b);
    lemma_run_split(c, b, 4, 4);
    assert(run_spec(k1, b, 4) == Ok::<(Cpu, BusView), Fault>((k2, b)));
    let res = cb_rot_spec(y, r8_spec(r, z), r.f);
    lemma_flags_read(res.0 == 0, false, false, rot_spec(y, r8_spec(r, z), flag_c(r.f)).1);
}

/// Bytes CB, 8y + z repeated `k` times from `pc` on.
pub open spec fn repeated_cb(b: BusView, pc: u16, y: u8, z: u8, k: nat) -> bool {
    forall|i: int| 0 <= i < k ==> #[trigger] bus_read_spec(b, add16w(pc, 2 * i)) == Ok::<u8, Fault>(0xCB)
        && bus_read_spec(b, add16w(pc, 2 * i + 1)) == Ok::<u8, Fault>((8 * y + z) as u8)
}

/// `k` consecutive rot[y] of register r[z] run on the processor leave r[z]
/// and the carry as `k` steps of rot[y] that feed each carry out into the
/// next step.
pub proof fn lemma_cb_rot_repeated(c: Cpu, b: BusView, y: u8, z: u8, k: nat)
    requires
        c.wf(),
        b.wf(),
        at_boundary(c),
        y < 8,
        z < 8,
        z != 6,
        repeated_cb(b, c.regs.pc, y, z, k),
    ensures
        run_spec(c, b, 8 * k) matches Ok((ck, bk)) && {
            &&& at_boundary(ck)
            &&& ck.wf()
            &&& bk == b
            &&& ck.regs.pc == add16w(c.regs.pc, 2 * (k as int))
            &&& (r8_spec(ck.regs, z), flag_c(ck.regs.f)) == rot_iter(y, r8_spec(c.regs, z), flag_c(c.regs.f), k)
        },
    decreases k,
{
    let pc = c.regs.pc;
    if k == 0 {
        assert(run_spec(c, b, 0) == Ok::<(Cpu, BusView), Fault>((c, b)));
        assert(add16w(pc, 0) == pc);
    } else {
        lemma_repeated_cb_shift(b, pc, y, z, k);
        lemma_cb_rot_step(c, b, y, z);
        let (c1, b1) = run_spec(c, b, 8)->Ok_0;
        let pc1 = c1.regs.pc;
        lemma_cb_rot_repeated(c1, b1, y, z, (k - 1) as nat);
        lemma_run_split(c, b, 8, (8 * (k - 1)) as nat);
        assert(8 + 8 * (k - 1) == 8 * k);
        lemma_add16w(pc, 2, 2 * (k - 1));
        lemma_rot_iter_step(y, r8_spec(c.regs, z), flag_c(c.regs.f), k);
    }
}

proof fn lemma_rot_iter_step(y: u8, v: u8, cin: bool, k: nat)
    requires
        k > 0,
    ensures
        rot_iter(y, v, cin, k) == rot_iter(y, rot_spec(y, v, cin).0, rot_spec(y, v, cin).1, (k - 1) as nat),
{
}

proof fn lemma_add16w(w: u16, a: int, b: int)
    requires
        a >= 0,
        b >= 0,
    ensures
        add16w(add16w(w, a), b) == add16w(w, a + b),
{
    assert(((w + a) % 65536 + b) % 65536 == (w + a + b) % 65536) by (nonlinear_arith)
        requires
            a >= 0,
            b >= 0,
            w >= 0,
    ;
}

/// One rot[y] of r[z] on the processor, as a step of rot[y] on r[z] and
/// the carry.
proof fn lemma_cb_rot_step(c: Cpu, b: BusView, y: u8, z: u8)
    requires
        c.wf(),
        b.wf(),
        at_boundary(c),
        y < 8,
        z < 8,
        z != 6,
        bus_read_spec(b, c.regs.pc) == Ok::<u8, Fault>(0xCB),
        bus_read_spec(b, inc16(c.regs.pc)) == Ok::<u8, Fault>((8 * y + z) as u8),
    ensures
        run_spec(c, b, 8) matches Ok((c2, b2)) && {
            &&& at_boundary(c2)
            &&& c2.wf()
            &&& b2 == b
            &&& c2.regs.pc == add16w(c.regs.pc, 2)
            &&& (r8_spec(c2.regs, z), flag_c(c2.regs.f)) == rot_spec(y, r8_spec(c.regs, z), flag_c(c.regs.f))
        },
{
    lemma_cb_rot(c, b, y, z);
    lemma_one_rot(c.regs, y, z);
    let r = c.regs;
    let res = cb_rot_spec(y, r8_spec(r, z), r.f);
    let r2 = Regs { f: res.1, ..set_r8_spec(Regs { pc: inc16(inc16(r.pc)), ..r }, z, res.0) };
    assert(r2.pc == inc16(inc16(r.pc)));
}

/// After one rot[y] of r[z], r[z] and the carry are one step of rot[y].
proof fn lemma_one_rot(r: Regs, y: u8, z: u8)
    requires
        z != 6,
    ensures
        ({
            let res = cb_rot_spec(y, r8_spec(r, z), r.f);
            let r2 = Regs { f: res.1, ..set_r8_spec(Regs { pc: inc16(inc16(r.pc)), ..r }, z, res.0) };
            (r8_spec(r2, z), flag_c(r2.f)) == rot_spec(y, r8_spec(r, z), flag_c(r.f))
        }),
{
    let res = rot_spec(y, r8_spec(r, z), flag_c(r.f));
    lemma_flags_read(res.0 == 0, false, false, res.1);
}

/// A run of k repeated CB instructions is its first one followed by a run
/// of k - 1 two bytes on.
proof fn lemma_repeated_cb_shift(b: BusView, pc: u16, y: u8, z: u8, k: nat)
    requires
        k > 0,
        repeated_cb(b, pc, y, z, k),
    ensures
        bus_read_spec(b, pc) == Ok::<u8, Fault>(0xCB),
        bus_read_spec(b, inc16(pc)) == Ok::<u8, Fault>((8 * y + z) as u8),
        repeated_cb(b, add16w(pc, 2), y, z, (k - 1) as nat),
{
    let i0: int = 0;
    assert(bus_read_spec(b, add16w(pc, 2 * i0)) == Ok::<u8, Fault>(0xCB));
    assert(add16w(pc, 2 * i0) == pc && add16w(pc, 2 * i0 + 1) == inc16(pc));
    let pc1 = add16w(pc, 2);
    assert forall|i: int| 0 <= i < k - 1 implies #[trigger] bus_read_spec(b, add16w(pc1, 2 * i)) == Ok::<u8, Fault>(0xCB)
        && bus_read_spec(b, add16w(pc1, 2 * i + 1)) == Ok::<u8, Fault>((8 * y + z) as u8) by {
        assert(add16w(pc1, 2 * i) == add16w(pc, 2 * (i + 1)));
        assert(add16w(pc1, 2 * i + 1) == add16w(pc, 2 * (i + 1) + 1));
        assert(bus_read_spec(b, add16w(pc, 2 * (i + 1))) == Ok::<u8, Fault>(0xCB));
    }
}

/// On the processor, eight RLC or eight RRC of a register give it back,
/// and nine RL or nine RR give back both the register and the carry.
pub proof fn lemma_rotations_on_cpu(c: Cpu, b: BusView, y: u8, z: u8)
    requires
        c.wf(),
        b.wf(),
        at_boundary(c),
        y < 4,
        z < 8,
        z != 6,
        repeated_cb(b, c.regs.pc, y, z, if y < 2 { 8 } else { 9 }),
    ensures
        y < 2 ==> (run_spec(c, b, 64) matches Ok((c8, b8)) && r8_spec(c8.regs, z) == r8_spec(c.regs, z)),
        y >= 2 ==> (run_spec(c, b, 72) matches Ok((c9, b9)) && r8_spec(c9.regs, z) == r8_spec(c.regs, z)
            && flag_c(c9.regs.f) == flag_c(c.regs.f)),
{
    lemma_rotation_cycles(r8_spec(c.regs, z), flag_c(c.regs.f));
    if y < 2 {
        lemma_cb_rot_repeated(c, b, y, z, 8);
    } else {
        lemma_cb_rot_repeated(c, b, y, z, 9);
    }
}

} // verus!
