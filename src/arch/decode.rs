use vstd::prelude::*;
use crate::arch::Fault;

verus! {

/// An instruction, with the operand indices taken from its opcode.
///
/// Field names follow the opcode layout x = bits 7-6, y = bits 5-3,
/// z = bits 2-0, p = y >> 1, q = y & 1.
#[derive(Clone, Copy, Debug, PartialEq, Eq, Structural)]
pub enum Op {
    Nop,
    /// LD (nn),SP
    LdNnSp,
    /// JR d
    Jr,
    /// JR cc[y-4],d
    JrCond(u8),
    /// LD rp[p],nn
    LdRpNn(u8),
    /// ADD HL,rp[p]
    AddHlRp(u8),
    /// LD (BC)/(DE)/(HL+)/(HL-),A
    LdIndA(u8),
    /// LD A,(BC)/(DE)/(HL+)/(HL-)
    LdAInd(u8),
    IncRp(u8),
    DecRp(u8),
    /// INC r[y]
    IncR(u8),
    /// DEC r[y]
    DecR(u8),
    /// LD r[y],n
    LdRN(u8),
    /// RLCA, RRCA, RLA, RRA
    AccRot(u8),
    Daa,
    Cpl,
    Scf,
    Ccf,
    /// LD r[y],r[z]
    LdRR(u8, u8),
    /// alu[y] A,r[z]
    AluR(u8, u8),
    /// alu[y] A,n
    AluN(u8),
    /// RET cc[y]
    RetCond(u8),
    /// LD (0xFF00+n),A
    LdhNA,
    /// ADD SP,d
    AddSpD,
    /// LD A,(0xFF00+n)
    LdhANn,
    /// LD HL,SP+d
    LdHlSpD,
    /// POP rp2[p]
    Pop(u8),
    Ret,
    /// JP HL
    JpHl,
    /// LD SP,HL
    LdSpHl,
    /// JP cc[y],nn
    JpCond(u8),
    /// LD (0xFF00+C),A
    LdCA,
    /// LD (nn),A
    LdNnA,
    /// LD A,(0xFF00+C)
    LdAC,
    /// LD A,(nn)
    LdANn,
    /// JP nn
    Jp,
    Di,
    Ei,
    /// CALL cc[y],nn
    CallCond(u8),
    /// PUSH rp2[p]
    Push(u8),
    /// CALL nn
    Call,
    /// RST y*8
    Rst(u8),
    /// The 0xCB prefix: the second opcode byte is fetched in the next M-cycle.
    Prefix,
}

impl Op {
    pub open spec fn wf(&self) -> bool {
        match *self {
            Op::JrCond(c) | Op::RetCond(c) | Op::JpCond(c) | Op::CallCond(c) | Op::AccRot(c) => c < 4,
            Op::LdRpNn(p) | Op::AddHlRp(p) | Op::LdIndA(p) | Op::LdAInd(p) | Op::IncRp(p)
            | Op::DecRp(p) | Op::Pop(p) | Op::Push(p) => p < 4,
            Op::IncR(y) | Op::DecR(y) | Op::LdRN(y) | Op::AluN(y) | Op::Rst(y) => y < 8,
            Op::LdRR(y, z) => y < 8 && z < 8 && !(y == 6 && z == 6),
            Op::AluR(y, z) => y < 8 && z < 8,
            _ => true,
        }
    }
}

/// The instruction that a main-table opcode starts.
pub open spec fn decode_spec(opcode: u8) -> Result<Op, Fault> {
    let x = opcode / 64;
    let y = (opcode / 8) % 8;
    let z = opcode % 8;
    let p = y / 2;
    let q = y % 2;
    if x == 0 {
        if z == 0 {
            if y == 0 { Ok(Op::Nop) } else if y == 1 { Ok(Op::LdNnSp) } else if y == 2 { Err(Fault::Stop) }
            else if y == 3 { Ok(Op::Jr) } else { Ok(Op::JrCond((y - 4) as u8)) }
        } else if z == 1 {
            if q == 0 { Ok(Op::LdRpNn(p)) } else { Ok(Op::AddHlRp(p)) }
        } else if z == 2 {
            if q == 0 { Ok(Op::LdIndA(p)) } else { Ok(Op::LdAInd(p)) }
        } else if z == 3 {
            if q == 0 { Ok(Op::IncRp(p)) } else { Ok(Op::DecRp(p)) }
        } else if z == 4 {
            Ok(Op::IncR(y))
        } else if z == 5 {
            Ok(Op::DecR(y))
        } else if z == 6 {
            Ok(Op::LdRN(y))
        } else {
            if y < 4 { Ok(Op::AccRot(y)) } else if y == 4 { Ok(Op::Daa) } else if y == 5 { Ok(Op::Cpl) }
            else if y == 6 { Ok(Op::Scf) } else { Ok(Op::Ccf) }
        }
    } else if x == 1 {
        if y == 6 && z == 6 { Err(Fault::UnimplementedOpcode(opcode)) } else { Ok(Op::LdRR(y, z)) }
    } else if x == 2 {
        Ok(Op::AluR(y, z))
    } else {
        if z == 0 {
            if y < 4 { Ok(Op::RetCond(y)) } else if y == 4 { Ok(Op::LdhNA) } else if y == 5 { Ok(Op::AddSpD) }
            else if y == 6 { Ok(Op::LdhANn) } else { Ok(Op::LdHlSpD) }
        } else if z == 1 {
            if q == 0 { Ok(Op::Pop(p)) } else if p == 0 { Ok(Op::Ret) }
            else if p == 1 { Err(Fault::UnimplementedOpcode(opcode)) }
            else if p == 2 { Ok(Op::JpHl) } else { Ok(Op::LdSpHl) }
        } else if z == 2 {
            if y < 4 { Ok(Op::JpCond(y)) } else if y == 4 { Ok(Op::LdCA) } else if y == 5 { Ok(Op::LdNnA) }
            else if y == 6 { Ok(Op::LdAC) } else { Ok(Op::LdANn) }
        } else if z == 3 {
            if y == 0 { Ok(Op::Jp) } else if y == 1 { Ok(Op::Prefix) } else if y == 6 { Ok(Op::Di) }
            else if y == 7 { Ok(Op::Ei) } else { Err(Fault::RemovedOpcode(opcode)) }
        } else if z == 4 {
            if y < 4 { Ok(Op::CallCond(y)) } else { Err(Fault::RemovedOpcode(opcode)) }
        } else if z == 5 {
            if q == 0 { Ok(Op::Push(p)) } else if p == 0 { Ok(Op::Call) } else { Err(Fault::RemovedOpcode(opcode)) }
        } else if z == 6 {
            Ok(Op::AluN(y))
        } else {
            Ok(Op::Rst(y))
        }
    }
}

pub fn decode(opcode: u8) -> (r: Result<Op, Fault>)
    ensures
        r == decode_spec(opcode),
        r matches Ok(op) ==> op.wf(),
{
    let x = opcode / 64;
    let y = (opcode / 8) % 8;
    let z = opcode % 8;
    let p = y / 2;
    let q = y % 2;
    if x == 0 {
        if z == 0 {
            if y == 0 { Ok(Op::Nop) } else if y == 1 { Ok(Op::LdNnSp) } else if y == 2 { Err(Fault::Stop) }
            else if y == 3 { Ok(Op::Jr) } else { Ok(Op::JrCond(y - 4)) }
        } else if z == 1 {
            if q == 0 { Ok(Op::LdRpNn(p)) } else { Ok(Op::AddHlRp(p)) }
        } else if z == 2 {
            if q == 0 { Ok(Op::LdIndA(p)) } else { Ok(Op::LdAInd(p)) }
        } else if z == 3 {
            if q == 0 { Ok(Op::IncRp(p)) } else { Ok(Op::DecRp(p)) }
        } else if z == 4 {
            Ok(Op::IncR(y))
        } else if z == 5 {
            Ok(Op::DecR(y))
        } else if z == 6 {
            Ok(Op::LdRN(y))
        } else {
            if y < 4 { Ok(Op::AccRot(y)) } else if y == 4 { Ok(Op::Daa) } else if y == 5 { Ok(Op::Cpl) }
            else if y == 6 { Ok(Op::Scf) } else { Ok(Op::Ccf) }
        }
    } else if x == 1 {
        if y == 6 && z == 6 { Err(Fault::UnimplementedOpcode(opcode)) } else { Ok(Op::LdRR(y, z)) }
    } else if x == 2 {
        Ok(Op::AluR(y, z))
    } else {
        if z == 0 {
            if y < 4 { Ok(Op::RetCond(y)) } else if y == 4 { Ok(Op::LdhNA) } else if y == 5 { Ok(Op::AddSpD) }
            else if y == 6 { Ok(Op::LdhANn) } else { Ok(Op::LdHlSpD) }
        } else if z == 1 {
            if q == 0 { Ok(Op::Pop(p)) } else if p == 0 { Ok(Op::Ret) }
            else if p == 1 { Err(Fault::UnimplementedOpcode(opcode)) }
            else if p == 2 { Ok(Op::JpHl) } else { Ok(Op::LdSpHl) }
        } else if z == 2 {
            if y < 4 { Ok(Op::JpCond(y)) } else if y == 4 { Ok(Op::LdCA) } else if y == 5 { Ok(Op::LdNnA) }
            else if y == 6 { Ok(Op::LdAC) } else { Ok(Op::LdANn) }
        } else if z == 3 {
            if y == 0 { Ok(Op::Jp) } else if y == 1 { Ok(Op::Prefix) } else if y == 6 { Ok(Op::Di) }
            else if y == 7 { Ok(Op::Ei) } else { Err(Fault::RemovedOpcode(opcode)) }
        } else if z == 4 {
            if y < 4 { Ok(Op::CallCond(y)) } else { Err(Fault::RemovedOpcode(opcode)) }
        } else if z == 5 {
            if q == 0 { Ok(Op::Push(p)) } else if p == 0 { Ok(Op::Call) } else { Err(Fault::RemovedOpcode(opcode)) }
        } else if z == 6 {
            Ok(Op::AluN(y))
        } else {
            Ok(Op::Rst(y))
        }
    }
}

/// Every decoded instruction has its operand indices in range.
pub proof fn lemma_decode_wf(opcode: u8)
    ensures
        decode_spec(opcode) matches Ok(op) ==> op.wf(),
{
}

} // verus!
