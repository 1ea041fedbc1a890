use vstd::prelude::*;

verus! {

/// Outcome of an 8-bit (or 16-bit) arithmetic primitive.
///
/// `negative` is the sign of the result read as a signed value; the
/// instruction that uses the primitive decides which fields reach F.
#[derive(Clone, Copy, Debug, PartialEq, Eq, Structural)]
pub struct AluResult {
    pub result: u8,
    pub zero: bool,
    pub negative: bool,
    pub half: bool,
    pub carry: bool,
}

#[derive(Clone, Copy, Debug, PartialEq, Eq, Structural)]
pub struct Alu16Result {
    pub result: u16,
    pub zero: bool,
    pub negative: bool,
    pub half: bool,
    pub carry: bool,
}

pub open spec fn bit_of(c: bool) -> int {
    if c { 1 } else { 0 }
}

/// `a + b + c` on bytes: half-carry out of bit 3, carry out of bit 7.
pub open spec fn add_spec(a: u8, b: u8, c: bool) -> AluResult {
    let sum = a + b + bit_of(c);
    let r = (sum % 256) as u8;
    AluResult {
        result: r,
        zero: r == 0,
        negative: r >= 128,
        half: a % 16 + b % 16 + bit_of(c) > 15,
        carry: sum > 255,
    }
}

/// `a - b - c` on bytes: half-borrow from bit 4, borrow from bit 8.
pub open spec fn sub_spec(a: u8, b: u8, c: bool) -> AluResult {
    let diff = a - b - bit_of(c);
    let r = ((diff + 256) % 256) as u8;
    AluResult {
        result: r,
        zero: r == 0,
        negative: r >= 128,
        half: a % 16 < b % 16 + bit_of(c),
        carry: diff < 0,
    }
}

/// `a + b` on 16-bit words: half-carry out of bit 11, carry out of bit 15.
pub open spec fn add16_spec(a: u16, b: u16) -> Alu16Result {
    let sum = a + b;
    let r = (sum % 65536) as u16;
    Alu16Result {
        result: r,
        zero: r == 0,
        negative: r >= 0x8000,
        half: a % 4096 + b % 4096 > 4095,
        carry: sum > 65535,
    }
}

pub fn add(a: u8, b: u8) -> (r: AluResult)
    ensures
        r == add_spec(a, b, false),
{
    adc(a, b, false)
}

/// Addition with a carry-in, folded into both the half carry and the carry.
pub fn adc(a: u8, b: u8, carry_in: bool) -> (r: AluResult)
    ensures
        r == add_spec(a, b, carry_in),
{
    let c: u16 = if carry_in { 1 } else { 0 };
    let sum: u16 = a as u16 + b as u16 + c;
    let result = (sum % 256) as u8;
    AluResult {
        result,
        zero: result == 0,
        negative: result >= 128,
        half: (a % 16) as u16 + (b % 16) as u16 + c > 15,
        carry: sum > 255,
    }
}

pub fn sub(a: u8, b: u8) -> (r: AluResult)
    ensures
        r == sub_spec(a, b, false),
{
    sbc(a, b, false)
}

/// Subtraction with a borrow-in.
pub fn sbc(a: u8, b: u8, carry_in: bool) -> (r: AluResult)
    ensures
        r == sub_spec(a, b, carry_in),
{
    let c: u16 = if carry_in { 1 } else { 0 };
    let sub_total: u16 = b as u16 + c;
    let result: u8 = ((a as u16 + 256 - sub_total) % 256) as u8;
    AluResult {
        result,
        zero: result == 0,
        negative: result >= 128,
        half: ((a % 16) as u16) < (b % 16) as u16 + c,
        carry: (a as u16) < sub_total,
    }
}

pub fn add16(a: u16, b: u16) -> (r: Alu16Result)
    ensures
        r == add16_spec(a, b),
{
    let sum: u32 = a as u32 + b as u32;
    let result = (sum % 65536) as u16;
    Alu16Result {
        result,
        zero: result == 0,
        negative: result >= 0x8000,
        half: (a % 4096) as u32 + (b % 4096) as u32 > 4095,
        carry: sum > 65535,
    }
}

// ---------------------------------------------------------------------------
// The flag register F.
/// F with the given flags: Z is bit 7, N bit 6, H bit 5, C bit 4.
pub open spec fn flags_spec(z: bool, n: bool, h: bool, c: bool) -> u8 {
    (128 * bit_of(z) + 64 * bit_of(n) + 32 * bit_of(h) + 16 * bit_of(c)) as u8
}

pub open spec fn flag_z(f: u8) -> bool {
    f >= 128
}

pub open spec fn flag_n(f: u8) -> bool {
    (f / 64) % 2 == 1
}

pub open spec fn flag_h(f: u8) -> bool {
    (f / 32) % 2 == 1
}

pub open spec fn flag_c(f: u8) -> bool {
    (f / 16) % 2 == 1
}

pub fn flags(z: bool, n: bool, h: bool, c: bool) -> (r: u8)
    ensures
        r == flags_spec(z, n, h, c),
        r % 16 == 0,
        flag_z(r) == z,
        flag_n(r) == n,
        flag_h(r) == h,
        flag_c(r) == c,
{
    let mut r: u8 = 0;
    if z {
        r = r + 128;
    }
    if n {
        r = r + 64;
    }
    if h {
        r = r + 32;
    }
    if c {
        r = r + 16;
    }
    r
}

/// The flags read back from a packed F are the ones packed.
pub proof fn lemma_flags_read(z: bool, n: bool, h: bool, c: bool)
    ensures
        flag_z(flags_spec(z, n, h, c)) == z,
        flag_n(flags_spec(z, n, h, c)) == n,
        flag_h(flags_spec(z, n, h, c)) == h,
        flag_c(flags_spec(z, n, h, c)) == c,
        flags_spec(z, n, h, c) % 16 == 0,
{
}

pub fn carry_flag(f: u8) -> (r: bool)
    ensures
        r == flag_c(f),
{
    (f / 16) % 2 == 1
}

pub fn zero_flag(f: u8) -> (r: bool)
    ensures
        r == flag_z(f),
{
    f >= 128
}

pub fn half_flag(f: u8) -> (r: bool)
    ensures
        r == flag_h(f),
{
    (f / 32) % 2 == 1
}

pub fn negative_flag(f: u8) -> (r: bool)
    ensures
        r == flag_n(f),
{
    (f / 64) % 2 == 1
}

// ---------------------------------------------------------------------------
// alu[y]: ADD, ADC, SUB, SBC, AND, XOR, OR, CP on A and an operand.
/// The new (A, F) after `alu[y] A, v` with flags `f`.
#[verifier::opaque]
pub open spec fn alu_spec(y: u8, a: u8, v: u8, f: u8) -> (u8, u8) {
    if y == 0 || y == 1 {
        let r = add_spec(a, v, y == 1 && flag_c(f));
        (r.result, flags_spec(r.zero, false, r.half, r.carry))
    } else if y == 2 || y == 3 || y == 7 {
        let r = sub_spec(a, v, y == 3 && flag_c(f));
        (if y == 7 { a } else { r.result }, flags_spec(r.zero, true, r.half, r.carry))
    } else if y == 4 {
        let r = a & v;
        (r, flags_spec(r == 0, false, true, false))
    } else if y == 5 {
        let r = a ^ v;
        (r, flags_spec(r == 0, false, false, false))
    } else {
        let r = a | v;
        (r, flags_spec(r == 0, false, false, false))
    }
}

/// alu[y] leaves F's low nibble zero.
pub proof fn lemma_alu_flags(y: u8, a: u8, v: u8, f: u8)
    ensures
        alu_spec(y, a, v, f).1 % 16 == 0,
{
    reveal(alu_spec);
}

pub fn alu(y: u8, a: u8, v: u8, f: u8) -> (r: (u8, u8))
    requires
        y < 8,
    ensures
        r == alu_spec(y, a, v, f),
{
    reveal(alu_spec);
    if y == 0 || y == 1 {
        let r = adc(a, v, y == 1 && carry_flag(f));
        (r.result, flags(r.zero, false, r.half, r.carry))
    } else if y == 2 || y == 3 || y == 7 {
        let r = sbc(a, v, y == 3 && carry_flag(f));
        (if y == 7 { a } else { r.result }, flags(r.zero, true, r.half, r.carry))
    } else if y == 4 {
        let r = a & v;
        (r, flags(r == 0, false, true, false))
    } else if y == 5 {
        let r = a ^ v;
        (r, flags(r == 0, false, false, false))
    } else {
        let r = a | v;
        (r, flags(r == 0, false, false, false))
    }
}

/// INC on a byte: (result, F). Z from the result, N cleared, H from bit 3, C kept.
pub open spec fn inc_spec(v: u8, f: u8) -> (u8, u8) {
    let r = add_spec(v, 1, false);
    (r.result, flags_spec(r.zero, false, r.half, flag_c(f)))
}

/// DEC on a byte: (result, F). Z from the result, N set, H from bit 4, C kept.
pub open spec fn dec_spec(v: u8, f: u8) -> (u8, u8) {
    let r = sub_spec(v, 1, false);
    (r.result, flags_spec(r.zero, true, r.half, flag_c(f)))
}

pub fn inc(v: u8, f: u8) -> (r: (u8, u8))
    ensures
        r == inc_spec(v, f),
{
    let r = adc(v, 1, false);
    (r.result, flags(r.zero, false, r.half, carry_flag(f)))
}

pub fn dec(v: u8, f: u8) -> (r: (u8, u8))
    ensures
        r == dec_spec(v, f),
{
    let r = sbc(v, 1, false);
    (r.result, flags(r.zero, true, r.half, carry_flag(f)))
}

// ---------------------------------------------------------------------------
// Rotations and shifts: rot[y] = RLC, RRC, RL, RR, SLA, SRA, SWAP, SRL.
/// (result, carry out) of rot[y] on `v` with carry-in `c`.
pub open spec fn rot_spec(y: u8, v: u8, c: bool) -> (u8, bool) {
    if y == 0 {
        (((2 * v) % 256 + v / 128) as u8, v >= 128)
    } else if y == 1 {
        ((v / 2 + 128 * (v % 2)) as u8, v % 2 == 1)
    } else if y == 2 {
        (((2 * v) % 256 + bit_of(c)) as u8, v >= 128)
    } else if y == 3 {
        ((v / 2 + 128 * bit_of(c)) as u8, v % 2 == 1)
    } else if y == 4 {
        (((2 * v) % 256) as u8, v >= 128)
    } else if y == 5 {
        ((v / 2 + 128 * (v / 128)) as u8, v % 2 == 1)
    } else if y == 6 {
        ((16 * (v % 16) + v / 16) as u8, false)
    } else {
        ((v / 2) as u8, v % 2 == 1)
    }
}

pub fn rotate(y: u8, v: u8, c: bool) -> (r: (u8, bool))
    requires
        y < 8,
    ensures
        r == rot_spec(y, v, c),
{
    let cin: u8 = if c { 1 } else { 0 };
    if y == 0 {
        ((v % 128) * 2 + v / 128, v >= 128)
    } else if y == 1 {
        (v / 2 + 128 * (v % 2), v % 2 == 1)
    } else if y == 2 {
        ((v % 128) * 2 + cin, v >= 128)
    } else if y == 3 {
        (v / 2 + 128 * cin, v % 2 == 1)
    } else if y == 4 {
        ((v % 128) * 2, v >= 128)
    } else if y == 5 {
        (v / 2 + 128 * (v / 128), v % 2 == 1)
    } else if y == 6 {
        (16 * (v % 16) + v / 16, false)
    } else {
        (v / 2, v % 2 == 1)
    }
}

/// A CB-prefixed rotation or shift: (result, F) with Z from the result,
/// N and H cleared, C from the bit shifted out (SWAP clears C).
pub open spec fn cb_rot_spec(y: u8, v: u8, f: u8) -> (u8, u8) {
    let (r, c) = rot_spec(y, v, flag_c(f));
    (r, flags_spec(r == 0, false, false, c))
}

pub fn cb_rot(y: u8, v: u8, f: u8) -> (r: (u8, u8))
    requires
        y < 8,
    ensures
        r == cb_rot_spec(y, v, f),
{
    let (r, c) = rotate(y, v, carry_flag(f));
    (r, flags(r == 0, false, false, c))
}

/// The accumulator rotations RLCA, RRCA, RLA, RRA: as rot[y] for y < 4, but Z is cleared.
pub open spec fn acc_rot_spec(y: u8, a: u8, f: u8) -> (u8, u8) {
    let (r, c) = rot_spec(y, a, flag_c(f));
    (r, flags_spec(false, false, false, c))
}

pub fn acc_rot(y: u8, a: u8, f: u8) -> (r: (u8, u8))
    requires
        y < 4,
    ensures
        r == acc_rot_spec(y, a, f),
{
    let (r, c) = rotate(y, a, carry_flag(f));
    (r, flags(false, false, false, c))
}

// ---------------------------------------------------------------------------
// BIT, RES, SET.
pub open spec fn bit_mask(b: u8) -> u8 {
    if b == 0 {
        1
    } else if b == 1 {
        2
    } else if b == 2 {
        4
    } else if b == 3 {
        8
    } else if b == 4 {
        16
    } else if b == 5 {
        32
    } else if b == 6 {
        64
    } else {
        128
    }
}

pub fn mask(b: u8) -> (r: u8)
    requires
        b < 8,
    ensures
        r == bit_mask(b),
{
    if b == 0 {
        1
    } else if b == 1 {
        2
    } else if b == 2 {
        4
    } else if b == 3 {
        8
    } else if b == 4 {
        16
    } else if b == 5 {
        32
    } else if b == 6 {
        64
    } else {
        128
    }
}

/// F after `BIT b, v`: Z set when the bit is clear, N cleared, H set, C kept.
pub open spec fn bit_spec(b: u8, v: u8, f: u8) -> u8 {
    flags_spec(v & bit_mask(b) == 0, false, true, flag_c(f))
}

pub fn test_bit(b: u8, v: u8, f: u8) -> (r: u8)
    requires
        b < 8,
    ensures
        r == bit_spec(b, v, f),
{
    flags(v & mask(b) == 0, false, true, carry_flag(f))
}

pub open spec fn res_spec(b: u8, v: u8) -> u8 {
    v & !bit_mask(b)
}

pub open spec fn set_spec(b: u8, v: u8) -> u8 {
    v | bit_mask(b)
}

// ---------------------------------------------------------------------------
// DAA, CPL, SCF, CCF.
/// Decimal adjust of A after a BCD addition or subtraction: (A, F).
pub open spec fn daa_spec(a: u8, f: u8) -> (u8, u8) {
    if !flag_n(f) {
        let c = flag_c(f) || a > 0x99;
        let a1 = if c { (a + 0x60) % 256 } else { a as int };
        let a2 = if flag_h(f) || a1 % 16 > 9 { (a1 + 6) % 256 } else { a1 };
        (a2 as u8, flags_spec(a2 == 0, false, false, c))
    } else {
        let a1 = if flag_c(f) { (a + 256 - 0x60) % 256 } else { a as int };
        let a2 = if flag_h(f) { (a1 + 256 - 6) % 256 } else { a1 };
        (a2 as u8, flags_spec(a2 == 0, true, false, flag_c(f)))
    }
}

pub fn daa(a: u8, f: u8) -> (r: (u8, u8))
    ensures
        r == daa_spec(a, f),
{
    if !negative_flag(f) {
        let c = carry_flag(f) || a > 0x99;
        let a1: u8 = if c { ((a as u16 + 0x60) % 256) as u8 } else { a };
        let a2: u8 = if half_flag(f) || a1 % 16 > 9 { ((a1 as u16 + 6) % 256) as u8 } else { a1 };
        (a2, flags(a2 == 0, false, false, c))
    } else {
        let a1: u8 = if carry_flag(f) { ((a as u16 + 256 - 0x60) % 256) as u8 } else { a };
        let a2: u8 = if half_flag(f) { ((a1 as u16 + 256 - 6) % 256) as u8 } else { a1 };
        (a2, flags(a2 == 0, true, false, carry_flag(f)))
    }
}

/// 16-bit `sp + d` with `d` a signed byte; H and C come from the unsigned
/// addition of the low byte of `sp` and `d`. Z and N are cleared.
pub open spec fn sp_offset_spec(sp: u16, d: u8) -> (u16, u8) {
    let offset = if d < 128 { d as int } else { d - 256 };
    (((sp + offset + 65536) % 65536) as u16, flags_spec(
        false,
        false,
        sp % 16 + d % 16 > 15,
        sp % 256 + d > 255,
    ))
}

pub fn sp_offset(sp: u16, d: u8) -> (r: (u16, u8))
    ensures
        r == sp_offset_spec(sp, d),
{
    let r: u16 = if d < 128 {
        ((sp as u32 + d as u32) % 65536) as u16
    } else {
        ((sp as u32 + 65536 + d as u32 - 256) % 65536) as u16
    };
    (r, flags(false, false, sp % 16 + (d % 16) as u16 > 15, sp % 256 + (d as u16) > 255))
}

/// `pc + d` with `d` a signed byte, wrapping at 16 bits.
pub open spec fn rel_jump_spec(pc: u16, d: u8) -> u16 {
    let offset = if d < 128 { d as int } else { d - 256 };
    ((pc + offset + 65536) % 65536) as u16
}

pub fn rel_jump(pc: u16, d: u8) -> (r: u16)
    ensures
        r == rel_jump_spec(pc, d),
{
    if d < 128 {
        ((pc as u32 + d as u32) % 65536) as u16
    } else {
        ((pc as u32 + 65536 + d as u32 - 256) % 65536) as u16
    }
}

// ---------------------------------------------------------------------------
// Laws.
/// AND, OR and XOR on A obey Boolean algebra: each is the bitwise operation,
/// AND and OR commute, XOR is OR without AND, XOR with itself clears A,
/// and `AND 0xFF` keeps A with Z = (A == 0), N = 0, H = 1, C = 0.
pub proof fn lemma_logic_ops(a: u8, b: u8, f: u8)
    ensures
        alu_spec(4, a, b, f).0 == a & b,
        alu_spec(5, a, b, f).0 == a ^ b,
        alu_spec(6, a, b, f).0 == a | b,
        alu_spec(4, a, b, f) == alu_spec(4, b, a, f),
        alu_spec(6, a, b, f) == alu_spec(6, b, a, f),
        alu_spec(5, a, b, f).0 == alu_spec(6, a, b, f).0 & !alu_spec(4, a, b, f).0,
        alu_spec(5, a, a, f) == (0u8, flags_spec(true, false, false, false)),
        alu_spec(4, a, 0xFF, f) == (a, flags_spec(a == 0, false, true, false)),
{
    reveal(alu_spec);
    assert(a & b == b & a) by (bit_vector);
    assert(a | b == b | a) by (bit_vector);
    assert(a ^ b == (a | b) & !(a & b)) by (bit_vector);
    assert(a ^ a == 0) by (bit_vector);
    assert(a & 0xFF == a) by (bit_vector);
}

/// CP gives the flags of SUB and leaves A as it was.
pub proof fn lemma_cp_is_sub_without_store(a: u8, b: u8, f: u8)
    ensures
        alu_spec(7, a, b, f).1 == alu_spec(2, a, b, f).1,
        alu_spec(7, a, b, f).0 == a,
{
    reveal(alu_spec);
}

/// INC then DEC restores the byte; Z, N and H are those of the DEC and C is kept.
pub proof fn lemma_inc_then_dec(v: u8, f: u8)
    ensures
        dec_spec(inc_spec(v, f).0, inc_spec(v, f).1).0 == v,
        dec_spec(inc_spec(v, f).0, inc_spec(v, f).1).1 == flags_spec(
            v == 0,
            true,
            inc_spec(v, f).0 % 16 == 0,
            flag_c(f),
        ),
{
    let f1 = inc_spec(v, f).1;
    assert(flag_c(flags_spec(v == 255, false, v % 16 == 15, flag_c(f))) == flag_c(f));
}

/// rot[y] applied `n` times, the carry out of each step feeding the next.
pub open spec fn rot_iter(y: u8, v: u8, c: bool, n: nat) -> (u8, bool)
    decreases n,
{
    if n == 0 {
        (v, c)
    } else {
        let (v1, c1) = rot_spec(y, v, c);
        rot_iter(y, v1, c1, (n - 1) as nat)
    }
}

/// Eight RLC or eight RRC give back the byte; RL and RR rotate the nine bits
/// of byte and carry, so nine of them give back both.
pub proof fn lemma_rotation_cycles(v: u8, c: bool)
    ensures
        rot_iter(0, v, c, 8).0 == v,
        rot_iter(1, v, c, 8).0 == v,
        rot_iter(2, v, c, 9) == (v, c),
        rot_iter(3, v, c, 9) == (v, c),
{
    lemma_rlc_cycle(v, c);
    lemma_rrc_cycle(v, c);
    lemma_rl_cycle(v, c);
    lemma_rr_cycle(v, c);
}

proof fn lemma_rlc_cycle(v: u8, c: bool)
    ensures
        rot_iter(0, v, c, 8).0 == v,
{
    let s0 = (v, c);
    let s1 = rot_spec(0, s0.0, s0.1);
    let s2 = rot_spec(0, s1.0, s1.1);
    let s3 = rot_spec(0, s2.0, s2.1);
    let s4 = rot_spec(0, s3.0, s3.1);
    let s5 = rot_spec(0, s4.0, s4.1);
    let s6 = rot_spec(0, s5.0, s5.1);
    let s7 = rot_spec(0, s6.0, s6.1);
    let s8 = rot_spec(0, s7.0, s7.1);
    assert(rot_iter(0, s0.0, s0.1, 8) == rot_iter(0, s1.0, s1.1, 7));
    assert(rot_iter(0, s1.0, s1.1, 7) == rot_iter(0, s2.0, s2.1, 6));
    assert(rot_iter(0, s2.0, s2.1, 6) == rot_iter(0, s3.0, s3.1, 5));
    assert(rot_iter(0, s3.0, s3.1, 5) == rot_iter(0, s4.0, s4.1, 4));
    assert(rot_iter(0, s4.0, s4.1, 4) == rot_iter(0, s5.0, s5.1, 3));
    assert(rot_iter(0, s5.0, s5.1, 3) == rot_iter(0, s6.0, s6.1, 2));
    assert(rot_iter(0, s6.0, s6.1, 2) == rot_iter(0, s7.0, s7.1, 1));
    assert(rot_iter(0, s7.0, s7.1, 1) == rot_iter(0, s8.0, s8.1, 0));
    assert(rot_iter(0, s8.0, s8.1, 0) == s8);
    let ci: u8 = if c { 1 } else { 0 };
    let v1: u8 = s1.0;
    let c1: u8 = if s1.1 { 1 } else { 0 };
    let v2: u8 = s2.0;
    let c2: u8 = if s2.1 { 1 } else { 0 };
    let v3: u8 = s3.0;
    let c3: u8 = if s3.1 { 1 } else { 0 };
    let v4: u8 = s4.0;
    let c4: u8 = if s4.1 { 1 } else { 0 };
    let v5: u8 = s5.0;
    let c5: u8 = if s5.1 { 1 } else { 0 };
    let v6: u8 = s6.0;
    let c6: u8 = if s6.1 { 1 } else { 0 };
    let v7: u8 = s7.0;
    let c7: u8 = if s7.1 { 1 } else { 0 };
    let v8: u8 = s8.0;
    let c8: u8 = if s8.1 { 1 } else { 0 };
    assert(v8 == v) by (bit_vector)
        requires
            v1 == (((2 * v) % 256 + v / 128) as u8),
            v2 == (((2 * v1) % 256 + v1 / 128) as u8),
            v3 == (((2 * v2) % 256 + v2 / 128) as u8),
            v4 == (((2 * v3) % 256 + v3 / 128) as u8),
            v5 == (((2 * v4) % 256 + v4 / 128) as u8),
            v6 == (((2 * v5) % 256 + v5 / 128) as u8),
            v7 == (((2 * v6) % 256 + v6 / 128) as u8),
            v8 == (((2 * v7) % 256 + v7 / 128) as u8),
    ;
}
proof fn lemma_rrc_cycle(v: u8, c: bool)
    ensures
        rot_iter(1, v, c, 8).0 == v,
{
    let s0 = (v, c);
    let s1 = rot_spec(1, s0.0, s0.1);
    let s2 = rot_spec(1, s1.0, s1.1);
    let s3 = rot_spec(1, s2.0, s2.1);
    let s4 = rot_spec(1, s3.0, s3.1);
    let s5 = rot_spec(1, s4.0, s4.1);
    let s6 = rot_spec(1, s5.0, s5.1);
    let s7 = rot_spec(1, s6.0, s6.1);
    let s8 = rot_spec(1, s7.0, s7.1);
    assert(rot_iter(1, s0.0, s0.1, 8) == rot_iter(1, s1.0, s1.1, 7));
    assert(rot_iter(1, s1.0, s1.1, 7) == rot_iter(1, s2.0, s2.1, 6));
    assert(rot_iter(1, s2.0, s2.1, 6) == rot_iter(1, s3.0, s3.1, 5));
    assert(rot_iter(1, s3.0, s3.1, 5) == rot_iter(1, s4.0, s4.1, 4));
    assert(rot_iter(1, s4.0, s4.1, 4) == rot_iter(1, s5.0, s5.1, 3));
    assert(rot_iter(1, s5.0, s5.1, 3) == rot_iter(1, s6.0, s6.1, 2));
    assert(rot_iter(1, s6.0, s6.1, 2) == rot_iter(1, s7.0, s7.1, 1));
    assert(rot_iter(1, s7.0, s7.1, 1) == rot_iter(1, s8.0, s8.1, 0));
    assert(rot_iter(1, s8.0, s8.1, 0) == s8);
    let ci: u8 = if c { 1 } else { 0 };
    let v1: u8 = s1.0;
    let c1: u8 = if s1.1 { 1 } else { 0 };
    let v2: u8 = s2.0;
    let c2: u8 = if s2.1 { 1 } else { 0 };
    let v3: u8 = s3.0;
    let c3: u8 = if s3.1 { 1 } else { 0 };
    let v4: u8 = s4.0;
    let c4: u8 = if s4.1 { 1 } else { 0 };
    let v5: u8 = s5.0;
    let c5: u8 = if s5.1 { 1 } else { 0 };
    let v6: u8 = s6.0;
    let c6: u8 = if s6.1 { 1 } else { 0 };
    let v7: u8 = s7.0;
    let c7: u8 = if s7.1 { 1 } else { 0 };
    let v8: u8 = s8.0;
    let c8: u8 = if s8.1 { 1 } else { 0 };
    assert(v8 == v) by (bit_vector)
        requires
            v1 == ((v / 2 + 128 * (v % 2)) as u8),
            v2 == ((v1 / 2 + 128 * (v1 % 2)) as u8),
            v3 == ((v2 / 2 + 128 * (v2 % 2)) as u8),
            v4 == ((v3 / 2 + 128 * (v3 % 2)) as u8),
            v5 == ((v4 / 2 + 128 * (v4 % 2)) as u8),
            v6 == ((v5 / 2 + 128 * (v5 % 2)) as u8),
            v7 == ((v6 / 2 + 128 * (v6 % 2)) as u8),
            v8 == ((v7 / 2 + 128 * (v7 % 2)) as u8),
    ;
}
proof fn lemma_rl_cycle(v: u8, c: bool)
    ensures
        rot_iter(2, v, c, 9) == (v, c),
{
    let s0 = (v, c);
    let s1 = rot_spec(2, s0.0, s0.1);
    let s2 = rot_spec(2, s1.0, s1.1);
    let s3 = rot_spec(2, s2.0, s2.1);
    let s4 = rot_spec(2, s3.0, s3.1);
    let s5 = rot_spec(2, s4.0, s4.1);
    let s6 = rot_spec(2, s5.0, s5.1);
    let s7 = rot_spec(2, s6.0, s6.1);
    let s8 = rot_spec(2, s7.0, s7.1);
    let s9 = rot_spec(2, s8.0, s8.1);
    assert(rot_iter(2, s0.0, s0.1, 9) == rot_iter(2, s1.0, s1.1, 8));
    assert(rot_iter(2, s1.0, s1.1, 8) == rot_iter(2, s2.0, s2.1, 7));
    assert(rot_iter(2, s2.0, s2.1, 7) == rot_iter(2, s3.0, s3.1, 6));
    assert(rot_iter(2, s3.0, s3.1, 6) == rot_iter(2, s4.0, s4.1, 5));
    assert(rot_iter(2, s4.0, s4.1, 5) == rot_iter(2, s5.0, s5.1, 4));
    assert(rot_iter(2, s5.0, s5.1, 4) == rot_iter(2, s6.0, s6.1, 3));
    assert(rot_iter(2, s6.0, s6.1, 3) == rot_iter(2, s7.0, s7.1, 2));
    assert(rot_iter(2, s7.0, s7.1, 2) == rot_iter(2, s8.0, s8.1, 1));
    assert(rot_iter(2, s8.0, s8.1, 1) == rot_iter(2, s9.0, s9.1, 0));
    assert(rot_iter(2, s9.0, s9.1, 0) == s9);
    let ci: u8 = if c { 1 } else { 0 };
    let v1: u8 = s1.0;
    let c1: u8 = if s1.1 { 1 } else { 0 };
    let v2: u8 = s2.0;
    let c2: u8 = if s2.1 { 1 } else { 0 };
    let v3: u8 = s3.0;
    let c3: u8 = if s3.1 { 1 } else { 0 };
    let v4: u8 = s4.0;
    let c4: u8 = if s4.1 { 1 } else { 0 };
    let v5: u8 = s5.0;
    let c5: u8 = if s5.1 { 1 } else { 0 };
    let v6: u8 = s6.0;
    let c6: u8 = if s6.1 { 1 } else { 0 };
    let v7: u8 = s7.0;
    let c7: u8 = if s7.1 { 1 } else { 0 };
    let v8: u8 = s8.0;
    let c8: u8 = if s8.1 { 1 } else { 0 };
    let v9: u8 = s9.0;
    let c9: u8 = if s9.1 { 1 } else { 0 };
    assert(v9 == v && c9 == ci) by (bit_vector)
        requires
            ci <= 1,
            v1 == (((2 * v) % 256 + ci) as u8),
            c1 == (if v >= 128 { 1u8 } else { 0u8 }),
            v2 == (((2 * v1) % 256 + c1) as u8),
            c2 == (if v1 >= 128 { 1u8 } else { 0u8 }),
            v3 == (((2 * v2) % 256 + c2) as u8),
            c3 == (if v2 >= 128 { 1u8 } else { 0u8 }),
            v4 == (((2 * v3) % 256 + c3) as u8),
            c4 == (if v3 >= 128 { 1u8 } else { 0u8 }),
            v5 == (((2 * v4) % 256 + c4) as u8),
            c5 == (if v4 >= 128 { 1u8 } else { 0u8 }),
            v6 == (((2 * v5) % 256 + c5) as u8),
            c6 == (if v5 >= 128 { 1u8 } else { 0u8 }),
            v7 == (((2 * v6) % 256 + c6) as u8),
            c7 == (if v6 >= 128 { 1u8 } else { 0u8 }),
            v8 == (((2 * v7) % 256 + c7) as u8),
            c8 == (if v7 >= 128 { 1u8 } else { 0u8 }),
            v9 == (((2 * v8) % 256 + c8) as u8),
            c9 == (if v8 >= 128 { 1u8 } else { 0u8 }),
    ;
}
proof fn lemma_rr_cycle(v: u8, c: bool)
    ensures
        rot_iter(3, v, c, 9) == (v, c),
{
    let s0 = (v, c);
    let s1 = rot_spec(3, s0.0, s0.1);
    let s2 = rot_spec(3, s1.0, s1.1);
    let s3 = rot_spec(3, s2.0, s2.1);
    let s4 = rot_spec(3, s3.0, s3.1);
    let s5 = rot_spec(3, s4.0, s4.1);
    let s6 = rot_spec(3, s5.0, s5.1);
    let s7 = rot_spec(3, s6.0, s6.1);
    let s8 = rot_spec(3, s7.0, s7.1);
    let s9 = rot_spec(3, s8.0, s8.1);
    assert(rot_iter(3, s0.0, s0.1, 9) == rot_iter(3, s1.0, s1.1, 8));
    assert(rot_iter(3, s1.0, s1.1, 8) == rot_iter(3, s2.0, s2.1, 7));
    assert(rot_iter(3, s2.0, s2.1, 7) == rot_iter(3, s3.0, s3.1, 6));
    assert(rot_iter(3, s3.0, s3.1, 6) == rot_iter(3, s4.0, s4.1, 5));
    assert(rot_iter(3, s4.0, s4.1, 5) == rot_iter(3, s5.0, s5.1, 4));
    assert(rot_iter(3, s5.0, s5.1, 4) == rot_iter(3, s6.0, s6.1, 3));
    assert(rot_iter(3, s6.0, s6.1, 3) == rot_iter(3, s7.0, s7.1, 2));
    assert(rot_iter(3, s7.0, s7.1, 2) == rot_iter(3, s8.0, s8.1, 1));
    assert(rot_iter(3, s8.0, s8.1, 1) == rot_iter(3, s9.0, s9.1, 0));
    assert(rot_iter(3, s9.0, s9.1, 0) == s9);
    let ci: u8 = if c { 1 } else { 0 };
    let v1: u8 = s1.0;
    let c1: u8 = if s1.1 { 1 } else { 0 };
    let v2: u8 = s2.0;
    let c2: u8 = if s2.1 { 1 } else { 0 };
    let v3: u8 = s3.0;
    let c3: u8 = if s3.1 { 1 } else { 0 };
    let v4: u8 = s4.0;
    let c4: u8 = if s4.1 { 1 } else { 0 };
    let v5: u8 = s5.0;
    let c5: u8 = if s5.1 { 1 } else { 0 };
    let v6: u8 = s6.0;
    let c6: u8 = if s6.1 { 1 } else { 0 };
    let v7: u8 = s7.0;
    let c7: u8 = if s7.1 { 1 } else { 0 };
    let v8: u8 = s8.0;
    let c8: u8 = if s8.1 { 1 } else { 0 };
    let v9: u8 = s9.0;
    let c9: u8 = if s9.1 { 1 } else { 0 };
    assert(v9 == v && c9 == ci) by (bit_vector)
        requires
            ci <= 1,
            v1 == ((v / 2 + 128 * ci) as u8),
            c1 == (if v % 2 == 1 { 1u8 } else { 0u8 }),
            v2 == ((v1 / 2 + 128 * c1) as u8),
            c2 == (if v1 % 2 == 1 { 1u8 } else { 0u8 }),
            v3 == ((v2 / 2 + 128 * c2) as u8),
            c3 == (if v2 % 2 == 1 { 1u8 } else { 0u8 }),
            v4 == ((v3 / 2 + 128 * c3) as u8),
            c4 == (if v3 % 2 == 1 { 1u8 } else { 0u8 }),
            v5 == ((v4 / 2 + 128 * c4) as u8),
            c5 == (if v4 % 2 == 1 { 1u8 } else { 0u8 }),
            v6 == ((v5 / 2 + 128 * c5) as u8),
            c6 == (if v5 % 2 == 1 { 1u8 } else { 0u8 }),
            v7 == ((v6 / 2 + 128 * c6) as u8),
            c7 == (if v6 % 2 == 1 { 1u8 } else { 0u8 }),
            v8 == ((v7 / 2 + 128 * c7) as u8),
            c8 == (if v7 % 2 == 1 { 1u8 } else { 0u8 }),
            v9 == ((v8 / 2 + 128 * c8) as u8),
            c9 == (if v8 % 2 == 1 { 1u8 } else { 0u8 }),
    ;
}
} // verus!
