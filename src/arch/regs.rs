use vstd::prelude::*;
use crate::arch::SystemMode;
use crate::arch::alu::{flag_c, flag_z};

verus! {

/// The register file. F's low four bits are always zero.
#[derive(Clone, Copy, Debug, PartialEq, Eq, Structural)]
pub struct Regs {
    pub a: u8,
    pub f: u8,
    pub b: u8,
    pub c: u8,
    pub d: u8,
    pub e: u8,
    pub h: u8,
    pub l: u8,
    pub sp: u16,
    pub pc: u16,
}

#[verifier::opaque]
pub open spec fn pair(hi: u8, lo: u8) -> u16 {
    (hi * 256 + lo) as u16
}

#[verifier::opaque]
pub open spec fn hi_byte(w: u16) -> u8 {
    (w / 256) as u8
}

#[verifier::opaque]
pub open spec fn lo_byte(w: u16) -> u8 {
    (w % 256) as u8
}

/// `w + 1` and `w - 1` wrapping at 16 bits.
pub open spec fn inc16(w: u16) -> u16 {
    ((w + 1) % 65536) as u16
}

pub open spec fn dec16(w: u16) -> u16 {
    ((w + 65535) % 65536) as u16
}

/// The power-on registers of each mode.
pub open spec fn initial_regs(mode: SystemMode) -> Regs {
    match mode {
        SystemMode::Gameboy => Regs { a: 0x01, f: 0xB0, b: 0x00, c: 0x13, d: 0x00, e: 0xD8, h: 0x01, l: 0x4D, sp: 0xFFFE, pc: 0 },
        SystemMode::GameboyPocket => Regs { a: 0xFF, f: 0xB0, b: 0x00, c: 0x13, d: 0x00, e: 0xD8, h: 0x01, l: 0x4D, sp: 0xFFFE, pc: 0 },
        SystemMode::SuperGameboy => Regs { a: 0x01, f: 0x00, b: 0x00, c: 0x14, d: 0x00, e: 0x00, h: 0xC0, l: 0x60, sp: 0xFFFE, pc: 0 },
        SystemMode::GameboyColorDMG => Regs { a: 0x11, f: 0x80, b: 0x00, c: 0x00, d: 0x00, e: 0x08, h: 0x00, l: 0x7C, sp: 0xFFFE, pc: 0 },
        _ => Regs { a: 0x11, f: 0x80, b: 0x00, c: 0x00, d: 0xFF, e: 0x56, h: 0x00, l: 0x0D, sp: 0xFFFE, pc: 0 },
    }
}

/// r[i]: 0=B, 1=C, 2=D, 3=E, 4=H, 5=L, 7=A (6 is the memory operand (HL)).
pub open spec fn r8_spec(r: Regs, i: u8) -> u8 {
    if i == 0 { r.b } else if i == 1 { r.c } else if i == 2 { r.d } else if i == 3 { r.e }
    else if i == 4 { r.h } else if i == 5 { r.l } else { r.a }
}

pub open spec fn set_r8_spec(r: Regs, i: u8, v: u8) -> Regs {
    if i == 0 { Regs { b: v, ..r } } else if i == 1 { Regs { c: v, ..r } }
    else if i == 2 { Regs { d: v, ..r } } else if i == 3 { Regs { e: v, ..r } }
    else if i == 4 { Regs { h: v, ..r } } else if i == 5 { Regs { l: v, ..r } }
    else { Regs { a: v, ..r } }
}

/// rp[p]: 0=BC, 1=DE, 2=HL, 3=SP.
pub open spec fn rp_spec(r: Regs, p: u8) -> u16 {
    if p == 0 { r.bc_spec() } else if p == 1 { r.de_spec() } else if p == 2 { r.hl_spec() } else { r.sp }
}

pub open spec fn set_rp_spec(r: Regs, p: u8, v: u16) -> Regs {
    if p == 0 { Regs { b: hi_byte(v), c: lo_byte(v), ..r } }
    else if p == 1 { Regs { d: hi_byte(v), e: lo_byte(v), ..r } }
    else if p == 2 { Regs { h: hi_byte(v), l: lo_byte(v), ..r } }
    else { Regs { sp: v, ..r } }
}

/// rp2[p]: 0=BC, 1=DE, 2=HL, 3=AF.
pub open spec fn rp2_spec(r: Regs, p: u8) -> u16 {
    if p == 3 { r.af_spec() } else { rp_spec(r, p) }
}

/// A write to AF keeps only the high nibble of the F byte.
pub open spec fn set_rp2_spec(r: Regs, p: u8, v: u16) -> Regs {
    if p == 3 { Regs { a: hi_byte(v), f: (lo_byte(v) / 16 * 16) as u8, ..r } } else { set_rp_spec(r, p, v) }
}

/// cc[i]: 0=NZ, 1=Z, 2=NC, 3=C.
pub open spec fn cond_spec(f: u8, cc: u8) -> bool {
    if cc == 0 { !flag_z(f) } else if cc == 1 { flag_z(f) } else if cc == 2 { !flag_c(f) } else { flag_c(f) }
}

impl Regs {
    pub open spec fn wf(&self) -> bool {
        self.f % 16 == 0
    }

    pub open spec fn af_spec(&self) -> u16 {
        pair(self.a, self.f)
    }

    pub open spec fn bc_spec(&self) -> u16 {
        pair(self.b, self.c)
    }

    pub open spec fn de_spec(&self) -> u16 {
        pair(self.d, self.e)
    }

    pub open spec fn hl_spec(&self) -> u16 {
        pair(self.h, self.l)
    }

    /// The SuperGameboy2 mode is not provided.
    pub fn new(mode: SystemMode) -> (r: Self)
        requires
            mode != SystemMode::SuperGameboy2,
        ensures
            r == initial_regs(mode),
            r.wf(),
    {
        reveal(pair);
        reveal(hi_byte);
        reveal(lo_byte);
        match mode {
            SystemMode::Gameboy => Regs { a: 0x01, f: 0xB0, b: 0x00, c: 0x13, d: 0x00, e: 0xD8, h: 0x01, l: 0x4D, sp: 0xFFFE, pc: 0 },
            SystemMode::GameboyPocket => Regs { a: 0xFF, f: 0xB0, b: 0x00, c: 0x13, d: 0x00, e: 0xD8, h: 0x01, l: 0x4D, sp: 0xFFFE, pc: 0 },
            SystemMode::SuperGameboy => Regs { a: 0x01, f: 0x00, b: 0x00, c: 0x14, d: 0x00, e: 0x00, h: 0xC0, l: 0x60, sp: 0xFFFE, pc: 0 },
            SystemMode::GameboyColorDMG => Regs { a: 0x11, f: 0x80, b: 0x00, c: 0x00, d: 0x00, e: 0x08, h: 0x00, l: 0x7C, sp: 0xFFFE, pc: 0 },
            _ => Regs { a: 0x11, f: 0x80, b: 0x00, c: 0x00, d: 0xFF, e: 0x56, h: 0x00, l: 0x0D, sp: 0xFFFE, pc: 0 },
        }
    }

    pub fn af(&self) -> (r: u16)
        ensures
            r == self.af_spec(),
            r == self.a * 256 + self.f,
    {
        reveal(pair);
        reveal(hi_byte);
        reveal(lo_byte);
        self.a as u16 * 256 + self.f as u16
    }

    pub fn bc(&self) -> (r: u16)
        ensures
            r == self.bc_spec(),
            r == self.b * 256 + self.c,
    {
        reveal(pair);
        reveal(hi_byte);
        reveal(lo_byte);
        self.b as u16 * 256 + self.c as u16
    }

    pub fn de(&self) -> (r: u16)
        ensures
            r == self.de_spec(),
            r == self.d * 256 + self.e,
    {
        reveal(pair);
        reveal(hi_byte);
        reveal(lo_byte);
        self.d as u16 * 256 + self.e as u16
    }

    pub fn hl(&self) -> (r: u16)
        ensures
            r == self.hl_spec(),
            r == self.h * 256 + self.l,
    {
        reveal(pair);
        reveal(hi_byte);
        reveal(lo_byte);
        self.h as u16 * 256 + self.l as u16
    }

    pub fn splo(&self) -> (r: u8)
        ensures
            r == lo_byte(self.sp),
    {
        reveal(pair);
        reveal(hi_byte);
        reveal(lo_byte);
        (self.sp % 256) as u8
    }

    pub fn sphi(&self) -> (r: u8)
        ensures
            r == hi_byte(self.sp),
    {
        reveal(pair);
        reveal(hi_byte);
        reveal(lo_byte);
        (self.sp / 256) as u8
    }

    pub fn pclo(&self) -> (r: u8)
        ensures
            r == lo_byte(self.pc),
    {
        reveal(pair);
        reveal(hi_byte);
        reveal(lo_byte);
        (self.pc % 256) as u8
    }

    pub fn pchi(&self) -> (r: u8)
        ensures
            r == hi_byte(self.pc),
    {
        reveal(pair);
        reveal(hi_byte);
        reveal(lo_byte);
        (self.pc / 256) as u8
    }

    /// A gets the high byte; F gets the low byte with its low nibble cleared.
    pub fn set_af(&mut self, val: u16)
        ensures
            *final(self) == set_rp2_spec(*old(self), 3, val),
            final(self).wf(),
    {
        reveal(pair);
        reveal(hi_byte);
        reveal(lo_byte);
        self.a = (val / 256) as u8;
        self.f = ((val % 256) / 16 * 16) as u8;
    }

    pub fn set_bc(&mut self, val: u16)
        ensures
            *final(self) == set_rp_spec(*old(self), 0, val),
    {
        reveal(pair);
        reveal(hi_byte);
        reveal(lo_byte);
        self.b = (val / 256) as u8;
        self.c = (val % 256) as u8;
    }

    pub fn set_de(&mut self, val: u16)
        ensures
            *final(self) == set_rp_spec(*old(self), 1, val),
    {
        reveal(pair);
        reveal(hi_byte);
        reveal(lo_byte);
        self.d = (val / 256) as u8;
        self.e = (val % 256) as u8;
    }

    pub fn set_hl(&mut self, val: u16)
        ensures
            *final(self) == set_rp_spec(*old(self), 2, val),
    {
        reveal(pair);
        reveal(hi_byte);
        reveal(lo_byte);
        self.h = (val / 256) as u8;
        self.l = (val % 256) as u8;
    }

    pub fn set_splo(&mut self, val: u8)
        ensures
            *final(self) == (Regs { sp: pair(hi_byte(old(self).sp), val), ..*old(self) }),
    {
        reveal(pair);
        reveal(hi_byte);
        reveal(lo_byte);
        self.sp = self.sp / 256 * 256 + val as u16;
    }

    pub fn set_sphi(&mut self, val: u8)
        ensures
            *final(self) == (Regs { sp: pair(val, lo_byte(old(self).sp)), ..*old(self) }),
    {
        reveal(pair);
        reveal(hi_byte);
        reveal(lo_byte);
        self.sp = val as u16 * 256 + self.sp % 256;
    }

    pub fn set_pclo(&mut self, val: u8)
        ensures
            *final(self) == (Regs { pc: pair(hi_byte(old(self).pc), val), ..*old(self) }),
    {
        reveal(pair);
        reveal(hi_byte);
        reveal(lo_byte);
        self.pc = self.pc / 256 * 256 + val as u16;
    }

    pub fn set_pchi(&mut self, val: u8)
        ensures
            *final(self) == (Regs { pc: pair(val, lo_byte(old(self).pc)), ..*old(self) }),
    {
        reveal(pair);
        reveal(hi_byte);
        reveal(lo_byte);
        self.pc = val as u16 * 256 + self.pc % 256;
    }

    pub fn r8(&self, i: u8) -> (r: u8)
        ensures
            r == r8_spec(*self, i),
    {
        reveal(pair);
        reveal(hi_byte);
        reveal(lo_byte);
        if i == 0 { self.b } else if i == 1 { self.c } else if i == 2 { self.d } else if i == 3 { self.e }
        else if i == 4 { self.h } else if i == 5 { self.l } else { self.a }
    }

    pub fn set_r8(&mut self, i: u8, v: u8)
        ensures
            *final(self) == set_r8_spec(*old(self), i, v),
    {
        reveal(pair);
        reveal(hi_byte);
        reveal(lo_byte);
        if i == 0 { self.b = v; } else if i == 1 { self.c = v; } else if i == 2 { self.d = v; }
        else if i == 3 { self.e = v; } else if i == 4 { self.h = v; } else if i == 5 { self.l = v; }
        else { self.a = v; }
    }

    pub fn rp(&self, p: u8) -> (r: u16)
        ensures
            r == rp_spec(*self, p),
    {
        reveal(pair);
        reveal(hi_byte);
        reveal(lo_byte);
        if p == 0 { self.bc() } else if p == 1 { self.de() } else if p == 2 { self.hl() } else { self.sp }
    }

    pub fn set_rp(&mut self, p: u8, v: u16)
        ensures
            *final(self) == set_rp_spec(*old(self), p, v),
    {
        reveal(pair);
        reveal(hi_byte);
        reveal(lo_byte);
        if p == 0 { self.set_bc(v); } else if p == 1 { self.set_de(v); } else if p == 2 { self.set_hl(v); }
        else { self.sp = v; }
    }

    pub fn rp2(&self, p: u8) -> (r: u16)
        ensures
            r == rp2_spec(*self, p),
    {
        reveal(pair);
        reveal(hi_byte);
        reveal(lo_byte);
        if p == 3 { self.af() } else { self.rp(p) }
    }

    pub fn set_rp2(&mut self, p: u8, v: u16)
        ensures
            *final(self) == set_rp2_spec(*old(self), p, v),
    {
        reveal(pair);
        reveal(hi_byte);
        reveal(lo_byte);
        if p == 3 { self.set_af(v); } else { self.set_rp(p, v); }
    }

    pub fn cond(&self, cc: u8) -> (r: bool)
        ensures
            r == cond_spec(self.f, cc),
    {
        reveal(pair);
        reveal(hi_byte);
        reveal(lo_byte);
        if cc == 0 { self.f < 128 } else if cc == 1 { self.f >= 128 }
        else if cc == 2 { (self.f / 16) % 2 == 0 } else { (self.f / 16) % 2 == 1 }
    }
}

/// A pair splits back into its two bytes, and a word is the pair of its bytes.
pub proof fn lemma_pair_bytes(h: u8, l: u8, w: u16)
    ensures
        hi_byte(pair(h, l)) == h,
        lo_byte(pair(h, l)) == l,
        pair(hi_byte(w), lo_byte(w)) == w,
{
    reveal(pair);
    reveal(hi_byte);
    reveal(lo_byte);
}

/// Writing a pair's own value back leaves the registers as they were.
pub proof fn lemma_set_rp2_same(r: Regs, q: u8)
    requires
        r.wf(),
    ensures
        set_rp2_spec(r, q, rp2_spec(r, q)) == r,
{
    lemma_pair_bytes(r.a, r.f, 0);
    lemma_pair_bytes(r.b, r.c, 0);
    lemma_pair_bytes(r.d, r.e, 0);
    lemma_pair_bytes(r.h, r.l, 0);
    lemma_pair_bytes(0, 0, r.sp);
    assert(r.f / 16 * 16 == r.f);
}

/// `dec16` undoes `inc16` and the other way round.
pub proof fn lemma_inc_dec16(w: u16)
    ensures
        inc16(dec16(w)) == w,
        dec16(inc16(w)) == w,
{
}

} // verus!
