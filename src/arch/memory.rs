use vstd::prelude::*;
use crate::arch::{Fault, SystemMode};

verus! {

/// Work RAM (eight banks of 0x1000 bytes, stored one after another), the
/// WRAM bank register, the undocumented Color registers and high RAM.
#[derive(Clone, Debug)]
pub struct Memory {
    pub mode: SystemMode,
    pub wram: Vec<u8>,
    pub wbank: u8,
    pub undoc_regs: Vec<u8>,
    pub hram: Vec<u8>,
}

pub struct MemoryView {
    pub mode: SystemMode,
    pub wram: Seq<u8>,
    pub wbank: u8,
    pub undoc: Seq<u8>,
    pub hram: Seq<u8>,
}

impl View for Memory {
    type V = MemoryView;

    open spec fn view(&self) -> MemoryView {
        MemoryView {
            mode: self.mode,
            wram: self.wram@,
            wbank: self.wbank,
            undoc: self.undoc_regs@,
            hram: self.hram@,
        }
    }
}

impl MemoryView {
    pub open spec fn wf(&self) -> bool {
        &&& self.wram.len() == 0x8000
        &&& self.undoc.len() == 4
        &&& self.hram.len() == 0x7F
        &&& self.wbank < 8
    }
}

/// The bank shown at 0xD000-0xDFFF: the bank register, with zero meaning one.
pub open spec fn high_bank(wbank: u8) -> int {
    if wbank == 0 { 1 } else { wbank as int }
}

/// Index into the flat WRAM of an address in 0xC000-0xFDFF (echo RAM
/// mirrors the address 0x2000 lower).
pub open spec fn wram_index(wbank: u8, addr: u16) -> int {
    let a = if addr >= 0xE000 { addr - 0x2000 } else { addr as int };
    if a < 0xD000 {
        a - 0xC000
    } else {
        0x1000 * high_bank(wbank) + (a - 0xD000)
    }
}

pub open spec fn is_gbc(mode: SystemMode) -> bool {
    mode == SystemMode::GameboyColorGBC
}

pub open spec fn mem_read_spec(m: MemoryView, addr: u16) -> Result<u8, Fault> {
    if 0xC000 <= addr <= 0xFDFF {
        Ok(m.wram[wram_index(m.wbank, addr)])
    } else if addr == 0xFF70 {
        Ok(m.wbank % 8)
    } else if 0xFF72 <= addr <= 0xFF75 {
        if !is_gbc(m.mode) {
            Ok(0xFF)
        } else if addr == 0xFF75 {
            Ok(m.undoc[3] & 0x70)
        } else {
            Ok(m.undoc[addr - 0xFF72])
        }
    } else if 0xFF80 <= addr <= 0xFFFE {
        Ok(m.hram[addr - 0xFF80])
    } else {
        Err(Fault::UnmappedRead(addr))
    }
}

pub open spec fn mem_write_spec(m: MemoryView, addr: u16, data: u8) -> Result<MemoryView, Fault> {
    if 0xC000 <= addr <= 0xFDFF {
        Ok(MemoryView { wram: m.wram.update(wram_index(m.wbank, addr), data), ..m })
    } else if addr == 0xFF70 {
        Ok(MemoryView { wbank: data % 8, ..m })
    } else if 0xFF72 <= addr <= 0xFF75 && is_gbc(m.mode) {
        let v = if addr == 0xFF75 { data & 0x70 } else { data };
        Ok(MemoryView { undoc: m.undoc.update(addr - 0xFF72, v), ..m })
    } else if 0xFF80 <= addr <= 0xFFFE {
        Ok(MemoryView { hram: m.hram.update(addr - 0xFF80, data), ..m })
    } else {
        Err(Fault::UnmappedWrite(addr))
    }
}

/// Memory at power-on: everything zero, bank register zero.
pub open spec fn initial_memory(mode: SystemMode) -> MemoryView {
    MemoryView {
        mode,
        wram: Seq::new(0x8000, |i: int| 0u8),
        wbank: 0,
        undoc: Seq::new(4, |i: int| 0u8),
        hram: Seq::new(0x7F, |i: int| 0u8),
    }
}

impl Memory {
    pub open spec fn wf(&self) -> bool {
        self@.wf()
    }

    pub fn new(mode: SystemMode) -> (r: Self)
        ensures
            r.wf(),
            r@ == initial_memory(mode),
    {
        let r = Memory {
            mode,
            wram: vec![0u8; 0x8000],
            wbank: 0,
            undoc_regs: vec![0u8; 4],
            hram: vec![0u8; 0x7F],
        };
        assert(r@.wram =~= Seq::new(0x8000, |i: int| 0u8));
        assert(r@.undoc =~= Seq::new(4, |i: int| 0u8));
        assert(r@.hram =~= Seq::new(0x7F, |i: int| 0u8));
        r
    }

    fn wram_offset(&self, addr: u16) -> (r: usize)
        requires
            self.wf(),
            0xC000 <= addr <= 0xFDFF,
        ensures
            r == wram_index(self.wbank, addr),
            r < 0x8000,
    {
        let a: u16 = if addr >= 0xE000 { addr - 0x2000 } else { addr };
        if a < 0xD000 {
            (a - 0xC000) as usize
        } else {
            let bank: usize = if self.wbank == 0 { 1 } else { self.wbank as usize };
            0x1000 * bank + (a - 0xD000) as usize
        }
    }

    pub fn read(&self, addr: u16) -> (r: Result<u8, Fault>)
        requires
            self.wf(),
        ensures
            r == mem_read_spec(self@, addr),
    {
        if 0xC000 <= addr && addr <= 0xFDFF {
            Ok(self.wram[self.wram_offset(addr)])
        } else if addr == 0xFF70 {
            Ok(self.wbank % 8)
        } else if 0xFF72 <= addr && addr <= 0xFF75 {
            if self.mode != SystemMode::GameboyColorGBC {
                Ok(0xFF)
            } else if addr == 0xFF75 {
                Ok(self.undoc_regs[3] & 0x70)
            } else {
                Ok(self.undoc_regs[(addr - 0xFF72) as usize])
            }
        } else if 0xFF80 <= addr && addr <= 0xFFFE {
            Ok(self.hram[(addr - 0xFF80) as usize])
        } else {
            Err(Fault::UnmappedRead(addr))
        }
    }

    pub fn write(&mut self, addr: u16, data: u8) -> (r: Result<(), Fault>)
        requires
            old(self).wf(),
        ensures
            final(self).wf(),
            match mem_write_spec(old(self)@, addr, data) {
                Ok(m) => r is Ok && final(self)@ == m,
                Err(e) => r == Err::<(), Fault>(e) && final(self)@ == old(self)@,
            },
    {
        if 0xC000 <= addr && addr <= 0xFDFF {
            let i = self.wram_offset(addr);
            self.wram.set(i, data);
            Ok(())
        } else if addr == 0xFF70 {
            self.wbank = data % 8;
            Ok(())
        } else if 0xFF72 <= addr && addr <= 0xFF75 && self.mode == SystemMode::GameboyColorGBC {
            let v = if addr == 0xFF75 { data & 0x70 } else { data };
            self.undoc_regs.set((addr - 0xFF72) as usize, v);
            Ok(())
        } else if 0xFF80 <= addr && addr <= 0xFFFE {
            self.hram.set((addr - 0xFF80) as usize, data);
            Ok(())
        } else {
            Err(Fault::UnmappedWrite(addr))
        }
    }
}

} // verus!
