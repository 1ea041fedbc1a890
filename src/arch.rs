use vstd::prelude::*;
use crate::arch::apu::Apu;
use crate::arch::cpu::{Cpu, tcycle_spec};
use crate::arch::cartridge::{Cartridge, cart_read_spec, cart_write_spec};
use crate::arch::memory::{Memory, MemoryView, initial_memory, mem_read_spec, mem_write_spec, wram_index};
use crate::arch::ppu::{Ppu, PpuView, initial_ppu, ppu_read_spec, ppu_write_spec};

pub mod alu;
pub mod apu;
pub mod cartridge;
pub mod cpu;
pub mod decode;
pub mod instr;
pub mod memory;
pub mod ppu;
pub mod regs;

verus! {

/// The hardware variant; it fixes the registers' power-on values.
#[derive(Clone, Copy, Debug, PartialEq, Eq, Structural)]
pub enum SystemMode {
    Gameboy,
    GameboyPocket,
    SuperGameboy,
    SuperGameboy2,
    GameboyColorDMG,
    GameboyColorGBC,
}

impl Default for SystemMode {
    fn default() -> (r: Self)
        ensures
            r == SystemMode::Gameboy,
    {
        SystemMode::Gameboy
    }
}

/// Why the machine cannot go on: each of these ends the run.
#[derive(Clone, Copy, Debug, PartialEq, Eq, Structural)]
pub enum Fault {
    /// A read of an address that no component provides.
    UnmappedRead(u16),
    /// A write to an address that no component provides.
    UnmappedWrite(u16),
    /// An opcode that this processor does not have.
    RemovedOpcode(u8),
    /// An opcode that the processor has but this emulator does not run
    /// (HALT, RETI).
    UnimplementedOpcode(u8),
    /// The STOP instruction.
    Stop,
}

/// The system bus: every component that the processor reaches by address.
///
/// The interrupt-flag (0xFF0F) and interrupt-enable (0xFFFF) registers are
/// the processor's own; they sit here so that every access by address goes
/// through one place.
#[derive(Clone, Debug)]
pub struct Bus {
    pub ppu: Ppu,
    pub mem: Memory,
    pub cart: Cartridge,
    pub apu: Apu,
    pub boot_rom: Vec<u8>,
    /// The byte last written to 0xFF50.
    pub boot_disabled: u8,
    /// Set by any write to 0xFF50 and never cleared: the boot ROM is gone
    /// for the rest of the run.
    pub boot_rom_hidden: bool,
    pub iflag: u8,
    pub ie: u8,
}

pub struct BusView {
    pub ppu: PpuView,
    pub mem: MemoryView,
    pub cart: Seq<u8>,
    pub boot_rom: Seq<u8>,
    pub boot_disabled: u8,
    pub boot_rom_hidden: bool,
    pub iflag: u8,
    pub ie: u8,
}

impl View for Bus {
    type V = BusView;

    open spec fn view(&self) -> BusView {
        BusView {
            ppu: self.ppu@,
            mem: self.mem@,
            cart: self.cart.rom@,
            boot_rom: self.boot_rom@,
            boot_disabled: self.boot_disabled,
            boot_rom_hidden: self.boot_rom_hidden,
            iflag: self.iflag,
            ie: self.ie,
        }
    }
}

impl BusView {
    pub open spec fn wf(&self) -> bool {
        &&& self.ppu.vram.len() == 0x2000
        &&& self.mem.wf()
        &&& self.boot_rom.len() == 0x100
    }
}

/// The boot ROM answers at 0x0000-0x00FF until the first write to 0xFF50.
pub open spec fn boot_visible(b: BusView, addr: u16) -> bool {
    addr <= 0x00FF && !b.boot_rom_hidden
}

/// The bus at power-on: every memory zero, LY at 0x90, the boot ROM shown.
pub open spec fn initial_bus(mode: SystemMode) -> BusView {
    BusView {
        ppu: initial_ppu(mode),
        mem: initial_memory(mode),
        cart: Seq::<u8>::empty(),
        boot_rom: Seq::new(0x100, |i: int| 0u8),
        boot_disabled: 0,
        boot_rom_hidden: false,
        iflag: 0,
        ie: 0,
    }
}

pub open spec fn is_apu_addr(addr: u16) -> bool {
    0xFF10 <= addr <= 0xFF26 || 0xFF30 <= addr <= 0xFF3F || 0xFF76 <= addr <= 0xFF77
}

pub open spec fn is_ppu_addr(addr: u16) -> bool {
    ||| 0x8000 <= addr <= 0x9FFF
    ||| 0xFE00 <= addr <= 0xFEFF
    ||| 0xFF40 <= addr <= 0xFF4B
    ||| addr == 0xFF4F
    ||| 0xFF51 <= addr <= 0xFF55
    ||| 0xFF68 <= addr <= 0xFF69
}

pub open spec fn is_mem_addr(addr: u16) -> bool {
    ||| 0xC000 <= addr <= 0xFDFF
    ||| addr == 0xFF70
    ||| 0xFF72 <= addr <= 0xFF75
    ||| 0xFF80 <= addr <= 0xFFFE
}

pub open spec fn is_cart_addr(addr: u16) -> bool {
    addr <= 0x7FFF || 0xA000 <= addr <= 0xBFFF
}

/// What a read of `addr` returns, by the address map.
#[verifier::opaque]
pub open spec fn bus_read_spec(b: BusView, addr: u16) -> Result<u8, Fault> {
    if boot_visible(b, addr) {
        Ok(b.boot_rom[addr as int])
    } else if is_cart_addr(addr) {
        cart_read_spec(b.cart, addr)
    } else if is_ppu_addr(addr) {
        ppu_read_spec(b.ppu, addr)
    } else if is_mem_addr(addr) {
        mem_read_spec(b.mem, addr)
    } else if addr == 0xFF0F {
        Ok(b.iflag)
    } else if addr == 0xFFFF {
        Ok(b.ie)
    } else if addr == 0xFF50 {
        Ok(b.boot_disabled)
    } else {
        Err(Fault::UnmappedRead(addr))
    }
}

/// The bus after a write of `data` to `addr`, by the address map.
#[verifier::opaque]
pub open spec fn bus_write_spec(b: BusView, addr: u16, data: u8) -> Result<BusView, Fault> {
    if boot_visible(b, addr) {
        Ok(b)
    } else if is_cart_addr(addr) {
        match cart_write_spec(addr) {
            Ok(_) => Ok(b),
            Err(e) => Err(e),
        }
    } else if is_ppu_addr(addr) {
        match ppu_write_spec(b.ppu, addr, data) {
            Ok(p) => Ok(BusView { ppu: p, ..b }),
            Err(e) => Err(e),
        }
    } else if is_mem_addr(addr) {
        match mem_write_spec(b.mem, addr, data) {
            Ok(m) => Ok(BusView { mem: m, ..b }),
            Err(e) => Err(e),
        }
    } else if addr == 0xFF0F {
        Ok(BusView { iflag: data, ..b })
    } else if addr == 0xFFFF {
        Ok(BusView { ie: data, ..b })
    } else if addr == 0xFF50 {
        Ok(BusView { boot_disabled: data, boot_rom_hidden: true, ..b })
    } else if is_apu_addr(addr) {
        Ok(b)
    } else {
        Err(Fault::UnmappedWrite(addr))
    }
}

impl Bus {
    pub open spec fn wf(&self) -> bool {
        self@.wf()
    }

    pub fn new(mode: SystemMode) -> (r: Self)
        ensures
            r.wf(),
            r@ == initial_bus(mode),
    {
        let r = Bus {
            ppu: Ppu::new(mode),
            mem: Memory::new(mode),
            cart: Cartridge::new(),
            apu: Apu::new(),
            boot_rom: vec![0u8; 0x100],
            boot_disabled: 0,
            boot_rom_hidden: false,
            iflag: 0,
            ie: 0,
        };
        assert(r@.boot_rom =~= Seq::new(0x100, |i: int| 0u8));
        r
    }

    pub fn read(&self, addr: u16) -> (r: Result<u8, Fault>)
        requires
            self.wf(),
        ensures
            r == bus_read_spec(self@, addr),
    {
        reveal(bus_read_spec);
        if addr <= 0x00FF && !self.boot_rom_hidden {
            Ok(self.boot_rom[addr as usize])
        } else if addr <= 0x7FFF || (0xA000 <= addr && addr <= 0xBFFF) {
            self.cart.read(addr)
        } else if (0x8000 <= addr && addr <= 0x9FFF) || (0xFE00 <= addr && addr <= 0xFEFF) || (
        0xFF40 <= addr && addr <= 0xFF4B) || addr == 0xFF4F || (0xFF51 <= addr && addr <= 0xFF55)
            || (0xFF68 <= addr && addr <= 0xFF69) {
            self.ppu.read(addr)
        } else if (0xC000 <= addr && addr <= 0xFDFF) || addr == 0xFF70 || (0xFF72 <= addr && addr
            <= 0xFF75) || (0xFF80 <= addr && addr <= 0xFFFE) {
            self.mem.read(addr)
        } else if addr == 0xFF0F {
            Ok(self.iflag)
        } else if addr == 0xFFFF {
            Ok(self.ie)
        } else if addr == 0xFF50 {
            Ok(self.boot_disabled)
        } else if (0xFF10 <= addr && addr <= 0xFF26) || (0xFF30 <= addr && addr <= 0xFF3F) || (
        0xFF76 <= addr && addr <= 0xFF77) {
            self.apu.read(addr)
        } else {
            Err(Fault::UnmappedRead(addr))
        }
    }

    pub fn write(&mut self, addr: u16, data: u8) -> (r: Result<(), Fault>)
        requires
            old(self).wf(),
        ensures
            final(self).wf(),
            match bus_write_spec(old(self)@, addr, data) {
                Ok(b) => r is Ok && final(self)@ == b,
                Err(e) => r == Err::<(), Fault>(e) && final(self)@ == old(self)@,
            },
    {
        reveal(bus_write_spec);
        if addr <= 0x00FF && !self.boot_rom_hidden {
            Ok(())
        } else if addr <= 0x7FFF || (0xA000 <= addr && addr <= 0xBFFF) {
            self.cart.write(addr, data)
        } else if (0x8000 <= addr && addr <= 0x9FFF) || (0xFE00 <= addr && addr <= 0xFEFF) || (
        0xFF40 <= addr && addr <= 0xFF4B) || addr == 0xFF4F || (0xFF51 <= addr && addr <= 0xFF55)
            || (0xFF68 <= addr && addr <= 0xFF69) {
            self.ppu.write(addr, data)
        } else if (0xC000 <= addr && addr <= 0xFDFF) || addr == 0xFF70 || (0xFF72 <= addr && addr
            <= 0xFF75) || (0xFF80 <= addr && addr <= 0xFFFE) {
            self.mem.write(addr, data)
        } else if addr == 0xFF0F {
            self.iflag = data;
            Ok(())
        } else if addr == 0xFFFF {
            self.ie = data;
            Ok(())
        } else if addr == 0xFF50 {
            self.boot_disabled = data;
            self.boot_rom_hidden = true;
            Ok(())
        } else if (0xFF10 <= addr && addr <= 0xFF26) || (0xFF30 <= addr && addr <= 0xFF3F) || (
        0xFF76 <= addr && addr <= 0xFF77) {
            self.apu.write(addr, data)
        } else {
            Err(Fault::UnmappedWrite(addr))
        }
    }
}

/// Any write to 0xFF50 hides the boot ROM; once hidden, reads of
/// 0x0000-0x00FF come from the cartridge, and no write brings it back.
pub proof fn lemma_boot_rom_stays_hidden(b: BusView, addr: u16, data: u8)
    ensures
        addr == 0xFF50 ==> (bus_write_spec(b, addr, data) matches Ok(b2) && b2.boot_rom_hidden),
        b.boot_rom_hidden ==> forall|a: u16| a <= 0xFF ==> #[trigger] bus_read_spec(b, a) == cart_read_spec(b.cart, a),
        b.boot_rom_hidden ==> (bus_write_spec(b, addr, data) matches Ok(b2) ==> b2.boot_rom_hidden && b2.cart == b.cart),
{
    reveal(bus_read_spec);
    reveal(bus_write_spec);
}

/// `n` T-cycles from processor state `c` and bus `b`; the first fault ends the run.
pub open spec fn run_spec(c: Cpu, b: BusView, n: nat) -> Result<(Cpu, BusView), Fault>
    decreases n,
{
    if n == 0 {
        Ok((c, b))
    } else {
        match tcycle_spec(c, b) {
            Ok((c1, b1)) => run_spec(c1, b1, (n - 1) as nat),
            Err(e) => Err(e),
        }
    }
}

/// The whole machine: the processor, the bus it drives, and a count of
/// the T-cycles run.
#[derive(Debug)]
pub struct Gameboy {
    pub cpu: Cpu,
    pub bus: Bus,
    pub tcycles: usize,
}

impl Gameboy {
    pub open spec fn wf(&self) -> bool {
        self.cpu.wf() && self.bus.wf()
    }

    /// The SuperGameboy2 mode is not provided.
    pub fn new(mode: SystemMode) -> (r: Self)
        requires
            mode != SystemMode::SuperGameboy2,
        ensures
            r.wf(),
            r.cpu == Cpu::new_spec(mode),
            r.bus@ == initial_bus(mode),
            r.tcycles == 0,
    {
        Gameboy { cpu: Cpu::new(mode), bus: Bus::new(mode), tcycles: 0 }
    }

    /// Performs one T-cycle on the system.
    pub fn tcycle(&mut self) -> (r: Result<(), Fault>)
        requires
            old(self).wf(),
            old(self).tcycles < usize::MAX,
        ensures
            match tcycle_spec(old(self).cpu, old(self).bus@) {
                Ok((c, b)) => r is Ok && final(self).cpu == c && final(self).bus@ == b && final(self).wf()
                    && final(self).tcycles == old(self).tcycles + 1,
                Err(e) => r == Err::<(), Fault>(e),
            },
    {
        match self.cpu.tcycle(&mut self.bus) {
            Ok(()) => {},
            Err(e) => return Err(e),
        }
        self.bus.ppu.tcycle();
        self.tcycles = self.tcycles + 1;
        Ok(())
    }

    /// Performs four T-cycles: one M-cycle.
    pub fn mcycle(&mut self) -> (r: Result<(), Fault>)
        requires
            old(self).wf(),
            old(self).tcycles < usize::MAX - 4,
        ensures
            match run_spec(old(self).cpu, old(self).bus@, 4) {
                Ok((c, b)) => r is Ok && final(self).cpu == c && final(self).bus@ == b && final(self).wf()
                    && final(self).tcycles == old(self).tcycles + 4,
                Err(e) => r == Err::<(), Fault>(e),
            },
    {
        proof {
            reveal_with_fuel(run_spec, 5);
        }
        let mut i: usize = 0;
        while i < 4
            invariant
                0 <= i <= 4,
                self.wf(),
                self.tcycles == old(self).tcycles + i,
                old(self).tcycles < usize::MAX - 4,
                run_spec(old(self).cpu, old(self).bus@, 4) == run_spec(self.cpu, self.bus@, (4 - i) as nat),
            decreases 4 - i,
        {
            let ghost c0 = self.cpu;
            let ghost b0 = self.bus@;
            match self.tcycle() {
                Ok(()) => {},
                Err(e) => {
                    assert(run_spec(c0, b0, (4 - i) as nat) == Err::<(Cpu, BusView), Fault>(e));
                    return Err(e);
                },
            }
            i = i + 1;
        }
        Ok(())
    }
}

/// Work RAM (with its echo) and high RAM: what is written there reads back.
pub open spec fn is_ram(addr: u16) -> bool {
    0xC000 <= addr <= 0xFDFF || 0xFF80 <= addr <= 0xFFFE
}

/// The byte of storage behind a RAM address; echo addresses share the
/// storage of the address 0x2000 lower.
pub open spec fn ram_slot(b: BusView, addr: u16) -> int {
    if addr <= 0xFDFF { wram_index(b.mem.wbank, addr) } else { 0x8000 + (addr - 0xFF80) }
}

/// A write to RAM succeeds, reads back, leaves every other storage byte
/// and every other component as it was, and keeps the bank selection.
pub proof fn lemma_ram_write(b: BusView, addr: u16, data: u8)
    requires
        b.wf(),
        is_ram(addr),
    ensures
        bus_write_spec(b, addr, data) matches Ok(b2) && {
            &&& b2.wf()
            &&& b2.mem.wbank == b.mem.wbank
            &&& bus_read_spec(b2, addr) == Ok::<u8, Fault>(data)
            &&& forall|a: u16| #![trigger bus_read_spec(b2, a)]
                !(is_ram(a) && ram_slot(b, a) == ram_slot(b, addr)) ==> bus_read_spec(b2, a)
                    == bus_read_spec(b, a)
        },
{
    reveal(bus_read_spec);
    reveal(bus_write_spec);
}

} // verus!
