use vstd::prelude::*;
use crate::arch::Fault;

verus! {

/// A cartridge without a memory-bank controller: flat ROM at 0x0000-0x7FFF.
#[derive(Clone, Debug)]
pub struct Cartridge {
    pub rom: Vec<u8>,
}

/// ROM reads past the end of the image give 0xFF; cartridge RAM is not provided.
pub open spec fn cart_read_spec(rom: Seq<u8>, addr: u16) -> Result<u8, Fault> {
    if addr <= 0x7FFF {
        Ok(if addr < rom.len() { rom[addr as int] } else { 0xFF })
    } else {
        Err(Fault::UnmappedRead(addr))
    }
}

/// Writes into ROM space are absorbed; cartridge RAM is not provided.
pub open spec fn cart_write_spec(addr: u16) -> Result<(), Fault> {
    if addr <= 0x7FFF {
        Ok(())
    } else {
        Err(Fault::UnmappedWrite(addr))
    }
}

impl Cartridge {
    pub fn new() -> (r: Self)
        ensures
            r.rom@ == Seq::<u8>::empty(),
    {
        Cartridge { rom: Vec::new() }
    }

    pub fn read(&self, addr: u16) -> (r: Result<u8, Fault>)
        ensures
            r == cart_read_spec(self.rom@, addr),
    {
        if addr <= 0x7FFF {
            if (addr as usize) < self.rom.len() {
                Ok(self.rom[addr as usize])
            } else {
                Ok(0xFF)
            }
        } else {
            Err(Fault::UnmappedRead(addr))
        }
    }

    pub fn write(&mut self, addr: u16, data: u8) -> (r: Result<(), Fault>)
        ensures
            r == cart_write_spec(addr),
            final(self).rom@ == old(self).rom@,
    {
        if addr <= 0x7FFF {
            Ok(())
        } else {
            Err(Fault::UnmappedWrite(addr))
        }
    }
}

} // verus!
