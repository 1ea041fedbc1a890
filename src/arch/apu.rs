use vstd::prelude::*;
use crate::arch::Fault;

verus! {

/// The sound unit's face on the bus: register writes are accepted and
/// dropped, register reads are not provided.
#[derive(Clone, Debug)]
pub struct Apu {}

impl Apu {
    pub fn new() -> (r: Self) {
        Apu {}
    }

    pub fn write(&mut self, addr: u16, data: u8) -> (r: Result<(), Fault>)
        ensures
            r is Ok,
    {
        Ok(())
    }

    pub fn read(&self, addr: u16) -> (r: Result<u8, Fault>)
        ensures
            r == Err::<u8, Fault>(Fault::UnmappedRead(addr)),
    {
        Err(Fault::UnmappedRead(addr))
    }
}

} // verus!
