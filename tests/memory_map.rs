use gbcrs::arch::memory::Memory;
use gbcrs::arch::ppu::Ppu;
use gbcrs::arch::{Bus, Fault, Gameboy, SystemMode};
use gbcrs::arch::cpu::Cpu;
use gbcrs::arch::regs::Regs;

#[test]
fn wram_banks_and_echo() {
    let mut m = Memory::new(SystemMode::Gameboy);
    m.write(0xC010, 0x11).unwrap();
    assert_eq!(m.read(0xE010), Ok(0x11));
    m.write(0xE020, 0x22).unwrap();
    assert_eq!(m.read(0xC020), Ok(0x22));
    // Bank register zero shows bank one.
    m.write(0xD000, 0x33).unwrap();
    m.write(0xFF70, 0x01).unwrap();
    assert_eq!(m.read(0xD000), Ok(0x33));
    m.write(0xFF70, 0xFA).unwrap();
    assert_eq!(m.read(0xFF70), Ok(0x02));
    assert_eq!(m.read(0xD000), Ok(0x00));
    m.write(0xD000, 0x44).unwrap();
    m.write(0xFF70, 0x00).unwrap();
    assert_eq!(m.read(0xD000), Ok(0x33));
}

#[test]
fn hram_and_unmapped() {
    let mut m = Memory::new(SystemMode::Gameboy);
    m.write(0xFF80, 0x01).unwrap();
    m.write(0xFFFE, 0x02).unwrap();
    assert_eq!(m.read(0xFF80), Ok(0x01));
    assert_eq!(m.read(0xFFFE), Ok(0x02));
    assert_eq!(m.read(0xFF71), Err(Fault::UnmappedRead(0xFF71)));
    assert_eq!(m.write(0xFF71, 0), Err(Fault::UnmappedWrite(0xFF71)));
}

#[test]
fn undocumented_registers_only_in_color_mode() {
    let mut m = Memory::new(SystemMode::Gameboy);
    assert_eq!(m.read(0xFF72), Ok(0xFF));
    assert_eq!(m.read(0xFF75), Ok(0xFF));
    assert_eq!(m.write(0xFF72, 1), Err(Fault::UnmappedWrite(0xFF72)));
    let mut m = Memory::new(SystemMode::GameboyColorGBC);
    m.write(0xFF72, 0xAB).unwrap();
    m.write(0xFF75, 0xFF).unwrap();
    assert_eq!(m.read(0xFF72), Ok(0xAB));
    assert_eq!(m.read(0xFF75), Ok(0x70));
}

#[test]
fn ppu_registers() {
    let mut p = Ppu::new(SystemMode::Gameboy);
    assert_eq!(p.read(0xFF44), Ok(0x90));
    p.write(0xFF44, 0x12).unwrap();
    assert_eq!(p.read(0xFF44), Ok(0x90));
    p.write(0xFF42, 0x12).unwrap();
    assert_eq!(p.read(0xFF42), Ok(0x12));
    p.write(0x8001, 0x34).unwrap();
    assert_eq!(p.read(0x8001), Ok(0x34));
    assert_eq!(p.read(0xFE00), Err(Fault::UnmappedRead(0xFE00)));
}

#[test]
fn render_draws_tiles() {
    let mut p = Ppu::new(SystemMode::Gameboy);
    // Tile 0, row 0: low byte 0x80, high byte 0x80 -> leftmost pixel index 3.
    p.write(0x8000, 0x80).unwrap();
    p.write(0x8001, 0x80).unwrap();
    // Tile 1, row 0: high byte 0x40 -> second pixel index 2.
    p.write(0x8011, 0x40).unwrap();
    let mut buf = vec![7u32; 160 * 144];
    p.render(&mut buf);
    assert_eq!(buf[0], 0x00FFFFFF);
    assert_eq!(buf[1], 0x00331111);
    assert_eq!(buf[9], 0x001111AA);
    // Columns 152..160 hold no tile.
    assert_eq!(buf[155], 7);
    assert_eq!(p.palette(1), 0x00116611);
    assert_eq!(p.palette(9), 0x00FF0000);
}

#[test]
fn interrupt_registers_and_apu() {
    let mut b = Bus::new(SystemMode::Gameboy);
    b.write(0xFF0F, 0x1F).unwrap();
    b.write(0xFFFF, 0x05).unwrap();
    assert_eq!(b.read(0xFF0F), Ok(0x1F));
    assert_eq!(b.read(0xFFFF), Ok(0x05));
    assert_eq!(b.write(0xFF26, 0x80), Ok(()));
    assert_eq!(b.read(0xFF26), Err(Fault::UnmappedRead(0xFF26)));
    assert_eq!(b.write(0xFF01, 0), Err(Fault::UnmappedWrite(0xFF01)));
    assert_eq!(b.write(0xA000, 0), Err(Fault::UnmappedWrite(0xA000)));
}

#[test]
fn pop_af_masks_low_nibble() {
    // LD SP,0xC000; POP AF with 0xFF at 0xC000 and 0x12 at 0xC001.
    let mut gb = Gameboy::new(SystemMode::Gameboy);
    gb.bus.boot_rom[0] = 0x31;
    gb.bus.boot_rom[1] = 0x00;
    gb.bus.boot_rom[2] = 0xC0;
    gb.bus.boot_rom[3] = 0xF1;
    gb.bus.write(0xC000, 0xFF).unwrap();
    gb.bus.write(0xC001, 0x12).unwrap();
    for _ in 0..(12 + 12) {
        gb.tcycle().unwrap();
    }
    assert_eq!(gb.cpu.regs.a, 0x12);
    assert_eq!(gb.cpu.regs.f, 0xF0);
    assert_eq!(gb.cpu.regs.af(), 0x12F0);
}

#[test]
fn register_pairs() {
    let mut r = Regs::new(SystemMode::Gameboy);
    assert_eq!(r.af(), 0x01B0);
    assert_eq!(r.bc(), 0x0013);
    assert_eq!(r.de(), 0x00D8);
    assert_eq!(r.hl(), 0x014D);
    r.set_af(0x12FF);
    assert_eq!((r.a, r.f), (0x12, 0xF0));
    r.set_bc(0x3456);
    assert_eq!((r.b, r.c), (0x34, 0x56));
    r.set_de(0x789A);
    assert_eq!(r.de(), 0x789A);
    r.set_hl(0xBCDE);
    assert_eq!(r.hl(), 0xBCDE);
    r.set_splo(0x11);
    r.set_sphi(0x22);
    assert_eq!((r.sp, r.splo(), r.sphi()), (0x2211, 0x11, 0x22));
    r.set_pclo(0x33);
    r.set_pchi(0x44);
    assert_eq!((r.pc, r.pclo(), r.pchi()), (0x4433, 0x33, 0x44));
}

#[test]
fn power_on_registers_by_mode() {
    let r = Regs::new(SystemMode::GameboyPocket);
    assert_eq!((r.a, r.f), (0xFF, 0xB0));
    let r = Regs::new(SystemMode::SuperGameboy);
    assert_eq!((r.c, r.h, r.l), (0x14, 0xC0, 0x60));
    let r = Regs::new(SystemMode::GameboyColorDMG);
    assert_eq!((r.a, r.f, r.e, r.l), (0x11, 0x80, 0x08, 0x7C));
    let r = Regs::new(SystemMode::GameboyColorGBC);
    assert_eq!((r.d, r.e, r.l, r.sp, r.pc), (0xFF, 0x56, 0x0D, 0xFFFE, 0x0000));
    let c = Cpu::new(SystemMode::Gameboy);
    assert_eq!(c.tcount, 0);
    assert!(!c.ime);
    assert_eq!(SystemMode::default(), SystemMode::Gameboy);
}

#[test]
fn tile_decoding() {
    let mut p = Ppu::new(SystemMode::Gameboy);
    // Tile 2, row 1: low byte 0x01, high byte 0x03.
    p.write(0x8022, 0x01).unwrap();
    p.write(0x8023, 0x03).unwrap();
    let t = p.tile(2);
    assert_eq!(t.pixels.len(), 64);
    assert_eq!(t.pixels[8 + 7], 0x00FFFFFF);
    assert_eq!(t.pixels[8 + 6], 0x001111AA);
    assert_eq!(t.pixels[8 + 5], 0x00331111);
    assert_eq!(t.pixels[0], 0x00331111);
}
