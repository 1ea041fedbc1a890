use gbcrs::arch::{Fault, Gameboy, SystemMode};

fn boot_with(program: &[u8]) -> Gameboy {
    let mut gb = Gameboy::new(SystemMode::Gameboy);
    for (i, b) in program.iter().enumerate() {
        gb.bus.boot_rom[i] = *b;
    }
    gb
}

/// Runs one whole instruction from a boundary; returns the T-cycles it took.
fn run_instruction(gb: &mut Gameboy) -> usize {
    assert!(gb.cpu.procedure.is_none() && gb.cpu.tcount == 0);
    let mut n = 0;
    loop {
        gb.tcycle().expect("no fault");
        n += 1;
        if gb.cpu.procedure.is_none() && gb.cpu.tcount == 0 {
            return n;
        }
    }
}

#[test]
fn store_and_reload_through_wram() {
    let mut gb = boot_with(&[0x3E, 0x42, 0xEA, 0x00, 0xC0, 0x3E, 0x00, 0xFA, 0x00, 0xC0]);
    assert_eq!(run_instruction(&mut gb), 8);
    assert_eq!(run_instruction(&mut gb), 16);
    assert_eq!(gb.bus.read(0xC000), Ok(0x42));
    assert_eq!(run_instruction(&mut gb), 8);
    assert_eq!(gb.cpu.regs.a, 0x00);
    assert_eq!(run_instruction(&mut gb), 16);
    assert_eq!(gb.cpu.regs.a, 0x42);
    assert_eq!(gb.cpu.regs.f, 0xB0);
    assert_eq!(gb.cpu.regs.pc, 10);
}

#[test]
fn inc_l_wraps_without_touching_h() {
    let mut gb = boot_with(&[0x21, 0xFF, 0x00, 0x2C, 0x2C]);
    assert_eq!(run_instruction(&mut gb), 12);
    assert_eq!((gb.cpu.regs.h, gb.cpu.regs.l), (0x00, 0xFF));
    assert_eq!(run_instruction(&mut gb), 4);
    // L: 0xFF -> 0x00: Z=1, N=0, H=1 (carry out of the low nibble), C kept (set at power-on).
    assert_eq!(gb.cpu.regs.l, 0x00);
    assert_eq!(gb.cpu.regs.f, 0xB0);
    assert_eq!(run_instruction(&mut gb), 4);
    assert_eq!((gb.cpu.regs.h, gb.cpu.regs.l), (0x00, 0x01));
    assert_eq!(gb.cpu.regs.f, 0x10);
}

#[test]
fn add_a_a_overflows_to_zero() {
    let mut gb = boot_with(&[0x3E, 0x80, 0x87]);
    assert_eq!(run_instruction(&mut gb), 8);
    assert_eq!(run_instruction(&mut gb), 4);
    assert_eq!(gb.cpu.regs.a, 0x00);
    assert_eq!(gb.cpu.regs.f, 0x90); // Z=1 N=0 H=0 C=1
}

#[test]
fn push_bc_pop_de() {
    let mut gb = boot_with(&[0x31, 0xFE, 0xFF, 0x01, 0x34, 0x12, 0xC5, 0xD1]);
    assert_eq!(run_instruction(&mut gb), 12);
    assert_eq!(run_instruction(&mut gb), 12);
    assert_eq!(run_instruction(&mut gb), 16);
    assert_eq!(gb.cpu.regs.sp, 0xFFFC);
    assert_eq!(gb.bus.read(0xFFFD), Ok(0x12));
    assert_eq!(gb.bus.read(0xFFFC), Ok(0x34));
    assert_eq!(run_instruction(&mut gb), 12);
    assert_eq!((gb.cpu.regs.d, gb.cpu.regs.e), (0x12, 0x34));
    assert_eq!((gb.cpu.regs.b, gb.cpu.regs.c), (0x12, 0x34));
    assert_eq!(gb.cpu.regs.sp, 0xFFFE);
}

#[test]
fn boot_rom_gating() {
    let mut gb = Gameboy::new(SystemMode::Gameboy);
    for i in 0..0x100usize {
        gb.bus.boot_rom[i] = i as u8;
    }
    gb.bus.cart.rom = vec![0xAA, 0xBB, 0xCC];
    assert_eq!(gb.bus.read(0x0000), Ok(0x00));
    assert_eq!(gb.bus.read(0x0001), Ok(0x01));
    assert_eq!(gb.bus.write(0x0000, 0x77), Ok(()));
    assert_eq!(gb.bus.read(0x0000), Ok(0x00));
    assert_eq!(gb.bus.write(0xFF50, 1), Ok(()));
    assert_eq!(gb.bus.read(0x0000), Ok(0xAA));
    assert_eq!(gb.bus.read(0x0001), Ok(0xBB));
    assert_eq!(gb.bus.read(0x0005), Ok(0xFF));
    assert_eq!(gb.bus.write(0xFF50, 2), Ok(()));
    assert_eq!(gb.bus.read(0x0000), Ok(0xAA));
}

#[test]
fn call_pushes_return_address() {
    let mut gb = Gameboy::new(SystemMode::Gameboy);
    let mut rom = vec![0u8; 0x200];
    rom[0x100] = 0xCD;
    rom[0x101] = 0x34;
    rom[0x102] = 0x12;
    gb.bus.cart.rom = rom;
    gb.bus.write(0xFF50, 1).unwrap();
    gb.cpu.regs.pc = 0x0100;
    gb.cpu.regs.sp = 0xFFFE;
    assert_eq!(run_instruction(&mut gb), 24);
    assert_eq!(gb.cpu.regs.pc, 0x1234);
    assert_eq!(gb.cpu.regs.sp, 0xFFFC);
    assert_eq!(gb.bus.read(0xFFFD), Ok(0x01));
    assert_eq!(gb.bus.read(0xFFFC), Ok(0x03));
}

#[test]
fn push_wraps_stack_pointer() {
    // PUSH BC at SP=0x0000 writes 0xFFFF (IE) and then 0xFFFE.
    let mut gb = boot_with(&[0x01, 0x34, 0x12, 0xC5, 0xD1]);
    gb.cpu.regs.sp = 0x0000;
    run_instruction(&mut gb);
    assert_eq!(run_instruction(&mut gb), 16);
    assert_eq!(gb.cpu.regs.sp, 0xFFFE);
    assert_eq!(gb.bus.ie, 0x12);
    assert_eq!(gb.bus.read(0xFFFE), Ok(0x34));
    // POP DE at SP=0xFFFE reads 0xFFFE and 0xFFFF and wraps to 0x0000.
    assert_eq!(run_instruction(&mut gb), 12);
    assert_eq!((gb.cpu.regs.d, gb.cpu.regs.e), (0x12, 0x34));
    assert_eq!(gb.cpu.regs.sp, 0x0000);
}

#[test]
fn jr_wraps_program_counter() {
    // JR at 0xFFFE with its offset 0xFF at 0xFFFF: PC is 0x0000 after the
    // fetch, and the jump by -1 lands at 0xFFFF.
    let mut gb = Gameboy::new(SystemMode::Gameboy);
    gb.bus.write(0xFFFE, 0x18).unwrap();
    gb.bus.write(0xFFFF, 0xFF).unwrap();
    gb.cpu.regs.pc = 0xFFFE;
    assert_eq!(run_instruction(&mut gb), 12);
    assert_eq!(gb.cpu.regs.pc, 0xFFFF);
}

#[test]
fn ld_hl_minus_wraps() {
    let mut gb = boot_with(&[0x21, 0x00, 0x00, 0x3E, 0x55, 0x32]);
    run_instruction(&mut gb);
    run_instruction(&mut gb);
    assert_eq!(run_instruction(&mut gb), 8);
    assert_eq!(gb.cpu.regs.hl(), 0xFFFF);
    // The write went to 0x0000, inside the read-only boot ROM.
    assert_eq!(gb.bus.read(0x0000), Ok(0x21));
}

#[test]
fn ei_takes_effect_after_next_instruction() {
    let mut gb = boot_with(&[0xFB, 0x00, 0x00, 0xF3]);
    run_instruction(&mut gb);
    assert!(!gb.cpu.ime);
    run_instruction(&mut gb);
    assert!(!gb.cpu.ime);
    run_instruction(&mut gb);
    assert!(gb.cpu.ime);
    run_instruction(&mut gb);
    assert!(!gb.cpu.ime);
}

#[test]
fn cb_rotation_on_memory() {
    // LD HL,0xC000; LD (HL),0x81; RLC (HL); BIT 0,(HL)
    let mut gb = boot_with(&[0x21, 0x00, 0xC0, 0x36, 0x81, 0xCB, 0x06, 0xCB, 0x46]);
    run_instruction(&mut gb);
    assert_eq!(run_instruction(&mut gb), 12);
    assert_eq!(run_instruction(&mut gb), 16);
    assert_eq!(gb.bus.read(0xC000), Ok(0x03));
    assert_eq!(gb.cpu.regs.f, 0x10);
    assert_eq!(run_instruction(&mut gb), 12);
    assert_eq!(gb.cpu.regs.f, 0x30);
}

#[test]
fn conditional_timings() {
    // XOR A (Z=1); JR NZ,+2 (not taken); JR Z,+0 (taken); RET NZ (not taken)
    let mut gb = boot_with(&[0xAF, 0x20, 0x02, 0x28, 0x00, 0xC0]);
    assert_eq!(run_instruction(&mut gb), 4);
    assert_eq!(run_instruction(&mut gb), 8);
    assert_eq!(run_instruction(&mut gb), 12);
    assert_eq!(run_instruction(&mut gb), 8);
    assert_eq!(gb.cpu.regs.pc, 6);
}

#[test]
fn faults_are_reported() {
    let mut gb = boot_with(&[0x10]);
    assert_eq!(gb.tcycle(), Err(Fault::Stop));
    let mut gb = boot_with(&[0xD3]);
    assert_eq!(gb.tcycle(), Err(Fault::RemovedOpcode(0xD3)));
    let mut gb = boot_with(&[0x76]);
    assert_eq!(gb.tcycle(), Err(Fault::UnimplementedOpcode(0x76)));
    let gb = Gameboy::new(SystemMode::Gameboy);
    assert_eq!(gb.bus.read(0xFF00), Err(Fault::UnmappedRead(0xFF00)));
    assert_eq!(gb.bus.read(0xA000), Err(Fault::UnmappedRead(0xA000)));
}

#[test]
fn mcycle_runs_four_tcycles() {
    let mut gb = boot_with(&[0x00, 0x00]);
    gb.mcycle().unwrap();
    assert_eq!(gb.tcycles, 4);
    assert_eq!(gb.cpu.regs.pc, 1);
    assert!(gb.cpu.procedure.is_none());
}

#[test]
fn writing_zero_to_ff50_still_hides_boot_rom() {
    let mut gb = Gameboy::new(SystemMode::Gameboy);
    gb.bus.boot_rom[0] = 0x31;
    gb.bus.cart.rom = vec![0xAA];
    assert_eq!(gb.bus.read(0x0000), Ok(0x31));
    assert_eq!(gb.bus.write(0xFF50, 0x00), Ok(()));
    assert_eq!(gb.bus.read(0x0000), Ok(0xAA));
    assert_eq!(gb.bus.read(0xFF50), Ok(0x00));
    assert_eq!(gb.bus.write(0xFF50, 0x00), Ok(()));
    assert_eq!(gb.bus.read(0x0000), Ok(0xAA));
}
