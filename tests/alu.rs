use gbcrs::arch::alu::{add, adc, add16, alu, cb_rot, dec, inc, sub, sbc, daa};

#[test]
fn half_carry_on_add_and_sub() {
    assert!(add(0x0F, 0x01).half);
    assert!(!add(0x0E, 0x01).half);
    assert!(sub(0x10, 0x01).half);
    assert!(!sub(0x11, 0x01).half);
}

#[test]
fn carry_on_add_and_sub() {
    let r = add(0xFF, 0x01);
    assert!(r.carry && r.zero);
    assert_eq!(r.result, 0x00);
    let r = sub(0x00, 0x01);
    assert!(r.carry);
    assert_eq!(r.result, 0xFF);
    // SUB through alu[2]: N set, C set.
    assert_eq!(alu(2, 0x00, 0x01, 0x00), (0xFF, 0x70));
}

#[test]
fn adc_and_sbc_fold_carry() {
    let r = adc(0x0F, 0x00, true);
    assert_eq!(r.result, 0x10);
    assert!(r.half && !r.carry);
    let r = sbc(0x10, 0x0F, true);
    assert_eq!(r.result, 0x00);
    assert!(r.zero && r.half && !r.carry);
}

#[test]
fn add16_carries() {
    let r = add16(0x0FFF, 0x0001);
    assert_eq!(r.result, 0x1000);
    assert!(r.half && !r.carry);
    let r = add16(0xFFFF, 0x0001);
    assert_eq!(r.result, 0x0000);
    assert!(r.carry);
}

#[test]
fn logic_ops_flags() {
    assert_eq!(alu(4, 0x00, 0xFF, 0x00), (0x00, 0xA0));
    assert_eq!(alu(4, 0x5A, 0xFF, 0x10), (0x5A, 0x20));
    assert_eq!(alu(5, 0x5A, 0x5A, 0x70), (0x00, 0x80));
    assert_eq!(alu(6, 0x50, 0x0A, 0x70), (0x5A, 0x00));
}

#[test]
fn cp_matches_sub_flags() {
    for (a, b) in [(0x10u8, 0x01u8), (0x00, 0x01), (0x42, 0x42)] {
        let cp = alu(7, a, b, 0);
        let sub = alu(2, a, b, 0);
        assert_eq!(cp.0, a);
        assert_eq!(cp.1, sub.1);
    }
}

#[test]
fn inc_then_dec_restores() {
    for v in [0x00u8, 0x0F, 0xFF, 0x7F] {
        for f in [0x00u8, 0x10] {
            let (x, f1) = inc(v, f);
            let (y, f2) = dec(x, f1);
            assert_eq!(y, v);
            assert_eq!(f2 & 0x10, f & 0x10);
            assert_eq!(f2 & 0x40, 0x40);
        }
    }
}

#[test]
fn rotation_cycles() {
    let v = 0b1000_0001u8;
    let mut x = v;
    for k in 0..8 {
        x = cb_rot(0, x, 0).0;
        if k == 1 {
            assert_ne!(x, v);
        }
    }
    assert_eq!(x, v);
    let mut x = v;
    for _ in 0..8 {
        x = cb_rot(1, x, 0).0;
    }
    assert_eq!(x, v);
    // RL through carry: nine steps return byte and carry.
    let (mut x, mut f) = (v, 0x00u8);
    for _ in 0..9 {
        let r = cb_rot(2, x, f);
        x = r.0;
        f = r.1;
    }
    assert_eq!((x, f & 0x10), (v, 0x00));
}

#[test]
fn swap_and_shifts() {
    assert_eq!(cb_rot(6, 0xF1, 0x10), (0x1F, 0x00));
    assert_eq!(cb_rot(5, 0x81, 0x00), (0xC0, 0x10));
    assert_eq!(cb_rot(7, 0x01, 0x00), (0x00, 0x90));
    assert_eq!(cb_rot(4, 0x80, 0x00), (0x00, 0x90));
}

#[test]
fn daa_adjusts_bcd() {
    // 0x45 + 0x38 = 0x7D; DAA gives 0x83.
    assert_eq!(daa(0x7D, 0x00), (0x83, 0x00));
    // 0x99 + 0x01 = 0x9A; DAA gives 0x00 with carry.
    assert_eq!(daa(0x9A, 0x00), (0x00, 0x90));
}
