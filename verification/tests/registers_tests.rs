use gameboy_emulator::registers::{Register8, Registers};

fn zero() -> Registers {
    Registers { a: 0, f: 0, b: 0, c: 0, d: 0, e: 0, h: 0, l: 0 }
}

#[test]
fn pairs_read_back_what_was_written() {
    let mut r = zero();
    r.set_bc(0x1234);
    r.set_de(0xBEEF);
    r.set_hl(0x00FF);
    assert_eq!(r.get_bc(), 0x1234);
    assert_eq!(r.get_de(), 0xBEEF);
    assert_eq!(r.get_hl(), 0x00FF);
    assert_eq!((r.b, r.c), (0x12, 0x34));
    assert_eq!((r.d, r.e), (0xBE, 0xEF));
    assert_eq!((r.h, r.l), (0x00, 0xFF));
}

#[test]
fn af_drops_the_low_nibble_of_f() {
    let mut r = zero();
    r.set_af(0x12F7);
    assert_eq!(r.a, 0x12);
    assert_eq!(r.f, 0xF0);
    assert_eq!(r.get_af(), 0x12F0);
    r.f = 0xAB;
    assert_eq!(r.get_f(), 0xA0);
    assert_eq!(r.get_af(), 0x12A0);
    r.set_f(0x5C);
    assert_eq!(r.f, 0x50);
}

#[test]
fn single_registers() {
    let mut r = zero();
    r.set_a(1);
    r.set_b(2);
    r.set_c(3);
    r.set_d(4);
    r.set_e(5);
    r.set_h(6);
    r.set_l(7);
    assert_eq!(
        (r.get_a(), r.get_b(), r.get_c(), r.get_d(), r.get_e(), r.get_h(), r.get_l()),
        (1, 2, 3, 4, 5, 6, 7)
    );
    assert_eq!(r.get_bc(), 0x0203);
}

#[test]
fn flags_set_and_clear_independently() {
    let mut r = zero();
    r.set_flag_z(true);
    r.set_flag_c(true);
    assert_eq!(r.f, 0x90);
    assert!(r.get_flag_z() && r.get_flag_c() && !r.get_flag_n() && !r.get_flag_h());
    r.set_flag_n(true);
    r.set_flag_h(true);
    assert_eq!(r.f, 0xF0);
    r.set_flag_z(false);
    assert_eq!(r.f, 0x70);
    assert!(!r.get_flag_z() && r.get_flag_n() && r.get_flag_h() && r.get_flag_c());
    r.set_flag_c(false);
    r.set_flag_n(false);
    r.set_flag_h(false);
    assert_eq!(r.f, 0x00);
}

#[test]
fn eight_bit_access_by_name() {
    let mut r = zero();
    let all = [
        Register8::A,
        Register8::F,
        Register8::B,
        Register8::C,
        Register8::D,
        Register8::E,
        Register8::H,
        Register8::L,
    ];
    for (i, reg) in all.iter().enumerate() {
        r.set_8(*reg, 0x11 * (i as u8 + 1));
    }
    assert_eq!(r.get_8(Register8::A), 0x11);
    assert_eq!(r.get_8(Register8::F), 0x20);
    assert_eq!(r.f, 0x20);
    assert_eq!(r.get_8(Register8::B), 0x33);
    assert_eq!(r.get_8(Register8::C), 0x44);
    assert_eq!(r.get_8(Register8::D), 0x55);
    assert_eq!(r.get_8(Register8::E), 0x66);
    assert_eq!(r.get_8(Register8::H), 0x77);
    assert_eq!(r.get_8(Register8::L), 0x88);
    r.f = 0x2F;
    assert_eq!(r.get_8(Register8::F), 0x20);
}

#[test]
fn rewriting_a_pair_changes_nothing() {
    let mut r = Registers { a: 9, f: 0x30, b: 0xAB, c: 0xCD, d: 1, e: 2, h: 3, l: 4 };
    let bc = r.get_bc();
    r.set_bc(bc);
    let af = r.get_af();
    r.set_af(af);
    assert_eq!((r.a, r.f, r.b, r.c, r.d, r.e, r.h, r.l), (9, 0x30, 0xAB, 0xCD, 1, 2, 3, 4));
}
