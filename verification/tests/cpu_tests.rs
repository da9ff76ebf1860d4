use gameboy_emulator::cpu::CPU;

fn cpu_with(a: u8, f: u8) -> CPU {
    let mut cpu = CPU::new();
    cpu.regs.a = a;
    cpu.regs.f = f;
    cpu
}

#[test]
fn cpu_power_on_state() {
    let cpu = CPU::new();
    assert_eq!(cpu.sp, 0xFFFE);
    assert_eq!(cpu.pc, 0x0100);
    assert_eq!(cpu.regs.get_af(), 0);
    assert_eq!(cpu.regs.get_bc(), 0);
    assert_eq!(cpu.memory.read_byte(0x0100), 0);
}

#[test]
fn fetch_reads_at_pc_and_advances() {
    let mut cpu = CPU::new();
    cpu.memory.write_byte(0x0100, 0xAB);
    cpu.memory.write_byte(0x0101, 0xCD);
    assert_eq!(cpu.fetch_byte(), 0xAB);
    assert_eq!(cpu.pc, 0x0101);
    assert_eq!(cpu.fetch_byte(), 0xCD);
    assert_eq!(cpu.pc, 0x0102);
}

#[test]
fn fetch_wraps_at_the_top_of_memory() {
    let mut cpu = CPU::new();
    cpu.pc = 0xFFFF;
    cpu.memory.write_byte(0xFFFF, 0x42);
    assert_eq!(cpu.fetch_byte(), 0x42);
    assert_eq!(cpu.pc, 0x0000);
}

#[test]
fn add_sets_zero_half_and_carry() {
    let mut cpu = cpu_with(0x3A, 0);
    cpu.ADD_A(0xC6);
    assert_eq!(cpu.regs.a, 0x00);
    assert_eq!(cpu.regs.f, 0xB0);

    let mut cpu = cpu_with(0x0F, 0xF0);
    cpu.ADD_A(0x01);
    assert_eq!(cpu.regs.a, 0x10);
    assert_eq!(cpu.regs.f, 0x20);

    let mut cpu = cpu_with(0x12, 0);
    cpu.ADD_A(0x22);
    assert_eq!(cpu.regs.a, 0x34);
    assert_eq!(cpu.regs.f, 0x00);
}

#[test]
fn adc_counts_the_carry() {
    let mut cpu = cpu_with(0xE1, 0x10);
    cpu.ADC_A_Carry(0x0F);
    assert_eq!(cpu.regs.a, 0xF1);
    assert_eq!(cpu.regs.f, 0x20);

    let mut cpu = cpu_with(0xE1, 0x10);
    cpu.ADC_A_Carry(0x3B);
    assert_eq!(cpu.regs.a, 0x1D);
    assert_eq!(cpu.regs.f, 0x10);

    let mut cpu = cpu_with(0xE1, 0x10);
    cpu.ADC_A_Carry(0x1E);
    assert_eq!(cpu.regs.a, 0x00);
    assert_eq!(cpu.regs.f, 0xB0);
}

#[test]
fn adc_without_carry_is_add() {
    let mut x = cpu_with(0x8F, 0xE0);
    let mut y = cpu_with(0x8F, 0xE0);
    x.ADC_A_Carry(0x91);
    y.ADD_A(0x91);
    assert_eq!((x.regs.a, x.regs.f), (y.regs.a, y.regs.f));
}

#[test]
fn sub_sets_subtract_borrow_flags() {
    let mut cpu = cpu_with(0x3E, 0);
    cpu.SUB_A(0x3E);
    assert_eq!(cpu.regs.a, 0x00);
    assert_eq!(cpu.regs.f, 0xC0);

    let mut cpu = cpu_with(0x3E, 0);
    cpu.SUB_A(0x0F);
    assert_eq!(cpu.regs.a, 0x2F);
    assert_eq!(cpu.regs.f, 0x60);

    let mut cpu = cpu_with(0x3E, 0);
    cpu.SUB_A(0x40);
    assert_eq!(cpu.regs.a, 0xFE);
    assert_eq!(cpu.regs.f, 0x50);
}

#[test]
fn sbc_counts_the_carry() {
    let mut cpu = cpu_with(0x3B, 0x10);
    cpu.SBC_A(0x2A);
    assert_eq!(cpu.regs.a, 0x10);
    assert_eq!(cpu.regs.f, 0x40);

    let mut cpu = cpu_with(0x3B, 0x10);
    cpu.SBC_A(0x3A);
    assert_eq!(cpu.regs.a, 0x00);
    assert_eq!(cpu.regs.f, 0xC0);

    let mut cpu = cpu_with(0x3B, 0x10);
    cpu.SBC_A(0x4F);
    assert_eq!(cpu.regs.a, 0xEB);
    assert_eq!(cpu.regs.f, 0x70);

    let mut cpu = cpu_with(0x00, 0x10);
    cpu.SBC_A(0x00);
    assert_eq!(cpu.regs.a, 0xFF);
    assert_eq!(cpu.regs.f, 0x70);
}

#[test]
fn add_then_sub_restores_a() {
    for a in [0u8, 1, 0x7F, 0x80, 0xFF] {
        for v in [0u8, 1, 0x0F, 0x10, 0xFF] {
            let mut cpu = cpu_with(a, 0);
            cpu.ADD_A(v);
            cpu.SUB_A(v);
            assert_eq!(cpu.regs.a, a);
        }
    }
}

#[test]
fn alu_leaves_other_state() {
    let mut cpu = cpu_with(5, 0);
    cpu.regs.b = 7;
    cpu.sp = 0x1234;
    cpu.pc = 0x4321;
    cpu.ADD_A(1);
    cpu.SUB_A(2);
    assert_eq!((cpu.regs.b, cpu.sp, cpu.pc), (7, 0x1234, 0x4321));
    assert_eq!(cpu.regs.a, 4);
    assert!(cpu.regs.get_flag_n());
    assert!(!cpu.regs.get_flag_z());
}
