use gameboy_emulator::input::{Button, Joypad};
use gameboy_emulator::mmu::Mmu;

fn fresh() -> Mmu {
    Mmu::new(Joypad::new())
}

#[test]
fn mmu_power_on_state() {
    let m = fresh();
    assert_eq!(m.rom.len(), 0x8000);
    assert!(m.in_bios);
    assert!(m.bios.is_none());
    assert_eq!(m.rom_bank, 0);
    assert!(!m.ram_enabled);
    // no boot ROM loaded: the overlay reads 0xFF
    assert_eq!(m.read_byte(0x0000), 0xFF);
    assert_eq!(m.read_byte(0x0100), 0x00);
}

#[test]
fn ram_regions_keep_writes() {
    let mut m = fresh();
    for (addr, v) in [
        (0x8000u16, 1u8),
        (0x9FFF, 2),
        (0xC000, 3),
        (0xDFFF, 4),
        (0xFE00, 5),
        (0xFE9F, 6),
        (0xFF01, 7),
        (0xFF7F, 8),
        (0xFF80, 9),
        (0xFFFE, 10),
        (0xFFFF, 11),
    ] {
        m.write_byte(addr, v);
        assert_eq!(m.read_byte(addr), v, "address {:04X}", addr);
    }
    assert_eq!(m.interrupt_enable, 11);
    assert_eq!(m.vram[0x1FFF], 2);
    assert_eq!(m.oam[0x9F], 6);
    assert_eq!(m.hram[0x7E], 10);
}

#[test]
fn echo_ram_mirrors_work_ram() {
    let mut m = fresh();
    m.write_byte(0xC123, 0x42);
    assert_eq!(m.read_byte(0xE123), 0x42);
    m.write_byte(0xFDFF, 0x24);
    assert_eq!(m.read_byte(0xDDFF), 0x24);
}

#[test]
fn unusable_area_reads_ff_and_ignores_writes() {
    let mut m = fresh();
    m.write_byte(0xFEA0, 1);
    assert_eq!(m.read_byte(0xFEA0), 0xFF);
    assert_eq!(m.read_byte(0xFEFF), 0xFF);
}

#[test]
fn cartridge_ram_needs_enabling() {
    let mut m = fresh();
    m.write_byte(0xA000, 0x55);
    assert_eq!(m.read_byte(0xA000), 0xFF);
    assert_eq!(m.eram[0], 0);
    m.write_byte(0x0000, 0x0A);
    assert!(m.ram_enabled);
    m.write_byte(0xA000, 0x55);
    assert_eq!(m.read_byte(0xA000), 0x55);
    m.write_byte(0x1FFF, 0x1A);
    assert!(m.ram_enabled);
    m.write_byte(0x1000, 0x00);
    assert!(!m.ram_enabled);
    assert_eq!(m.read_byte(0xA000), 0xFF);
}

#[test]
fn rom_bank_switching() {
    let mut m = fresh();
    let mut rom = vec![0u8; 0x4000 * 4];
    rom[0x0005] = 0xB0;
    rom[0x4000 + 5] = 0xB1;
    rom[0x8000 + 5] = 0xB2;
    rom[0xC000 + 5] = 0xB3;
    m.load_rom(rom);
    assert_eq!(m.read_byte(0x0005), 0xFF); // boot overlay without a boot ROM
    m.in_bios = false;
    assert_eq!(m.read_byte(0x0005), 0xB0);
    m.write_byte(0x2000, 0x00);
    assert_eq!(m.rom_bank, 1);
    assert_eq!(m.read_byte(0x4005), 0xB1);
    m.write_byte(0x3FFF, 0x03);
    assert_eq!(m.read_byte(0x4005), 0xB3);
    m.write_byte(0x2000, 0x22); // low five bits: 2
    assert_eq!(m.rom_bank, 2);
    assert_eq!(m.read_byte(0x4005), 0xB2);
    m.write_byte(0x2000, 0x20); // low five bits 0 -> bank 1
    assert_eq!(m.rom_bank, 1);
    m.write_byte(0x2000, 0x07); // past the end of the image
    assert_eq!(m.read_byte(0x4005), 0xFF);
    m.write_byte(0x4000, 0x07);
    assert_eq!(m.ram_bank, 3);
    m.switch_ram_bank(0x02);
    assert_eq!(m.ram_bank, 2);
    m.switch_rom_bank(0x00);
    assert_eq!(m.rom_bank, 1);
    m.enable_ram(0xFA);
    assert!(m.ram_enabled);
}

#[test]
fn controller_type_from_header() {
    let mut m = fresh();
    let mut rom = vec![0u8; 0x8000];
    rom[0x147] = 0x02;
    m.load_rom(rom.clone());
    assert_eq!(m.mbc_type, 1);
    rom[0x147] = 0x13;
    m.load_rom(rom.clone());
    assert_eq!(m.mbc_type, 3);
    rom[0x147] = 0x05;
    m.load_rom(rom);
    assert_eq!(m.mbc_type, 0);
    m.load_rom(vec![1, 2, 3]);
    assert_eq!(m.mbc_type, 0);
    assert_eq!(m.read_byte(0x0102), 0xFF);
}

#[test]
fn boot_rom_overlay() {
    let mut m = fresh();
    let mut rom = vec![0u8; 0x8000];
    rom[0x10] = 0xCC;
    rom[0x100] = 0xDD;
    m.load_rom(rom);
    m.load_bios(vec![0xAA; 0x100]);
    assert!(m.in_bios);
    assert_eq!(m.read_byte(0x10), 0xAA);
    assert_eq!(m.read_byte(0x100), 0xDD);
    // 0xFF50 lies in the I/O block and is stored there
    m.write_byte(0xFF50, 1);
    assert_eq!(m.io[0x50], 1);
    assert!(m.in_bios);
    m.in_bios = false;
    assert_eq!(m.read_byte(0x10), 0xCC);
}

#[test]
fn words_are_little_endian() {
    let mut m = fresh();
    m.write_word(0xC000, 0xBEEF);
    assert_eq!(m.read_byte(0xC000), 0xEF);
    assert_eq!(m.read_byte(0xC001), 0xBE);
    assert_eq!(m.read_word(0xC000), 0xBEEF);
    // the second byte wraps round to 0x0000
    m.write_byte(0xFFFF, 0x34);
    assert_eq!(m.read_word(0xFFFF), 0x0034 | ((m.read_byte(0x0000) as u16) << 8));
}

#[test]
fn dma_copies_a_page_into_oam() {
    let mut m = fresh();
    for i in 0..0xA0u16 {
        m.write_byte(0xC100 + i, i as u8 ^ 0x5A);
    }
    m.dma_transfer(0xC1);
    for i in 0..0xA0usize {
        assert_eq!(m.oam[i], i as u8 ^ 0x5A);
        assert_eq!(m.read_byte(0xFE00 + i as u16), i as u8 ^ 0x5A);
    }
}

#[test]
fn joypad_through_its_register() {
    let mut m = fresh();
    m.joypad.press_button(Button::Down);
    m.write_byte(0xFF00, 0x20);
    assert_eq!(m.read_byte(0xFF00), 0b1110_0111);
    assert_eq!(m.joypad.last_written_value, 0x20);
    m.write_byte(0xFF00, 0x30);
    assert_eq!(m.read_byte(0xFF00), 0xFF);
}

#[test]
fn reset_clears_ram() {
    let mut m = fresh();
    m.load_rom(vec![7u8; 0x8000]);
    m.write_byte(0xC000, 1);
    m.write_byte(0xFFFF, 1);
    m.write_byte(0x0000, 0x0A);
    m.in_bios = false;
    m.reset();
    assert_eq!(m.read_byte(0xC000), 0);
    assert_eq!(m.interrupt_enable, 0);
    assert_eq!(m.rom_bank, 1);
    assert!(!m.ram_enabled);
    assert!(m.in_bios);
    assert_eq!(m.rom[0], 7);
}

#[test]
fn a_ram_write_touches_one_byte() {
    let mut m = fresh();
    m.in_bios = false;
    m.write_byte(0x8001, 0x99);
    assert_eq!(m.read_byte(0x8000), 0);
    assert_eq!(m.read_byte(0x8002), 0);
    assert_eq!(m.read_byte(0xC001), 0);
    assert_eq!(m.read_byte(0x0001), 0);
    assert_eq!(m.read_byte(0xFF00), 0xFF);
    assert_eq!(m.vram.iter().filter(|b| **b != 0).count(), 1);
}
