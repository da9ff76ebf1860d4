use gameboy_emulator::memory::Memory;

#[test]
fn memory_starts_zeroed_and_keeps_writes() {
    let mut m = Memory::new();
    assert_eq!(m.read_byte(0), 0);
    assert_eq!(m.read_byte(0xFFFF), 0);
    m.write_byte(0x1234, 0x56);
    m.write_byte(0xFFFF, 0x9A);
    assert_eq!(m.read_byte(0x1234), 0x56);
    assert_eq!(m.read_byte(0xFFFF), 0x9A);
    assert_eq!(m.read_byte(0x1235), 0);
    m.write_byte(0x1234, 0x00);
    assert_eq!(m.read_byte(0x1234), 0);
}
