use gameboy_emulator::input::{Button, Joypad};

#[test]
fn joypad_selection_and_keys() {
    let mut joypad = Joypad::new();

    joypad.write_joypad(0b0011_0000); // no group selected
    assert_eq!(joypad.read_joypad(), 0xFF);

    joypad.write_joypad(0b0010_0000); // directions selected
    joypad.press_button(Button::Up);
    joypad.press_button(Button::Left);
    assert_eq!(joypad.read_joypad(), 0b1110_1001);

    joypad.write_joypad(0b0001_0000); // action keys selected
    joypad.press_button(Button::A);
    joypad.press_button(Button::Start);
    assert_eq!(joypad.read_joypad(), 0b1101_0110);

    joypad.release_button(Button::A);
    assert_eq!(joypad.read_joypad(), 0b1101_0111);
}

#[test]
fn both_groups_selected() {
    let mut joypad = Joypad::new();
    joypad.write_joypad(0x00);
    joypad.press_button(Button::Right);
    joypad.press_button(Button::B);
    assert_eq!(joypad.read_joypad(), 0b1100_1100);
    assert_eq!(joypad.last_written_value, 0);
}

#[test]
fn fresh_joypad_selects_nothing() {
    let joypad = Joypad::new();
    assert_eq!(joypad.last_written_value, 0xFF);
    assert_eq!(joypad.read_joypad(), 0xFF);
}

#[test]
fn button_indices() {
    let all = [
        Button::Right,
        Button::Left,
        Button::Up,
        Button::Down,
        Button::A,
        Button::B,
        Button::Select,
        Button::Start,
    ];
    for (i, b) in all.iter().enumerate() {
        assert_eq!(b.as_usize(), i);
        assert_eq!(usize::from(*b), i);
    }
}
