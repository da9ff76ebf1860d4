//! The joypad and its register at 0xFF00: the program selects the
//! direction keys (bit 4 low) and/or the action keys (bit 5 low) and reads
//! the selected keys in bits 0 to 3, a pressed key reading as 0.
use vstd::prelude::*;

verus! {

#[derive(Copy, Clone, Debug, PartialEq, Eq, Structural)]
pub enum Button {
    Right,
    Left,
    Up,
    Down,
    A,
    B,
    Select,
    Start,
}

pub struct Joypad {
    /// `true` where the key is held down, indexed by `Button::as_usize`.
    pub buttons: [bool; 8],
    /// Bit 4 (P14) was written low: the direction keys are selected.
    pub select_directions: bool,
    /// Bit 5 (P15) was written low: the action keys are selected.
    pub select_buttons: bool,
    /// The last value written to 0xFF00.
    pub last_written_value: u8,
}

/// The slot of a key in `Joypad::buttons`.
pub open spec fn button_index(button: Button) -> int {
    match button {
        Button::Right => 0,
        Button::Left => 1,
        Button::Up => 2,
        Button::Down => 3,
        Button::A => 4,
        Button::B => 5,
        Button::Select => 6,
        Button::Start => 7,
    }
}

impl Button {
    pub fn as_usize(&self) -> (i: usize)
        ensures
            i == button_index(*self),
    {
        match self {
            Button::Right => 0,
            Button::Left => 1,
            Button::Up => 2,
            Button::Down => 3,
            Button::A => 4,
            Button::B => 5,
            Button::Select => 6,
            Button::Start => 7,
        }
    }
}

impl From<Button> for usize {
    fn from(button: Button) -> (i: usize) {
        button.as_usize()
    }
}

impl vstd::std_specs::convert::FromSpecImpl<Button> for usize {
    open spec fn obeys_from_spec() -> bool {
        true
    }

    open spec fn from_spec(button: Button) -> usize {
        button_index(button) as usize
    }
}

impl Joypad {
    /// Line `i` (0 to 3) of the register is pulled low: a selected key on it
    /// is pressed (direction `i` or action key `i`).
    pub open spec fn line_low(self, i: int) -> bool {
        (self.select_directions && self.buttons@[i]) || (self.select_buttons && self.buttons@[i
            + 4])
    }

    /// The value read from 0xFF00: bits 6 and 7 read 1, bits 4 and 5 read
    /// the selection (0 = selected), bits 0 to 3 read 0 where a selected key
    /// is pressed and 1 elsewhere.
    pub open spec fn register_value(self) -> u8 {
        (0xC0 + (if self.select_buttons { 0int } else { 0x20 }) + (if self.select_directions {
            0int
        } else {
            0x10
        }) + (if self.line_low(3) { 0int } else { 8 }) + (if self.line_low(2) { 0int } else { 4 })
            + (if self.line_low(1) { 0int } else { 2 }) + (if self.line_low(0) { 0int } else { 1 })) as u8
    }

    /// The joypad after the CPU writes `value` to its register.
    pub open spec fn written(self, value: u8) -> Joypad {
        Joypad {
            last_written_value: value,
            select_buttons: value & 0x20 == 0,
            select_directions: value & 0x10 == 0,
            ..self
        }
    }

    pub fn new() -> (j: Self)
        ensures
            j.buttons@ == seq![false, false, false, false, false, false, false, false],
            !j.select_directions,
            !j.select_buttons,
            j.last_written_value == 0xFF,
    {
        let j = Self {
            buttons: [false; 8],
            select_directions: false,
            select_buttons: false,
            last_written_value: 0xFF,
        };
        assert(j.buttons@ =~= seq![false, false, false, false, false, false, false, false]);
        j
    }

    /// The value the CPU reads from the joypad register (0xFF00).
    pub fn read_joypad(&self) -> (r: u8)
        ensures
            r == self.register_value(),
    {
        let sd: bool = self.select_directions;
        let sb: bool = self.select_buttons;
        let mut result: u8 = 0xFF;

        // bits 4 and 5 show the selection
        if self.select_directions {
            result &= !(1u8 << 4);
        } else {
            result |= 1u8 << 4;
        }
        let ghost r1: u8 = result;
        if self.select_buttons {
            result &= !(1u8 << 5);
        } else {
            result |= 1u8 << 5;
        }
        let ghost r2: u8 = result;
        let down: bool = self.buttons[Button::Down.as_usize()];
        let up: bool = self.buttons[Button::Up.as_usize()];
        let left: bool = self.buttons[Button::Left.as_usize()];
        let right: bool = self.buttons[Button::Right.as_usize()];
        // direction keys: 3 down, 2 up, 1 left, 0 right
        if self.select_directions {
            if down {
                result &= !(1u8 << 3);
            }
            if up {
                result &= !(1u8 << 2);
            }
            if left {
                result &= !(1u8 << 1);
            }
            if right {
                result &= !(1u8 << 0);
            }
        }
        let ghost r3: u8 = result;
        let start: bool = self.buttons[Button::Start.as_usize()];
        let select: bool = self.buttons[Button::Select.as_usize()];
        let b: bool = self.buttons[Button::B.as_usize()];
        let a: bool = self.buttons[Button::A.as_usize()];
        // action keys: 3 start, 2 select, 1 B, 0 A
        if self.select_buttons {
            if start {
                result &= !(1u8 << 3);
            }
            if select {
                result &= !(1u8 << 2);
            }
            if b {
                result &= !(1u8 << 1);
            }
            if a {
                result &= !(1u8 << 0);
            }
        }
        proof {
            assert(r1 == if sd {
                0xFFu8 & !(1u8 << 4u8)
            } else {
                0xFFu8 | (1u8 << 4u8)
            });
            assert(r2 == if sb {
                r1 & !(1u8 << 5u8)
            } else {
                r1 | (1u8 << 5u8)
            });
            assert(r3 == if sd {
                (((r2 & (if down { !(1u8 << 3u8) } else { 0xFFu8 })) & (if up { !(1u8 << 2u8) } else { 0xFFu8 })) & (if left {
                    !(1u8 << 1u8)
                } else {
                    0xFFu8
                })) & (if right { !(1u8 << 0u8) } else { 0xFFu8 })
            } else {
                r2
            }) by {
                assert(forall|x: u8| #[trigger] (x & 0xFFu8) == x) by (bit_vector);
            }
            assert(result == if sb {
                (((r3 & (if start { !(1u8 << 3u8) } else { 0xFFu8 })) & (if select {
                    !(1u8 << 2u8)
                } else {
                    0xFFu8
                })) & (if b { !(1u8 << 1u8) } else { 0xFFu8 })) & (if a {
                    !(1u8 << 0u8)
                } else {
                    0xFFu8
                })
            } else {
                r3
            }) by {
                assert(forall|x: u8| #[trigger] (x & 0xFFu8) == x) by (bit_vector);
            }
            let l3: bool = (sd && down) || (sb && start);
            let l2: bool = (sd && up) || (sb && select);
            let l1: bool = (sd && left) || (sb && b);
            let l0: bool = (sd && right) || (sb && a);
            assert(result == 0xC0u8 + (if sb { 0u8 } else { 0x20u8 }) + (if sd { 0u8 } else { 0x10u8 })
                + (if l3 { 0u8 } else { 8u8 }) + (if l2 { 0u8 } else { 4u8 }) + (if l1 { 0u8 } else { 2u8 })
                + (if l0 { 0u8 } else { 1u8 })) by (bit_vector)
                requires
                    r1 == if sd {
                        0xFFu8 & !(1u8 << 4u8)
                    } else {
                        0xFFu8 | (1u8 << 4u8)
                    },
                    r2 == if sb {
                        r1 & !(1u8 << 5u8)
                    } else {
                        r1 | (1u8 << 5u8)
                    },
                    r3 == if sd {
                        (((r2 & (if down { !(1u8 << 3u8) } else { 0xFFu8 })) & (if up {
                            !(1u8 << 2u8)
                        } else {
                            0xFFu8
                        })) & (if left { !(1u8 << 1u8) } else { 0xFFu8 })) & (if right {
                            !(1u8 << 0u8)
                        } else {
                            0xFFu8
                        })
                    } else {
                        r2
                    },
                    result == if sb {
                        (((r3 & (if start { !(1u8 << 3u8) } else { 0xFFu8 })) & (if select {
                            !(1u8 << 2u8)
                        } else {
                            0xFFu8
                        })) & (if b { !(1u8 << 1u8) } else { 0xFFu8 })) & (if a {
                            !(1u8 << 0u8)
                        } else {
                            0xFFu8
                        })
                    } else {
                        r3
                    },
                    l3 == ((sd && down) || (sb && start)),
                    l2 == ((sd && up) || (sb && select)),
                    l1 == ((sd && left) || (sb && b)),
                    l0 == ((sd && right) || (sb && a)),
            ;
        }
        result
    }

    /// The CPU writes the joypad register: bits 4 and 5 select the key groups.
    pub fn write_joypad(&mut self, value: u8)
        ensures
            *final(self) == old(self).written(value),
    {
        self.last_written_value = value;
        self.select_buttons = value & (1u8 << 5) == 0;  // P15 selected when low
        self.select_directions = value & (1u8 << 4) == 0;  // P14 selected when low
        assert(1u8 << 5u8 == 0x20 && 1u8 << 4u8 == 0x10) by (bit_vector);
    }

    pub fn press_button(&mut self, button: Button)
        ensures
            final(self).buttons@ == old(self).buttons@.update(button_index(button), true),
            final(self).select_buttons == old(self).select_buttons,
            final(self).select_directions == old(self).select_directions,
            final(self).last_written_value == old(self).last_written_value,
    {
        self.buttons[button.as_usize()] = true;
    }

    pub fn release_button(&mut self, button: Button)
        ensures
            final(self).buttons@ == old(self).buttons@.update(button_index(button), false),
            final(self).select_buttons == old(self).select_buttons,
            final(self).select_directions == old(self).select_directions,
            final(self).last_written_value == old(self).last_written_value,
    {
        self.buttons[button.as_usize()] = false;
    }
}

/// Bits 6 and 7 of the register always read 1, and after a write bits 4
/// and 5 read back the group selection written.
pub proof fn lemma_register_selection(pad: Joypad, w: u8)
    ensures
        pad.register_value() >= 0xC0,
        pad.written(w).register_value() & 0x30 == w & 0x30,
{
    let j = pad.written(w);
    let v: u8 = j.register_value();
    let sb: bool = j.select_buttons;
    let sd: bool = j.select_directions;
    let low: u8 = (v - 0xC0 - (if sb { 0int } else { 0x20 }) - (if sd { 0int } else { 0x10 })) as u8;
    assert(low < 16);
    assert(v & 0x30 == w & 0x30) by (bit_vector)
        requires
            v == 0xC0u8 + (if sb { 0u8 } else { 0x20u8 }) + (if sd { 0u8 } else { 0x10u8 }) + low,
            low < 16,
            sb == (w & 0x20 == 0),
            sd == (w & 0x10 == 0),
    ;
}

/// A held key of a selected group reads as 0 on its line; with neither
/// group selected every line reads 1.
pub proof fn lemma_pressed_key_reads_low(j: Joypad, button: Button)
    requires
        j.buttons@[button_index(button)],
    ensures
        (button_index(button) < 4 && j.select_directions) ==> j.line_low(button_index(button)),
        (button_index(button) >= 4 && j.select_buttons) ==> j.line_low(button_index(button) - 4),
        (!j.select_directions && !j.select_buttons) ==> j.register_value() == 0xFF,
{
}


/// A key of a group that is not selected does not show in the register:
/// pressing or releasing it leaves the value read from 0xFF00 unchanged.
pub proof fn lemma_unselected_keys_ignored(j1: Joypad, j2: Joypad, i: int)
    requires
        0 <= i < 8,
        j1.select_directions == j2.select_directions,
        j1.select_buttons == j2.select_buttons,
        forall|k: int| 0 <= k < 8 && k != i ==> j1.buttons@[k] == j2.buttons@[k],
        (i < 4 && !j1.select_directions) || (i >= 4 && !j1.select_buttons),
    ensures
        j1.register_value() == j2.register_value(),
{
    assert(j1.line_low(0) == j2.line_low(0));
    assert(j1.line_low(1) == j2.line_low(1));
    assert(j1.line_low(2) == j2.line_low(2));
    assert(j1.line_low(3) == j2.line_low(3));
}

/// The register bit by bit: bits 6 and 7 read 1; bit 4 reads 0 exactly
/// when the direction keys are selected and bit 5 exactly when the action
/// keys are; line `l` (bits 0 to 3) reads 0 exactly when a held key on it
/// belongs to a selected group (direction key `l`: Right, Left, Up, Down;
/// action key `l + 4`: A, B, Select, Start).
pub proof fn lemma_register_bits(j: Joypad)
    ensures
        j.register_value() & 0xC0 == 0xC0,
        (j.register_value() & 0x10 == 0) == j.select_directions,
        (j.register_value() & 0x20 == 0) == j.select_buttons,
        (j.register_value() & 0x01 == 0) == ((j.select_directions && j.buttons@[0]) || (
        j.select_buttons && j.buttons@[4])),
        (j.register_value() & 0x02 == 0) == ((j.select_directions && j.buttons@[1]) || (
        j.select_buttons && j.buttons@[5])),
        (j.register_value() & 0x04 == 0) == ((j.select_directions && j.buttons@[2]) || (
        j.select_buttons && j.buttons@[6])),
        (j.register_value() & 0x08 == 0) == ((j.select_directions && j.buttons@[3]) || (
        j.select_buttons && j.buttons@[7])),
{
    let v: u8 = j.register_value();
    let sd: bool = j.select_directions;
    let sb: bool = j.select_buttons;
    let l0: bool = (sd && j.buttons@[0]) || (sb && j.buttons@[4]);
    let l1: bool = (sd && j.buttons@[1]) || (sb && j.buttons@[5]);
    let l2: bool = (sd && j.buttons@[2]) || (sb && j.buttons@[6]);
    let l3: bool = (sd && j.buttons@[3]) || (sb && j.buttons@[7]);
    assert(v == 0xC0u8 + (if sb { 0u8 } else { 0x20u8 }) + (if sd { 0u8 } else { 0x10u8 }) + (if l3 {
        0u8
    } else {
        8u8
    }) + (if l2 { 0u8 } else { 4u8 }) + (if l1 { 0u8 } else { 2u8 }) + (if l0 { 0u8 } else { 1u8 }));
    assert(v & 0xC0 == 0xC0 && (v & 0x10 == 0) == sd && (v & 0x20 == 0) == sb && (v & 0x01 == 0)
        == l0 && (v & 0x02 == 0) == l1 && (v & 0x04 == 0) == l2 && (v & 0x08 == 0) == l3)
        by (bit_vector)
        requires
            v == 0xC0u8 + (if sb { 0u8 } else { 0x20u8 }) + (if sd { 0u8 } else { 0x10u8 }) + (if l3 {
                0u8
            } else {
                8u8
            }) + (if l2 { 0u8 } else { 4u8 }) + (if l1 { 0u8 } else { 2u8 }) + (if l0 {
                0u8
            } else {
                1u8
            }),
    ;
}

} // verus!
