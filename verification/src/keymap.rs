//! The keys of a keyboard that stand for the keys of the keypad.

use vstd::prelude::*;

verus! {

/// A key of the keyboard, as far as the keypad cares.
#[derive(Debug, Clone, Copy, PartialEq, Eq, Structural)]
pub enum KeyCode {
    Key1,
    Key2,
    Key3,
    Key4,
    Q,
    W,
    E,
    R,
    A,
    S,
    D,
    F,
    Z,
    X,
    C,
    V,
    /// Any key that stands for none of the keypad.
    Other,
}

/// The keyboard key for each key of the keypad, in the order of the keypad's
/// numbers: the left four columns of a keyboard laid over the keypad.
pub open spec fn layout() -> Seq<KeyCode> {
    seq![
        KeyCode::X,
        KeyCode::Key1,
        KeyCode::Key2,
        KeyCode::Key3,
        KeyCode::Q,
        KeyCode::W,
        KeyCode::E,
        KeyCode::A,
        KeyCode::S,
        KeyCode::D,
        KeyCode::Z,
        KeyCode::C,
        KeyCode::Key4,
        KeyCode::R,
        KeyCode::F,
        KeyCode::V,
    ]
}

/// The number of the keypad key that `key` stands for, if it stands for one.
pub fn keymap(key: KeyCode) -> (mapped: Option<u8>)
    ensures
        match mapped {
            Some(number) => number < layout().len() && layout()[number as int] == key,
            None => forall|number: int| 0 <= number < layout().len() ==> layout()[number] != key,
        },
{
    match key {
        KeyCode::X => Some(0x0),
        KeyCode::Key1 => Some(0x1),
        KeyCode::Key2 => Some(0x2),
        KeyCode::Key3 => Some(0x3),
        KeyCode::Q => Some(0x4),
        KeyCode::W => Some(0x5),
        KeyCode::E => Some(0x6),
        KeyCode::A => Some(0x7),
        KeyCode::S => Some(0x8),
        KeyCode::D => Some(0x9),
        KeyCode::Z => Some(0xA),
        KeyCode::C => Some(0xB),
        KeyCode::Key4 => Some(0xC),
        KeyCode::R => Some(0xD),
        KeyCode::F => Some(0xE),
        KeyCode::V => Some(0xF),
        KeyCode::Other => None,
    }
}

} // verus!
