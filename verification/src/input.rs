//! The state of the sixteen keys of the hexadecimal keypad.

use vstd::prelude::*;

verus! {

/// Number of keys on the keypad.
pub const KEY_COUNT: usize = 16;

/// The lowest key at or after `start` that is down in `keys`, if there is one.
pub open spec fn first_pressed_from(keys: Seq<bool>, start: int) -> Option<u8>
    decreases keys.len() - start,
{
    if start < 0 || start >= keys.len() {
        None
    } else if keys[start] {
        Some(start as u8)
    } else {
        first_pressed_from(keys, start + 1)
    }
}

/// The lowest key that is down in `keys`, if there is one.
pub open spec fn first_pressed(keys: Seq<bool>) -> Option<u8> {
    first_pressed_from(keys, 0)
}

/// `first_pressed_from` finds a key that is down and has no key down between
/// `start` and it, and finds none only where none is down from `start` on.
pub proof fn lemma_first_pressed_from(keys: Seq<bool>, start: int)
    requires
        0 <= start <= keys.len() <= u8::MAX,
    ensures
        match first_pressed_from(keys, start) {
            Some(key) => {
                &&& start <= key < keys.len()
                &&& keys[key as int]
                &&& forall|other: int| start <= other < key ==> !keys[other]
            },
            None => forall|other: int| start <= other < keys.len() ==> !keys[other],
        },
    decreases keys.len() - start,
{
    if start < keys.len() && !keys[start] {
        lemma_first_pressed_from(keys, start + 1);
    }
}

/// Which keys of the keypad are held down.
pub struct Input([bool; 16]);

impl View for Input {
    type V = Seq<bool>;

    closed spec fn view(&self) -> Seq<bool> {
        self.0@
    }
}

impl Input {
    /// The view has one entry per key.
    pub proof fn lemma_view_len(&self)
        ensures
            self@.len() == KEY_COUNT,
    {
    }

    /// A keypad with every key up.
    pub fn new() -> (input: Self)
        ensures
            input@ == Seq::new(KEY_COUNT as nat, |key: int| false),
    {
        Self([false;16])
    }

    /// Records that `key` went down.
    pub fn key_pressed(&mut self, key: u8)
        requires
            key < KEY_COUNT,
        ensures
            final(self)@ == old(self)@.update(key as int, true),
    {
        self.0[key as usize] = true;
    }

    /// Records that `key` went up.
    pub fn key_released(&mut self, key: u8)
        requires
            key < KEY_COUNT,
        ensures
            final(self)@ == old(self)@.update(key as int, false),
    {
        self.0[key as usize] = false;
    }

    /// Whether `key` is down.
    pub fn is_key_pressed(&self, key: u8) -> (pressed: bool)
        requires
            key < KEY_COUNT,
        ensures
            pressed == self@[key as int],
    {
        self.0[key as usize]
    }

    /// The lowest key that is down, if any is.
    pub fn get_pressed_key(&self) -> (found: Option<u8>)
        ensures
            found == first_pressed(self@),
            match found {
                Some(key) => {
                    &&& key < KEY_COUNT
                    &&& self@[key as int]
                    &&& forall|other: int| 0 <= other < key ==> !self@[other]
                },
                None => forall|other: int| 0 <= other < KEY_COUNT ==> !self@[other],
            },
    {
        let mut key: usize = 0;
        while key < 16
            invariant
                key <= 16,
                first_pressed(self@) == first_pressed_from(self@, key as int),
            decreases 16 - key,
        {
            if self.0[key] {
                proof {
                    lemma_first_pressed_from(self@, 0);
                }
                return Some(key as u8);
            }
            key += 1;
        }
        proof {
            lemma_first_pressed_from(self@, 0);
        }
        None
    }
}

} // verus!
