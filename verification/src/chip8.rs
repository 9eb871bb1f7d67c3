//! The whole machine: processor, display and keypad under one roof.

use vstd::prelude::*;
use crate::cpu::CPU;
use crate::display::Display;
use crate::error::Chip8Error;
use crate::input::{Input, KEY_COUNT};
use crate::state::{accords, blank_plane, CpuState, MEMORY_SIZE, PROGRAM_START};

verus! {

/// A machine with a program loaded.
pub struct Chip8 {
    cpu: CPU,
    display: Display,
    input: Input,
}

impl Chip8 {
    /// What the processor holds.
    pub closed spec fn processor(&self) -> CpuState {
        self.cpu@
    }

    /// What the display shows.
    pub closed spec fn screen(&self) -> Seq<bool> {
        self.display@
    }

    /// Which keys are down.
    pub closed spec fn keys(&self) -> Seq<bool> {
        self.input@
    }

    /// A machine with `program` loaded, a blank display and no key down.
    pub fn new(program: &[u8]) -> (machine: Self)
        requires
            program@.len() <= MEMORY_SIZE - PROGRAM_START,
        ensures
            machine.processor() == CpuState::initial(program@),
            machine.screen() == blank_plane(),
            machine.keys() == Seq::new(KEY_COUNT as nat, |key: int| false),
    {
        Self { cpu: CPU::new(program), display: Display::new(), input: Input::new() }
    }

    /// Runs one cycle of the processor on the machine's display and keypad.
    /// The keypad is left alone, and a failing cycle changes nothing.
    pub fn cycle(&mut self) -> (result: Result<(), Chip8Error>)
        ensures
            final(self).keys() == old(self).keys(),
            exists|random: u8|
                accords(
                    #[trigger] old(self).processor().cycled(
                        old(self).screen(),
                        old(self).keys(),
                        random,
                    ),
                    old(self).processor(),
                    old(self).screen(),
                    result,
                    final(self).processor(),
                    final(self).screen(),
                ),
            !old(self).processor().rolls() ==> forall|random: u8|
                accords(
                    #[trigger] old(self).processor().cycled(
                        old(self).screen(),
                        old(self).keys(),
                        random,
                    ),
                    old(self).processor(),
                    old(self).screen(),
                    result,
                    final(self).processor(),
                    final(self).screen(),
                ),
    {
        self.cpu.cycle(&mut self.display, &self.input)
    }

    /// Counts the timers down by one and tells whether the tone is to sound
    /// from now on.
    pub fn tick(&mut self) -> (sounding: bool)
        ensures
            final(self).processor() == old(self).processor().ticked(),
            final(self).screen() == old(self).screen(),
            final(self).keys() == old(self).keys(),
            sounding == final(self).processor().tone(),
    {
        self.cpu.tick();
        self.cpu.should_play_sound()
    }

    /// The machine's display.
    pub fn display(&self) -> (display: &Display)
        ensures
            display@ == self.screen(),
    {
        &self.display
    }

    /// Records that `key` went down.
    pub fn key_pressed(&mut self, key: u8)
        requires
            key < KEY_COUNT,
        ensures
            final(self).keys() == old(self).keys().update(key as int, true),
            final(self).processor() == old(self).processor(),
            final(self).screen() == old(self).screen(),
    {
        self.input.key_pressed(key)
    }

    /// Records that `key` went up.
    pub fn key_released(&mut self, key: u8)
        requires
            key < KEY_COUNT,
        ensures
            final(self).keys() == old(self).keys().update(key as int, false),
            final(self).processor() == old(self).processor(),
            final(self).screen() == old(self).screen(),
    {
        self.input.key_released(key)
    }
}

} // verus!
