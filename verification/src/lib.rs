//! A verified interpreter for the classic CHIP-8 virtual machine.
//!
//! The crate models the machine exactly: 16 eight-bit registers, a 16-bit
//! index register and program counter, 4096 bytes of memory with a built-in
//! font below the program origin, a 16-level call stack, two countdown
//! timers, a 64x32 monochrome framebuffer with XOR sprite compositing, a
//! 16-key pad, and a deterministic multiply-with-carry random generator.
//! Every operation carries a contract that pins down its effect on that
//! model; [`engine::step_spec`] states the semantics of all 35 opcodes.
//!
//! [`Chip8`] is the host-facing facade over [`engine::Engine`]: the host
//! loads a program image, then alternates execute-one-cycle and
//! host-paced timer decrements, polls the framebuffer and the sound flag,
//! and pushes key events between cycles.

pub mod display;
pub mod engine;
pub mod errors;
pub mod input;
pub mod random;

use crate::engine::{
    advanced, fetch_spec, initial_engine, loaded_engine, step_spec, Engine, EngineView,
    MEMORY_SIZE, START_ADDRESS,
};
use crate::display::{DISPLAY_SIZE, HEIGHT, WIDTH};
use crate::errors::{EngineError, Error, InputError};
use crate::input::KEY_COUNT;
use vstd::prelude::*;

verus! {

/// The machine as the host sees it: a facade over the engine that turns
/// every engine error into the top-level [`Error`].
pub struct Chip8 {
    engine: Engine,
}

impl View for Chip8 {
    type V = EngineView;

    closed spec fn view(&self) -> EngineView {
        self.engine@
    }
}

impl Chip8 {
    /// Which well-formed states the machine keeps.
    pub open spec fn inv(&self) -> bool {
        engine::view_inv(self@)
    }

    /// A pristine machine: see [`initial_engine`].
    pub fn new() -> (r: Self)
        ensures
            r.inv(),
            r@ == initial_engine(),
    {
        Self { engine: Engine::new() }
    }

    /// Width of the display in pixels.
    pub fn get_width(&self) -> (r: usize)
        ensures
            r == WIDTH,
    {
        WIDTH
    }

    /// Height of the display in pixels.
    pub fn get_height(&self) -> (r: usize)
        ensures
            r == HEIGHT,
    {
        HEIGHT
    }

    /// Loads a program image: rejects one larger than the memory beyond
    /// the program origin, otherwise rebuilds the machine from scratch
    /// with the image in memory.
    pub fn load_rom(&mut self, rom_data: &[u8]) -> (r: Result<(), Error>)
        ensures
            final(self).inv() || final(self)@ == old(self)@,
            rom_data@.len() > MEMORY_SIZE - START_ADDRESS ==> r == Err::<(), Error>(
                Error::EngineError(EngineError::RomTooLarge { size: rom_data@.len() as usize }),
            ) && final(self)@ == old(self)@,
            rom_data@.len() <= MEMORY_SIZE - START_ADDRESS ==> r == Ok::<(), Error>(())
                && final(self)@ == loaded_engine(rom_data@),
    {
        match self.engine.load_rom(rom_data) {
            Ok(()) => Ok(()),
            Err(e) => Err(Error::EngineError(e)),
        }
    }

    /// One fetch-decode-execute cycle: see [`step_spec`].
    pub fn execute_cycle(&mut self) -> (r: Result<(), Error>)
        requires
            old(self).inv(),
        ensures
            final(self).inv(),
            old(self)@.pc >= MEMORY_SIZE - 1 ==> r == Err::<(), Error>(
                Error::EngineError(EngineError::MemoryOutOfBounds { address: old(self)@.pc }),
            ) && final(self)@ == old(self)@,
            old(self)@.pc < MEMORY_SIZE - 1 ==> match step_spec(
                old(self)@,
                fetch_spec(old(self)@),
            ) {
                Ok(m) => r == Ok::<(), Error>(()) && final(self)@ == m,
                Err(e) => r == Err::<(), Error>(Error::EngineError(e)) && final(self)@ == advanced(
                    old(self)@,
                ),
            },
    {
        match self.engine.execute_cycle() {
            Ok(()) => Ok(()),
            Err(e) => Err(Error::EngineError(e)),
        }
    }

    /// Decrements each timer that is above zero; both saturate at zero.
    pub fn decrement_timer(&mut self) -> (r: Result<(), Error>)
        ensures
            r == Ok::<(), Error>(()),
            final(self)@ == (EngineView {
                delay_timer: if old(self)@.delay_timer > 0 {
                    (old(self)@.delay_timer - 1) as u8
                } else {
                    0u8
                },
                sound_timer: if old(self)@.sound_timer > 0 {
                    (old(self)@.sound_timer - 1) as u8
                } else {
                    0u8
                },
                ..old(self)@
            }),
    {
        match self.engine.decrement_timer() {
            Ok(()) => Ok(()),
            Err(e) => Err(Error::EngineError(e)),
        }
    }

    /// A copy of the framebuffer, row-major, one byte per pixel, each byte
    /// 0 or 1.
    pub fn get_display(&self) -> (r: Vec<u8>)
        ensures
            r@ == self@.screen,
    {
        let buffer = self.engine.get_display();
        let mut copy: Vec<u8> = Vec::new();
        let mut p: usize = 0;
        while p < DISPLAY_SIZE
            invariant
                p <= DISPLAY_SIZE,
                buffer@ == self@.screen,
                buffer@.len() == DISPLAY_SIZE,
                copy@.len() == p,
                forall|q: int| 0 <= q < p ==> copy@[q] == buffer@[q],
            decreases DISPLAY_SIZE - p,
        {
            copy.push(buffer[p]);
            p += 1;
        }
        proof {
            assert(copy@ =~= self@.screen);
        }
        copy
    }

    /// Whether the host should be playing a tone.
    pub fn is_sound_active(&self) -> (r: bool)
        ensures
            r == (self@.sound_timer > 0),
    {
        self.engine.is_sound_active()
    }

    /// Marks a key as held down; fails on an index that is not a key.
    pub fn key_down(&mut self, key: u8) -> (r: Result<(), Error>)
        ensures
            key < KEY_COUNT ==> r == Ok::<(), Error>(()) && final(self)@ == (EngineView {
                keys: old(self)@.keys.update(key as int, true),
                ..old(self)@
            }),
            key >= KEY_COUNT ==> r == Err::<(), Error>(
                Error::EngineError(
                    EngineError::InputError(
                        InputError::OutOfBounds { index: key, size: KEY_COUNT },
                    ),
                ),
            ) && final(self)@ == old(self)@,
    {
        match self.engine.key_down(key) {
            Ok(()) => Ok(()),
            Err(e) => Err(Error::EngineError(e)),
        }
    }

    /// Marks a key as released; fails on an index that is not a key.
    pub fn key_up(&mut self, key: u8) -> (r: Result<(), Error>)
        ensures
            key < KEY_COUNT ==> r == Ok::<(), Error>(()) && final(self)@ == (EngineView {
                keys: old(self)@.keys.update(key as int, false),
                ..old(self)@
            }),
            key >= KEY_COUNT ==> r == Err::<(), Error>(
                Error::EngineError(
                    EngineError::InputError(
                        InputError::OutOfBounds { index: key, size: KEY_COUNT },
                    ),
                ),
            ) && final(self)@ == old(self)@,
    {
        match self.engine.key_up(key) {
            Ok(()) => Ok(()),
            Err(e) => Err(Error::EngineError(e)),
        }
    }

    /// One general-purpose register, or `None` when the index is not a
    /// register.
    pub fn get_register(&self, index: u8) -> (r: Option<u8>)
        ensures
            index < 16 ==> r == Some(self@.registers[index as int]),
            index >= 16 ==> r is None,
    {
        self.engine.get_register(index)
    }

    /// The program counter.
    pub fn get_program_counter(&self) -> (r: u16)
        ensures
            r == self@.pc,
    {
        self.engine.get_program_counter()
    }

    /// The index register.
    pub fn get_index(&self) -> (r: u16)
        ensures
            r == self@.index,
    {
        self.engine.get_index()
    }

    /// The delay timer.
    pub fn get_delay_timer(&self) -> (r: u8)
        ensures
            r == self@.delay_timer,
    {
        self.engine.get_delay_timer()
    }

    /// One memory byte, or `None` when the address is out of range.
    pub fn get_memory_byte(&self, address: u16) -> (r: Option<u8>)
        ensures
            address < MEMORY_SIZE ==> r == Some(self@.memory[address as int]),
            address >= MEMORY_SIZE ==> r is None,
    {
        self.engine.get_memory_byte(address)
    }
}

} // verus!
