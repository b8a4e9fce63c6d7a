//! The interpreter engine: registers, memory, call stack, program counter,
//! timers, and one instance each of the display, the input state and the
//! random generator. Every cycle fetches two bytes at the program counter,
//! decodes them as one big-endian opcode, advances the program counter by
//! two, and executes the decoded instruction; [`step_spec`] is the exact
//! mathematical statement of that effect.

use crate::display::{draw_spec, screen_inv, Display, DISPLAY_SIZE};
use crate::errors::{EngineError, InputError};
use crate::input::{Input, KEY_COUNT};
use crate::random::{initial_rng, mwc_step, MultiplyWithCarry, RandomView, CYCLE_SIZE};
use vstd::prelude::*;

verus! {

broadcast use vstd::array::group_array_axioms;

/// Size of the byte-addressable memory region.
pub const MEMORY_SIZE: usize = 4096;

/// Offset at which loaded program images begin; the built-in font sprites
/// sit below it.
pub const START_ADDRESS: usize = 512;

/// Number of bytes of the built-in font sprite set (16 glyphs, 5 bytes
/// each).
pub const FONT_SET_SIZE: usize = 80;

/// The built-in font sprite set: one 5-byte glyph for each hexadecimal
/// digit, copied to the bottom of memory whenever the engine is built.
pub const FONT_SET: [u8; FONT_SET_SIZE] = [
    0xF0, 0x90, 0x90, 0x90, 0xF0,
    0x20, 0x60, 0x20, 0x20, 0x70,
    0xF0, 0x10, 0xF0, 0x80, 0xF0,
    0xF0, 0x10, 0xF0, 0x10, 0xF0,
    0x90, 0x90, 0xF0, 0x10, 0x10,
    0xF0, 0x80, 0xF0, 0x10, 0xF0,
    0xF0, 0x80, 0xF0, 0x90, 0xF0,
    0xF0, 0x10, 0x20, 0x40, 0x40,
    0xF0, 0x90, 0xF0, 0x90, 0xF0,
    0xF0, 0x90, 0xF0, 0x10, 0xF0,
    0xF0, 0x90, 0xF0, 0x90, 0x90,
    0xE0, 0x90, 0xE0, 0x90, 0xE0,
    0xF0, 0x80, 0x80, 0x80, 0xF0,
    0xE0, 0x90, 0x90, 0x90, 0xE0,
    0xF0, 0x80, 0xF0, 0x80, 0xF0,
    0xF0, 0x80, 0xF0, 0x80, 0x80,
];

/// Mathematical model of the whole machine state.
#[verifier::ext_equal]
pub struct EngineView {
    pub registers: Seq<u8>,
    pub index: u16,
    pub pc: u16,
    pub memory: Seq<u8>,
    pub stack: Seq<u16>,
    pub sp: u8,
    pub delay_timer: u8,
    pub sound_timer: u8,
    pub keys: Seq<bool>,
    pub screen: Seq<u8>,
    pub rng: RandomView,
}

/// Well-formedness of a machine state: the fixed sizes of every component
/// and the bound on the stack pointer.
pub open spec fn view_inv(v: EngineView) -> bool {
    &&& v.registers.len() == 16
    &&& v.memory.len() == MEMORY_SIZE
    &&& v.stack.len() == 16
    &&& v.sp <= 16
    &&& v.keys.len() == KEY_COUNT
    &&& screen_inv(v.screen)
    &&& v.rng.history.len() == CYCLE_SIZE
    &&& 0 <= v.rng.index < CYCLE_SIZE
}

/// The state after the unconditional program-counter advance of a decoded
/// cycle.
pub open spec fn advanced(v: EngineView) -> EngineView {
    EngineView { pc: (v.pc + 2) as u16, ..v }
}

/// The state after skipping the next instruction.
pub open spec fn skipped(v: EngineView) -> EngineView {
    EngineView { pc: (v.pc + 2) as u16, ..v }
}

/// The memory of a freshly built engine: the font set at the bottom,
/// zeroes everywhere else.
pub open spec fn initial_memory() -> Seq<u8> {
    Seq::new(
        MEMORY_SIZE as nat,
        |p: int|
            if p < FONT_SET_SIZE {
                FONT_SET@[p]
            } else {
                0u8
            },
    )
}

/// A freshly built engine: everything zeroed, the program counter at the
/// program origin, the font in memory, and the generator seeded with 42.
pub open spec fn initial_engine() -> EngineView {
    EngineView {
        registers: Seq::new(16, |k: int| 0u8),
        index: 0u16,
        pc: START_ADDRESS as u16,
        memory: initial_memory(),
        stack: Seq::new(16, |k: int| 0u16),
        sp: 0u8,
        delay_timer: 0u8,
        sound_timer: 0u8,
        keys: Seq::new(KEY_COUNT as nat, |k: int| false),
        screen: Seq::new(DISPLAY_SIZE as nat, |p: int| 0u8),
        rng: initial_rng(42),
    }
}

/// A freshly built engine with a program image copied in at the program
/// origin.
pub open spec fn loaded_engine(rom: Seq<u8>) -> EngineView {
    EngineView {
        memory: Seq::new(
            MEMORY_SIZE as nat,
            |p: int|
                if START_ADDRESS <= p < START_ADDRESS + rom.len() {
                    rom[p - START_ADDRESS]
                } else {
                    initial_memory()[p]
                },
        ),
        ..initial_engine()
    }
}

/// The big-endian 16-bit opcode at the program counter.
pub open spec fn fetch_spec(v: EngineView) -> u16 {
    ((v.memory[v.pc as int] as u16) << 8u16) | (v.memory[v.pc as int + 1] as u16)
}

/// The index of the first pressed key at or after position `i`, or 16 when
/// none is pressed.
pub open spec fn first_key(keys: Seq<bool>, i: int) -> int
    decreases 16 - i,
{
    if i < 0 || i >= 16 {
        16
    } else if keys[i] {
        i
    } else {
        first_key(keys, i + 1)
    }
}

/// The register file after one register-register ALU operation, or `None`
/// when the 4-bit operation code has no ALU entry. Flag writes land in
/// register 15 before the result lands in the target register, exactly as
/// the machine performs them, so a target of 15 keeps the result, and the
/// shift instructions shift the value that is in the target after the flag
/// write.
pub open spec fn alu_spec(regs: Seq<u8>, x: int, y: int, op: int) -> Option<Seq<u8>> {
    if op == 0x0 {
        Some(regs.update(x, regs[y]))
    } else if op == 0x1 {
        Some(regs.update(x, regs[x] | regs[y]))
    } else if op == 0x2 {
        Some(regs.update(x, regs[x] & regs[y]))
    } else if op == 0x3 {
        Some(regs.update(x, regs[x] ^ regs[y]))
    } else if op == 0x4 {
        let flag: u8 = if regs[x] + regs[y] > 255 {
            1u8
        } else {
            0u8
        };
        Some(regs.update(15, flag).update(x, regs[x].wrapping_add(regs[y])))
    } else if op == 0x5 {
        let flag: u8 = if regs[x] < regs[y] {
            0u8
        } else {
            1u8
        };
        Some(regs.update(15, flag).update(x, regs[x].wrapping_sub(regs[y])))
    } else if op == 0x6 {
        let flagged = regs.update(15, regs[x] & 0x01);
        Some(flagged.update(x, flagged[x] >> 1u8))
    } else if op == 0x7 {
        let flag: u8 = if regs[y] < regs[x] {
            0u8
        } else {
            1u8
        };
        Some(regs.update(15, flag).update(x, regs[y].wrapping_sub(regs[x])))
    } else if op == 0xE {
        let flagged = regs.update(15, regs[x] & 0x80);
        Some(flagged.update(x, flagged[x] << 1u8))
    } else {
        None
    }
}

/// Effect of executing `opcode` from state `pre` (assumed well formed):
/// either the next state, or the error the machine reports. On an error
/// the machine keeps only the unconditional program-counter advance; the
/// caller's contract states that.
pub open spec fn step_spec(pre: EngineView, opcode: u16) -> Result<EngineView, EngineError> {
    let prefix = (opcode & 0xF000) >> 12u16;
    let x = ((opcode & 0x0F00) >> 8u16) as int;
    let y = ((opcode & 0x00F0) >> 4u16) as int;
    let op = (opcode & 0x000F) as int;
    let nn = (opcode & 0x00FF) as u8;
    let nnn = opcode & 0x0FFF;
    let not_found = EngineError::OpCodeNotFound { op_code: opcode as u8 };
    let m = advanced(pre);
    if prefix == 0x0 {
        if y == 0xE && op == 0x0 {
            Ok(EngineView { screen: Seq::new(DISPLAY_SIZE as nat, |p: int| 0u8), ..m })
        } else if y == 0xE && op == 0xE {
            if pre.sp == 0 {
                Err(EngineError::StackUnderflow)
            } else {
                Ok(EngineView { sp: (pre.sp - 1) as u8, pc: pre.stack[pre.sp - 1], ..m })
            }
        } else {
            Err(not_found)
        }
    } else if prefix == 0x1 {
        Ok(EngineView { pc: nnn, ..m })
    } else if prefix == 0x2 {
        if pre.sp >= 16 {
            Err(EngineError::StackOverflow)
        } else {
            Ok(
                EngineView {
                    stack: m.stack.update(pre.sp as int, m.pc),
                    sp: (pre.sp + 1) as u8,
                    pc: nnn,
                    ..m
                },
            )
        }
    } else if prefix == 0x3 {
        Ok(
            if pre.registers[x] == nn {
                skipped(m)
            } else {
                m
            },
        )
    } else if prefix == 0x4 {
        Ok(
            if pre.registers[x] != nn {
                skipped(m)
            } else {
                m
            },
        )
    } else if prefix == 0x5 {
        Ok(
            if pre.registers[x] == pre.registers[y] {
                skipped(m)
            } else {
                m
            },
        )
    } else if prefix == 0x6 {
        Ok(EngineView { registers: m.registers.update(x, nn), ..m })
    } else if prefix == 0x7 {
        let flag: u8 = if pre.registers[x] + nn > 255 {
            1u8
        } else {
            0u8
        };
        Ok(
            EngineView {
                registers: m.registers.update(15, flag).update(x, pre.registers[x].wrapping_add(nn)),
                ..m
            },
        )
    } else if prefix == 0x8 {
        match alu_spec(pre.registers, x, y, op) {
            Some(regs) => Ok(EngineView { registers: regs, ..m }),
            None => Err(not_found),
        }
    } else if prefix == 0x9 {
        Ok(
            if pre.registers[x] != pre.registers[y] {
                skipped(m)
            } else {
                m
            },
        )
    } else if prefix == 0xA {
        Ok(EngineView { index: nnn, ..m })
    } else if prefix == 0xB {
        Ok(EngineView { pc: (nnn + pre.registers[0]) as u16, ..m })
    } else if prefix == 0xC {
        let step = mwc_step(pre.rng);
        Ok(
            EngineView {
                registers: m.registers.update(x, (step.1 as u8) & nn),
                rng: step.0,
                ..m
            },
        )
    } else if prefix == 0xD {
        if pre.index + op > MEMORY_SIZE {
            Err(EngineError::MemoryOutOfBounds { address: pre.index })
        } else {
            let sprite = pre.memory.subrange(pre.index as int, pre.index + op);
            let drawn = draw_spec(
                pre.screen,
                pre.registers[x] as int,
                pre.registers[y] as int,
                sprite,
            );
            Ok(
                EngineView {
                    screen: drawn.0,
                    registers: m.registers.update(
                        15,
                        if drawn.1 {
                            1u8
                        } else {
                            0u8
                        },
                    ),
                    ..m
                },
            )
        }
    } else if prefix == 0xE {
        if y == 0x9 && op == 0xE {
            if pre.registers[x] >= 16 {
                Err(
                    EngineError::InputError(
                        InputError::OutOfBounds { index: pre.registers[x], size: KEY_COUNT },
                    ),
                )
            } else {
                Ok(
                    if pre.keys[pre.registers[x] as int] {
                        skipped(m)
                    } else {
                        m
                    },
                )
            }
        } else if y == 0xA && op == 0x1 {
            if pre.registers[x] >= 16 {
                Err(
                    EngineError::InputError(
                        InputError::OutOfBounds { index: pre.registers[x], size: KEY_COUNT },
                    ),
                )
            } else {
                Ok(
                    if !pre.keys[pre.registers[x] as int] {
                        skipped(m)
                    } else {
                        m
                    },
                )
            }
        } else {
            Err(not_found)
        }
    } else if prefix == 0xF {
        if y == 0x0 && op == 0x7 {
            Ok(EngineView { registers: m.registers.update(x, pre.delay_timer), ..m })
        } else if y == 0x0 && op == 0xA {
            let k = first_key(pre.keys, 0);
            if k < 16 {
                Ok(EngineView { registers: m.registers.update(x, k as u8), ..m })
            } else {
                Ok(EngineView { pc: pre.pc, ..m })
            }
        } else if y == 0x1 && op == 0x5 {
            Ok(EngineView { delay_timer: pre.registers[x], ..m })
        } else if y == 0x1 && op == 0x8 {
            Ok(EngineView { sound_timer: pre.registers[x], ..m })
        } else if y == 0x1 && op == 0xE {
            Ok(EngineView { index: pre.index.wrapping_add(pre.registers[x] as u16), ..m })
        } else if y == 0x2 && op == 0x9 {
            Ok(EngineView { index: (pre.registers[x] * 5) as u16, ..m })
        } else if y == 0x3 && op == 0x3 {
            if pre.index + 3 > MEMORY_SIZE {
                Err(EngineError::MemoryOutOfBounds { address: pre.index })
            } else {
                Ok(
                    EngineView {
                        memory: m.memory.update(pre.index as int, pre.registers[x] / 100).update(
                            pre.index + 1,
                            (pre.registers[x] / 10) % 10,
                        ).update(pre.index + 2, pre.registers[x] % 10),
                        ..m
                    },
                )
            }
        } else if y == 0x5 && op == 0x5 {
            if pre.index + x + 1 > MEMORY_SIZE {
                Err(EngineError::MemoryOutOfBounds { address: pre.index })
            } else {
                Ok(
                    EngineView {
                        memory: Seq::new(
                            MEMORY_SIZE as nat,
                            |p: int|
                                if pre.index <= p <= pre.index + x {
                                    pre.registers[p - pre.index]
                                } else {
                                    pre.memory[p]
                                },
                        ),
                        ..m
                    },
                )
            }
        } else if y == 0x6 && op == 0x5 {
            if pre.index + x + 1 > MEMORY_SIZE {
                Err(EngineError::MemoryOutOfBounds { address: pre.index })
            } else {
                Ok(
                    EngineView {
                        registers: Seq::new(
                            16,
                            |k: int|
                                if k <= x {
                                    pre.memory[pre.index + k]
                                } else {
                                    pre.registers[k]
                                },
                        ),
                        ..m
                    },
                )
            }
        } else {
            Err(not_found)
        }
    } else {
        Err(not_found)
    }
}

/// The sub-fields a 16-bit opcode decodes into are all small: each 4-bit
/// field is below 16 and the 12-bit address field below 4096.
pub proof fn lemma_opcode_fields(opcode: u16)
    by (bit_vector)
    ensures
        (opcode & 0xF000) >> 12u16 < 16,
        (opcode & 0x0F00) >> 8u16 < 16,
        (opcode & 0x00F0) >> 4u16 < 16,
        opcode & 0x000F < 16,
        opcode & 0x0FFF < 4096,
        opcode & 0x00FF < 256,
{
}

/// The (family, sub-field) combinations that the decode table documents;
/// every other opcode fails with [`EngineError::OpCodeNotFound`], as
/// [`lemma_unknown_opcode`] states.
pub open spec fn opcode_recognized(opcode: u16) -> bool {
    let prefix = (opcode & 0xF000) >> 12u16;
    let y = ((opcode & 0x00F0) >> 4u16) as int;
    let op = (opcode & 0x000F) as int;
    if prefix == 0x0 {
        y == 0xE && (op == 0x0 || op == 0xE)
    } else if prefix == 0x8 {
        0x0 <= op <= 0x7 || op == 0xE
    } else if prefix == 0xE {
        (y == 0x9 && op == 0xE) || (y == 0xA && op == 0x1)
    } else if prefix == 0xF {
        (y == 0x0 && op == 0x7) || (y == 0x0 && op == 0xA) || (y == 0x1 && op == 0x5) || (y == 0x1
            && op == 0x8) || (y == 0x1 && op == 0xE) || (y == 0x2 && op == 0x9) || (y == 0x3 && op
            == 0x3) || (y == 0x5 && op == 0x5) || (y == 0x6 && op == 0x5)
    } else {
        true
    }
}

/// An opcode whose family and sub-fields match no documented decode entry
/// fails with the opcode-not-found error carrying the low byte of the
/// opcode, from every state.
pub proof fn lemma_unknown_opcode(pre: EngineView, opcode: u16)
    requires
        !opcode_recognized(opcode),
    ensures
        step_spec(pre, opcode) == Err::<EngineView, EngineError>(
            EngineError::OpCodeNotFound { op_code: opcode as u8 },
        ),
{
    lemma_opcode_fields(opcode);
}

/// The first pressed key at or after position `i` is pressed, everything
/// before it at or after `i` is not, and the scan yields 16 exactly when
/// no key at or after `i` is pressed.
pub proof fn lemma_first_key_props(keys: Seq<bool>, i: int)
    requires
        0 <= i <= 16,
        keys.len() == 16,
    ensures
        ({
            let f = first_key(keys, i);
            &&& i <= f <= 16
            &&& (f < 16 ==> keys[f] && (forall|k: int| i <= k < f ==> !keys[k]))
            &&& (f == 16 ==> forall|k: int| i <= k < 16 ==> !keys[k])
        }),
    decreases 16 - i,
{
    if i < 16 && !keys[i] {
        lemma_first_key_props(keys, i + 1);
    }
}

/// The blocking key wait. With no key pressed, the program counter does
/// not move, so the same instruction re-executes on the next cycle; with
/// at least one key pressed, the target register receives the index of the
/// first pressed key and the program counter advances past the
/// instruction.
pub proof fn lemma_await_key_press(pre: EngineView, opcode: u16)
    requires
        view_inv(pre),
        (opcode & 0xF000) >> 12u16 == 0xF,
        (opcode & 0x00F0) >> 4u16 == 0x0,
        opcode & 0x000F == 0xA,
    ensures
        (forall|k: int| 0 <= k < 16 ==> !pre.keys[k]) ==> step_spec(pre, opcode)
            == Ok::<EngineView, EngineError>((EngineView { pc: pre.pc, ..advanced(pre) })),
        (exists|k: int| 0 <= k < 16 && pre.keys[k]) ==> ({
            let f = first_key(pre.keys, 0);
            &&& 0 <= f < 16
            &&& pre.keys[f]
            &&& (forall|k: int| 0 <= k < f ==> !pre.keys[k])
            &&& step_spec(pre, opcode) == Ok::<EngineView, EngineError>(
                (EngineView {
                    registers: pre.registers.update(((opcode & 0x0F00) >> 8u16) as int, f as u8),
                    ..advanced(pre)
                }),
            )
        }),
{
    lemma_opcode_fields(opcode);
    lemma_first_key_props(pre.keys, 0);
}

/// The interpreter engine.
pub struct Engine {
    registers: [u8; 16],
    index: u16,
    pc: u16,
    memory: [u8; MEMORY_SIZE],
    stack: [u16; 16],
    sp: u8,
    delay_timer: u8,
    sound_timer: u8,
    input: Input,
    display: Display,
    random: MultiplyWithCarry,
}

impl View for Engine {
    type V = EngineView;

    closed spec fn view(&self) -> EngineView {
        EngineView {
            registers: self.registers@,
            index: self.index,
            pc: self.pc,
            memory: self.memory@,
            stack: self.stack@,
            sp: self.sp,
            delay_timer: self.delay_timer,
            sound_timer: self.sound_timer,
            keys: self.input@,
            screen: self.display@,
            rng: self.random@,
        }
    }
}

impl Engine {
    /// Which well-formed states the engine keeps: see [`view_inv`].
    pub open spec fn inv(&self) -> bool {
        view_inv(self@)
    }

    /// A pristine engine: see [`initial_engine`].
    pub fn new() -> (r: Self)
        ensures
            r.inv(),
            r@ == initial_engine(),
    {
        let mut engine = Self {
            registers: [0; 16],
            index: 0,
            pc: START_ADDRESS as u16,
            memory: [0; MEMORY_SIZE],
            stack: [0; 16],
            sp: 0,
            delay_timer: 0,
            sound_timer: 0,
            input: Input::new(),
            display: Display::new(),
            random: MultiplyWithCarry::new(42),
        };

        let ghost init = engine@;
        let mut i: usize = 0;
        while i < FONT_SET_SIZE
            invariant
                i <= FONT_SET_SIZE,
                engine@ == (EngineView { memory: engine@.memory, ..init }),
                engine@.memory.len() == MEMORY_SIZE,
                forall|k: int| 0 <= k < i ==> engine@.memory[k] == FONT_SET@[k],
                forall|k: int| i <= k < MEMORY_SIZE ==> engine@.memory[k] == 0,
            decreases FONT_SET_SIZE - i,
        {
            engine.memory[i] = FONT_SET[i];
            i += 1;
        }

        proof {
            assert(engine@.registers =~= initial_engine().registers);
            assert(engine@.memory =~= initial_engine().memory);
            assert(engine@.stack =~= initial_engine().stack);
            assert(engine@.keys =~= initial_engine().keys);
            assert(engine@.screen =~= initial_engine().screen);
            assert(engine@ =~= initial_engine());
        }
        engine
    }

    /// Loads a program image. An image larger than the memory beyond the
    /// program origin is rejected without touching anything; otherwise the
    /// whole engine is rebuilt from scratch and the image copied in at the
    /// program origin.
    pub fn load_rom(&mut self, rom_data: &[u8]) -> (r: Result<(), EngineError>)
        ensures
            rom_data@.len() > MEMORY_SIZE - START_ADDRESS ==> r == Err::<(), EngineError>(
                EngineError::RomTooLarge { size: rom_data@.len() as usize },
            ) && final(self)@ == old(self)@,
            rom_data@.len() <= MEMORY_SIZE - START_ADDRESS ==> r == Ok::<(), EngineError>(())
                && final(self)@ == loaded_engine(rom_data@) && final(self).inv(),
    {
        if rom_data.len() > MEMORY_SIZE - START_ADDRESS {
            return Err(EngineError::RomTooLarge { size: rom_data.len() });
        }

        *self = Self::new();

        let mut k: usize = 0;
        while k < rom_data.len()
            invariant
                k <= rom_data@.len(),
                rom_data@.len() <= MEMORY_SIZE - START_ADDRESS,
                self@.memory.len() == MEMORY_SIZE,
                forall|p: int|
                    START_ADDRESS <= p < START_ADDRESS + k ==> self@.memory[p] == rom_data@[p
                        - START_ADDRESS],
                forall|p: int|
                    0 <= p < MEMORY_SIZE && !(START_ADDRESS <= p < START_ADDRESS + k)
                        ==> self@.memory[p] == initial_memory()[p],
                self@ == (EngineView { memory: self@.memory, ..initial_engine() }),
            decreases rom_data@.len() - k,
        {
            self.memory[START_ADDRESS + k] = rom_data[k];
            k += 1;
        }

        proof {
            assert(self@.memory =~= loaded_engine(rom_data@).memory);
            assert(self@ =~= loaded_engine(rom_data@));
        }
        Ok(())
    }

    /// One fetch-decode-execute cycle: reads the big-endian opcode at the
    /// program counter and executes it as [`step_spec`] states. A program
    /// counter at which no two bytes can be fetched is rejected without
    /// touching anything; when a decoded instruction fails, only the
    /// unconditional program-counter advance remains.
    pub fn execute_cycle(&mut self) -> (r: Result<(), EngineError>)
        requires
            old(self).inv(),
        ensures
            final(self).inv(),
            old(self)@.pc >= MEMORY_SIZE - 1 ==> r == Err::<(), EngineError>(
                EngineError::MemoryOutOfBounds { address: old(self)@.pc },
            ) && final(self)@ == old(self)@,
            old(self)@.pc < MEMORY_SIZE - 1 ==> match step_spec(
                old(self)@,
                fetch_spec(old(self)@),
            ) {
                Ok(m) => r == Ok::<(), EngineError>(()) && final(self)@ == m,
                Err(e) => r == Err::<(), EngineError>(e) && final(self)@ == advanced(old(self)@),
            },
    {
        if self.pc as usize >= MEMORY_SIZE - 1 {
            return Err(EngineError::MemoryOutOfBounds { address: self.pc });
        }

        let opcode: u16 = ((self.memory[self.pc as usize] as u16) << 8u16) | (self.memory[self.pc
            as usize + 1] as u16);

        self.decode_opcode(opcode)
    }

    /// Decodes and executes one already-fetched opcode, after the
    /// unconditional program-counter advance.
    fn decode_opcode(&mut self, opcode: u16) -> (r: Result<(), EngineError>)
        requires
            old(self).inv(),
            old(self)@.pc + 2 <= MEMORY_SIZE,
        ensures
            final(self).inv(),
            match step_spec(old(self)@, opcode) {
                Ok(m) => r == Ok::<(), EngineError>(()) && final(self)@ == m,
                Err(e) => r == Err::<(), EngineError>(e) && final(self)@ == advanced(old(self)@),
            },
    {
        let ghost pre = old(self)@;
        let ghost target = step_spec(pre, opcode);

        proof {
            lemma_opcode_fields(opcode);
        }

        let prefix: u8 = ((opcode & 0xF000) >> 12u16) as u8;
        let register_x: u8 = ((opcode & 0x0F00) >> 8u16) as u8;
        let register_y: u8 = ((opcode & 0x00F0) >> 4u16) as u8;
        let operation: u8 = (opcode & 0x000F) as u8;

        self.pc += 2;

        match prefix {
            0x0 => match (register_y, operation) {
                (0xE, 0x0) => {
                    match self.display.clear() {
                        Ok(()) => {},
                        Err(_) => {},
                    }
                    proof {
                        assert(self@.screen =~= target->Ok_0.screen);
                    }
                },
                (0xE, 0xE) => {
                    if self.sp == 0 {
                        return Err(EngineError::StackUnderflow);
                    }
                    self.sp -= 1;
                    self.pc = self.stack[self.sp as usize];
                },
                _ => {
                    return Err(EngineError::OpCodeNotFound { op_code: opcode as u8 });
                },
            },
            0x1 => self.pc = opcode & 0x0FFF,
            0x2 => {
                if self.sp >= 16 {
                    return Err(EngineError::StackOverflow);
                }
                self.stack[self.sp as usize] = self.pc;
                self.sp += 1;
                self.pc = opcode & 0x0FFF;
            },
            0x3 => {
                if self.registers[register_x as usize] == (opcode & 0x00FF) as u8 {
                    self.pc += 2;
                }
            },
            0x4 => {
                if self.registers[register_x as usize] != (opcode & 0x00FF) as u8 {
                    self.pc += 2;
                }
            },
            0x5 => {
                if self.registers[register_x as usize] == self.registers[register_y as usize] {
                    self.pc += 2;
                }
            },
            0x6 => self.registers[register_x as usize] = (opcode & 0x00FF) as u8,
            0x7 => {
                let a = self.registers[register_x as usize];
                let b = (opcode & 0x00FF) as u8;
                self.registers[0xF] = if a as u16 + b as u16 > 255 {
                    1
                } else {
                    0
                };
                self.registers[register_x as usize] = a.wrapping_add(b);
            },
            0x8 => match operation {
                0x0 => self.registers[register_x as usize] = self.registers[register_y as usize],
                0x1 => {
                    let v = self.registers[register_x as usize] | self.registers[register_y
                        as usize];
                    self.registers[register_x as usize] = v;
                },
                0x2 => {
                    let v = self.registers[register_x as usize] & self.registers[register_y
                        as usize];
                    self.registers[register_x as usize] = v;
                },
                0x3 => {
                    let v = self.registers[register_x as usize] ^ self.registers[register_y
                        as usize];
                    self.registers[register_x as usize] = v;
                },
                0x4 => {
                    let a = self.registers[register_x as usize];
                    let b = self.registers[register_y as usize];
                    self.registers[0xF] = if a as u16 + b as u16 > 255 {
                        1
                    } else {
                        0
                    };
                    self.registers[register_x as usize] = a.wrapping_add(b);
                },
                0x5 => {
                    let a = self.registers[register_x as usize];
                    let b = self.registers[register_y as usize];
                    self.registers[0xF] = if a < b {
                        0
                    } else {
                        1
                    };
                    self.registers[register_x as usize] = a.wrapping_sub(b);
                },
                0x6 => {
                    self.registers[0xF] = self.registers[register_x as usize] & 0x01;
                    self.registers[register_x as usize] = self.registers[register_x as usize]
                        >> 1u8;
                },
                0x7 => {
                    let a = self.registers[register_x as usize];
                    let b = self.registers[register_y as usize];
                    self.registers[0xF] = if b < a {
                        0
                    } else {
                        1
                    };
                    self.registers[register_x as usize] = b.wrapping_sub(a);
                },
                0xE => {
                    self.registers[0xF] = self.registers[register_x as usize] & 0x80;
                    self.registers[register_x as usize] = self.registers[register_x as usize]
                        << 1u8;
                },
                _ => {
                    return Err(EngineError::OpCodeNotFound { op_code: opcode as u8 });
                },
            },
            0x9 => {
                if self.registers[register_x as usize] != self.registers[register_y as usize] {
                    self.pc += 2;
                }
            },
            0xA => self.index = opcode & 0x0FFF,
            0xB => self.pc = (opcode & 0x0FFF) + self.registers[0] as u16,
            0xC => {
                let value = self.random.random();
                self.registers[register_x as usize] = (value as u8) & (opcode & 0x00FF) as u8;
            },
            0xD => {
                let n = operation as usize;
                let idx = self.index as usize;
                if idx + n > MEMORY_SIZE {
                    return Err(EngineError::MemoryOutOfBounds { address: self.index });
                }
                let mut sprite: Vec<u8> = Vec::new();
                let mut t: usize = 0;
                while t < n
                    invariant
                        t <= n,
                        idx + n <= MEMORY_SIZE,
                        self@ == advanced(pre),
                        self@.memory.len() == MEMORY_SIZE,
                        sprite@.len() == t,
                        forall|q: int| 0 <= q < t ==> sprite@[q] == self@.memory[idx + q],
                    decreases n - t,
                {
                    sprite.push(self.memory[idx + t]);
                    t += 1;
                }
                proof {
                    assert(sprite@ =~= pre.memory.subrange(pre.index as int, pre.index
                        + (opcode & 0x000F)));
                }
                let collision = match self.display.draw(
                    self.registers[register_x as usize] as usize,
                    self.registers[register_y as usize] as usize,
                    sprite.as_slice(),
                ) {
                    Ok(c) => c,
                    Err(_) => false,
                };
                self.registers[0xF] = if collision {
                    1
                } else {
                    0
                };
            },
            0xE => match (register_y, operation) {
                (0x9, 0xE) => {
                    let down = match self.input.is_key_down(self.registers[register_x as usize]) {
                        Ok(d) => d,
                        Err(e) => {
                            return Err(EngineError::InputError(e));
                        },
                    };
                    if down {
                        self.pc += 2;
                    }
                },
                (0xA, 0x1) => {
                    let down = match self.input.is_key_down(self.registers[register_x as usize]) {
                        Ok(d) => d,
                        Err(e) => {
                            return Err(EngineError::InputError(e));
                        },
                    };
                    if !down {
                        self.pc += 2;
                    }
                },
                _ => {
                    return Err(EngineError::OpCodeNotFound { op_code: opcode as u8 });
                },
            },
            0xF => match (register_y, operation) {
                (0x0, 0x7) => self.registers[register_x as usize] = self.delay_timer,
                (0x0, 0xA) => {
                    let mut first: usize = KEY_COUNT;
                    let mut k: usize = KEY_COUNT;
                    while k > 0
                        invariant
                            k <= KEY_COUNT,
                            self@ == advanced(pre),
                            self@.keys.len() == KEY_COUNT,
                            first as int == first_key(self@.keys, k as int),
                        decreases k,
                    {
                        k -= 1;
                        if self.input.keys[k] {
                            first = k;
                        }
                    }
                    if first < KEY_COUNT {
                        self.registers[register_x as usize] = first as u8;
                    } else {
                        self.pc -= 2;
                    }
                },
                (0x1, 0x5) => self.delay_timer = self.registers[register_x as usize],
                (0x1, 0x8) => self.sound_timer = self.registers[register_x as usize],
                (0x1, 0xE) => self.index = self.index.wrapping_add(
                    self.registers[register_x as usize] as u16,
                ),
                (0x2, 0x9) => self.index = self.registers[register_x as usize] as u16 * 5,
                (0x3, 0x3) => {
                    let idx = self.index as usize;
                    if idx + 3 > MEMORY_SIZE {
                        return Err(EngineError::MemoryOutOfBounds { address: self.index });
                    }
                    let v = self.registers[register_x as usize];
                    self.memory[idx] = v / 100;
                    self.memory[idx + 1] = (v / 10) % 10;
                    self.memory[idx + 2] = v % 10;
                },
                (0x5, 0x5) => {
                    let last = register_x as usize;
                    let idx = self.index as usize;
                    if idx + last + 1 > MEMORY_SIZE {
                        return Err(EngineError::MemoryOutOfBounds { address: self.index });
                    }
                    let mut k: usize = 0;
                    while k <= last
                        invariant
                            k <= last + 1,
                            last < 16,
                            idx + last + 1 <= MEMORY_SIZE,
                            self@.memory.len() == MEMORY_SIZE,
                            self@ == (EngineView { memory: self@.memory, ..advanced(pre) }),
                            forall|p: int|
                                idx <= p < idx + k ==> self@.memory[p] == pre.registers[p - idx],
                            forall|p: int|
                                0 <= p < MEMORY_SIZE && !(idx <= p < idx + k) ==> self@.memory[p]
                                    == pre.memory[p],
                        decreases last + 1 - k,
                    {
                        self.memory[idx + k] = self.registers[k];
                        k += 1;
                    }
                    proof {
                        assert(self@.memory =~= target->Ok_0.memory);
                    }
                },
                (0x6, 0x5) => {
                    let last = register_x as usize;
                    let idx = self.index as usize;
                    if idx + last + 1 > MEMORY_SIZE {
                        return Err(EngineError::MemoryOutOfBounds { address: self.index });
                    }
                    let mut k: usize = 0;
                    while k <= last
                        invariant
                            k <= last + 1,
                            last < 16,
                            idx + last + 1 <= MEMORY_SIZE,
                            self@ == (EngineView { registers: self@.registers, ..advanced(pre) }),
                            self@.registers.len() == 16,
                            forall|q: int| 0 <= q < k ==> self@.registers[q] == pre.memory[idx + q],
                            forall|q: int|
                                k <= q < 16 ==> self@.registers[q] == pre.registers[q],
                        decreases last + 1 - k,
                    {
                        self.registers[k] = self.memory[idx + k];
                        k += 1;
                    }
                    proof {
                        assert(self@.registers =~= target->Ok_0.registers);
                    }
                },
                _ => {
                    return Err(EngineError::OpCodeNotFound { op_code: opcode as u8 });
                },
            },
            _ => {
                return Err(EngineError::OpCodeNotFound { op_code: opcode as u8 });
            },
        }

        proof {
            assert(target is Ok);
            assert(self@ =~= target->Ok_0);
        }
        Ok(())
    }

    /// Decrements each timer that is above zero; both saturate at zero.
    /// Host-paced, independent of instruction execution. Never fails.
    pub fn decrement_timer(&mut self) -> (r: Result<(), EngineError>)
        ensures
            r == Ok::<(), EngineError>(()),
            final(self)@ == (EngineView {
                delay_timer: if old(self)@.delay_timer > 0 {
                    (old(self)@.delay_timer - 1) as u8
                } else {
                    0u8
                },
                sound_timer: if old(self)@.sound_timer > 0 {
                    (old(self)@.sound_timer - 1) as u8
                } else {
                    0u8
                },
                ..old(self)@
            }),
    {
        if self.delay_timer > 0 {
            self.delay_timer -= 1;
        }
        if self.sound_timer > 0 {
            self.sound_timer -= 1;
        }
        Ok(())
    }

    /// The framebuffer, row-major, one byte per pixel.
    pub fn get_display(&self) -> (r: &[u8; DISPLAY_SIZE])
        ensures
            r@ == self@.screen,
    {
        self.display.get_memory()
    }

    /// Whether the host should be playing a tone.
    pub fn is_sound_active(&self) -> (r: bool)
        ensures
            r == (self@.sound_timer > 0),
    {
        self.sound_timer > 0
    }

    /// Marks a key as held down; fails on an index that is not a key.
    pub fn key_down(&mut self, key: u8) -> (r: Result<(), EngineError>)
        ensures
            key < KEY_COUNT ==> r == Ok::<(), EngineError>(()) && final(self)@ == (EngineView {
                keys: old(self)@.keys.update(key as int, true),
                ..old(self)@
            }),
            key >= KEY_COUNT ==> r == Err::<(), EngineError>(
                EngineError::InputError(InputError::OutOfBounds { index: key, size: KEY_COUNT }),
            ) && final(self)@ == old(self)@,
    {
        match self.input.key_down(key) {
            Ok(()) => Ok(()),
            Err(e) => Err(EngineError::InputError(e)),
        }
    }

    /// Marks a key as released; fails on an index that is not a key.
    pub fn key_up(&mut self, key: u8) -> (r: Result<(), EngineError>)
        ensures
            key < KEY_COUNT ==> r == Ok::<(), EngineError>(()) && final(self)@ == (EngineView {
                keys: old(self)@.keys.update(key as int, false),
                ..old(self)@
            }),
            key >= KEY_COUNT ==> r == Err::<(), EngineError>(
                EngineError::InputError(InputError::OutOfBounds { index: key, size: KEY_COUNT }),
            ) && final(self)@ == old(self)@,
    {
        match self.input.key_up(key) {
            Ok(()) => Ok(()),
            Err(e) => Err(EngineError::InputError(e)),
        }
    }

    /// One general-purpose register, or `None` when the index is not a
    /// register.
    pub fn get_register(&self, index: u8) -> (r: Option<u8>)
        ensures
            index < 16 ==> r == Some(self@.registers[index as int]),
            index >= 16 ==> r is None,
    {
        if index < 16 {
            Some(self.registers[index as usize])
        } else {
            None
        }
    }

    /// The program counter.
    pub fn get_program_counter(&self) -> (r: u16)
        ensures
            r == self@.pc,
    {
        self.pc
    }

    /// The index register.
    pub fn get_index(&self) -> (r: u16)
        ensures
            r == self@.index,
    {
        self.index
    }

    /// The delay timer.
    pub fn get_delay_timer(&self) -> (r: u8)
        ensures
            r == self@.delay_timer,
    {
        self.delay_timer
    }

    /// One memory byte, or `None` when the address is out of range.
    pub fn get_memory_byte(&self, address: u16) -> (r: Option<u8>)
        ensures
            address < MEMORY_SIZE ==> r == Some(self@.memory[address as int]),
            address >= MEMORY_SIZE ==> r is None,
    {
        if (address as usize) < MEMORY_SIZE {
            Some(self.memory[address as usize])
        } else {
            None
        }
    }
}

} // verus!
