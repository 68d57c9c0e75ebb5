//! The mathematical model of the machine: its state as sequences and
//! integers, and the meaning of every instruction as a function on states.

use vstd::prelude::*;
use crate::glyphs::{glyph_table, GLYPH_HEIGHT};
use crate::instruction::{decode_word, Instruction};

verus! {

/// Columns of the display.
pub const SCREEN_WIDTH: usize = 64;

/// Rows of the display.
pub const SCREEN_HEIGHT: usize = 32;

/// Bytes of memory.
pub const RAM_SIZE: usize = 4096;

/// Number of general registers `V[0]` to `V[15]`.
pub const NUM_REGS: usize = 16;

/// Depth of the call stack.
pub const STACK_SIZE: usize = 16;

/// Number of keys on the pad.
pub const NUM_KEYS: usize = 16;

/// Address at which programs are loaded and execution starts.
pub const START_ADDR: u16 = 0x200;

/// The register that arithmetic, shifts and drawing overwrite with a flag.
pub const FLAG_REG: usize = 15;

/// Whether the machine is executing instructions or stalled on the keypad.
#[derive(Clone, Copy, Debug, PartialEq, Eq, Structural)]
pub enum Mode {
    /// Each step fetches and executes one instruction.
    Running,
    /// A wait-for-key instruction is pending; the key goes to this register.
    AwaitingKey(u8),
}

/// Why an operation was refused. A refused operation leaves the machine as it was.
#[derive(Clone, Copy, Debug, PartialEq, Eq, Structural)]
pub enum Fault {
    /// A call with sixteen return addresses already on the stack.
    StackOverflow,
    /// A return with no return address on the stack.
    StackUnderflow,
    /// An instruction fetch, a memory operand or a new program counter outside memory.
    AddressOutOfBounds,
    /// The word fetched matches no instruction form.
    UnknownInstruction(u16),
    /// A program image longer than the memory above the start address.
    ProgramTooLarge,
    /// A key number outside the pad.
    InvalidKey,
}

/// The machine's state as mathematical values.
#[verifier::ext_equal]
pub struct MachineState {
    /// Address of the next instruction.
    pub pc: u16,
    /// The 4096 bytes of memory.
    pub memory: Seq<u8>,
    /// The display, 32 rows of 64 pixels; `display[row][col]` is true where lit.
    pub display: Seq<Seq<bool>>,
    /// The sixteen general registers.
    pub v: Seq<u8>,
    /// The index register.
    pub index: u16,
    /// The return addresses, the most recent call last.
    pub stack: Seq<u16>,
    /// The delay timer.
    pub delay: u8,
    /// The sound timer.
    pub sound: u8,
    /// The keypad; `keys[k]` is true while key `k` is held down.
    pub keys: Seq<bool>,
    /// Running, or stalled on the keypad.
    pub mode: Mode,
}

impl MachineState {
    /// Every component has its fixed size, the stack holds at most sixteen
    /// addresses and a pending key wait names a register.
    pub open spec fn shaped(self) -> bool {
        &&& self.memory.len() == RAM_SIZE
        &&& self.display.len() == SCREEN_HEIGHT
        &&& forall|r: int| 0 <= r < SCREEN_HEIGHT ==> (#[trigger] self.display[r]).len() == SCREEN_WIDTH
        &&& self.v.len() == NUM_REGS
        &&& self.stack.len() <= STACK_SIZE
        &&& self.keys.len() == NUM_KEYS
        &&& (self.mode matches Mode::AwaitingKey(x) ==> x < NUM_REGS)
    }

    /// A state between steps: shaped, with the program counter inside memory.
    pub open spec fn wf(self) -> bool {
        self.shaped() && self.pc < RAM_SIZE
    }

    /// The state with `V[x]` replaced.
    pub open spec fn with_register(self, x: u8, value: u8) -> MachineState {
        MachineState { v: self.v.update(x as int, value), ..self }
    }

    /// The state with `V[x]` replaced and then the flag register set to 1 or 0.
    pub open spec fn with_result_and_flag(self, x: u8, value: u8, flag: bool) -> MachineState {
        MachineState {
            v: self.v.update(x as int, value).update(FLAG_REG as int, if flag { 1u8 } else { 0u8 }),
            ..self
        }
    }

    /// The state with the program counter moved past one more instruction if `skip` holds.
    pub open spec fn skipping_if(self, skip: bool) -> MachineState {
        if skip {
            MachineState { pc: (self.pc + 2) as u16, ..self }
        } else {
            self
        }
    }
}

/// A display with every pixel unlit.
pub open spec fn blank_display() -> Seq<Seq<bool>> {
    Seq::new(SCREEN_HEIGHT as nat, |r: int| Seq::new(SCREEN_WIDTH as nat, |c: int| false))
}

/// Memory at start: the glyph table in its first 80 bytes, zero elsewhere.
pub open spec fn initial_memory() -> Seq<u8> {
    Seq::new(RAM_SIZE as nat, |a: int| if a < glyph_table().len() { glyph_table()[a] } else { 0u8 })
}

/// The canonical start state.
pub open spec fn initial_state() -> MachineState {
    MachineState {
        pc: START_ADDR,
        memory: initial_memory(),
        display: blank_display(),
        v: Seq::new(NUM_REGS as nat, |i: int| 0u8),
        index: 0,
        stack: Seq::empty(),
        delay: 0,
        sound: 0,
        keys: Seq::new(NUM_KEYS as nat, |i: int| false),
        mode: Mode::Running,
    }
}

/// Key `k` exists and is held down. A number outside the pad names no key.
pub open spec fn key_down(keys: Seq<bool>, k: int) -> bool {
    0 <= k < NUM_KEYS && keys[k]
}

/// The lowest key at or above `from` that is held down, or 16 if there is none.
pub open spec fn lowest_key_down_from(keys: Seq<bool>, from: int) -> int
    decreases NUM_KEYS - from,
{
    if from < 0 || from >= NUM_KEYS {
        NUM_KEYS as int
    } else if keys[from] {
        from
    } else {
        lowest_key_down_from(keys, from + 1)
    }
}

/// The lowest key that is held down, or 16 if none is.
pub open spec fn lowest_key_down(keys: Seq<bool>) -> int {
    lowest_key_down_from(keys, 0)
}

/// Pixel `k` of a sprite row, counted from the most significant bit.
pub open spec fn sprite_bit(row: u8, k: u8) -> bool {
    row & (0x80u8 >> k) != 0
}

/// Whether the sprite of `n` rows at `memory[index..]`, drawn with its origin
/// at column `vx` and row `vy`, has a set pixel on display cell (`r`, `c`).
/// Columns wrap modulo 64 and rows modulo 32.
pub open spec fn sprite_covers(memory: Seq<u8>, index: u16, vx: u8, vy: u8, n: u8, r: int, c: int) -> bool {
    let j = (r - vy) % (SCREEN_HEIGHT as int);
    let k = (c - vx) % (SCREEN_WIDTH as int);
    j < n && k < 8 && sprite_bit(memory[index + j], k as u8)
}

/// The display after the sprite is XORed onto it.
pub open spec fn drawn_display(s: MachineState, vx: u8, vy: u8, n: u8) -> Seq<Seq<bool>> {
    Seq::new(
        SCREEN_HEIGHT as nat,
        |r: int|
            Seq::new(
                SCREEN_WIDTH as nat,
                |c: int| s.display[r][c] != sprite_covers(s.memory, s.index, vx, vy, n, r, c),
            ),
    )
}

/// Drawing the sprite turns some lit pixel off.
pub open spec fn draw_collides(s: MachineState, vx: u8, vy: u8, n: u8) -> bool {
    exists|r: int, c: int|
        0 <= r < SCREEN_HEIGHT && 0 <= c < SCREEN_WIDTH && s.display[r][c] && #[trigger] sprite_covers(
            s.memory,
            s.index,
            vx,
            vy,
            n,
            r,
            c,
        )
}

/// Memory after `V[0..=x]` is stored at `index`.
pub open spec fn memory_with_registers(s: MachineState, x: u8) -> Seq<u8> {
    Seq::new(
        RAM_SIZE as nat,
        |a: int| if s.index <= a <= s.index + x { s.v[a - s.index] } else { s.memory[a] },
    )
}

/// Registers after `V[0..=x]` is loaded from `index`.
pub open spec fn registers_from_memory(s: MachineState, x: u8) -> Seq<u8> {
    Seq::new(NUM_REGS as nat, |i: int| if i <= x { s.memory[s.index + i] } else { s.v[i] })
}

/// The effect of one instruction on a state whose program counter has already
/// been moved past it. The resulting program counter is not yet checked
/// against the memory size.
pub open spec fn execute_on(s: MachineState, instr: Instruction, random: u8) -> Result<MachineState, Fault> {
    match instr {
        Instruction::Nop => Ok(s),
        Instruction::ClearDisplay => Ok(MachineState { display: blank_display(), ..s }),
        Instruction::Return => if s.stack.len() == 0 {
            Err(Fault::StackUnderflow)
        } else {
            Ok(MachineState { pc: s.stack.last(), stack: s.stack.drop_last(), ..s })
        },
        Instruction::Jump(nnn) => Ok(MachineState { pc: nnn, ..s }),
        Instruction::Call(nnn) => if s.stack.len() >= STACK_SIZE {
            Err(Fault::StackOverflow)
        } else {
            Ok(MachineState { pc: nnn, stack: s.stack.push(s.pc), ..s })
        },
        Instruction::SkipIfEqual(x, nn) => Ok(s.skipping_if(s.v[x as int] == nn)),
        Instruction::SkipIfNotEqual(x, nn) => Ok(s.skipping_if(s.v[x as int] != nn)),
        Instruction::SkipIfRegistersEqual(x, y) => Ok(s.skipping_if(s.v[x as int] == s.v[y as int])),
        Instruction::SkipIfRegistersNotEqual(x, y) => Ok(
            s.skipping_if(s.v[x as int] != s.v[y as int]),
        ),
        Instruction::LoadImmediate(x, nn) => Ok(s.with_register(x, nn)),
        Instruction::AddImmediate(x, nn) => Ok(
            s.with_register(x, ((s.v[x as int] + nn) % 256) as u8),
        ),
        Instruction::Move(x, y) => Ok(s.with_register(x, s.v[y as int])),
        Instruction::Or(x, y) => Ok(s.with_register(x, s.v[x as int] | s.v[y as int])),
        Instruction::And(x, y) => Ok(s.with_register(x, s.v[x as int] & s.v[y as int])),
        Instruction::Xor(x, y) => Ok(s.with_register(x, s.v[x as int] ^ s.v[y as int])),
        Instruction::AddRegister(x, y) => Ok(
            s.with_result_and_flag(
                x,
                ((s.v[x as int] + s.v[y as int]) % 256) as u8,
                s.v[x as int] + s.v[y as int] > 255,
            ),
        ),
        Instruction::SubRegister(x, y) => Ok(
            s.with_result_and_flag(
                x,
                ((s.v[x as int] - s.v[y as int]) % 256) as u8,
                s.v[x as int] >= s.v[y as int],
            ),
        ),
        Instruction::ShiftRight(x, y) => Ok(
            s.with_result_and_flag(x, (s.v[y as int] / 2) as u8, s.v[y as int] % 2 == 1),
        ),
        Instruction::SubReversed(x, y) => Ok(
            s.with_result_and_flag(
                x,
                ((s.v[y as int] - s.v[x as int]) % 256) as u8,
                s.v[y as int] >= s.v[x as int],
            ),
        ),
        Instruction::ShiftLeft(x, y) => Ok(
            s.with_result_and_flag(x, ((s.v[y as int] * 2) % 256) as u8, s.v[y as int] >= 128),
        ),
        Instruction::LoadIndex(nnn) => Ok(MachineState { index: nnn, ..s }),
        Instruction::JumpOffset(nnn) => Ok(MachineState { pc: (nnn + s.v[0]) as u16, ..s }),
        Instruction::Random(x, nn) => Ok(s.with_register(x, random & nn)),
        Instruction::Draw(x, y, n) => if n > 0 && s.index + n > RAM_SIZE {
            Err(Fault::AddressOutOfBounds)
        } else {
            Ok(
                MachineState {
                    display: drawn_display(s, s.v[x as int], s.v[y as int], n),
                    v: s.v.update(
                        FLAG_REG as int,
                        if draw_collides(s, s.v[x as int], s.v[y as int], n) {
                            1u8
                        } else {
                            0u8
                        },
                    ),
                    ..s
                },
            )
        },
        Instruction::SkipIfKeyPressed(x) => Ok(s.skipping_if(key_down(s.keys, s.v[x as int] as int))),
        Instruction::SkipIfKeyReleased(x) => Ok(
            s.skipping_if(!key_down(s.keys, s.v[x as int] as int)),
        ),
        Instruction::ReadDelay(x) => Ok(s.with_register(x, s.delay)),
        Instruction::WaitKey(x) => if lowest_key_down(s.keys) < NUM_KEYS {
            Ok(s.with_register(x, lowest_key_down(s.keys) as u8))
        } else {
            Ok(MachineState { mode: Mode::AwaitingKey(x), ..s })
        },
        Instruction::SetDelay(x) => Ok(MachineState { delay: s.v[x as int], ..s }),
        Instruction::SetSound(x) => Ok(MachineState { sound: s.v[x as int], ..s }),
        Instruction::AddIndex(x) => Ok(
            MachineState { index: ((s.index + s.v[x as int]) % 0x10000) as u16, ..s },
        ),
        Instruction::LoadGlyph(x) => Ok(
            MachineState { index: (s.v[x as int] * GLYPH_HEIGHT) as u16, ..s },
        ),
        Instruction::StoreDecimal(x) => if s.index + 2 >= RAM_SIZE {
            Err(Fault::AddressOutOfBounds)
        } else {
            Ok(
                MachineState {
                    memory: s.memory.update(s.index as int, (s.v[x as int] / 100) as u8).update(
                        s.index + 1,
                        ((s.v[x as int] / 10) % 10) as u8,
                    ).update(s.index + 2, (s.v[x as int] % 10) as u8),
                    ..s
                },
            )
        },
        Instruction::StoreRegisters(x) => if s.index + x >= RAM_SIZE {
            Err(Fault::AddressOutOfBounds)
        } else {
            Ok(
                MachineState {
                    memory: memory_with_registers(s, x),
                    index: (s.index + x + 1) as u16,
                    ..s
                },
            )
        },
        Instruction::LoadRegisters(x) => if s.index + x >= RAM_SIZE {
            Err(Fault::AddressOutOfBounds)
        } else {
            Ok(
                MachineState {
                    v: registers_from_memory(s, x),
                    index: (s.index + x + 1) as u16,
                    ..s
                },
            )
        },
    }
}

/// The instruction word at the program counter, high byte first.
pub open spec fn word_at(s: MachineState) -> u16 {
    (s.memory[s.pc as int] * 256 + s.memory[s.pc + 1]) as u16
}

/// The state after the fetch: the program counter moved past the instruction.
pub open spec fn fetched(s: MachineState) -> MachineState {
    MachineState { pc: (s.pc + 2) as u16, ..s }
}

/// A state is accepted as the outcome of a step only with its program counter inside memory.
pub open spec fn checked(outcome: Result<MachineState, Fault>) -> Result<MachineState, Fault> {
    match outcome {
        Ok(t) => if t.pc < RAM_SIZE {
            Ok(t)
        } else {
            Err(Fault::AddressOutOfBounds)
        },
        Err(e) => Err(e),
    }
}

/// A step of a machine stalled on the keypad: it takes the lowest key held
/// down into the pending register and runs again, or stays as it is.
pub open spec fn resume(s: MachineState, x: u8) -> MachineState {
    if lowest_key_down(s.keys) < NUM_KEYS {
        MachineState { mode: Mode::Running, ..s.with_register(x, lowest_key_down(s.keys) as u8) }
    } else {
        s
    }
}

/// One step of the machine. `random` is the byte that the random instruction
/// draws; no other instruction reads it.
pub open spec fn step(s: MachineState, random: u8) -> Result<MachineState, Fault> {
    match s.mode {
        Mode::AwaitingKey(x) => Ok(resume(s, x)),
        Mode::Running => if s.pc + 1 >= RAM_SIZE {
            Err(Fault::AddressOutOfBounds)
        } else {
            match decode_word(word_at(s)) {
                None => Err(Fault::UnknownInstruction(word_at(s))),
                Some(instr) => checked(execute_on(fetched(s), instr, random)),
            }
        },
    }
}

/// The next step executes the random instruction, the only one whose
/// outcome depends on the byte drawn.
pub open spec fn draws_random(s: MachineState) -> bool {
    s.mode is Running && s.pc + 1 < RAM_SIZE && decode_word(word_at(s)) is Some && decode_word(
        word_at(s),
    )->Some_0 is Random
}

/// What a call that may be refused leaves behind: on success the new state,
/// on a fault the fault and the state as it was.
pub open spec fn outcome_is(
    expected: Result<MachineState, Fault>,
    before: MachineState,
    after: MachineState,
    result: Result<(), Fault>,
) -> bool {
    match expected {
        Ok(t) => result is Ok && after == t,
        Err(e) => result == Err::<(), Fault>(e) && after == before,
    }
}

/// The timers after one tick of the 60 Hz clock.
pub open spec fn ticked(s: MachineState) -> MachineState {
    MachineState {
        delay: if s.delay > 0 { (s.delay - 1) as u8 } else { 0u8 },
        sound: if s.sound > 0 { (s.sound - 1) as u8 } else { 0u8 },
        ..s
    }
}

/// Memory after a program image is copied to the start address.
pub open spec fn memory_with_program(memory: Seq<u8>, program: Seq<u8>) -> Seq<u8> {
    Seq::new(
        RAM_SIZE as nat,
        |a: int| if START_ADDR <= a < START_ADDR + program.len() { program[a - START_ADDR] } else { memory[a] },
    )
}

} // verus!
