//! The executable machine: fixed-size arrays behind the model of
//! [`MachineState`], with its lifecycle, its accessors and the primitive
//! updates that instruction execution is built from.

use vstd::prelude::*;
use crate::glyphs::{glyph_bytes, glyph_table, FONTSET_SIZE};
use crate::state::{
    blank_display, fetched, initial_state, key_down, lowest_key_down, lowest_key_down_from,
    memory_with_program, memory_with_registers, outcome_is, registers_from_memory, ticked,
    word_at, Fault, MachineState, Mode, FLAG_REG, NUM_KEYS, NUM_REGS, RAM_SIZE, SCREEN_HEIGHT,
    SCREEN_WIDTH, STACK_SIZE, START_ADDR,
};

verus! {

/// The interpreter: registers, memory, call stack, timers, display and keypad.
pub struct Chip8 {
    pc: u16,
    ram: [u8; RAM_SIZE],
    screen: [[bool; SCREEN_WIDTH]; SCREEN_HEIGHT],
    v_regs: [u8; NUM_REGS],
    i_reg: u16,
    sp: u16,
    stack: [u16; STACK_SIZE],
    keys: [bool; NUM_KEYS],
    dt: u8,
    st: u8,
    mode: Mode,
}

impl View for Chip8 {
    type V = MachineState;

    /// The state that the machine stands for. Stack slots at and above the
    /// stack pointer are not part of it.
    closed spec fn view(&self) -> MachineState {
        self.model()
    }
}

impl Chip8 {
    /// The view, kept out of sight of the proofs that do not touch the fields.
    #[verifier::opaque]
    spec fn model(&self) -> MachineState {
        MachineState {
            pc: self.pc,
            memory: self.ram@,
            display: Seq::new(SCREEN_HEIGHT as nat, |r: int| self.screen@[r]@),
            v: self.v_regs@,
            index: self.i_reg,
            stack: Seq::new(self.sp as nat, |i: int| self.stack@[i]),
            delay: self.dt,
            sound: self.st,
            keys: self.keys@,
            mode: self.mode,
        }
    }

    /// A machine in the start state.
    pub fn new() -> (chip8: Self)
        ensures
            chip8@ == initial_state(),
            chip8@.wf(),
    {
        proof {
            reveal(Chip8::model);
        }
        let mut chip8 = Self {
            pc: START_ADDR,
            ram: [0; RAM_SIZE],
            screen: [[false; SCREEN_WIDTH]; SCREEN_HEIGHT],
            v_regs: [0; NUM_REGS],
            i_reg: 0,
            sp: 0,
            stack: [0; STACK_SIZE],
            keys: [false; NUM_KEYS],
            dt: 0,
            st: 0,
            mode: Mode::Running,
        };
        chip8.install_glyphs();
        assert(chip8@ =~~= initial_state());
        chip8
    }

    /// Puts the machine back into the start state, whatever it held.
    pub fn reset(&mut self)
        ensures
            final(self)@ == initial_state(),
            final(self)@.wf(),
    {
        proof {
            reveal(Chip8::model);
        }
        self.pc = START_ADDR;
        self.ram = [0; RAM_SIZE];
        self.screen = [[false; SCREEN_WIDTH]; SCREEN_HEIGHT];
        self.v_regs = [0; NUM_REGS];
        self.i_reg = 0;
        self.sp = 0;
        self.stack = [0; STACK_SIZE];
        self.keys = [false; NUM_KEYS];
        self.dt = 0;
        self.st = 0;
        self.mode = Mode::Running;
        self.install_glyphs();
        assert(self@ =~~= initial_state());
    }

    /// Writes the glyph table over the first 80 bytes of memory.
    fn install_glyphs(&mut self)
        ensures
            forall|a: int|
                0 <= a < RAM_SIZE ==> #[trigger] final(self).ram@[a] == if a < FONTSET_SIZE {
                    glyph_table()[a]
                } else {
                    old(self).ram@[a]
                },
            final(self).pc == old(self).pc,
            final(self).screen == old(self).screen,
            final(self).v_regs == old(self).v_regs,
            final(self).i_reg == old(self).i_reg,
            final(self).sp == old(self).sp,
            final(self).stack == old(self).stack,
            final(self).keys == old(self).keys,
            final(self).dt == old(self).dt,
            final(self).st == old(self).st,
            final(self).mode == old(self).mode,
    {
        proof {
            reveal(Chip8::model);
        }
        let table = glyph_bytes();
        let mut i: usize = 0;
        while i < FONTSET_SIZE
            invariant
                i <= FONTSET_SIZE,
                table@ == glyph_table(),
                forall|a: int|
                    0 <= a < RAM_SIZE ==> #[trigger] self.ram@[a] == if a < i {
                        glyph_table()[a]
                    } else {
                        old(self).ram@[a]
                    },
                self.pc == old(self).pc,
                self.screen == old(self).screen,
                self.v_regs == old(self).v_regs,
                self.i_reg == old(self).i_reg,
                self.sp == old(self).sp,
                self.stack == old(self).stack,
                self.keys == old(self).keys,
                self.dt == old(self).dt,
                self.st == old(self).st,
                self.mode == old(self).mode,
            decreases FONTSET_SIZE - i,
        {
            self.ram[i] = table[i];
            i += 1;
        }
    }

    /// Counts both timers down by one, stopping at zero.
    pub fn tick_timers(&mut self)
        ensures
            final(self)@ == ticked(old(self)@),
            old(self)@.wf() ==> final(self)@.wf(),
    {
        proof {
            reveal(Chip8::model);
        }
        if self.dt > 0 {
            self.dt -= 1;
        }
        if self.st > 0 {
            self.st -= 1;
        }
        assert(self@ =~~= ticked(old(self)@));
    }

    /// The display, row by row: `display[row][col]` is true where the pixel is lit.
    pub fn get_display(&self) -> (display: &[[bool; SCREEN_WIDTH]; SCREEN_HEIGHT])
        ensures
            forall|r: int, c: int|
                0 <= r < SCREEN_HEIGHT && 0 <= c < SCREEN_WIDTH ==> #[trigger] display@[r]@[c]
                    == self@.display[r][c],
    {
        proof {
            reveal(Chip8::model);
        }
        &self.screen
    }

    /// Records that key `idx` is held down or released. Refused with
    /// `InvalidKey` exactly when `idx` is not a key of the pad.
    pub fn set_key(&mut self, idx: usize, pressed: bool) -> (result: Result<(), Fault>)
        ensures
            outcome_is(
                if idx < NUM_KEYS {
                    Ok(MachineState { keys: old(self)@.keys.update(idx as int, pressed), ..old(self)@ })
                } else {
                    Err(Fault::InvalidKey)
                },
                old(self)@,
                final(self)@,
                result,
            ),
            old(self)@.wf() ==> final(self)@.wf(),
    {
        proof {
            reveal(Chip8::model);
        }
        if idx >= NUM_KEYS {
            return Err(Fault::InvalidKey);
        }
        self.keys[idx] = pressed;
        assert(self@ =~~= MachineState {
            keys: old(self)@.keys.update(idx as int, pressed),
            ..old(self)@
        });
        Ok(())
    }

    /// Records that key `idx` is held down.
    pub fn press_key(&mut self, idx: usize) -> (result: Result<(), Fault>)
        ensures
            outcome_is(
                if idx < NUM_KEYS {
                    Ok(MachineState { keys: old(self)@.keys.update(idx as int, true), ..old(self)@ })
                } else {
                    Err(Fault::InvalidKey)
                },
                old(self)@,
                final(self)@,
                result,
            ),
            old(self)@.wf() ==> final(self)@.wf(),
    {
        self.set_key(idx, true)
    }

    /// Records that key `idx` is released.
    pub fn release_key(&mut self, idx: usize) -> (result: Result<(), Fault>)
        ensures
            outcome_is(
                if idx < NUM_KEYS {
                    Ok(MachineState { keys: old(self)@.keys.update(idx as int, false), ..old(self)@ })
                } else {
                    Err(Fault::InvalidKey)
                },
                old(self)@,
                final(self)@,
                result,
            ),
            old(self)@.wf() ==> final(self)@.wf(),
    {
        self.set_key(idx, false)
    }

    /// Copies a program image into memory from the start address on. Refused
    /// with `ProgramTooLarge` exactly when the image does not fit below the
    /// end of memory.
    pub fn load(&mut self, data: &[u8]) -> (result: Result<(), Fault>)
        ensures
            outcome_is(
                if data@.len() <= RAM_SIZE - START_ADDR {
                    Ok(MachineState { memory: memory_with_program(old(self)@.memory, data@), ..old(self)@ })
                } else {
                    Err(Fault::ProgramTooLarge)
                },
                old(self)@,
                final(self)@,
                result,
            ),
            old(self)@.wf() ==> final(self)@.wf(),
    {
        proof {
            reveal(Chip8::model);
        }
        let start: usize = 0x200;
        if data.len() > RAM_SIZE - start {
            return Err(Fault::ProgramTooLarge);
        }
        let mut i: usize = 0;
        while i < data.len()
            invariant
                i <= data@.len() <= RAM_SIZE - start,
                start == START_ADDR,
                forall|a: int|
                    0 <= a < RAM_SIZE ==> #[trigger] self.ram@[a] == if start <= a < start + i {
                        data@[a - start]
                    } else {
                        old(self).ram@[a]
                    },
                self.pc == old(self).pc,
                self.screen == old(self).screen,
                self.v_regs == old(self).v_regs,
                self.i_reg == old(self).i_reg,
                self.sp == old(self).sp,
                self.stack == old(self).stack,
                self.keys == old(self).keys,
                self.dt == old(self).dt,
                self.st == old(self).st,
                self.mode == old(self).mode,
            decreases data@.len() - i,
        {
            self.ram[start + i] = data[i];
            i += 1;
        }
        assert(self@ =~~= MachineState {
            memory: memory_with_program(old(self)@.memory, data@),
            ..old(self)@
        });
        Ok(())
    }

    /// Address of the next instruction.
    pub fn program_counter(&self) -> (pc: u16)
        ensures
            pc == self@.pc,
    {
        proof {
            reveal(Chip8::model);
        }
        self.pc
    }

    /// The index register.
    pub fn index_register(&self) -> (index: u16)
        ensures
            index == self@.index,
    {
        proof {
            reveal(Chip8::model);
        }
        self.i_reg
    }

    /// General register `V[x]`, or `None` where `x` names no register.
    pub fn register(&self, x: usize) -> (value: Option<u8>)
        ensures
            value == if x < NUM_REGS {
                Some(self@.v[x as int])
            } else {
                None
            },
    {
        proof {
            reveal(Chip8::model);
        }
        if x < NUM_REGS {
            Some(self.v_regs[x])
        } else {
            None
        }
    }

    /// The byte of memory at `addr`, or `None` where `addr` is outside memory.
    pub fn memory_byte(&self, addr: usize) -> (value: Option<u8>)
        ensures
            value == if addr < RAM_SIZE {
                Some(self@.memory[addr as int])
            } else {
                None
            },
    {
        proof {
            reveal(Chip8::model);
        }
        if addr < RAM_SIZE {
            Some(self.ram[addr])
        } else {
            None
        }
    }

    /// Number of return addresses on the call stack.
    pub fn stack_depth(&self) -> (depth: usize)
        ensures
            depth == self@.stack.len(),
    {
        proof {
            reveal(Chip8::model);
        }
        self.sp as usize
    }

    /// The delay timer.
    pub fn delay_timer(&self) -> (value: u8)
        ensures
            value == self@.delay,
    {
        proof {
            reveal(Chip8::model);
        }
        self.dt
    }

    /// The sound timer. The host plays its tone while this is above zero.
    pub fn sound_timer(&self) -> (value: u8)
        ensures
            value == self@.sound,
    {
        proof {
            reveal(Chip8::model);
        }
        self.st
    }

    /// Whether the host should be sounding its tone: the sound timer is above zero.
    pub fn is_sound_playing(&self) -> (playing: bool)
        ensures
            playing == (self@.sound > 0),
    {
        self.sound_timer() > 0
    }

    /// Running, or stalled on the keypad.
    pub fn mode(&self) -> (mode: Mode)
        ensures
            mode == self@.mode,
    {
        proof {
            reveal(Chip8::model);
        }
        self.mode
    }
}

impl Chip8 {
    /// General register `V[x]`.
    pub(crate) fn v(&self, x: u8) -> (value: u8)
        requires
            x < NUM_REGS,
        ensures
            value == self@.v[x as int],
    {
        proof {
            reveal(Chip8::model);
        }
        self.v_regs[x as usize]
    }

    /// The byte of memory at `addr`.
    pub(crate) fn byte_at(&self, addr: usize) -> (value: u8)
        requires
            addr < RAM_SIZE,
        ensures
            value == self@.memory[addr as int],
    {
        proof {
            reveal(Chip8::model);
        }
        self.ram[addr]
    }

    /// Whether `key` names a key of the pad that is held down.
    pub(crate) fn key_is_down(&self, key: u8) -> (down: bool)
        ensures
            down == key_down(self@.keys, key as int),
    {
        proof {
            reveal(Chip8::model);
        }
        (key as usize) < NUM_KEYS && self.keys[key as usize]
    }

    /// The most recent return address.
    pub(crate) fn top_of_stack(&self) -> (addr: u16)
        requires
            0 < self@.stack.len() <= STACK_SIZE,
        ensures
            addr == self@.stack.last(),
    {
        proof {
            reveal(Chip8::model);
        }
        self.stack[(self.sp - 1) as usize]
    }

    /// The lowest key held down, or 16 where none is.
    pub(crate) fn lowest_pressed_key(&self) -> (key: u8)
        ensures
            key == lowest_key_down(self@.keys),
            key <= NUM_KEYS,
    {
        proof {
            reveal(Chip8::model);
        }
        let mut i: u8 = 0;
        while i < 16
            invariant
                i <= 16,
                lowest_key_down(self.keys@) == lowest_key_down_from(self.keys@, i as int),
            decreases 16 - i,
        {
            if self.keys[i as usize] {
                proof {
                    reveal(Chip8::model);
                }
                return i;
            }
            i += 1;
        }
        i
    }

    /// Puts a return address on the call stack.
    pub(crate) fn push(&mut self, val: u16)
        requires
            old(self)@.stack.len() < STACK_SIZE,
        ensures
            final(self)@ == (MachineState { stack: old(self)@.stack.push(val), ..old(self)@ }),
    {
        proof {
            reveal(Chip8::model);
        }
        self.stack[self.sp as usize] = val;
        self.sp += 1;
        assert(self@ =~~= MachineState { stack: old(self)@.stack.push(val), ..old(self)@ });
    }

    /// Takes the most recent return address off the call stack.
    pub(crate) fn pop(&mut self) -> (val: u16)
        requires
            0 < old(self)@.stack.len() <= STACK_SIZE,
        ensures
            val == old(self)@.stack.last(),
            final(self)@ == (MachineState { stack: old(self)@.stack.drop_last(), ..old(self)@ }),
    {
        proof {
            reveal(Chip8::model);
        }
        self.sp -= 1;
        let val = self.stack[self.sp as usize];
        assert(self@ =~~= MachineState { stack: old(self)@.stack.drop_last(), ..old(self)@ });
        val
    }

    /// Reads the instruction word at the program counter and moves the
    /// program counter past it.
    pub(crate) fn fetch(&mut self) -> (word: u16)
        requires
            old(self)@.pc + 1 < RAM_SIZE,
        ensures
            word == word_at(old(self)@),
            final(self)@ == fetched(old(self)@),
    {
        proof {
            reveal(Chip8::model);
        }
        let higher_byte: u16 = self.ram[self.pc as usize] as u16;
        let lower_byte: u16 = self.ram[(self.pc + 1) as usize] as u16;
        self.pc += 2;
        assert(self@ =~~= fetched(old(self)@));
        higher_byte * 256 + lower_byte
    }

    /// Sets the program counter.
    pub(crate) fn set_pc(&mut self, pc: u16)
        ensures
            final(self)@ == (MachineState { pc, ..old(self)@ }),
    {
        proof {
            reveal(Chip8::model);
        }
        self.pc = pc;
        assert(self@ =~~= MachineState { pc, ..old(self)@ });
    }

    /// Sets the index register.
    pub(crate) fn set_index(&mut self, index: u16)
        ensures
            final(self)@ == (MachineState { index, ..old(self)@ }),
    {
        proof {
            reveal(Chip8::model);
        }
        self.i_reg = index;
        assert(self@ =~~= MachineState { index, ..old(self)@ });
    }

    /// Sets the delay timer.
    pub(crate) fn set_delay(&mut self, delay: u8)
        ensures
            final(self)@ == (MachineState { delay, ..old(self)@ }),
    {
        proof {
            reveal(Chip8::model);
        }
        self.dt = delay;
        assert(self@ =~~= MachineState { delay, ..old(self)@ });
    }

    /// Sets the sound timer.
    pub(crate) fn set_sound(&mut self, sound: u8)
        ensures
            final(self)@ == (MachineState { sound, ..old(self)@ }),
    {
        proof {
            reveal(Chip8::model);
        }
        self.st = sound;
        assert(self@ =~~= MachineState { sound, ..old(self)@ });
    }

    /// Sets the mode.
    pub(crate) fn set_mode(&mut self, mode: Mode)
        ensures
            final(self)@ == (MachineState { mode, ..old(self)@ }),
    {
        proof {
            reveal(Chip8::model);
        }
        self.mode = mode;
        assert(self@ =~~= MachineState { mode, ..old(self)@ });
    }

    /// Writes `value` to `V[x]`.
    pub(crate) fn set_register(&mut self, x: u8, value: u8)
        requires
            x < NUM_REGS,
        ensures
            final(self)@ == old(self)@.with_register(x, value),
    {
        proof {
            reveal(Chip8::model);
        }
        self.v_regs[x as usize] = value;
        assert(self@ =~~= old(self)@.with_register(x, value));
    }

    /// Sets the flag register to 1 or 0.
    pub(crate) fn set_flag(&mut self, flag: bool)
        ensures
            final(self)@ == (MachineState {
                v: old(self)@.v.update(FLAG_REG as int, if flag { 1u8 } else { 0u8 }),
                ..old(self)@
            }),
    {
        proof {
            reveal(Chip8::model);
        }
        self.v_regs[FLAG_REG] = if flag { 1 } else { 0 };
        assert(self@ =~~= MachineState {
            v: old(self)@.v.update(FLAG_REG as int, if flag { 1u8 } else { 0u8 }),
            ..old(self)@
        });
    }

    /// Writes `value` to `V[x]` and then the flag to `V[15]`.
    pub(crate) fn set_result_and_flag(&mut self, x: u8, value: u8, flag: bool)
        requires
            x < NUM_REGS,
        ensures
            final(self)@ == old(self)@.with_result_and_flag(x, value, flag),
    {
        proof {
            reveal(Chip8::model);
        }
        self.v_regs[x as usize] = value;
        self.v_regs[FLAG_REG] = if flag { 1 } else { 0 };
        assert(self@ =~~= old(self)@.with_result_and_flag(x, value, flag));
    }

    /// Turns every pixel off.
    pub(crate) fn clear_display(&mut self)
        ensures
            final(self)@ == (MachineState { display: blank_display(), ..old(self)@ }),
    {
        proof {
            reveal(Chip8::model);
        }
        self.screen = [[false; SCREEN_WIDTH]; SCREEN_HEIGHT];
        assert(self@ =~~= MachineState { display: blank_display(), ..old(self)@ });
    }

    /// Inverts one pixel and tells whether it was lit.
    pub(crate) fn flip_pixel(&mut self, row: usize, col: usize) -> (lit: bool)
        requires
            row < SCREEN_HEIGHT,
            col < SCREEN_WIDTH,
        ensures
            lit == old(self)@.display[row as int][col as int],
            final(self)@ == (MachineState {
                display: old(self)@.display.update(
                    row as int,
                    old(self)@.display[row as int].update(col as int, !lit),
                ),
                ..old(self)@
            }),
    {
        proof {
            reveal(Chip8::model);
        }
        let lit = self.screen[row][col];
        self.screen[row][col] = !lit;
        assert(self@ =~~= MachineState {
            display: old(self)@.display.update(
                row as int,
                old(self)@.display[row as int].update(col as int, !lit),
            ),
            ..old(self)@
        });
        lit
    }

    /// Writes the hundreds, tens and ones of `value` at the index register.
    pub(crate) fn store_decimal(&mut self, value: u8)
        requires
            old(self)@.index + 2 < RAM_SIZE,
        ensures
            final(self)@ == (MachineState {
                memory: old(self)@.memory.update(old(self)@.index as int, (value / 100) as u8).update(
                    old(self)@.index + 1,
                    ((value / 10) % 10) as u8,
                ).update(old(self)@.index + 2, (value % 10) as u8),
                ..old(self)@
            }),
    {
        proof {
            reveal(Chip8::model);
        }
        let at: usize = self.i_reg as usize;
        self.ram[at] = value / 100;
        self.ram[at + 1] = (value / 10) % 10;
        self.ram[at + 2] = value % 10;
        assert(self@ =~~= MachineState {
            memory: old(self)@.memory.update(old(self)@.index as int, (value / 100) as u8).update(
                old(self)@.index + 1,
                ((value / 10) % 10) as u8,
            ).update(old(self)@.index + 2, (value % 10) as u8),
            ..old(self)@
        });
    }

    /// Copies `V[0..=x]` into memory at the index register.
    pub(crate) fn store_registers(&mut self, x: u8)
        requires
            x < NUM_REGS,
            old(self)@.index + x < RAM_SIZE,
        ensures
            final(self)@ == (MachineState {
                memory: memory_with_registers(old(self)@, x),
                ..old(self)@
            }),
    {
        proof {
            reveal(Chip8::model);
        }
        let base: usize = self.i_reg as usize;
        let mut idx: usize = 0;
        while idx <= x as usize
            invariant
                idx <= x + 1,
                x < NUM_REGS,
                base == old(self)@.index,
                base + x < RAM_SIZE,
                forall|a: int|
                    0 <= a < RAM_SIZE ==> #[trigger] self.ram@[a] == if base <= a < base + idx {
                        old(self).v_regs@[a - base]
                    } else {
                        old(self).ram@[a]
                    },
                self.pc == old(self).pc,
                self.screen == old(self).screen,
                self.v_regs == old(self).v_regs,
                self.i_reg == old(self).i_reg,
                self.sp == old(self).sp,
                self.stack == old(self).stack,
                self.keys == old(self).keys,
                self.dt == old(self).dt,
                self.st == old(self).st,
                self.mode == old(self).mode,
            decreases x + 1 - idx,
        {
            self.ram[base + idx] = self.v_regs[idx];
            idx += 1;
        }
        assert(self@ =~~= MachineState { memory: memory_with_registers(old(self)@, x), ..old(self)@ });
    }

    /// Copies memory at the index register into `V[0..=x]`.
    pub(crate) fn load_registers(&mut self, x: u8)
        requires
            x < NUM_REGS,
            old(self)@.index + x < RAM_SIZE,
        ensures
            final(self)@ == (MachineState { v: registers_from_memory(old(self)@, x), ..old(self)@ }),
    {
        proof {
            reveal(Chip8::model);
        }
        let base: usize = self.i_reg as usize;
        let mut idx: usize = 0;
        while idx <= x as usize
            invariant
                idx <= x + 1,
                x < NUM_REGS,
                base == old(self)@.index,
                base + x < RAM_SIZE,
                forall|i: int|
                    0 <= i < NUM_REGS ==> #[trigger] self.v_regs@[i] == if i < idx {
                        old(self).ram@[base + i]
                    } else {
                        old(self).v_regs@[i]
                    },
                self.pc == old(self).pc,
                self.screen == old(self).screen,
                self.ram == old(self).ram,
                self.i_reg == old(self).i_reg,
                self.sp == old(self).sp,
                self.stack == old(self).stack,
                self.keys == old(self).keys,
                self.dt == old(self).dt,
                self.st == old(self).st,
                self.mode == old(self).mode,
            decreases x + 1 - idx,
        {
            self.v_regs[idx] = self.ram[base + idx];
            idx += 1;
        }
        assert(self@ =~~= MachineState { v: registers_from_memory(old(self)@, x), ..old(self)@ });
    }
}

} // verus!
