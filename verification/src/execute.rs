//! Instruction execution: the dispatch over instruction forms and the step
//! of the machine.

use vstd::prelude::*;
use crate::entropy::random_byte;
use crate::glyphs::GLYPH_HEIGHT;
use crate::instruction::{decode, Instruction};
use crate::laws::lemma_only_random_reads_the_byte;
use crate::machine::Chip8;
use crate::state::{
    checked, draws_random, execute_on, outcome_is, resume, step, Fault, MachineState, Mode,
    NUM_KEYS, NUM_REGS, RAM_SIZE, STACK_SIZE,
};

verus! {

/// The sum of two bytes, wrapping at 256.
fn wrapping_sum(a: u8, b: u8) -> (sum: u8)
    ensures
        sum == ((a + b) % 256) as u8,
{
    let wide: u16 = a as u16 + b as u16;
    (wide % 256) as u8
}

/// The difference of two bytes, wrapping at 256.
fn wrapping_difference(a: u8, b: u8) -> (difference: u8)
    ensures
        difference == ((a - b) % 256) as u8,
{
    let wide: u16 = 256 + a as u16 - b as u16;
    (wide % 256) as u8
}

/// A byte shifted left by one bit, the high bit lost.
fn doubled(a: u8) -> (twice: u8)
    ensures
        twice == ((a * 2) % 256) as u8,
{
    (a % 128) * 2
}

/// The sum of an address and a byte, wrapping at 65536.
fn wrapping_offset(index: u16, by: u8) -> (sum: u16)
    ensures
        sum == ((index + by) % 0x10000) as u16,
{
    let wide: u32 = index as u32 + by as u32;
    (wide % 0x10000) as u16
}

impl Chip8 {
    /// Everything but the program counter is as a state between steps needs
    /// it; the program counter may stand one instruction past the end of memory.
    pub(crate) open spec fn ready(&self) -> bool {
        self@.shaped() && self@.pc <= RAM_SIZE
    }

    /// Moves the program counter past one more instruction if `skip` holds.
    fn skip_if(&mut self, skip: bool) -> (result: Result<(), Fault>)
        requires
            old(self).ready(),
        ensures
            outcome_is(checked(Ok(old(self)@.skipping_if(skip))), old(self)@, final(self)@, result),
    {
        let next: u16 = self.program_counter();
        if skip {
            if next as usize + 2 >= RAM_SIZE {
                return Err(Fault::AddressOutOfBounds);
            }
            self.set_pc(next + 2);
        } else if next as usize >= RAM_SIZE {
            return Err(Fault::AddressOutOfBounds);
        }
        Ok(())
    }

    /// Carries out a return, a jump or a call.
    fn execute_transfer(&mut self, instr: Instruction) -> (result: Result<(), Fault>)
        requires
            old(self).ready(),
            instr.wf(),
            instr.is_transfer(),
        ensures
            outcome_is(checked(execute_on(old(self)@, instr, 0)), old(self)@, final(self)@, result),
            result is Ok ==> final(self)@.wf(),
    {
        match instr {
            Instruction::Return => {
                if self.stack_depth() == 0 {
                    return Err(Fault::StackUnderflow);
                }
                if self.top_of_stack() as usize >= RAM_SIZE {
                    return Err(Fault::AddressOutOfBounds);
                }
                let target: u16 = self.pop();
                self.set_pc(target);
            },
            Instruction::Jump(nnn) => {
                self.set_pc(nnn);
            },
            Instruction::Call(nnn) => {
                if self.stack_depth() >= STACK_SIZE {
                    return Err(Fault::StackOverflow);
                }
                self.push(self.program_counter());
                self.set_pc(nnn);
            },
            Instruction::JumpOffset(nnn) => {
                let target: u16 = nnn + self.v(0) as u16;
                if target as usize >= RAM_SIZE {
                    return Err(Fault::AddressOutOfBounds);
                }
                self.set_pc(target);
            },
            _ => {},
        }
        Ok(())
    }

    /// Carries out a conditional skip.
    fn execute_skip(&mut self, instr: Instruction) -> (result: Result<(), Fault>)
        requires
            old(self).ready(),
            instr.wf(),
            instr.is_skip(),
        ensures
            outcome_is(checked(execute_on(old(self)@, instr, 0)), old(self)@, final(self)@, result),
            result is Ok ==> final(self)@.wf(),
    {
        let skip = match instr {
            Instruction::SkipIfEqual(x, nn) => self.v(x) == nn,
            Instruction::SkipIfNotEqual(x, nn) => self.v(x) != nn,
            Instruction::SkipIfRegistersEqual(x, y) => self.v(x) == self.v(y),
            Instruction::SkipIfRegistersNotEqual(x, y) => self.v(x) != self.v(y),
            Instruction::SkipIfKeyPressed(x) => self.key_is_down(self.v(x)),
            Instruction::SkipIfKeyReleased(x) => !self.key_is_down(self.v(x)),
            _ => false,
        };
        self.skip_if(skip)
    }

    /// Carries out an instruction that writes a general register and
    /// nothing else, but for the flag.
    fn execute_register(&mut self, instr: Instruction, random: u8)
        requires
            old(self)@.wf(),
            instr.wf(),
            instr.is_register_write(),
        ensures
            execute_on(old(self)@, instr, random) == Ok::<MachineState, Fault>(final(self)@),
            final(self)@.wf(),
    {
        match instr {
            Instruction::LoadImmediate(x, nn) => {
                self.set_register(x, nn);
            },
            Instruction::AddImmediate(x, nn) => {
                self.set_register(x, wrapping_sum(self.v(x), nn));
            },
            Instruction::Move(x, y) => {
                self.set_register(x, self.v(y));
            },
            Instruction::Or(x, y) => {
                self.set_register(x, self.v(x) | self.v(y));
            },
            Instruction::And(x, y) => {
                self.set_register(x, self.v(x) & self.v(y));
            },
            Instruction::Xor(x, y) => {
                self.set_register(x, self.v(x) ^ self.v(y));
            },
            Instruction::AddRegister(x, y) => {
                let vx: u8 = self.v(x);
                let vy: u8 = self.v(y);
                self.set_result_and_flag(x, wrapping_sum(vx, vy), vx as u16 + vy as u16 > 255);
            },
            Instruction::SubRegister(x, y) => {
                let vx: u8 = self.v(x);
                let vy: u8 = self.v(y);
                self.set_result_and_flag(x, wrapping_difference(vx, vy), vx >= vy);
            },
            Instruction::ShiftRight(x, y) => {
                let vy: u8 = self.v(y);
                self.set_result_and_flag(x, vy / 2, vy % 2 == 1);
            },
            Instruction::SubReversed(x, y) => {
                let vx: u8 = self.v(x);
                let vy: u8 = self.v(y);
                self.set_result_and_flag(x, wrapping_difference(vy, vx), vy >= vx);
            },
            Instruction::ShiftLeft(x, y) => {
                let vy: u8 = self.v(y);
                self.set_result_and_flag(x, doubled(vy), vy >= 128);
            },
            Instruction::Random(x, nn) => {
                self.set_register(x, random & nn);
            },
            Instruction::ReadDelay(x) => {
                self.set_register(x, self.delay_timer());
            },
            _ => {},
        }
    }

    /// Carries out an instruction on the display, the memory, the index
    /// register, the timers or the keypad.
    fn execute_system(&mut self, instr: Instruction) -> (result: Result<(), Fault>)
        requires
            old(self)@.wf(),
            instr.wf(),
            !instr.is_transfer(),
            !instr.is_skip(),
            !instr.is_register_write(),
        ensures
            outcome_is(execute_on(old(self)@, instr, 0), old(self)@, final(self)@, result),
            final(self)@.wf(),
    {
        let index: usize = self.index_register() as usize;
        match instr {
            Instruction::ClearDisplay => {
                self.clear_display();
            },
            Instruction::LoadIndex(nnn) => {
                self.set_index(nnn);
            },
            Instruction::Draw(x, y, n) => {
                if n > 0 && index + n as usize > RAM_SIZE {
                    return Err(Fault::AddressOutOfBounds);
                }
                let flipped = self.draw_sprite(self.v(x), self.v(y), n);
                self.set_flag(flipped);
            },
            Instruction::WaitKey(x) => {
                let key: u8 = self.lowest_pressed_key();
                if (key as usize) < NUM_KEYS {
                    self.set_register(x, key);
                } else {
                    self.set_mode(Mode::AwaitingKey(x));
                }
            },
            Instruction::SetDelay(x) => {
                self.set_delay(self.v(x));
            },
            Instruction::SetSound(x) => {
                self.set_sound(self.v(x));
            },
            Instruction::AddIndex(x) => {
                self.set_index(wrapping_offset(self.index_register(), self.v(x)));
            },
            Instruction::LoadGlyph(x) => {
                self.set_index(self.v(x) as u16 * GLYPH_HEIGHT);
            },
            Instruction::StoreDecimal(x) => {
                if index + 2 >= RAM_SIZE {
                    return Err(Fault::AddressOutOfBounds);
                }
                self.store_decimal(self.v(x));
            },
            Instruction::StoreRegisters(x) => {
                if index + x as usize >= RAM_SIZE {
                    return Err(Fault::AddressOutOfBounds);
                }
                self.store_registers(x);
                self.set_index((index + x as usize + 1) as u16);
            },
            Instruction::LoadRegisters(x) => {
                if index + x as usize >= RAM_SIZE {
                    return Err(Fault::AddressOutOfBounds);
                }
                self.load_registers(x);
                self.set_index((index + x as usize + 1) as u16);
            },
            _ => {},
        }
        Ok(())
    }

    /// Carries out one decoded instruction on a machine whose program counter
    /// already stands behind it. `random` is used by the random instruction
    /// alone. A fault leaves the machine untouched.
    fn execute(&mut self, instr: Instruction, random: u8) -> (result: Result<(), Fault>)
        requires
            old(self).ready(),
            instr.wf(),
        ensures
            outcome_is(checked(execute_on(old(self)@, instr, random)), old(self)@, final(self)@, result),
            result is Ok ==> final(self)@.wf(),
    {
        match instr {
            Instruction::Return
            | Instruction::Jump(_)
            | Instruction::Call(_)
            | Instruction::JumpOffset(_) => self.execute_transfer(instr),
            Instruction::SkipIfEqual(_, _)
            | Instruction::SkipIfNotEqual(_, _)
            | Instruction::SkipIfRegistersEqual(_, _)
            | Instruction::SkipIfRegistersNotEqual(_, _)
            | Instruction::SkipIfKeyPressed(_)
            | Instruction::SkipIfKeyReleased(_) => self.execute_skip(instr),
            _ => {
                if self.program_counter() as usize >= RAM_SIZE {
                    return Err(Fault::AddressOutOfBounds);
                }
                match instr {
                    Instruction::LoadImmediate(_, _)
                    | Instruction::AddImmediate(_, _)
                    | Instruction::Move(_, _)
                    | Instruction::Or(_, _)
                    | Instruction::And(_, _)
                    | Instruction::Xor(_, _)
                    | Instruction::AddRegister(_, _)
                    | Instruction::SubRegister(_, _)
                    | Instruction::ShiftRight(_, _)
                    | Instruction::SubReversed(_, _)
                    | Instruction::ShiftLeft(_, _)
                    | Instruction::Random(_, _)
                    | Instruction::ReadDelay(_) => {
                        self.execute_register(instr, random);
                        Ok(())
                    },
                    _ => self.execute_system(instr),
                }
            },
        }
    }

    /// A step of a machine stalled on the keypad.
    fn resume_from_key_wait(&mut self, x: u8)
        requires
            x < NUM_REGS,
        ensures
            final(self)@ == resume(old(self)@, x),
    {
        let key: u8 = self.lowest_pressed_key();
        if (key as usize) < NUM_KEYS {
            self.set_register(x, key);
            self.set_mode(Mode::Running);
        }
    }

    /// One step of the machine, with the byte that a random instruction is to
    /// draw handed in. A running machine fetches, decodes and executes one
    /// instruction; a machine stalled on the keypad takes the lowest key held
    /// down, or stays as it is. A fault leaves the machine untouched.
    pub fn tick_with(&mut self, random: u8) -> (result: Result<(), Fault>)
        requires
            old(self)@.wf(),
        ensures
            outcome_is(step(old(self)@, random), old(self)@, final(self)@, result),
            final(self)@.wf(),
    {
        match self.mode() {
            Mode::AwaitingKey(x) => {
                self.resume_from_key_wait(x);
                Ok(())
            },
            Mode::Running => {
                let at: u16 = self.program_counter();
                if at as usize + 1 >= RAM_SIZE {
                    return Err(Fault::AddressOutOfBounds);
                }
                let op: u16 = self.fetch();
                let outcome = match decode(op) {
                    None => Err(Fault::UnknownInstruction(op)),
                    Some(instr) => self.execute(instr, random),
                };
                if outcome.is_err() {
                    self.set_pc(at);
                    assert(self@ =~~= old(self)@);
                }
                outcome
            },
        }
    }

    /// Whether the next step executes the random instruction.
    fn next_draws_random(&self) -> (draws: bool)
        requires
            self@.wf(),
        ensures
            draws == draws_random(self@),
    {
        match self.mode() {
            Mode::AwaitingKey(_) => false,
            Mode::Running => {
                let at: usize = self.program_counter() as usize;
                at + 1 < RAM_SIZE && self.byte_at(at) / 16 == 0xC
            },
        }
    }

    /// One step of the machine. The random instruction draws its byte from
    /// the thread's generator, so its outcome is that of `tick_with` for some
    /// byte; every other step is that of `tick_with` whatever the byte.
    pub fn tick(&mut self) -> (result: Result<(), Fault>)
        requires
            old(self)@.wf(),
        ensures
            exists|random: u8| outcome_is(#[trigger] step(old(self)@, random), old(self)@, final(self)@, result),
            !draws_random(old(self)@) ==> forall|random: u8|
                outcome_is(#[trigger] step(old(self)@, random), old(self)@, final(self)@, result),
            final(self)@.wf(),
    {
        let random: u8 = if self.next_draws_random() {
            random_byte()
        } else {
            0
        };
        let ghost before = self@;
        let result = self.tick_with(random);
        proof {
            if !draws_random(before) {
                assert forall|other: u8| #[trigger] step(before, other) == step(before, random) by {
                    lemma_only_random_reads_the_byte(before, other, random);
                }
            }
        }
        result
    }
}

} // verus!
