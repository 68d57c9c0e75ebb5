//! Laws of the machine, proved of the model that every operation is
//! specified against.

use vstd::prelude::*;
use crate::glyphs::glyph_table;
use crate::instruction::{decode_word, Instruction};
use crate::state::{
    draw_collides, drawn_display, draws_random, execute_on, fetched, initial_state,
    lowest_key_down, lowest_key_down_from, sprite_bit, sprite_covers, step, ticked, word_at, Fault,
    MachineState, Mode, NUM_KEYS, RAM_SIZE, SCREEN_HEIGHT, SCREEN_WIDTH,
};

verus! {

/// The state after `n` ticks of the timer clock.
pub open spec fn ticked_times(s: MachineState, n: nat) -> MachineState
    decreases n,
{
    if n == 0 {
        s
    } else {
        ticked(ticked_times(s, (n - 1) as nat))
    }
}

/// The start state is well formed: execution starts at address 512 with the
/// glyph table in the first 80 bytes of memory, every other byte, register,
/// timer and key zero, the stack empty and the display blank.
pub proof fn lemma_initial_state()
    ensures
        initial_state().wf(),
        initial_state().pc == 512,
        initial_state().memory.subrange(0, 80) == glyph_table(),
        forall|a: int| 80 <= a < RAM_SIZE ==> initial_state().memory[a] == 0,
        forall|r: int, c: int|
            0 <= r < SCREEN_HEIGHT && 0 <= c < SCREEN_WIDTH ==> !initial_state().display[r][c],
        forall|i: int| 0 <= i < 16 ==> initial_state().v[i] == 0 && !initial_state().keys[i],
        initial_state().stack.len() == 0,
{
    assert(initial_state().memory.subrange(0, 80) =~= glyph_table());
}

/// A successful step leaves a well-formed state well formed.
pub proof fn lemma_step_preserves_wf(s: MachineState, random: u8)
    requires
        s.wf(),
    ensures
        step(s, random) matches Ok(t) ==> t.wf(),
{
    lemma_lowest_key_down(s.keys, 0);
}

/// A running machine that steps successfully has executed exactly the
/// instruction at its program counter. Unless that instruction is a jump, a
/// call or a return, the program counter has advanced by 2, or by 4 where a
/// skip instruction found its condition to hold; no other instruction moves
/// it further.
pub proof fn lemma_step_advances_program_counter(s: MachineState, random: u8)
    requires
        s.wf(),
        s.mode is Running,
        step(s, random) is Ok,
    ensures
        s.pc + 1 < RAM_SIZE,
        decode_word(word_at(s)) is Some,
        ({
            let instr = decode_word(word_at(s))->Some_0;
            let t = step(s, random)->Ok_0;
            &&& execute_on(fetched(s), instr, random) == Ok::<MachineState, Fault>(t)
            &&& !instr.is_transfer() && !instr.is_skip() ==> t.pc == s.pc + 2
            &&& instr.is_skip() ==> t.pc == s.pc + 2 || t.pc == s.pc + 4
        }),
{
}

/// The byte drawn plays no part in a step unless the step executes the
/// random instruction.
pub proof fn lemma_only_random_reads_the_byte(s: MachineState, a: u8, b: u8)
    requires
        !draws_random(s),
    ensures
        step(s, a) == step(s, b),
{
}

/// A call followed at once by a return comes back to the instruction after
/// the call, with the stack as it was.
pub proof fn lemma_call_then_return(s: MachineState, t: MachineState, nnn: u16, random: u8)
    requires
        s.wf(),
        s.mode is Running,
        s.pc + 2 < RAM_SIZE,
        decode_word(word_at(s)) == Some(Instruction::Call(nnn)),
        step(s, random) == Ok::<MachineState, Fault>(t),
        t.pc + 1 < RAM_SIZE,
        decode_word(word_at(t)) == Some(Instruction::Return),
    ensures
        t.pc == nnn,
        t.stack == s.stack.push((s.pc + 2) as u16),
        step(t, random) == Ok::<MachineState, Fault>(MachineState { pc: (s.pc + 2) as u16, ..s }),
{
    let u = step(t, random)->Ok_0;
    assert(t.stack.drop_last() =~= s.stack);
    assert(u =~= MachineState { pc: (s.pc + 2) as u16, ..s });
}

/// The lowest key held down at or above `from` is held down, no key between
/// `from` and it is, and where there is none the answer is 16.
pub proof fn lemma_lowest_key_down(keys: Seq<bool>, from: int)
    requires
        keys.len() == NUM_KEYS,
        0 <= from <= NUM_KEYS,
    ensures
        from <= lowest_key_down_from(keys, from) <= NUM_KEYS,
        lowest_key_down_from(keys, from) < NUM_KEYS ==> keys[lowest_key_down_from(keys, from)],
        forall|k: int| from <= k < lowest_key_down_from(keys, from) ==> !keys[k],
    decreases NUM_KEYS - from,
{
    if from < NUM_KEYS && !keys[from] {
        lemma_lowest_key_down(keys, from + 1);
    }
}

/// A machine stalled on the keypad stays exactly as it is while no key is
/// held down. Once a key is held down, the next step writes the lowest such
/// key to the pending register, moves nothing else, and the machine runs
/// again.
pub proof fn lemma_key_wait(s: MachineState, x: u8, random: u8)
    requires
        s.wf(),
        s.mode == Mode::AwaitingKey(x),
    ensures
        (forall|k: int| 0 <= k < NUM_KEYS ==> !s.keys[k]) ==> step(s, random) == Ok::<
            MachineState,
            Fault,
        >(s),
        forall|k: int|
            0 <= k < NUM_KEYS && s.keys[k] && (forall|j: int| 0 <= j < k ==> !s.keys[j]) ==> step(
                s,
                random,
            ) == Ok::<MachineState, Fault>(
                MachineState { mode: Mode::Running, v: s.v.update(x as int, k as u8), ..s },
            ),
{
    lemma_lowest_key_down(s.keys, 0);
    let low = lowest_key_down(s.keys);
    assert forall|k: int|
        0 <= k < NUM_KEYS && s.keys[k] && (forall|j: int| 0 <= j < k ==> !s.keys[j]) implies step(
        s,
        random,
    ) == Ok::<MachineState, Fault>(
        MachineState { mode: Mode::Running, v: s.v.update(x as int, k as u8), ..s },
    ) by {
        assert(low == k);
    }
}

/// After `n` timer ticks each timer has gone down by `n`, stopping at zero,
/// and nothing else has changed.
pub proof fn lemma_timers_count_down(s: MachineState, n: nat)
    ensures
        ticked_times(s, n) == (MachineState {
            delay: if s.delay >= n { (s.delay - n) as u8 } else { 0u8 },
            sound: if s.sound >= n { (s.sound - n) as u8 } else { 0u8 },
            ..s
        }),
    decreases n,
{
    if n > 0 {
        lemma_timers_count_down(s, (n - 1) as nat);
    }
}

/// Drawing a sprite a second time at the same place puts the display back as
/// it was; the second draw reports a collision exactly when the sprite has a
/// set pixel that the first draw lit.
pub proof fn lemma_draw_twice_restores(s: MachineState, vx: u8, vy: u8, n: u8)
    requires
        s.shaped(),
    ensures
        drawn_display(MachineState { display: drawn_display(s, vx, vy, n), ..s }, vx, vy, n)
            == s.display,
        draw_collides(MachineState { display: drawn_display(s, vx, vy, n), ..s }, vx, vy, n) == (
        exists|r: int, c: int|
            0 <= r < SCREEN_HEIGHT && 0 <= c < SCREEN_WIDTH && !s.display[r][c]
                && #[trigger] sprite_covers(s.memory, s.index, vx, vy, n, r, c)),
{
    let once = MachineState { display: drawn_display(s, vx, vy, n), ..s };
    assert(drawn_display(once, vx, vy, n) =~~= s.display);
    if draw_collides(once, vx, vy, n) {
        let (r, c) = choose|r: int, c: int|
            0 <= r < SCREEN_HEIGHT && 0 <= c < SCREEN_WIDTH && once.display[r][c]
                && #[trigger] sprite_covers(once.memory, once.index, vx, vy, n, r, c);
        assert(!s.display[r][c] && sprite_covers(s.memory, s.index, vx, vy, n, r, c));
    }
    if exists|r: int, c: int|
        0 <= r < SCREEN_HEIGHT && 0 <= c < SCREEN_WIDTH && !s.display[r][c] && #[trigger] sprite_covers(
            s.memory,
            s.index,
            vx,
            vy,
            n,
            r,
            c,
        ) {
        let (r, c) = choose|r: int, c: int|
            0 <= r < SCREEN_HEIGHT && 0 <= c < SCREEN_WIDTH && !s.display[r][c]
                && #[trigger] sprite_covers(s.memory, s.index, vx, vy, n, r, c);
        assert(once.display[r][c] && sprite_covers(once.memory, once.index, vx, vy, n, r, c));
    }
}

/// A sprite pixel lands on the cell whose column is the origin's column plus
/// the pixel's offset modulo 64, and whose row is the origin's row plus the
/// sprite row modulo 32.
pub proof fn lemma_sprite_wraps(memory: Seq<u8>, index: u16, vx: u8, vy: u8, n: u8, j: int, k: int)
    requires
        0 <= j < n < 16,
        0 <= k < 8,
    ensures
        sprite_covers(memory, index, vx, vy, n, (vy + j) % 32, (vx + k) % 64) == sprite_bit(
            memory[index + j],
            k as u8,
        ),
{
    let r = (vy + j) % 32;
    let c = (vx + k) % 64;
    assert((r - vy) % 32 == j);
    assert((c - vx) % 64 == k);
}

} // verus!
