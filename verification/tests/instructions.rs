use chip8_core::{decode, Chip8, Fault, Instruction, Mode};

fn machine_with(program: &[u8]) -> Chip8 {
    let mut chip8 = Chip8::new();
    assert_eq!(chip8.load(program), Ok(()));
    chip8
}

fn run(chip8: &mut Chip8, steps: usize) {
    for _ in 0..steps {
        assert_eq!(chip8.tick(), Ok(()));
    }
}

fn lit_cells(chip8: &Chip8) -> Vec<(usize, usize)> {
    let display = chip8.get_display();
    let mut cells = Vec::new();
    for row in 0..32 {
        for col in 0..64 {
            if display[row][col] {
                cells.push((row, col));
            }
        }
    }
    cells
}

#[test]
fn add_with_carry_overflows_into_flag() {
    let mut chip8 = machine_with(&[0x60, 250, 0x61, 10, 0x80, 0x14]);
    run(&mut chip8, 3);
    assert_eq!(chip8.register(0), Some(4));
    assert_eq!(chip8.register(15), Some(1));
    assert_eq!(chip8.register(1), Some(10));
}

#[test]
fn add_without_carry_clears_flag() {
    let mut chip8 = machine_with(&[0x6F, 9, 0x60, 20, 0x61, 10, 0x80, 0x14]);
    run(&mut chip8, 4);
    assert_eq!(chip8.register(0), Some(30));
    assert_eq!(chip8.register(15), Some(0));
}

#[test]
fn subtract_with_borrow_clears_flag() {
    let mut chip8 = machine_with(&[0x60, 5, 0x61, 10, 0x80, 0x15]);
    run(&mut chip8, 3);
    assert_eq!(chip8.register(0), Some(251));
    assert_eq!(chip8.register(15), Some(0));
}

#[test]
fn subtract_without_borrow_sets_flag() {
    let mut chip8 = machine_with(&[0x60, 10, 0x61, 10, 0x80, 0x15]);
    run(&mut chip8, 3);
    assert_eq!(chip8.register(0), Some(0));
    assert_eq!(chip8.register(15), Some(1));
}

#[test]
fn reversed_subtract_takes_x_from_y() {
    let mut chip8 = machine_with(&[0x60, 3, 0x61, 10, 0x80, 0x17, 0x62, 200, 0x82, 0x17]);
    run(&mut chip8, 3);
    assert_eq!(chip8.register(0), Some(7));
    assert_eq!(chip8.register(15), Some(1));
    run(&mut chip8, 2);
    assert_eq!(chip8.register(2), Some(66));
    assert_eq!(chip8.register(15), Some(0));
}

#[test]
fn flag_wins_when_it_is_the_destination() {
    let mut chip8 = machine_with(&[0x6F, 250, 0x61, 10, 0x8F, 0x14]);
    run(&mut chip8, 3);
    assert_eq!(chip8.register(15), Some(1));
}

#[test]
fn add_immediate_wraps_and_leaves_flag() {
    let mut chip8 = machine_with(&[0x6F, 7, 0x60, 250, 0x70, 10]);
    run(&mut chip8, 3);
    assert_eq!(chip8.register(0), Some(4));
    assert_eq!(chip8.register(15), Some(7));
}

#[test]
fn move_is_a_plain_copy() {
    let mut chip8 = machine_with(&[0x60, 40, 0x61, 2, 0x80, 0x10]);
    run(&mut chip8, 3);
    assert_eq!(chip8.register(0), Some(2));
    assert_eq!(chip8.register(1), Some(2));
}

#[test]
fn bitwise_operations() {
    let mut chip8 = machine_with(&[
        0x60, 0b1100, 0x61, 0b1010, 0x62, 0b1100, 0x63, 0b1100, 0x80, 0x11, 0x82, 0x12, 0x83, 0x13,
    ]);
    run(&mut chip8, 7);
    assert_eq!(chip8.register(0), Some(0b1110));
    assert_eq!(chip8.register(2), Some(0b1000));
    assert_eq!(chip8.register(3), Some(0b0110));
}

#[test]
fn shift_right_takes_y_and_reports_low_bit() {
    let mut chip8 = machine_with(&[0x60, 99, 0x61, 5, 0x80, 0x16, 0x62, 4, 0x80, 0x26]);
    run(&mut chip8, 3);
    assert_eq!(chip8.register(0), Some(2));
    assert_eq!(chip8.register(1), Some(5));
    assert_eq!(chip8.register(15), Some(1));
    run(&mut chip8, 2);
    assert_eq!(chip8.register(0), Some(2));
    assert_eq!(chip8.register(15), Some(0));
}

#[test]
fn shift_left_takes_y_and_reports_high_bit() {
    let mut chip8 = machine_with(&[0x61, 0x81, 0x80, 0x1E, 0x62, 0x41, 0x80, 0x2E]);
    run(&mut chip8, 2);
    assert_eq!(chip8.register(0), Some(0x02));
    assert_eq!(chip8.register(15), Some(1));
    run(&mut chip8, 2);
    assert_eq!(chip8.register(0), Some(0x82));
    assert_eq!(chip8.register(15), Some(0));
}

#[test]
fn call_then_return_comes_back_behind_the_call() {
    let mut program = vec![0u8; 0x102];
    program[2] = 0x23;
    program[3] = 0x00;
    program[0x100] = 0x00;
    program[0x101] = 0xEE;
    let mut chip8 = machine_with(&program);
    run(&mut chip8, 1);
    assert_eq!(chip8.program_counter(), 0x202);
    run(&mut chip8, 1);
    assert_eq!(chip8.program_counter(), 0x300);
    assert_eq!(chip8.stack_depth(), 1);
    run(&mut chip8, 1);
    assert_eq!(chip8.program_counter(), 0x204);
    assert_eq!(chip8.stack_depth(), 0);
}

#[test]
fn jump_sets_program_counter() {
    let mut chip8 = machine_with(&[0x1A, 0xBC]);
    run(&mut chip8, 1);
    assert_eq!(chip8.program_counter(), 0xABC);
}

#[test]
fn jump_with_offset_adds_register_zero() {
    let mut chip8 = machine_with(&[0x60, 0x10, 0xB3, 0x00]);
    run(&mut chip8, 2);
    assert_eq!(chip8.program_counter(), 0x310);
}

#[test]
fn jump_with_offset_beyond_memory_is_a_fault() {
    let mut chip8 = machine_with(&[0x60, 0xFF, 0xBF, 0xFF]);
    run(&mut chip8, 1);
    assert_eq!(chip8.tick(), Err(Fault::AddressOutOfBounds));
    assert_eq!(chip8.program_counter(), 0x202);
}

#[test]
fn skips_use_complementary_comparisons() {
    let mut chip8 = machine_with(&[0x60, 7, 0x30, 7]);
    run(&mut chip8, 2);
    assert_eq!(chip8.program_counter(), 0x206);
    let mut chip8 = machine_with(&[0x60, 7, 0x30, 8]);
    run(&mut chip8, 2);
    assert_eq!(chip8.program_counter(), 0x204);
    let mut chip8 = machine_with(&[0x60, 7, 0x40, 7]);
    run(&mut chip8, 2);
    assert_eq!(chip8.program_counter(), 0x204);
    let mut chip8 = machine_with(&[0x60, 7, 0x40, 8]);
    run(&mut chip8, 2);
    assert_eq!(chip8.program_counter(), 0x206);
}

#[test]
fn register_skips_use_complementary_comparisons() {
    let mut chip8 = machine_with(&[0x60, 7, 0x61, 7, 0x50, 0x10]);
    run(&mut chip8, 3);
    assert_eq!(chip8.program_counter(), 0x208);
    let mut chip8 = machine_with(&[0x60, 7, 0x61, 7, 0x90, 0x10]);
    run(&mut chip8, 3);
    assert_eq!(chip8.program_counter(), 0x206);
    let mut chip8 = machine_with(&[0x60, 7, 0x61, 8, 0x50, 0x10]);
    run(&mut chip8, 3);
    assert_eq!(chip8.program_counter(), 0x206);
    let mut chip8 = machine_with(&[0x60, 7, 0x61, 8, 0x90, 0x10]);
    run(&mut chip8, 3);
    assert_eq!(chip8.program_counter(), 0x208);
}

#[test]
fn key_skips_follow_the_keypad() {
    let mut chip8 = machine_with(&[0x60, 0x0A, 0xE0, 0x9E, 0xE0, 0xA1]);
    run(&mut chip8, 2);
    assert_eq!(chip8.program_counter(), 0x204);
    run(&mut chip8, 1);
    assert_eq!(chip8.program_counter(), 0x208);
    let mut chip8 = machine_with(&[0x60, 0x0A, 0xE0, 0x9E, 0x00, 0x00, 0xE0, 0xA1]);
    assert_eq!(chip8.press_key(10), Ok(()));
    run(&mut chip8, 2);
    assert_eq!(chip8.program_counter(), 0x206);
    run(&mut chip8, 1);
    assert_eq!(chip8.program_counter(), 0x208);
    assert_eq!(chip8.release_key(10), Ok(()));
    let mut chip8 = machine_with(&[0x60, 0x0A, 0xE0, 0x9E]);
    assert_eq!(chip8.press_key(10), Ok(()));
    assert_eq!(chip8.release_key(10), Ok(()));
    run(&mut chip8, 2);
    assert_eq!(chip8.program_counter(), 0x204);
}

#[test]
fn a_key_number_outside_the_pad_is_never_pressed() {
    let mut chip8 = machine_with(&[0x60, 0x20, 0xE0, 0x9E, 0xE0, 0xA1]);
    for key in 0..16 {
        assert_eq!(chip8.press_key(key), Ok(()));
    }
    run(&mut chip8, 2);
    assert_eq!(chip8.program_counter(), 0x204);
    run(&mut chip8, 1);
    assert_eq!(chip8.program_counter(), 0x208);
}

#[test]
fn sprite_wraps_around_the_right_edge() {
    let mut chip8 =
        machine_with(&[0x60, 60, 0x61, 0, 0xA2, 0x0A, 0xD0, 0x11, 0xD0, 0x11, 0xFF]);
    run(&mut chip8, 4);
    assert_eq!(
        lit_cells(&chip8),
        vec![(0, 0), (0, 1), (0, 2), (0, 3), (0, 60), (0, 61), (0, 62), (0, 63)]
    );
    assert_eq!(chip8.register(15), Some(0));
    run(&mut chip8, 1);
    assert_eq!(lit_cells(&chip8), Vec::<(usize, usize)>::new());
    assert_eq!(chip8.register(15), Some(1));
}

#[test]
fn sprite_rows_wrap_at_the_display_height() {
    let mut chip8 = machine_with(&[0x60, 0, 0x61, 31, 0xA2, 0x08, 0xD0, 0x12, 0x80, 0xC0]);
    run(&mut chip8, 4);
    assert_eq!(lit_cells(&chip8), vec![(0, 0), (0, 1), (31, 0)]);
    assert_eq!(chip8.register(15), Some(0));
}

#[test]
fn sprite_origin_is_taken_modulo_the_display() {
    let mut chip8 = machine_with(&[0x60, 130, 0x61, 33, 0xA2, 0x08, 0xD0, 0x11, 0x90]);
    run(&mut chip8, 4);
    assert_eq!(lit_cells(&chip8), vec![(1, 2), (1, 5)]);
}

#[test]
fn glyph_draws_from_the_built_in_table() {
    let mut chip8 = machine_with(&[0x60, 0x01, 0xF0, 0x29, 0x61, 0, 0xD1, 0x15]);
    run(&mut chip8, 4);
    assert_eq!(chip8.index_register(), 5);
    assert_eq!(
        lit_cells(&chip8),
        vec![(0, 2), (1, 1), (1, 2), (2, 2), (3, 2), (4, 1), (4, 2), (4, 3)]
    );
}

#[test]
fn partial_overlap_reports_collision_and_keeps_the_rest() {
    let mut chip8 = machine_with(&[
        0x60, 0, 0x61, 0, 0xA2, 0x0C, 0xD0, 0x11, 0xA2, 0x0D, 0xD0, 0x11, 0xF0, 0x18,
    ]);
    run(&mut chip8, 4);
    assert_eq!(lit_cells(&chip8), vec![(0, 0), (0, 1), (0, 2), (0, 3)]);
    run(&mut chip8, 2);
    assert_eq!(lit_cells(&chip8), vec![(0, 0), (0, 1), (0, 2), (0, 4)]);
    assert_eq!(chip8.register(15), Some(1));
}

#[test]
fn draw_of_no_rows_changes_nothing_but_the_flag() {
    let mut chip8 = machine_with(&[0x6F, 9, 0xAF, 0xFF, 0xD0, 0x00]);
    run(&mut chip8, 3);
    assert_eq!(lit_cells(&chip8), Vec::<(usize, usize)>::new());
    assert_eq!(chip8.register(15), Some(0));
}

#[test]
fn draw_beyond_memory_is_a_fault() {
    let mut chip8 = machine_with(&[0xAF, 0xFF, 0xD0, 0x02]);
    run(&mut chip8, 1);
    assert_eq!(chip8.tick(), Err(Fault::AddressOutOfBounds));
    assert_eq!(chip8.program_counter(), 0x202);
    let mut chip8 = machine_with(&[0xAF, 0xFF, 0xD0, 0x01]);
    run(&mut chip8, 2);
    assert_eq!(chip8.program_counter(), 0x204);
}

#[test]
fn clear_display_turns_every_pixel_off() {
    let mut chip8 = machine_with(&[0xA0, 0x00, 0xD0, 0x05, 0x00, 0xE0]);
    run(&mut chip8, 2);
    assert_eq!(lit_cells(&chip8).len(), 14);
    run(&mut chip8, 1);
    assert_eq!(lit_cells(&chip8).len(), 0);
    assert_eq!(chip8.program_counter(), 0x206);
}

#[test]
fn timers_are_set_and_read() {
    let mut chip8 = machine_with(&[0x60, 5, 0xF0, 0x15, 0xF0, 0x18, 0xF1, 0x07]);
    run(&mut chip8, 3);
    assert_eq!(chip8.delay_timer(), 5);
    assert_eq!(chip8.sound_timer(), 5);
    chip8.tick_timers();
    run(&mut chip8, 1);
    assert_eq!(chip8.register(1), Some(4));
}

#[test]
fn delay_timer_counts_down_to_zero_and_stays() {
    let mut chip8 = machine_with(&[0x60, 5, 0xF0, 0x15]);
    run(&mut chip8, 2);
    for expected in [4u8, 3, 2, 1, 0] {
        chip8.tick_timers();
        assert_eq!(chip8.delay_timer(), expected);
    }
    chip8.tick_timers();
    assert_eq!(chip8.delay_timer(), 0);
    assert_eq!(chip8.sound_timer(), 0);
}

#[test]
fn sound_timer_counts_down_independently() {
    let mut chip8 = machine_with(&[0x60, 2, 0xF0, 0x18, 0x60, 9, 0xF0, 0x15]);
    run(&mut chip8, 4);
    chip8.tick_timers();
    assert_eq!((chip8.delay_timer(), chip8.sound_timer()), (8, 1));
    chip8.tick_timers();
    assert_eq!((chip8.delay_timer(), chip8.sound_timer()), (7, 0));
    chip8.tick_timers();
    assert_eq!((chip8.delay_timer(), chip8.sound_timer()), (6, 0));
}

#[test]
fn wait_for_key_stalls_until_a_key_is_pressed() {
    let mut chip8 = machine_with(&[0xF3, 0x0A, 0x00, 0x00]);
    run(&mut chip8, 1);
    assert_eq!(chip8.program_counter(), 0x202);
    assert_eq!(chip8.mode(), Mode::AwaitingKey(3));
    run(&mut chip8, 5);
    assert_eq!(chip8.program_counter(), 0x202);
    assert_eq!(chip8.mode(), Mode::AwaitingKey(3));
    assert_eq!(chip8.register(3), Some(0));
    assert_eq!(chip8.set_key(7, true), Ok(()));
    run(&mut chip8, 1);
    assert_eq!(chip8.register(3), Some(7));
    assert_eq!(chip8.mode(), Mode::Running);
    assert_eq!(chip8.program_counter(), 0x202);
    run(&mut chip8, 1);
    assert_eq!(chip8.program_counter(), 0x204);
}

#[test]
fn wait_for_key_takes_the_lowest_key_held_down() {
    let mut chip8 = machine_with(&[0xF3, 0x0A]);
    assert_eq!(chip8.set_key(12, true), Ok(()));
    assert_eq!(chip8.set_key(4, true), Ok(()));
    run(&mut chip8, 1);
    assert_eq!(chip8.register(3), Some(4));
    assert_eq!(chip8.mode(), Mode::Running);
    assert_eq!(chip8.program_counter(), 0x202);
    let mut chip8 = machine_with(&[0xF3, 0x0A]);
    run(&mut chip8, 1);
    assert_eq!(chip8.set_key(15, true), Ok(()));
    assert_eq!(chip8.set_key(9, true), Ok(()));
    run(&mut chip8, 1);
    assert_eq!(chip8.register(3), Some(9));
}

#[test]
fn index_register_operations() {
    let mut chip8 = machine_with(&[0xA1, 0x23, 0x60, 0x10, 0xF0, 0x1E, 0x61, 0x0F, 0xF1, 0x29]);
    run(&mut chip8, 1);
    assert_eq!(chip8.index_register(), 0x123);
    run(&mut chip8, 2);
    assert_eq!(chip8.index_register(), 0x133);
    run(&mut chip8, 2);
    assert_eq!(chip8.index_register(), 75);
}

#[test]
fn glyph_address_is_five_times_any_byte() {
    let mut chip8 = machine_with(&[0x60, 0xFF, 0xF0, 0x29]);
    run(&mut chip8, 2);
    assert_eq!(chip8.index_register(), 1275);
}

#[test]
fn index_register_addition_wraps_at_sixteen_bits() {
    let mut chip8 = machine_with(&[0x60, 0xFF, 0xAF, 0xFF, 0xF0, 0x1E, 0x12, 0x04]);
    run(&mut chip8, 2);
    for _ in 0..240 {
        run(&mut chip8, 2);
    }
    assert_eq!(chip8.index_register(), 65295);
    run(&mut chip8, 1);
    assert_eq!(chip8.index_register(), 14);
}

#[test]
fn decimal_digits_are_stored_at_index() {
    let mut chip8 = machine_with(&[0x60, 254, 0xA3, 0x00, 0xF0, 0x33]);
    run(&mut chip8, 3);
    assert_eq!(chip8.memory_byte(0x300), Some(2));
    assert_eq!(chip8.memory_byte(0x301), Some(5));
    assert_eq!(chip8.memory_byte(0x302), Some(4));
    assert_eq!(chip8.index_register(), 0x300);
    let mut chip8 = machine_with(&[0x60, 7, 0xA3, 0x00, 0xF0, 0x33]);
    run(&mut chip8, 3);
    assert_eq!(chip8.memory_byte(0x300), Some(0));
    assert_eq!(chip8.memory_byte(0x301), Some(0));
    assert_eq!(chip8.memory_byte(0x302), Some(7));
}

#[test]
fn decimal_digits_at_the_end_of_memory() {
    let mut chip8 = machine_with(&[0x60, 123, 0xAF, 0xFD, 0xF0, 0x33]);
    run(&mut chip8, 3);
    assert_eq!(chip8.memory_byte(0xFFF), Some(3));
    let mut chip8 = machine_with(&[0x60, 123, 0xAF, 0xFE, 0xF0, 0x33]);
    run(&mut chip8, 2);
    assert_eq!(chip8.tick(), Err(Fault::AddressOutOfBounds));
    assert_eq!(chip8.memory_byte(0xFFE), Some(0));
    assert_eq!(chip8.program_counter(), 0x204);
}

#[test]
fn registers_are_stored_and_loaded() {
    let mut chip8 = machine_with(&[
        0x60, 11, 0x61, 22, 0x62, 33, 0xA3, 0x00, 0xF1, 0x55, 0x60, 0, 0x61, 0, 0x62, 0, 0xA3,
        0x00, 0xF2, 0x65,
    ]);
    run(&mut chip8, 5);
    assert_eq!(chip8.memory_byte(0x300), Some(11));
    assert_eq!(chip8.memory_byte(0x301), Some(22));
    assert_eq!(chip8.memory_byte(0x302), Some(0));
    assert_eq!(chip8.index_register(), 0x302);
    run(&mut chip8, 5);
    assert_eq!(chip8.register(0), Some(11));
    assert_eq!(chip8.register(1), Some(22));
    assert_eq!(chip8.register(2), Some(0));
    assert_eq!(chip8.index_register(), 0x303);
}

#[test]
fn register_store_beyond_memory_is_a_fault() {
    let mut chip8 = machine_with(&[0xAF, 0xFF, 0xF1, 0x55]);
    run(&mut chip8, 1);
    assert_eq!(chip8.tick(), Err(Fault::AddressOutOfBounds));
    assert_eq!(chip8.index_register(), 0xFFF);
    let mut chip8 = machine_with(&[0xAF, 0xFF, 0xF1, 0x65]);
    run(&mut chip8, 1);
    assert_eq!(chip8.tick(), Err(Fault::AddressOutOfBounds));
    let mut chip8 = machine_with(&[0x60, 77, 0xAF, 0xFF, 0xF0, 0x55]);
    run(&mut chip8, 3);
    assert_eq!(chip8.memory_byte(0xFFF), Some(77));
    assert_eq!(chip8.index_register(), 0x1000);
}

#[test]
fn random_byte_is_masked() {
    let mut chip8 = machine_with(&[0xC0, 0x0F, 0xC1, 0x00, 0x12, 0x00]);
    for _ in 0..64 {
        run(&mut chip8, 3);
        assert_eq!(chip8.register(0).map(|v| v & 0xF0), Some(0));
        assert_eq!(chip8.register(1), Some(0));
    }
}

#[test]
fn random_instruction_uses_the_byte_handed_in() {
    let mut chip8 = machine_with(&[0xC0, 0xF0, 0xC1, 0xFF]);
    assert_eq!(chip8.tick_with(0xAB), Ok(()));
    assert_eq!(chip8.register(0), Some(0xA0));
    assert_eq!(chip8.tick_with(0x5C), Ok(()));
    assert_eq!(chip8.register(1), Some(0x5C));
}

#[test]
fn other_instructions_ignore_the_byte_handed_in() {
    let mut a = machine_with(&[0x60, 250, 0x70, 10]);
    let mut b = machine_with(&[0x60, 250, 0x70, 10]);
    for _ in 0..2 {
        assert_eq!(a.tick_with(0), Ok(()));
        assert_eq!(b.tick_with(255), Ok(()));
    }
    assert_eq!(a.register(0), b.register(0));
    assert_eq!(a.program_counter(), b.program_counter());
}

#[test]
fn every_sequential_form_advances_by_two() {
    let words: [u16; 23] = [
        0x0000, 0x00E0, 0x6A12, 0x7A01, 0x8120, 0x8121, 0x8122, 0x8123, 0x8124, 0x8125, 0x8126,
        0x8127, 0x812E, 0xA123, 0xC1FF, 0xD121, 0xF107, 0xF115, 0xF118, 0xF11E, 0xF129, 0xF133,
        0xF155,
    ];
    for word in words {
        let mut chip8 = machine_with(&[(word >> 8) as u8, (word & 0xFF) as u8]);
        assert_eq!(chip8.tick(), Ok(()));
        assert_eq!(chip8.program_counter(), 0x202);
        assert_eq!(chip8.mode(), Mode::Running);
    }
    let mut chip8 = machine_with(&[0xF1, 0x65]);
    assert_eq!(chip8.tick(), Ok(()));
    assert_eq!(chip8.program_counter(), 0x202);
}

#[test]
fn unknown_words_are_faults() {
    for word in [0x0001u16, 0x00E1, 0x0100, 0x5001, 0x8008, 0x800F, 0x9001, 0xE000, 0xE19F, 0xF000, 0xF1FF, 0xF156] {
        let mut chip8 = machine_with(&[(word >> 8) as u8, (word & 0xFF) as u8]);
        assert_eq!(chip8.tick(), Err(Fault::UnknownInstruction(word)));
        assert_eq!(chip8.program_counter(), 0x200);
        assert_eq!(decode(word), None);
    }
}

#[test]
fn return_on_empty_stack_is_a_fault() {
    let mut chip8 = machine_with(&[0x00, 0xEE]);
    assert_eq!(chip8.tick(), Err(Fault::StackUnderflow));
    assert_eq!(chip8.program_counter(), 0x200);
    assert_eq!(chip8.stack_depth(), 0);
}

#[test]
fn seventeenth_nested_call_is_a_fault() {
    let mut chip8 = machine_with(&[0x22, 0x00]);
    run(&mut chip8, 16);
    assert_eq!(chip8.stack_depth(), 16);
    assert_eq!(chip8.tick(), Err(Fault::StackOverflow));
    assert_eq!(chip8.stack_depth(), 16);
    assert_eq!(chip8.program_counter(), 0x200);
}

#[test]
fn fetch_at_the_last_byte_is_a_fault() {
    let mut chip8 = machine_with(&[0x1F, 0xFF]);
    run(&mut chip8, 1);
    assert_eq!(chip8.program_counter(), 0xFFF);
    assert_eq!(chip8.tick(), Err(Fault::AddressOutOfBounds));
    assert_eq!(chip8.program_counter(), 0xFFF);
}

#[test]
fn running_off_the_end_of_memory_is_a_fault() {
    let mut program = vec![0u8; 0xE00];
    program[0] = 0x1F;
    program[1] = 0xFE;
    program[0xDFE] = 0x60;
    program[0xDFF] = 0x01;
    let mut chip8 = machine_with(&program);
    run(&mut chip8, 1);
    assert_eq!(chip8.program_counter(), 0xFFE);
    assert_eq!(chip8.tick(), Err(Fault::AddressOutOfBounds));
    assert_eq!(chip8.program_counter(), 0xFFE);
    assert_eq!(chip8.register(0), Some(0));
}

#[test]
fn a_jump_in_the_last_word_is_executed() {
    let mut program = vec![0u8; 0xE00];
    program[0] = 0x1F;
    program[1] = 0xFE;
    program[0xDFE] = 0x12;
    program[0xDFF] = 0x00;
    let mut chip8 = machine_with(&program);
    run(&mut chip8, 2);
    assert_eq!(chip8.program_counter(), 0x200);
}

#[test]
fn decode_splits_the_word_into_operands() {
    assert_eq!(decode(0x0000), Some(Instruction::Nop));
    assert_eq!(decode(0x00E0), Some(Instruction::ClearDisplay));
    assert_eq!(decode(0x00EE), Some(Instruction::Return));
    assert_eq!(decode(0x1ABC), Some(Instruction::Jump(0xABC)));
    assert_eq!(decode(0x2ABC), Some(Instruction::Call(0xABC)));
    assert_eq!(decode(0x3A12), Some(Instruction::SkipIfEqual(0xA, 0x12)));
    assert_eq!(decode(0x4A12), Some(Instruction::SkipIfNotEqual(0xA, 0x12)));
    assert_eq!(decode(0x5AB0), Some(Instruction::SkipIfRegistersEqual(0xA, 0xB)));
    assert_eq!(decode(0x6A12), Some(Instruction::LoadImmediate(0xA, 0x12)));
    assert_eq!(decode(0x7A12), Some(Instruction::AddImmediate(0xA, 0x12)));
    assert_eq!(decode(0x8AB0), Some(Instruction::Move(0xA, 0xB)));
    assert_eq!(decode(0x8AB1), Some(Instruction::Or(0xA, 0xB)));
    assert_eq!(decode(0x8AB2), Some(Instruction::And(0xA, 0xB)));
    assert_eq!(decode(0x8AB3), Some(Instruction::Xor(0xA, 0xB)));
    assert_eq!(decode(0x8AB4), Some(Instruction::AddRegister(0xA, 0xB)));
    assert_eq!(decode(0x8AB5), Some(Instruction::SubRegister(0xA, 0xB)));
    assert_eq!(decode(0x8AB6), Some(Instruction::ShiftRight(0xA, 0xB)));
    assert_eq!(decode(0x8AB7), Some(Instruction::SubReversed(0xA, 0xB)));
    assert_eq!(decode(0x8ABE), Some(Instruction::ShiftLeft(0xA, 0xB)));
    assert_eq!(decode(0x9AB0), Some(Instruction::SkipIfRegistersNotEqual(0xA, 0xB)));
    assert_eq!(decode(0xAABC), Some(Instruction::LoadIndex(0xABC)));
    assert_eq!(decode(0xBABC), Some(Instruction::JumpOffset(0xABC)));
    assert_eq!(decode(0xCA12), Some(Instruction::Random(0xA, 0x12)));
    assert_eq!(decode(0xDAB7), Some(Instruction::Draw(0xA, 0xB, 7)));
    assert_eq!(decode(0xEA9E), Some(Instruction::SkipIfKeyPressed(0xA)));
    assert_eq!(decode(0xEAA1), Some(Instruction::SkipIfKeyReleased(0xA)));
    assert_eq!(decode(0xFA07), Some(Instruction::ReadDelay(0xA)));
    assert_eq!(decode(0xFA0A), Some(Instruction::WaitKey(0xA)));
    assert_eq!(decode(0xFA15), Some(Instruction::SetDelay(0xA)));
    assert_eq!(decode(0xFA18), Some(Instruction::SetSound(0xA)));
    assert_eq!(decode(0xFA1E), Some(Instruction::AddIndex(0xA)));
    assert_eq!(decode(0xFA29), Some(Instruction::LoadGlyph(0xA)));
    assert_eq!(decode(0xFA33), Some(Instruction::StoreDecimal(0xA)));
    assert_eq!(decode(0xFA55), Some(Instruction::StoreRegisters(0xA)));
    assert_eq!(decode(0xFA65), Some(Instruction::LoadRegisters(0xA)));
}
