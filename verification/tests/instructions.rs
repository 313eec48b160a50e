use chip8_emulator::decode::{class_of, kk_of, n_of, nnn_of, x_of, y_of};
use chip8_emulator::font::FONTSET;
use chip8_emulator::{State, StepError};

/// A machine with `program` loaded at 0x200.
fn machine(program: &[u8]) -> State {
    let mut state = State::new();
    state.load_rom(program).expect("the program fits");
    state
}

/// Runs `cycles` cycles, every one of which must succeed.
fn run(state: &mut State, cycles: usize) {
    for _ in 0..cycles {
        state.emulate_cycle_with(0).expect("the cycle succeeds");
    }
}

#[test]
fn power_on_state() {
    let state = State::new();
    assert_eq!(state.get_pc(), 0x200);
    assert_eq!(state.get_index(), 0);
    assert_eq!(state.get_sp(), 0);
    assert_eq!(state.get_delay_timer(), 0);
    assert_eq!(state.get_sound_timer(), 0);
    assert_eq!(state.get_registers(), &[0u8; 16]);
    assert_eq!(state.get_keypad(), &[false; 16]);
    assert!(state.get_display().iter().all(|lit| !lit));
    assert_eq!(&state.get_memory()[..80], &FONTSET[..]);
    assert!(state.get_memory()[80..].iter().all(|byte| *byte == 0));
}

#[test]
fn font_glyphs_are_found_for_every_digit() {
    for digit in 0u8..16 {
        let mut state = machine(&[0x63, digit, 0xF3, 0x29]);
        run(&mut state, 2);
        let at = 5 * digit as usize;
        assert_eq!(state.get_index() as usize, at);
        assert_eq!(&state.get_memory()[at..at + 5], &FONTSET[at..at + 5]);
    }
}

#[test]
fn font_table_starts_and_ends_as_expected() {
    assert_eq!(&FONTSET[0..5], &[0xF0, 0x90, 0x90, 0x90, 0xF0]);
    assert_eq!(&FONTSET[5..10], &[0x20, 0x60, 0x20, 0x20, 0x70]);
    assert_eq!(&FONTSET[35..40], &[0xF0, 0x10, 0x20, 0x40, 0x40]);
    assert_eq!(&FONTSET[75..80], &[0xF0, 0x80, 0xF0, 0x80, 0x80]);
}

#[test]
fn glyph_lookup_beyond_the_font_still_multiplies_by_five() {
    let mut state = machine(&[0x60, 0xFF, 0xF0, 0x29]);
    run(&mut state, 2);
    assert_eq!(state.get_index(), 1275);
}

#[test]
fn add_immediate_wraps_and_leaves_the_flag() {
    let mut state = machine(&[0x6F, 0x07, 0x60, 0xFF, 0x70, 0x01]);
    run(&mut state, 3);
    assert_eq!(state.get_registers()[0], 0x00);
    assert_eq!(state.get_registers()[0xF], 0x07);
    assert_eq!(state.get_pc(), 0x206);
}

#[test]
fn add_immediate_without_wrap() {
    let mut state = machine(&[0x62, 0x10, 0x72, 0x22]);
    run(&mut state, 2);
    assert_eq!(state.get_registers()[2], 0x32);
}

#[test]
fn add_registers_sets_carry_on_overflow() {
    let mut state = machine(&[0x60, 0xFF, 0x61, 0x01, 0x80, 0x14]);
    run(&mut state, 3);
    assert_eq!(state.get_registers()[0], 0x00);
    assert_eq!(state.get_registers()[0xF], 1);
}

#[test]
fn add_registers_clears_carry_without_overflow() {
    let mut state = machine(&[0x6F, 0x09, 0x60, 0x01, 0x61, 0x01, 0x80, 0x14]);
    run(&mut state, 4);
    assert_eq!(state.get_registers()[0], 0x02);
    assert_eq!(state.get_registers()[0xF], 0);
}

#[test]
fn add_registers_into_the_flag_register_leaves_the_flag() {
    // VF = 0xFF + 0x02 overflows: the flag, written last, is what VF holds.
    let mut state = machine(&[0x6F, 0xFF, 0x61, 0x02, 0x8F, 0x14]);
    run(&mut state, 3);
    assert_eq!(state.get_registers()[0xF], 1);
    let mut state = machine(&[0x6F, 0x03, 0x61, 0x02, 0x8F, 0x14]);
    run(&mut state, 3);
    assert_eq!(state.get_registers()[0xF], 0);
}

#[test]
fn subtract_sets_flag_to_zero_on_borrow() {
    let mut state = machine(&[0x60, 0x01, 0x61, 0x02, 0x80, 0x15]);
    run(&mut state, 3);
    assert_eq!(state.get_registers()[0], 0xFF);
    assert_eq!(state.get_registers()[0xF], 0);
}

#[test]
fn subtract_sets_flag_to_one_without_borrow() {
    let mut state = machine(&[0x60, 0x05, 0x61, 0x05, 0x80, 0x15]);
    run(&mut state, 3);
    assert_eq!(state.get_registers()[0], 0x00);
    assert_eq!(state.get_registers()[0xF], 1);
    let mut state = machine(&[0x60, 0x09, 0x61, 0x05, 0x80, 0x15]);
    run(&mut state, 3);
    assert_eq!(state.get_registers()[0], 0x04);
    assert_eq!(state.get_registers()[0xF], 1);
}

#[test]
fn reversed_subtract() {
    let mut state = machine(&[0x60, 0x01, 0x61, 0x03, 0x80, 0x17]);
    run(&mut state, 3);
    assert_eq!(state.get_registers()[0], 0x02);
    assert_eq!(state.get_registers()[1], 0x03);
    assert_eq!(state.get_registers()[0xF], 1);
    let mut state = machine(&[0x60, 0x03, 0x61, 0x01, 0x80, 0x17]);
    run(&mut state, 3);
    assert_eq!(state.get_registers()[0], 0xFE);
    assert_eq!(state.get_registers()[0xF], 0);
}

#[test]
fn shift_right_keeps_the_low_bit_in_the_flag() {
    let mut state = machine(&[0x60, 0x05, 0x80, 0x16]);
    run(&mut state, 2);
    assert_eq!(state.get_registers()[0], 0x02);
    assert_eq!(state.get_registers()[0xF], 1);
    let mut state = machine(&[0x60, 0x04, 0x80, 0x16]);
    run(&mut state, 2);
    assert_eq!(state.get_registers()[0], 0x02);
    assert_eq!(state.get_registers()[0xF], 0);
}

#[test]
fn shift_left_keeps_the_high_bit_in_the_flag() {
    let mut state = machine(&[0x60, 0x81, 0x80, 0x1E]);
    run(&mut state, 2);
    assert_eq!(state.get_registers()[0], 0x02);
    assert_eq!(state.get_registers()[0xF], 1);
    let mut state = machine(&[0x60, 0x41, 0x80, 0x1E]);
    run(&mut state, 2);
    assert_eq!(state.get_registers()[0], 0x82);
    assert_eq!(state.get_registers()[0xF], 0);
}

#[test]
fn shifts_of_the_flag_register_leave_the_flag() {
    let mut state = machine(&[0x6F, 0x03, 0x8F, 0x06]);
    run(&mut state, 2);
    assert_eq!(state.get_registers()[0xF], 1);
    let mut state = machine(&[0x6F, 0x81, 0x8F, 0x0E]);
    run(&mut state, 2);
    assert_eq!(state.get_registers()[0xF], 1);
}

#[test]
fn register_copy_and_bitwise_operations() {
    let mut state = machine(&[0x60, 0x0C, 0x61, 0x0A, 0x82, 0x10, 0x80, 0x11]);
    run(&mut state, 4);
    assert_eq!(state.get_registers()[2], 0x0A);
    assert_eq!(state.get_registers()[0], 0x0E);
    let mut state = machine(&[0x60, 0x0C, 0x61, 0x0A, 0x80, 0x12]);
    run(&mut state, 3);
    assert_eq!(state.get_registers()[0], 0x08);
    let mut state = machine(&[0x60, 0x0C, 0x61, 0x0A, 0x80, 0x13]);
    run(&mut state, 3);
    assert_eq!(state.get_registers()[0], 0x06);
    assert_eq!(state.get_registers()[0xF], 0);
    assert_eq!(state.get_pc(), 0x206);
}

#[test]
fn skip_if_equal_immediate() {
    let mut state = machine(&[0x60, 0x42, 0x30, 0x42]);
    run(&mut state, 2);
    assert_eq!(state.get_pc(), 0x202 + 4);
    let mut state = machine(&[0x60, 0x42, 0x30, 0x43]);
    run(&mut state, 2);
    assert_eq!(state.get_pc(), 0x202 + 2);
}

#[test]
fn skip_if_not_equal_immediate() {
    let mut state = machine(&[0x60, 0x42, 0x40, 0x43]);
    run(&mut state, 2);
    assert_eq!(state.get_pc(), 0x206);
    let mut state = machine(&[0x60, 0x42, 0x40, 0x42]);
    run(&mut state, 2);
    assert_eq!(state.get_pc(), 0x204);
}

#[test]
fn skip_on_register_comparison() {
    let mut state = machine(&[0x60, 0x07, 0x61, 0x07, 0x50, 0x10]);
    run(&mut state, 3);
    assert_eq!(state.get_pc(), 0x208);
    let mut state = machine(&[0x60, 0x07, 0x61, 0x08, 0x50, 0x10]);
    run(&mut state, 3);
    assert_eq!(state.get_pc(), 0x206);
    let mut state = machine(&[0x60, 0x07, 0x61, 0x08, 0x90, 0x10]);
    run(&mut state, 3);
    assert_eq!(state.get_pc(), 0x208);
    let mut state = machine(&[0x60, 0x07, 0x61, 0x07, 0x90, 0x10]);
    run(&mut state, 3);
    assert_eq!(state.get_pc(), 0x206);
}

#[test]
fn jump_sets_the_program_counter() {
    let mut state = machine(&[0x1A, 0xBC]);
    run(&mut state, 1);
    assert_eq!(state.get_pc(), 0xABC);
}

#[test]
fn jump_with_offset_adds_register_zero() {
    let mut state = machine(&[0x60, 0xFF, 0xBF, 0xFF]);
    run(&mut state, 2);
    assert_eq!(state.get_pc(), 0xFFF + 0xFF);
    let mut state = machine(&[0x60, 0x04, 0xB3, 0x00]);
    run(&mut state, 2);
    assert_eq!(state.get_pc(), 0x304);
}

#[test]
fn call_then_return_restores_the_program_counter() {
    // 0x200: call 0x206; 0x206: return.
    let mut state = machine(&[0x22, 0x06, 0x00, 0x00, 0x00, 0x00, 0x00, 0xEE]);
    run(&mut state, 1);
    assert_eq!(state.get_pc(), 0x206);
    assert_eq!(state.get_sp(), 1);
    assert_eq!(state.get_stack()[0], 0x200);
    run(&mut state, 1);
    assert_eq!(state.get_pc(), 0x202);
    assert_eq!(state.get_sp(), 0);
}

#[test]
fn return_with_empty_stack_is_an_underflow() {
    let mut state = machine(&[0x00, 0xEE]);
    assert_eq!(state.emulate_cycle_with(0), Err(StepError::StackUnderflow));
    assert_eq!(state.get_pc(), 0x200);
    assert_eq!(state.get_sp(), 0);
}

#[test]
fn seventeenth_nested_call_is_an_overflow() {
    // The call at 0x200 calls itself.
    let mut state = machine(&[0x22, 0x00]);
    run(&mut state, 16);
    assert_eq!(state.get_sp(), 16);
    assert_eq!(state.get_stack(), &[0x200u16; 16]);
    assert_eq!(state.emulate_cycle_with(0), Err(StepError::StackOverflow));
    assert_eq!(state.get_sp(), 16);
    assert_eq!(state.get_pc(), 0x200);
}

#[test]
fn fetch_beyond_memory_is_an_addressing_error() {
    let mut state = machine(&[0x1F, 0xFF]);
    run(&mut state, 1);
    assert_eq!(state.get_pc(), 0xFFF);
    assert_eq!(state.emulate_cycle_with(0), Err(StepError::AddressOutOfRange));
    assert_eq!(state.get_pc(), 0xFFF);
}

#[test]
fn fetch_of_the_last_word_succeeds() {
    let mut state = machine(&[0x1F, 0xFE]);
    run(&mut state, 2);
    assert_eq!(state.get_pc(), 0x1000);
    assert_eq!(state.emulate_cycle_with(0), Err(StepError::AddressOutOfRange));
}

#[test]
fn a_failed_cycle_does_not_tick() {
    // V0 = 9, delay = 9, then a return with an empty stack.
    let mut state = machine(&[0x60, 0x09, 0xF0, 0x15, 0x00, 0xEE]);
    run(&mut state, 2);
    assert_eq!(state.get_delay_timer(), 8);
    assert_eq!(state.emulate_cycle_with(0), Err(StepError::StackUnderflow));
    assert_eq!(state.get_delay_timer(), 8);
    assert_eq!(state.get_pc(), 0x204);
}

#[test]
fn unmatched_words_only_advance() {
    for word in [[0x00u8, 0x00u8], [0x01, 0x23], [0x50, 0x01], [0x80, 0x08], [0x90, 0x0F],
        [0xE0, 0x00], [0xE1, 0x9F], [0xF0, 0xFF], [0xF2, 0x00], [0x00, 0xE1]] {
        let mut state = machine(&word);
        run(&mut state, 1);
        assert_eq!(state.get_pc(), 0x202);
        assert_eq!(state.get_registers(), &[0u8; 16]);
        assert_eq!(state.get_index(), 0);
        assert_eq!(state.get_sp(), 0);
        assert!(state.get_display().iter().all(|lit| !lit));
        assert_eq!(&state.get_memory()[0x200..0x202], &word[..]);
    }
}

#[test]
fn set_index() {
    let mut state = machine(&[0xA1, 0x23]);
    run(&mut state, 1);
    assert_eq!(state.get_index(), 0x123);
    assert_eq!(state.get_pc(), 0x202);
}

#[test]
fn add_to_index_wraps_at_sixteen_bits() {
    // I = 0xFFF, V0 = 0xFF, then I += V0 over and over.
    let mut state = machine(&[0xAF, 0xFF, 0x60, 0xFF, 0xF0, 0x1E, 0x12, 0x04]);
    run(&mut state, 3);
    assert_eq!(state.get_index(), 0xFFF + 0xFF);
    // Each further pair of cycles adds 0xFF once more.
    run(&mut state, 2 * 239);
    assert_eq!(state.get_index() as u32, 0xFFF + 240 * 0xFF);
    run(&mut state, 2);
    assert_eq!(state.get_index() as u32, 0xFFF + 241 * 0xFF - 0x10000);
}

#[test]
fn random_instruction_masks_the_given_byte() {
    let mut state = machine(&[0xC0, 0x0F, 0xC1, 0xF0, 0xC2, 0xFF]);
    state.emulate_cycle_with(0xAB).unwrap();
    state.emulate_cycle_with(0xAB).unwrap();
    state.emulate_cycle_with(0xAB).unwrap();
    assert_eq!(state.get_registers()[0], 0x0B);
    assert_eq!(state.get_registers()[1], 0xA0);
    assert_eq!(state.get_registers()[2], 0xAB);
    assert_eq!(state.get_pc(), 0x206);
}

#[test]
fn random_instruction_draws_within_the_mask() {
    for _ in 0..64 {
        let mut state = machine(&[0x60, 0xFF, 0xC0, 0x00, 0xC1, 0x3C]);
        state.emulate_cycle().unwrap();
        state.emulate_cycle().unwrap();
        state.emulate_cycle().unwrap();
        assert_eq!(state.get_registers()[0], 0);
        assert_eq!(state.get_registers()[1] & !0x3C, 0);
        assert_eq!(state.get_pc(), 0x206);
    }
}

#[test]
fn cycle_without_random_instruction_is_deterministic() {
    let program = [0x60, 0x05, 0x61, 0x03, 0x80, 0x14, 0x12, 0x00];
    let mut drawn = machine(&program);
    let mut given = machine(&program);
    for _ in 0..8 {
        assert_eq!(drawn.emulate_cycle(), given.emulate_cycle_with(0x5A));
        assert_eq!(drawn.get_pc(), given.get_pc());
        assert_eq!(drawn.get_registers(), given.get_registers());
    }
}

#[test]
fn timers_are_set_from_and_read_into_registers() {
    let mut state = machine(&[0x60, 0x0A, 0xF0, 0x15, 0xF0, 0x18, 0xF1, 0x07]);
    run(&mut state, 2);
    assert_eq!(state.get_delay_timer(), 9);
    run(&mut state, 1);
    assert_eq!(state.get_delay_timer(), 8);
    assert_eq!(state.get_sound_timer(), 9);
    run(&mut state, 1);
    assert_eq!(state.get_registers()[1], 8);
    assert_eq!(state.get_delay_timer(), 7);
    assert_eq!(state.get_sound_timer(), 8);
}

#[test]
fn delay_timer_runs_down_to_zero_and_stays() {
    // V0 = 6, delay = V0 (ticks to 5 in that cycle), then an endless jump.
    let mut state = machine(&[0x60, 0x06, 0xF0, 0x15, 0x12, 0x04]);
    run(&mut state, 2);
    assert_eq!(state.get_delay_timer(), 5);
    for left in (0..5u8).rev() {
        run(&mut state, 1);
        assert_eq!(state.get_delay_timer(), left);
    }
    for _ in 0..300 {
        run(&mut state, 1);
        assert_eq!(state.get_delay_timer(), 0);
    }
}

#[test]
fn update_timers_counts_down_and_stops_at_zero() {
    let mut state = machine(&[0x60, 0x03, 0xF0, 0x15, 0x61, 0x02, 0xF1, 0x18]);
    run(&mut state, 4);
    assert_eq!(state.get_delay_timer(), 0);
    assert_eq!(state.get_sound_timer(), 1);
    state.update_timers();
    assert_eq!(state.get_delay_timer(), 0);
    assert_eq!(state.get_sound_timer(), 0);
    state.update_timers();
    assert_eq!(state.get_delay_timer(), 0);
    assert_eq!(state.get_sound_timer(), 0);
}

#[test]
fn end_to_end_trace() {
    let mut state = machine(&[0x60, 0x05, 0x61, 0x03, 0x80, 0x14, 0x12, 0x00]);
    run(&mut state, 1);
    assert_eq!(state.get_registers()[0], 5);
    assert_eq!(state.get_pc(), 0x202);
    run(&mut state, 1);
    assert_eq!(state.get_registers()[1], 3);
    assert_eq!(state.get_pc(), 0x204);
    run(&mut state, 1);
    assert_eq!(state.get_registers()[0], 8);
    assert_eq!(state.get_registers()[1], 3);
    assert_eq!(state.get_registers()[0xF], 0);
    assert_eq!(state.get_pc(), 0x206);
    run(&mut state, 1);
    assert_eq!(state.get_pc(), 0x200);
    run(&mut state, 3);
    assert_eq!(state.get_registers()[0], 8);
    assert_eq!(state.get_pc(), 0x206);
}

#[test]
fn decimal_digits_are_stored() {
    let mut state = machine(&[0x60, 0xFE, 0xA3, 0x00, 0xF0, 0x33]);
    run(&mut state, 3);
    assert_eq!(&state.get_memory()[0x300..0x303], &[2, 5, 4]);
    assert_eq!(state.get_index(), 0x300);
    let mut state = machine(&[0x60, 0x07, 0xA3, 0x00, 0xF0, 0x33]);
    run(&mut state, 3);
    assert_eq!(&state.get_memory()[0x300..0x303], &[0, 0, 7]);
}

#[test]
fn decimal_digits_at_the_end_of_memory() {
    let mut state = machine(&[0x60, 0x7B, 0xAF, 0xFD, 0xF0, 0x33]);
    run(&mut state, 3);
    assert_eq!(&state.get_memory()[0xFFD..], &[1, 2, 3]);
    let mut state = machine(&[0x60, 0x7B, 0xAF, 0xFE, 0xF0, 0x33]);
    run(&mut state, 2);
    let memory = *state.get_memory();
    assert_eq!(state.emulate_cycle_with(0), Err(StepError::AddressOutOfRange));
    assert_eq!(state.get_memory(), &memory);
    assert_eq!(state.get_pc(), 0x204);
}

#[test]
fn registers_are_stored_and_loaded() {
    // V0..V3 = 1, 2, 3, 4; stored at 0x300; cleared; loaded back into V0..V2.
    let mut state = machine(&[
        0x60, 0x01, 0x61, 0x02, 0x62, 0x03, 0x63, 0x04, 0xA3, 0x00, 0xF3, 0x55, 0x60, 0x00, 0x61,
        0x00, 0x62, 0x00, 0x63, 0x00, 0xF2, 0x65,
    ]);
    run(&mut state, 6);
    assert_eq!(&state.get_memory()[0x300..0x305], &[1, 2, 3, 4, 0]);
    assert_eq!(state.get_index(), 0x300);
    run(&mut state, 5);
    assert_eq!(&state.get_registers()[0..5], &[1, 2, 3, 0, 0]);
    assert_eq!(state.get_index(), 0x300);
    assert_eq!(state.get_pc(), 0x200 + 22);
}

#[test]
fn register_store_beyond_memory_changes_nothing() {
    // I = 0xFFE: V0 and V1 fit, V2 does not.
    let mut state = machine(&[0x60, 0x11, 0x61, 0x22, 0x62, 0x33, 0xAF, 0xFE, 0xF2, 0x55]);
    run(&mut state, 4);
    let memory = *state.get_memory();
    assert_eq!(state.emulate_cycle_with(0), Err(StepError::AddressOutOfRange));
    assert_eq!(state.get_memory(), &memory);
    assert_eq!(state.get_pc(), 0x208);
    let mut state = machine(&[0x60, 0x11, 0x61, 0x22, 0x62, 0x33, 0xAF, 0xFE, 0xF1, 0x55]);
    run(&mut state, 5);
    assert_eq!(&state.get_memory()[0xFFE..], &[0x11, 0x22]);
}

#[test]
fn register_load_beyond_memory_changes_nothing() {
    let mut state = machine(&[0x60, 0x11, 0x61, 0x22, 0xAF, 0xFF, 0xF1, 0x65]);
    run(&mut state, 3);
    assert_eq!(state.emulate_cycle_with(0), Err(StepError::AddressOutOfRange));
    assert_eq!(&state.get_registers()[0..2], &[0x11, 0x22]);
    let mut state = machine(&[0x60, 0x11, 0x61, 0x22, 0xAF, 0xFF, 0xF0, 0x65]);
    run(&mut state, 4);
    assert_eq!(&state.get_registers()[0..2], &[0x00, 0x22]);
}

#[test]
fn font_is_the_standard_hexadecimal_font() {
    let glyphs: [[u8; 5]; 16] = [
        [0xF0, 0x90, 0x90, 0x90, 0xF0],
        [0x20, 0x60, 0x20, 0x20, 0x70],
        [0xF0, 0x10, 0xF0, 0x80, 0xF0],
        [0xF0, 0x10, 0xF0, 0x10, 0xF0],
        [0x90, 0x90, 0xF0, 0x10, 0x10],
        [0xF0, 0x80, 0xF0, 0x10, 0xF0],
        [0xF0, 0x80, 0xF0, 0x90, 0xF0],
        [0xF0, 0x10, 0x20, 0x40, 0x40],
        [0xF0, 0x90, 0xF0, 0x90, 0xF0],
        [0xF0, 0x90, 0xF0, 0x10, 0xF0],
        [0xF0, 0x90, 0xF0, 0x90, 0x90],
        [0xE0, 0x90, 0xE0, 0x90, 0xE0],
        [0xF0, 0x80, 0x80, 0x80, 0xF0],
        [0xE0, 0x90, 0x90, 0x90, 0xE0],
        [0xF0, 0x80, 0xF0, 0x80, 0xF0],
        [0xF0, 0x80, 0xF0, 0x80, 0x80],
    ];
    let state = State::new();
    for (digit, glyph) in glyphs.iter().enumerate() {
        assert_eq!(&state.get_memory()[5 * digit..5 * digit + 5], &glyph[..]);
    }
}

#[test]
fn instruction_words_are_split_into_operands() {
    assert_eq!(class_of(0xABCD), 0xA);
    assert_eq!(x_of(0xABCD), 0xB);
    assert_eq!(y_of(0xABCD), 0xC);
    assert_eq!(n_of(0xABCD), 0xD);
    assert_eq!(kk_of(0xABCD), 0xCD);
    assert_eq!(nnn_of(0xABCD), 0xBCD);
    assert_eq!(class_of(0x0FFF), 0x0);
    assert_eq!(x_of(0xF0FF), 0x0);
    assert_eq!(y_of(0xFF0F), 0x0);
    assert_eq!(n_of(0xFFF0), 0x0);
    assert_eq!(kk_of(0xFF00), 0x00);
    assert_eq!(nnn_of(0xF000), 0x000);
}

#[test]
fn random_instruction_does_not_repeat_one_byte() {
    // 64 draws of a whole byte: that all are equal has a chance of 256^-63.
    let mut drawn = Vec::new();
    for _ in 0..64 {
        let mut state = machine(&[0xC0, 0xFF]);
        state.emulate_cycle().unwrap();
        drawn.push(state.get_registers()[0]);
    }
    assert!(drawn.iter().any(|byte| *byte != drawn[0]));
}
