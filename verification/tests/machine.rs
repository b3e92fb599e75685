use chip8_emulator::instruction::{decode, Instruction};
use chip8_emulator::machine::StepError;
use chip8_emulator::processor::{timer_interval_elapsed, Processor};
use std::time::{Duration, Instant};

fn machine_with(program: &[u8]) -> Processor {
    let mut processor = Processor::new();
    processor.load_data(program);
    processor
}

fn run(processor: &mut Processor, steps: usize) {
    for _ in 0..steps {
        processor.step_at(0, 0).unwrap();
    }
}

fn lit_pixels(processor: &Processor) -> Vec<(usize, usize)> {
    let mut lit = Vec::new();
    for (y, row) in processor.get_framebuffer().iter().enumerate() {
        for (x, pixel) in row.iter().enumerate() {
            if *pixel {
                lit.push((x, y));
            }
        }
    }
    lit
}

#[test]
fn new_machine_is_in_its_startup_state() {
    let processor = Processor::new();
    assert_eq!(processor.memory().len(), 4096);
    assert_eq!(&processor.memory()[0..5], &[0xF0, 0x90, 0x90, 0x90, 0xF0]);
    assert_eq!(&processor.memory()[5..10], &[0x20, 0x60, 0x20, 0x20, 0x70]);
    assert_eq!(&processor.memory()[75..80], &[0xF0, 0x80, 0xF0, 0x80, 0x80]);
    assert!(processor.memory()[80..].iter().all(|byte| *byte == 0));
    assert_eq!(processor.registers(), &vec![0u8; 16]);
    assert_eq!(processor.pc(), 0x200);
    assert_eq!(processor.index(), 0);
    assert!(processor.stack().is_empty());
    assert_eq!(processor.delay_timer(), 0);
    assert_eq!(processor.sound_timer(), 0);
    assert_eq!(processor.keys(), &[false; 16]);
    assert_eq!(processor.get_framebuffer().len(), 32);
    assert!(processor.get_framebuffer().iter().all(|row| row.len() == 64));
    assert!(lit_pixels(&processor).is_empty());
}

#[test]
fn load_places_the_program_verbatim() {
    let program: Vec<u8> = (0..3584usize).map(|k| (k % 251) as u8 + 1).collect();
    let processor = machine_with(&program);
    assert_eq!(&processor.memory()[0x200..], &program[..]);
    assert_eq!(&processor.memory()[0..5], &[0xF0, 0x90, 0x90, 0x90, 0xF0]);
    assert!(processor.memory()[80..0x200].iter().all(|byte| *byte == 0));
    assert_eq!(processor.pc(), 0x200);
}

#[test]
fn load_of_nothing_changes_nothing() {
    let processor = machine_with(&[]);
    assert!(processor.memory()[80..].iter().all(|byte| *byte == 0));
}

#[test]
fn second_load_overwrites_only_its_own_length() {
    let mut processor = machine_with(&[1, 2, 3, 4]);
    processor.load_data(&[9, 8]);
    assert_eq!(&processor.memory()[0x200..0x205], &[9, 8, 3, 4, 0]);
}

#[test]
fn clear_reports_a_change_even_on_a_dark_display() {
    let mut processor = machine_with(&[0x00, 0xE0]);
    assert_eq!(processor.step_at(0, 0), Ok(true));
    assert!(lit_pixels(&processor).is_empty());
    assert_eq!(processor.pc(), 0x202);
}

#[test]
fn add_immediate_wraps_and_leaves_the_flag() {
    let mut processor = machine_with(&[0x6F, 0x07, 0x63, 0xFE, 0x73, 0x05]);
    run(&mut processor, 3);
    assert_eq!(processor.registers()[3], 0x03);
    assert_eq!(processor.registers()[0xF], 0x07);
}

#[test]
fn add_into_the_flag_register_keeps_the_carry() {
    let mut processor = machine_with(&[0x6F, 0xFF, 0x61, 0x02, 0x8F, 0x14]);
    run(&mut processor, 3);
    assert_eq!(processor.registers()[0xF], 1);
}

#[test]
fn subtract_of_equal_values_reports_no_borrow() {
    let mut processor = machine_with(&[0x60, 0x09, 0x61, 0x09, 0x80, 0x15]);
    run(&mut processor, 3);
    assert_eq!(processor.registers()[0], 0);
    assert_eq!(processor.registers()[0xF], 1);
}

#[test]
fn shifts_read_register_y() {
    let mut processor = machine_with(&[0x60, 0xFF, 0x61, 0x81, 0x80, 0x16, 0x82, 0x1E]);
    run(&mut processor, 4);
    assert_eq!(processor.registers()[0], 0x40);
    assert_eq!(processor.registers()[1], 0x81);
    assert_eq!(processor.registers()[2], 0x02);
    assert_eq!(processor.registers()[0xF], 1);
}

#[test]
fn draw_twice_erases_and_sets_the_flag() {
    let mut processor = machine_with(&[
        0x60, 0x05, 0x61, 0x03, 0xA2, 0x0A, 0xD0, 0x11, 0xD0, 0x11, 0b10101010,
    ]);
    run(&mut processor, 3);
    assert_eq!(processor.step_at(0, 0), Ok(true));
    assert_eq!(lit_pixels(&processor), vec![(5, 3), (7, 3), (9, 3), (11, 3)]);
    assert_eq!(processor.registers()[0xF], 0);
    assert_eq!(processor.step_at(0, 0), Ok(true));
    assert!(lit_pixels(&processor).is_empty());
    assert_eq!(processor.registers()[0xF], 1);
}

#[test]
fn draw_collides_on_a_later_row() {
    let mut processor = machine_with(&[0xA2, 0x06, 0xD0, 0x02, 0x12, 0x04, 0x00, 0x80]);
    assert!(processor.set_pixel(0, 1, true));
    run(&mut processor, 1);
    assert_eq!(processor.step_at(0, 0), Ok(true));
    assert!(lit_pixels(&processor).is_empty());
    assert_eq!(processor.registers()[0xF], 1);
}

#[test]
fn draw_wraps_around_the_edges() {
    let mut processor = machine_with(&[
        0x60, 0x3E, 0x61, 0x1F, 0xA2, 0x08, 0xD0, 0x12, 0xFF, 0x81,
    ]);
    run(&mut processor, 4);
    let mut expected = vec![
        (5, 0),
        (62, 0),
        (0, 31),
        (1, 31),
        (2, 31),
        (3, 31),
        (4, 31),
        (5, 31),
        (62, 31),
        (63, 31),
    ];
    expected.sort_by_key(|(x, y)| (*y, *x));
    assert_eq!(lit_pixels(&processor), expected);
    assert_eq!(processor.registers()[0xF], 0);
}

#[test]
fn draw_takes_coordinates_modulo_the_display_size() {
    let mut processor = machine_with(&[0x60, 0x41, 0x61, 0x22, 0xA2, 0x08, 0xD0, 0x11, 0x80]);
    run(&mut processor, 4);
    assert_eq!(lit_pixels(&processor), vec![(1, 2)]);
}

#[test]
fn draw_without_rows_reports_a_change_and_clears_the_flag() {
    let mut processor = machine_with(&[0x6F, 0x01, 0xAF, 0xFF, 0xD0, 0x00]);
    run(&mut processor, 2);
    assert_eq!(processor.step_at(0, 0), Ok(true));
    assert!(lit_pixels(&processor).is_empty());
    assert_eq!(processor.registers()[0xF], 0);
}

#[test]
fn draw_reads_its_coordinates_before_it_clears_the_flag() {
    let mut processor = machine_with(&[0x6F, 0x04, 0xA2, 0x06, 0xDF, 0x01, 0x80]);
    run(&mut processor, 3);
    assert_eq!(lit_pixels(&processor), vec![(4, 0)]);
    assert_eq!(processor.registers()[0xF], 0);
}

#[test]
fn store_and_load_round_trip_for_every_register_count() {
    for x in 0..16u8 {
        let mut processor = machine_with(&[0xA3, 0x00, 0xF0 | x, 0x55, 0xF0 | x, 0x65]);
        for r in 0..16u8 {
            let mut setter = machine_with(&[0x60 | r, 0x10 + r]);
            setter.step_at(0, 0).unwrap();
            assert_eq!(setter.registers()[r as usize], 0x10 + r);
        }
        processor.load_data(&[
            0x60, 0x10, 0x61, 0x11, 0x62, 0x12, 0x63, 0x13, 0x64, 0x14, 0x65, 0x15, 0x66, 0x16,
            0x67, 0x17, 0x68, 0x18, 0x69, 0x19, 0x6A, 0x1A, 0x6B, 0x1B, 0x6C, 0x1C, 0x6D, 0x1D,
            0x6E, 0x1E, 0x6F, 0x1F, 0xA3, 0x00, 0xF0 | x, 0x55, 0x60, 0x00, 0x61, 0x00, 0x62,
            0x00, 0x63, 0x00, 0x64, 0x00, 0x65, 0x00, 0x66, 0x00, 0x67, 0x00, 0x68, 0x00, 0x69,
            0x00, 0x6A, 0x00, 0x6B, 0x00, 0x6C, 0x00, 0x6D, 0x00, 0x6E, 0x00, 0x6F, 0x00, 0xF0 | x,
            0x65,
        ]);
        run(&mut processor, 18);
        for r in 0..16usize {
            let stored = if r <= x as usize { 0x10 + r as u8 } else { 0 };
            assert_eq!(processor.memory()[0x300 + r], stored);
        }
        assert_eq!(processor.index(), 0x300);
        run(&mut processor, 17);
        for r in 0..16usize {
            let loaded = if r <= x as usize { 0x10 + r as u8 } else { 0 };
            assert_eq!(processor.registers()[r], loaded);
        }
        assert_eq!(processor.index(), 0x300);
    }
}

#[test]
fn timers_count_down_once_per_interval_and_stop_at_zero() {
    let mut processor = machine_with(&[0x60, 0x03, 0xF0, 0x15, 0x60, 0x01, 0xF0, 0x18]);
    run(&mut processor, 4);
    assert_eq!((processor.delay_timer(), processor.sound_timer()), (3, 1));
    let mut seen = Vec::new();
    for _ in 0..5 {
        processor.tick_timers();
        seen.push((processor.delay_timer(), processor.sound_timer()));
    }
    assert_eq!(seen, vec![(2, 0), (1, 0), (0, 0), (0, 0), (0, 0)]);
}

#[test]
fn steps_leave_the_timers_alone_until_an_interval_has_passed() {
    let mut processor = machine_with(&[0x60, 0x09, 0xF0, 0x15, 0x12, 0x04]);
    run(&mut processor, 2);
    for now in 0..100u128 {
        processor.step_at(now * 166_666, 0).unwrap();
    }
    assert_eq!(processor.delay_timer(), 9);
    processor.step_at(16_666_666, 0).unwrap();
    assert_eq!(processor.delay_timer(), 9);
    processor.step_at(16_666_667, 0).unwrap();
    assert_eq!(processor.delay_timer(), 8);
    processor.step_at(2 * 16_666_667 - 1, 0).unwrap();
    assert_eq!(processor.delay_timer(), 8);
    processor.step_at(2 * 16_666_667, 0).unwrap();
    assert_eq!(processor.delay_timer(), 7);
}

#[test]
fn timers_follow_a_simulated_clock() {
    let mut processor = machine_with(&[0x60, 0x03, 0xF0, 0x15, 0xF0, 0x18]);
    run(&mut processor, 3);
    let mut now: u128 = 0;
    let mut seen = Vec::new();
    for _ in 0..5 {
        now += 16_666_667;
        assert_eq!(processor.update_timers_at(now - 1), false);
        assert_eq!(processor.update_timers_at(now), true);
        assert_eq!(processor.update_timers_at(now), false);
        seen.push((processor.delay_timer(), processor.sound_timer()));
    }
    assert_eq!(seen, vec![(2, 2), (1, 1), (0, 0), (0, 0), (0, 0)]);
}

#[test]
fn timers_count_down_once_however_long_the_clock_ran() {
    let mut processor = machine_with(&[0x60, 0x09, 0xF0, 0x15]);
    run(&mut processor, 2);
    assert!(processor.update_timers_at(10_000_000_000));
    assert_eq!(processor.delay_timer(), 8);
    assert!(!processor.update_timers_at(10_016_666_666));
    assert!(!processor.update_timers_at(5));
    assert_eq!(processor.delay_timer(), 8);
    assert!(processor.update_timers_at(u128::MAX));
    assert_eq!(processor.delay_timer(), 7);
    assert!(!processor.update_timers_at(0));
}

#[test]
fn timer_interval_is_a_sixtieth_of_a_second() {
    assert!(!timer_interval_elapsed(0));
    assert!(!timer_interval_elapsed(16_666_666));
    assert!(timer_interval_elapsed(16_666_667));
    assert!(timer_interval_elapsed(u128::MAX));
}

#[test]
fn update_timers_follows_the_clock() {
    let mut processor = machine_with(&[0x60, 0x05, 0xF0, 0x15]);
    run(&mut processor, 2);
    let start = Instant::now();
    while start.elapsed() < Duration::from_millis(40) {}
    assert!(processor.update_timers());
    assert_eq!(processor.delay_timer(), 4);
    let mut ticks = 0;
    for _ in 0..3 {
        if processor.update_timers() {
            ticks += 1;
        }
    }
    assert_eq!(processor.delay_timer(), 4 - ticks);
    processor.reset();
    assert_eq!(processor.delay_timer(), 0);
    assert!(!processor.update_timers_at(0));
}

#[test]
fn step_counts_the_timers_down_against_the_clock() {
    let mut processor = machine_with(&[0x60, 0x05, 0xF0, 0x15, 0x12, 0x04]);
    processor.step().unwrap();
    processor.step().unwrap();
    let before = processor.delay_timer();
    assert!(before == 5 || before == 4);
    let start = Instant::now();
    while start.elapsed() < Duration::from_millis(40) {}
    processor.step().unwrap();
    assert_eq!(processor.delay_timer(), before - 1);
    for _ in 0..1000 {
        processor.step().unwrap();
    }
    assert!(processor.delay_timer() < before);
}

#[test]
fn wait_for_key_holds_until_a_key_is_pressed() {
    let mut processor = machine_with(&[0xF3, 0x0A, 0x60, 0x01]);
    for _ in 0..5 {
        assert_eq!(processor.step_at(0, 0), Ok(false));
        assert_eq!(processor.pc(), 0x200);
    }
    assert_eq!(processor.step(), Ok(false));
    assert_eq!(processor.pc(), 0x200);
    let mut keys = [false; 16];
    keys[0xB] = true;
    keys[0x4] = true;
    processor.set_keys(&keys);
    assert_eq!(processor.keys(), &keys);
    assert_eq!(processor.step_at(0, 0), Ok(false));
    assert_eq!(processor.pc(), 0x202);
    assert_eq!(processor.registers()[3], 0x4);
}

#[test]
fn wait_for_key_sees_key_zero() {
    let mut processor = machine_with(&[0x65, 0x09, 0xF5, 0x0A]);
    let mut keys = [true; 16];
    processor.set_keys(&keys);
    run(&mut processor, 2);
    assert_eq!(processor.registers()[5], 0);
    keys[0] = false;
    processor.set_keys(&keys);
    processor.load_data(&[0x12, 0x02]);
    assert!(processor.write_memory(0x202, 0xF5));
    processor.reset();
    run(&mut processor, 2);
    assert_eq!(processor.registers()[5], 1);
}

#[test]
fn key_skips_follow_the_keypad() {
    let mut keys = [false; 16];
    keys[0xA] = true;
    let mut processor = machine_with(&[0x60, 0x0A, 0xE0, 0x9E, 0x00, 0x00, 0xE0, 0xA1, 0x61, 0x0B, 0xE1, 0x9E, 0xE1, 0xA1]);
    processor.set_keys(&keys);
    run(&mut processor, 2);
    assert_eq!(processor.pc(), 0x206);
    run(&mut processor, 1);
    assert_eq!(processor.pc(), 0x208);
    run(&mut processor, 2);
    assert_eq!(processor.pc(), 0x20C);
    run(&mut processor, 1);
    assert_eq!(processor.pc(), 0x210);
}

#[test]
fn return_without_call_is_an_error() {
    let mut processor = machine_with(&[0x00, 0xEE]);
    assert_eq!(processor.step_at(0, 0), Err(StepError::StackUnderflow { pc: 0x200 }));
    assert_eq!(processor.pc(), 0x200);
    assert!(processor.stack().is_empty());
    assert_eq!(processor.step(), Err(StepError::StackUnderflow { pc: 0x200 }));
}

#[test]
fn fetch_past_the_end_of_memory_is_an_error() {
    let mut processor = machine_with(&[0x1F, 0xFF]);
    run(&mut processor, 1);
    assert_eq!(processor.pc(), 0xFFF);
    assert_eq!(processor.next_instruction(), None);
    assert_eq!(processor.step_at(20_000_000, 0), Err(StepError::FetchOutOfBounds { pc: 0xFFF }));
    assert_eq!(processor.pc(), 0xFFF);
}

#[test]
fn last_instruction_slot_can_be_fetched() {
    let mut processor = machine_with(&[0x1F, 0xFE]);
    assert!(processor.write_memory(0xFFE, 0x6A));
    assert!(processor.write_memory(0xFFF, 0x2A));
    run(&mut processor, 2);
    assert_eq!(processor.registers()[0xA], 0x2A);
    assert_eq!(processor.pc(), 0x1000);
    assert_eq!(processor.step_at(0, 0), Err(StepError::FetchOutOfBounds { pc: 0x1000 }));
}

#[test]
fn jump_with_offset_can_leave_memory() {
    let mut processor = machine_with(&[0x60, 0xFF, 0xBF, 0xFF]);
    run(&mut processor, 2);
    assert_eq!(processor.pc(), 0x10FE);
    assert_eq!(processor.step_at(0, 0), Err(StepError::FetchOutOfBounds { pc: 0x10FE }));
}

#[test]
fn memory_access_past_the_end_is_an_error() {
    let cases: [(u8, u8, u16, Instruction, usize); 6] = [
        (0xF1, 0x55, 0xFFF, Instruction::StoreRegisters { x: 1 }, 0x1000),
        (0xF2, 0x65, 0xFFE, Instruction::LoadRegisters { x: 2 }, 0x1000),
        (0xF0, 0x33, 0xFFE, Instruction::StoreDecimal { x: 0 }, 0x1000),
        (0xD0, 0x02, 0xFFF, Instruction::Draw { x: 0, y: 0, rows: 2 }, 0x1000),
        (0xFF, 0x55, 0xFF1, Instruction::StoreRegisters { x: 15 }, 0x1000),
        (0xFF, 0x65, 0xFF1, Instruction::LoadRegisters { x: 15 }, 0x1000),
    ];
    for (high, low, index, instruction, address) in cases {
        let mut processor =
            machine_with(&[0xA0 | (index >> 8) as u8, index as u8, 0x6F, 0x09, high, low]);
        run(&mut processor, 2);
        let memory = processor.memory().clone();
        let registers = processor.registers().clone();
        assert_eq!(
            processor.step_at(0, 0),
            Err(StepError::MemoryOutOfBounds { pc: 0x204, instruction, address })
        );
        assert_eq!(processor.pc(), 0x204);
        assert_eq!(processor.memory(), &memory);
        assert_eq!(processor.registers(), &registers);
        assert!(lit_pixels(&processor).is_empty());
    }
}

#[test]
fn memory_access_up_to_the_last_byte_succeeds() {
    let mut processor = machine_with(&[0x60, 0xEA, 0xAF, 0xFD, 0xF0, 0x33, 0xAF, 0xFF, 0xF0, 0x55, 0xD0, 0x01]);
    run(&mut processor, 5);
    assert_eq!(&processor.memory()[0xFFD..], &[2, 3, 0xEA]);
    assert_eq!(processor.step_at(0, 0), Ok(true));
}

#[test]
fn error_reports_the_first_address_outside_memory() {
    let mut processor = machine_with(&[0xAF, 0xFF, 0x60, 0xFF, 0xF0, 0x1E, 0xF0, 0x1E, 0xF0, 0x55]);
    run(&mut processor, 4);
    assert_eq!(processor.index(), 0xFFF + 2 * 0xFF);
    assert_eq!(
        processor.step_at(0, 0),
        Err(StepError::MemoryOutOfBounds {
            pc: 0x208,
            instruction: Instruction::StoreRegisters { x: 0 },
            address: 0xFFF + 2 * 0xFF,
        })
    );
}

#[test]
fn key_outside_the_keypad_is_an_error() {
    let mut processor = machine_with(&[0x64, 0x10, 0xE4, 0x9E]);
    run(&mut processor, 1);
    assert_eq!(
        processor.step_at(0, 0),
        Err(StepError::InvalidKey {
            pc: 0x202,
            instruction: Instruction::SkipIfKeyPressed { x: 4 },
            key: 0x10,
        })
    );
    assert_eq!(processor.pc(), 0x202);
    processor.load_data(&[0x64, 0xFF, 0xE4, 0xA1]);
    processor.reset();
    run(&mut processor, 1);
    assert_eq!(
        processor.step_at(0, 0),
        Err(StepError::InvalidKey {
            pc: 0x202,
            instruction: Instruction::SkipIfKeyNotPressed { x: 4 },
            key: 0xFF,
        })
    );
}

#[test]
fn failed_step_still_counts_the_timers_down() {
    let mut processor = machine_with(&[0x60, 0x02, 0xF0, 0x15, 0x00, 0xEE]);
    run(&mut processor, 2);
    assert_eq!(processor.step_at(20_000_000, 0), Err(StepError::StackUnderflow { pc: 0x204 }));
    assert_eq!(processor.delay_timer(), 1);
}

#[test]
fn add_to_index_flags_results_past_the_address_range() {
    let mut processor = machine_with(&[0xAF, 0xFE, 0x60, 0x01, 0xF0, 0x1E, 0xF0, 0x1E]);
    run(&mut processor, 3);
    assert_eq!(processor.index(), 0xFFF);
    assert_eq!(processor.registers()[0xF], 0);
    run(&mut processor, 1);
    assert_eq!(processor.index(), 0x1000);
    assert_eq!(processor.registers()[0xF], 1);
}

#[test]
fn add_to_index_wraps_at_sixteen_bits() {
    let mut processor = machine_with(&[0xAF, 0xFF, 0x60, 0xFF, 0xF0, 0x1E, 0x12, 0x04]);
    run(&mut processor, 2);
    for _ in 0..240 {
        run(&mut processor, 2);
    }
    assert_eq!(processor.index(), 0xFFF + 240 * 0xFF);
    run(&mut processor, 1);
    assert_eq!(processor.index() as usize, 0xFFF + 241 * 0xFF - 0x10000);
    assert_eq!(processor.registers()[0xF], 1);
}

#[test]
fn glyph_addresses_are_five_bytes_apart() {
    let mut processor = machine_with(&[0x60, 0x00, 0xF0, 0x29, 0x60, 0xFF, 0xF0, 0x29]);
    run(&mut processor, 2);
    assert_eq!(processor.index(), 0);
    run(&mut processor, 2);
    assert_eq!(processor.index(), 1275);
}

#[test]
fn decimal_digits_of_small_and_large_values() {
    let mut processor = machine_with(&[0xA3, 0x00, 0x60, 0x07, 0xF0, 0x33, 0xA3, 0x10, 0x60, 0xFF, 0xF0, 0x33]);
    run(&mut processor, 6);
    assert_eq!(&processor.memory()[0x300..0x303], &[0, 0, 7]);
    assert_eq!(&processor.memory()[0x310..0x313], &[2, 5, 5]);
}

#[test]
fn random_instruction_masks_the_byte_it_is_given() {
    let mut processor = machine_with(&[0xC0, 0x0F, 0xC1, 0xF0, 0xC2, 0x00]);
    assert_eq!(processor.step_at(0, 0xAB), Ok(false));
    assert_eq!(processor.registers()[0], 0x0B);
    processor.step_at(0, 0xAB).unwrap();
    assert_eq!(processor.registers()[1], 0xA0);
    processor.step_at(0, 0xFF).unwrap();
    assert_eq!(processor.registers()[2], 0x00);
}

#[test]
fn random_instruction_draws_from_the_random_source() {
    let mut program = Vec::new();
    for _ in 0..64 {
        program.extend_from_slice(&[0xC0, 0x3C, 0x80, 0x01, 0xC1, 0xFF, 0x82, 0x11]);
    }
    let mut processor = machine_with(&program);
    for _ in 0..64 {
        processor.step().unwrap();
        assert_eq!(processor.registers()[0] & !0x3C, 0);
        processor.step().unwrap();
        processor.step().unwrap();
        processor.step().unwrap();
    }
    assert_ne!(processor.registers()[2], 0);
}

#[test]
fn unknown_words_do_nothing() {
    for word in [0x0000u16, 0x0123, 0x00E1, 0x5121, 0x8128, 0x9AB1, 0xE09F, 0xE1A2, 0xF0FF, 0xF165] {
        let mut processor = machine_with(&[(word >> 8) as u8, word as u8]);
        let expected = if word == 0xF165 {
            Instruction::LoadRegisters { x: 1 }
        } else {
            Instruction::Unknown { opcode: word }
        };
        assert_eq!(decode(word), expected);
        if word == 0xF165 {
            continue;
        }
        let memory = processor.memory().clone();
        assert_eq!(processor.step(), Ok(false));
        assert_eq!(processor.pc(), 0x202);
        assert_eq!(processor.memory(), &memory);
        assert_eq!(processor.registers(), &vec![0u8; 16]);
        assert_eq!(processor.index(), 0);
        assert!(processor.stack().is_empty());
        assert!(lit_pixels(&processor).is_empty());
    }
}

#[test]
fn decode_knows_every_instruction() {
    let table: [(u16, Instruction); 34] = [
        (0x00E0, Instruction::ClearScreen),
        (0x00EE, Instruction::Return),
        (0x1ABC, Instruction::Jump { address: 0xABC }),
        (0x2ABC, Instruction::Call { address: 0xABC }),
        (0x3A12, Instruction::SkipIfEqual { x: 0xA, value: 0x12 }),
        (0x4A12, Instruction::SkipIfNotEqual { x: 0xA, value: 0x12 }),
        (0x5AB0, Instruction::SkipIfRegistersEqual { x: 0xA, y: 0xB }),
        (0x6A12, Instruction::Load { x: 0xA, value: 0x12 }),
        (0x7A12, Instruction::AddImmediate { x: 0xA, value: 0x12 }),
        (0x8AB0, Instruction::Copy { x: 0xA, y: 0xB }),
        (0x8AB1, Instruction::Or { x: 0xA, y: 0xB }),
        (0x8AB2, Instruction::And { x: 0xA, y: 0xB }),
        (0x8AB3, Instruction::Xor { x: 0xA, y: 0xB }),
        (0x8AB4, Instruction::Add { x: 0xA, y: 0xB }),
        (0x8AB5, Instruction::Subtract { x: 0xA, y: 0xB }),
        (0x8AB6, Instruction::ShiftRight { x: 0xA, y: 0xB }),
        (0x8AB7, Instruction::SubtractReversed { x: 0xA, y: 0xB }),
        (0x8ABE, Instruction::ShiftLeft { x: 0xA, y: 0xB }),
        (0x9AB0, Instruction::SkipIfRegistersNotEqual { x: 0xA, y: 0xB }),
        (0xAABC, Instruction::LoadIndex { address: 0xABC }),
        (0xBABC, Instruction::JumpWithOffset { address: 0xABC }),
        (0xCA12, Instruction::Random { x: 0xA, mask: 0x12 }),
        (0xDAB5, Instruction::Draw { x: 0xA, y: 0xB, rows: 5 }),
        (0xEA9E, Instruction::SkipIfKeyPressed { x: 0xA }),
        (0xEAA1, Instruction::SkipIfKeyNotPressed { x: 0xA }),
        (0xFA07, Instruction::ReadDelayTimer { x: 0xA }),
        (0xFA0A, Instruction::WaitForKey { x: 0xA }),
        (0xFA15, Instruction::SetDelayTimer { x: 0xA }),
        (0xFA18, Instruction::SetSoundTimer { x: 0xA }),
        (0xFA1E, Instruction::AddToIndex { x: 0xA }),
        (0xFA29, Instruction::LoadGlyph { x: 0xA }),
        (0xFA33, Instruction::StoreDecimal { x: 0xA }),
        (0xFA55, Instruction::StoreRegisters { x: 0xA }),
        (0xFA65, Instruction::LoadRegisters { x: 0xA }),
    ];
    for (word, instruction) in table {
        assert_eq!(decode(word), instruction);
    }
}

#[test]
fn next_instruction_shows_what_the_step_will_execute() {
    let mut processor = machine_with(&[0x12, 0x08, 0, 0, 0, 0, 0, 0, 0xD1, 0x23]);
    assert_eq!(processor.next_instruction(), Some(Instruction::Jump { address: 0x208 }));
    run(&mut processor, 1);
    assert_eq!(processor.next_instruction(), Some(Instruction::Draw { x: 1, y: 2, rows: 3 }));
}

#[test]
fn nested_calls_return_in_reverse_order() {
    let mut processor = machine_with(&[0x22, 0x06, 0x12, 0x02, 0, 0, 0x22, 0x0A, 0x00, 0xEE, 0x00, 0xEE]);
    run(&mut processor, 2);
    assert_eq!(processor.stack(), &vec![0x202, 0x208]);
    assert_eq!(processor.pc(), 0x20A);
    run(&mut processor, 1);
    assert_eq!(processor.stack(), &vec![0x202]);
    assert_eq!(processor.pc(), 0x208);
    run(&mut processor, 1);
    assert!(processor.stack().is_empty());
    assert_eq!(processor.pc(), 0x202);
}

#[test]
fn reset_keeps_memory_and_keys_and_clears_the_rest() {
    let mut processor = machine_with(&[
        0x60, 0x07, 0xF0, 0x15, 0xF0, 0x18, 0xA2, 0x00, 0xD0, 0x01, 0x22, 0x0C, 0xF0, 0x55,
    ]);
    let mut keys = [false; 16];
    keys[2] = true;
    processor.set_keys(&keys);
    run(&mut processor, 7);
    assert_eq!(processor.memory()[0x200], 0x07);
    assert!(!lit_pixels(&processor).is_empty());
    let memory = processor.memory().clone();
    processor.reset();
    assert_eq!(processor.memory(), &memory);
    assert_eq!(processor.keys(), &keys);
    assert_eq!(processor.registers(), &vec![0u8; 16]);
    assert_eq!(processor.pc(), 0x200);
    assert_eq!(processor.index(), 0);
    assert!(processor.stack().is_empty());
    assert_eq!((processor.delay_timer(), processor.sound_timer()), (0, 0));
    assert!(lit_pixels(&processor).is_empty());
}

#[test]
fn writes_outside_memory_and_display_are_refused() {
    let mut processor = Processor::new();
    assert!(!processor.write_memory(4096, 1));
    assert!(processor.write_memory(4095, 1));
    assert_eq!(processor.memory()[4095], 1);
    assert!(!processor.set_pixel(64, 0, true));
    assert!(!processor.set_pixel(0, 32, true));
    assert!(processor.set_pixel(63, 31, true));
    assert_eq!(lit_pixels(&processor), vec![(63, 31)]);
    assert!(processor.set_pixel(63, 31, false));
    assert!(lit_pixels(&processor).is_empty());
}
