use chip8_core::display::{Display, HEIGHT, WIDTH};
use chip8_core::engine::Engine;
use chip8_core::errors::{DisplayError, EngineError, Error, ErrorTrait, InputError};
use chip8_core::input::Input;
use chip8_core::random::MultiplyWithCarry;
use chip8_core::Chip8;

fn machine_with(rom: &[u8]) -> Chip8 {
    let mut machine = Chip8::new();
    machine.load_rom(rom).unwrap();
    machine
}

fn run(machine: &mut Chip8, cycles: usize) {
    for _ in 0..cycles {
        machine.execute_cycle().unwrap();
    }
}

#[test]
fn clear_resets_every_pixel() {
    let mut display = Display::new();
    display.draw(3, 5, &[0xFF, 0x81]).unwrap();
    display.clear().unwrap();
    for x in 0..WIDTH {
        for y in 0..HEIGHT {
            assert_eq!(display.get_pixel(x, y).unwrap(), 0);
        }
    }
}

#[test]
fn draw_twice_collides_and_restores() {
    let mut display = Display::new();
    let sprite = [0xF0, 0x90, 0x90, 0x90, 0xF0];
    let first = display.draw(10, 7, &sprite).unwrap();
    assert!(!first);
    assert_eq!(display.get_pixel(10, 7).unwrap(), 1);
    let second = display.draw(10, 7, &sprite).unwrap();
    assert!(second);
    for x in 0..WIDTH {
        for y in 0..HEIGHT {
            assert_eq!(display.get_pixel(x, y).unwrap(), 0);
        }
    }
}

#[test]
fn draw_wraps_around_both_edges() {
    let mut display = Display::new();
    display.draw(63, 31, &[0xC0, 0xC0]).unwrap();
    assert_eq!(display.get_pixel(63, 31).unwrap(), 1);
    assert_eq!(display.get_pixel(0, 31).unwrap(), 1);
    assert_eq!(display.get_pixel(63, 0).unwrap(), 1);
    assert_eq!(display.get_pixel(0, 0).unwrap(), 1);
    assert_eq!(display.get_pixel(1, 1).unwrap(), 0);
}

#[test]
fn pixel_access_out_of_bounds_fails() {
    let mut display = Display::new();
    assert_eq!(
        display.get_pixel(WIDTH, 0),
        Err(DisplayError::OutOfBounds { x: WIDTH as u8, y: 0, width: WIDTH as u8, height: HEIGHT as u8 })
    );
    assert_eq!(
        display.set_pixel(0, HEIGHT, true),
        Err(DisplayError::OutOfBounds { x: 0, y: HEIGHT as u8, width: WIDTH as u8, height: HEIGHT as u8 })
    );
}

#[test]
fn generator_reference_sequence_for_seed_42() {
    let mut generator = MultiplyWithCarry::new(42);
    let first = generator.random();
    assert_eq!(first, 4293816014);
    assert_eq!(generator.random(), 366958157);
    assert_eq!(generator.random(), 734712334);
}

#[test]
fn generator_is_deterministic_per_seed() {
    let mut a = MultiplyWithCarry::new(7);
    let mut b = MultiplyWithCarry::new(7);
    for _ in 0..100 {
        assert_eq!(a.random(), b.random());
    }
}

#[test]
fn input_tracks_key_state_and_checks_bounds() {
    let mut input = Input::new();
    assert!(!input.is_key_down(4).unwrap());
    input.key_down(4).unwrap();
    assert!(input.is_key_down(4).unwrap());
    input.key_up(4).unwrap();
    assert!(!input.is_key_down(4).unwrap());
    assert_eq!(
        input.key_down(16),
        Err(InputError::OutOfBounds { index: 16, size: 16 })
    );
    assert_eq!(
        input.is_key_down(255),
        Err(InputError::OutOfBounds { index: 255, size: 16 })
    );
}

#[test]
fn load_then_add_immediate() {
    // 0x6132: register 1 := 0x32; 0x7105: add 5.
    let mut machine = machine_with(&[0x61, 0x32, 0x71, 0x05]);
    run(&mut machine, 2);
    assert_eq!(machine.get_register(1), Some(0x37));
    assert_eq!(machine.get_register(0xF), Some(0));
    assert_eq!(machine.get_program_counter(), 0x204);
}

#[test]
fn add_immediate_sets_overflow_flag() {
    let mut machine = machine_with(&[0x61, 0xFF, 0x71, 0x02]);
    run(&mut machine, 2);
    assert_eq!(machine.get_register(1), Some(0x01));
    assert_eq!(machine.get_register(0xF), Some(1));
}

#[test]
fn subtraction_wraps_and_clears_flag_on_borrow() {
    // reg0 := 5, reg1 := 10, reg0 := reg0 - reg1.
    let mut machine = machine_with(&[0x60, 0x05, 0x61, 0x0A, 0x80, 0x15]);
    run(&mut machine, 3);
    assert_eq!(machine.get_register(0), Some(0xFB));
    assert_eq!(machine.get_register(0xF), Some(0));
}

#[test]
fn subtraction_without_borrow_sets_flag() {
    let mut machine = machine_with(&[0x60, 0x0A, 0x61, 0x05, 0x80, 0x15]);
    run(&mut machine, 3);
    assert_eq!(machine.get_register(0), Some(0x05));
    assert_eq!(machine.get_register(0xF), Some(1));
}

#[test]
fn shift_right_keeps_low_bit_in_flag() {
    let mut machine = machine_with(&[0x61, 0x03, 0x81, 0x06]);
    run(&mut machine, 2);
    assert_eq!(machine.get_register(1), Some(0x01));
    assert_eq!(machine.get_register(0xF), Some(0x01));
}

#[test]
fn shift_left_keeps_unmasked_high_bit_in_flag() {
    // The flag receives the raw masked byte 0x80, not a normalized 1.
    let mut machine = machine_with(&[0x61, 0xC0, 0x81, 0x0E]);
    run(&mut machine, 2);
    assert_eq!(machine.get_register(1), Some(0x80));
    assert_eq!(machine.get_register(0xF), Some(0x80));
}

#[test]
fn rom_of_exactly_available_memory_loads() {
    let machine = machine_with(&vec![0u8; 4096 - 512]);
    assert_eq!(machine.get_program_counter(), 0x200);
}

#[test]
fn rom_one_byte_too_large_is_rejected() {
    let mut machine = Chip8::new();
    let image = vec![0u8; 4096 - 512 + 1];
    assert_eq!(
        machine.load_rom(&image),
        Err(Error::EngineError(EngineError::RomTooLarge { size: 3585 }))
    );
}

#[test]
fn engine_rejects_oversized_rom() {
    let mut engine = Engine::new();
    let image = vec![0u8; 4096 - 512 + 1];
    assert_eq!(
        engine.load_rom(&image),
        Err(EngineError::RomTooLarge { size: 3585 })
    );
}

#[test]
fn load_rom_resets_prior_state() {
    let mut machine = machine_with(&[0x61, 0x32, 0xF1, 0x15]);
    run(&mut machine, 2);
    assert_eq!(machine.get_delay_timer(), 0x32);
    machine.load_rom(&[0x00, 0xE0]).unwrap();
    assert_eq!(machine.get_register(1), Some(0));
    assert_eq!(machine.get_delay_timer(), 0);
    assert_eq!(machine.get_program_counter(), 0x200);
}

#[test]
fn await_key_press_blocks_until_a_key_arrives() {
    let mut machine = machine_with(&[0xF1, 0x0A]);
    machine.execute_cycle().unwrap();
    assert_eq!(machine.get_program_counter(), 0x200);
    machine.execute_cycle().unwrap();
    assert_eq!(machine.get_program_counter(), 0x200);
    machine.key_down(7).unwrap();
    machine.execute_cycle().unwrap();
    assert_eq!(machine.get_program_counter(), 0x202);
    assert_eq!(machine.get_register(1), Some(7));
}

#[test]
fn await_key_press_takes_the_first_pressed_key() {
    let mut machine = machine_with(&[0xF0, 0x0A]);
    machine.key_down(9).unwrap();
    machine.key_down(3).unwrap();
    machine.execute_cycle().unwrap();
    assert_eq!(machine.get_register(0), Some(3));
}

#[test]
fn unknown_opcode_reports_low_byte() {
    let mut machine = machine_with(&[0x00, 0xFD]);
    assert_eq!(
        machine.execute_cycle(),
        Err(Error::EngineError(EngineError::OpCodeNotFound { op_code: 0xFD }))
    );
    // A failed decode keeps only the unconditional advance.
    assert_eq!(machine.get_program_counter(), 0x202);
    let mut machine = machine_with(&[0x80, 0x09]);
    assert_eq!(
        machine.execute_cycle(),
        Err(Error::EngineError(EngineError::OpCodeNotFound { op_code: 0x09 }))
    );
    let mut machine = machine_with(&[0xE2, 0x34]);
    assert_eq!(
        machine.execute_cycle(),
        Err(Error::EngineError(EngineError::OpCodeNotFound { op_code: 0x34 }))
    );
    let mut machine = machine_with(&[0xF4, 0x42]);
    assert_eq!(
        machine.execute_cycle(),
        Err(Error::EngineError(EngineError::OpCodeNotFound { op_code: 0x42 }))
    );
}

#[test]
fn skips_compare_register_and_immediate() {
    // 0x3105 skips the next instruction exactly when reg1 == 5.
    let mut machine = machine_with(&[0x61, 0x05, 0x31, 0x05]);
    run(&mut machine, 2);
    assert_eq!(machine.get_program_counter(), 0x206);
    let mut machine = machine_with(&[0x61, 0x04, 0x31, 0x05]);
    run(&mut machine, 2);
    assert_eq!(machine.get_program_counter(), 0x204);
}

#[test]
fn jump_call_and_return_drive_the_stack() {
    // Call 0x206, return, and land after the call.
    let mut machine = machine_with(&[0x22, 0x06, 0x00, 0x00, 0x00, 0x00, 0x00, 0xEE]);
    machine.execute_cycle().unwrap();
    assert_eq!(machine.get_program_counter(), 0x206);
    machine.execute_cycle().unwrap();
    assert_eq!(machine.get_program_counter(), 0x202);
}

#[test]
fn seventeenth_nested_call_overflows_the_stack() {
    // The program calls its own first instruction forever; the 16-slot
    // stack fills after 16 calls and the next one fails.
    let mut machine = machine_with(&[0x22, 0x00]);
    for _ in 0..16 {
        machine.execute_cycle().unwrap();
    }
    assert_eq!(
        machine.execute_cycle(),
        Err(Error::EngineError(EngineError::StackOverflow))
    );
}

#[test]
fn return_with_empty_stack_fails() {
    let mut machine = machine_with(&[0x00, 0xEE]);
    assert_eq!(
        machine.execute_cycle(),
        Err(Error::EngineError(EngineError::StackUnderflow))
    );
}

#[test]
fn jump_with_offset_uses_register_zero() {
    let mut machine = machine_with(&[0x60, 0x05, 0xB3, 0x00]);
    run(&mut machine, 2);
    assert_eq!(machine.get_program_counter(), 0x305);
}

#[test]
fn program_counter_out_of_memory_fails() {
    let mut machine = machine_with(&[0x1F, 0xFF]);
    machine.execute_cycle().unwrap();
    assert_eq!(machine.get_program_counter(), 0xFFF);
    assert_eq!(
        machine.execute_cycle(),
        Err(Error::EngineError(EngineError::MemoryOutOfBounds { address: 0xFFF }))
    );
}

#[test]
fn timers_decrement_and_saturate_at_zero() {
    let mut machine = machine_with(&[0x61, 0x02, 0xF1, 0x15, 0xF1, 0x18]);
    run(&mut machine, 3);
    assert_eq!(machine.get_delay_timer(), 2);
    assert!(machine.is_sound_active());
    machine.decrement_timer().unwrap();
    assert_eq!(machine.get_delay_timer(), 1);
    assert!(machine.is_sound_active());
    machine.decrement_timer().unwrap();
    machine.decrement_timer().unwrap();
    machine.decrement_timer().unwrap();
    assert_eq!(machine.get_delay_timer(), 0);
    assert!(!machine.is_sound_active());
}

#[test]
fn delay_timer_reads_back_through_fx07() {
    let mut machine = machine_with(&[0x61, 0x09, 0xF1, 0x15, 0xF2, 0x07]);
    run(&mut machine, 3);
    assert_eq!(machine.get_register(2), Some(9));
}

#[test]
fn index_register_loads_and_accumulates() {
    let mut machine = machine_with(&[0xA1, 0x00, 0x61, 0x0A, 0xF1, 0x1E]);
    run(&mut machine, 3);
    assert_eq!(machine.get_index(), 0x10A);
}

#[test]
fn font_sprite_address_is_five_times_the_digit() {
    let mut machine = machine_with(&[0x61, 0x03, 0xF1, 0x29]);
    run(&mut machine, 2);
    assert_eq!(machine.get_index(), 15);
}

#[test]
fn font_data_sits_at_the_bottom_of_memory() {
    let machine = Chip8::new();
    assert_eq!(machine.get_memory_byte(0), Some(0xF0));
    assert_eq!(machine.get_memory_byte(79), Some(0x80));
    assert_eq!(machine.get_memory_byte(80), Some(0x00));
    assert_eq!(machine.get_memory_byte(4096), None);
}

#[test]
fn bcd_of_register_lands_at_index() {
    let mut machine = machine_with(&[0x61, 0xFB, 0xA3, 0x00, 0xF1, 0x33]);
    run(&mut machine, 3);
    assert_eq!(machine.get_memory_byte(0x300), Some(2));
    assert_eq!(machine.get_memory_byte(0x301), Some(5));
    assert_eq!(machine.get_memory_byte(0x302), Some(1));
}

#[test]
fn bcd_near_the_end_of_memory_fails() {
    let mut machine = machine_with(&[0xAF, 0xFF, 0xF0, 0x33]);
    machine.execute_cycle().unwrap();
    assert_eq!(
        machine.execute_cycle(),
        Err(Error::EngineError(EngineError::MemoryOutOfBounds { address: 0xFFF }))
    );
}

#[test]
fn registers_store_to_and_load_from_memory() {
    let mut machine = machine_with(&[
        0x60, 0x05, // reg0 := 5
        0x61, 0x07, // reg1 := 7
        0xA4, 0x00, // index := 0x400
        0xF1, 0x55, // memory[index..=index+1] := reg0..=reg1
        0x60, 0x00, // reg0 := 0
        0x61, 0x00, // reg1 := 0
        0xF1, 0x65, // reg0..=reg1 := memory[index..=index+1]
    ]);
    run(&mut machine, 4);
    assert_eq!(machine.get_memory_byte(0x400), Some(5));
    assert_eq!(machine.get_memory_byte(0x401), Some(7));
    run(&mut machine, 3);
    assert_eq!(machine.get_register(0), Some(5));
    assert_eq!(machine.get_register(1), Some(7));
}

#[test]
fn random_opcode_masks_the_first_generator_output() {
    // The engine is seeded with 42, so the first output is 0xFFEE6ECE.
    let mut machine = machine_with(&[0xC0, 0xFF, 0xC1, 0x0F]);
    machine.execute_cycle().unwrap();
    assert_eq!(machine.get_register(0), Some(0xCE));
    machine.execute_cycle().unwrap();
    assert_eq!(machine.get_register(1), Some((366958157u32 & 0x0F) as u8));
}

#[test]
fn draw_opcode_sets_collision_flag_on_second_draw() {
    // index stays 0, where font glyph 0 begins with 0xF0: one row of four
    // lit pixels at (0, 0).
    let mut machine = machine_with(&[0xD0, 0x01, 0xD0, 0x01]);
    machine.execute_cycle().unwrap();
    assert_eq!(machine.get_register(0xF), Some(0));
    let screen = machine.get_display();
    assert_eq!(&screen[0..5], &[1, 1, 1, 1, 0]);
    machine.execute_cycle().unwrap();
    assert_eq!(machine.get_register(0xF), Some(1));
    let screen = machine.get_display();
    assert_eq!(&screen[0..5], &[0, 0, 0, 0, 0]);
}

#[test]
fn clear_screen_opcode_blanks_the_display() {
    let mut machine = machine_with(&[0xD0, 0x01, 0x00, 0xE0]);
    run(&mut machine, 2);
    let screen = machine.get_display();
    assert_eq!(screen.len(), 64 * 32);
    assert!(screen.iter().all(|&pixel| pixel == 0));
}

#[test]
fn key_skips_test_the_named_register() {
    // EX9E skips when the key in reg1 is down.
    let mut machine = machine_with(&[0x61, 0x04, 0xE1, 0x9E]);
    machine.key_down(4).unwrap();
    run(&mut machine, 2);
    assert_eq!(machine.get_program_counter(), 0x206);
    // EXA1 skips when the key is up.
    let mut machine = machine_with(&[0x61, 0x04, 0xE1, 0xA1]);
    run(&mut machine, 2);
    assert_eq!(machine.get_program_counter(), 0x206);
    let mut machine = machine_with(&[0x61, 0x04, 0xE1, 0xA1]);
    machine.key_down(4).unwrap();
    run(&mut machine, 2);
    assert_eq!(machine.get_program_counter(), 0x204);
}

#[test]
fn key_skip_with_bad_register_value_fails() {
    let mut machine = machine_with(&[0x61, 0x10, 0xE1, 0x9E]);
    machine.execute_cycle().unwrap();
    assert_eq!(
        machine.execute_cycle(),
        Err(Error::EngineError(EngineError::InputError(InputError::OutOfBounds {
            index: 16,
            size: 16
        })))
    );
}

#[test]
fn machine_key_events_check_bounds() {
    let mut machine = Chip8::new();
    machine.key_down(15).unwrap();
    machine.key_up(15).unwrap();
    assert_eq!(
        machine.key_down(16),
        Err(Error::EngineError(EngineError::InputError(InputError::OutOfBounds {
            index: 16,
            size: 16
        })))
    );
}

#[test]
fn display_dimensions_are_fixed() {
    let machine = Chip8::new();
    assert_eq!(machine.get_width(), 64);
    assert_eq!(machine.get_height(), 32);
}

#[test]
fn errors_render_human_readable_messages() {
    let error = EngineError::OpCodeNotFound { op_code: 0xFD };
    assert_eq!(error.to_string(), "opcode not found");
    let wrapped = Error::EngineError(EngineError::StackUnderflow);
    assert_eq!(wrapped.to_string(), "call stack underflow");
    let display_error = DisplayError::OutOfBounds { x: 64, y: 0, width: 64, height: 32 };
    assert_eq!(
        display_error.to_string(),
        "pixel coordinates out of bounds for the display"
    );
    let input_error = InputError::OutOfBounds { index: 16, size: 16 };
    assert_eq!(input_error.to_string(), "key index out of bounds for the key pad");
}
