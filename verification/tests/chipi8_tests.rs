use chipi8::machine::MAX_ROM_SIZE;
use chipi8::{command_for_key_event, Chipi8, EmulatorCommand, Fault, Halt, StepOutcome, TickOutcome};

/// Execute a sequence of instruction words, expecting each to continue.
fn run_all(chip: &mut Chipi8, instrs: &[u16]) {
    for &instr in instrs {
        assert_eq!(chip.execute(instr, 0), StepOutcome::Continue, "instr {instr:04X}");
    }
}

fn lit_pixels(chip: &Chipi8) -> usize {
    let mut n = 0;
    for r in 0..32 {
        for c in 0..64 {
            if chip.pixel(r, c) {
                n += 1;
            }
        }
    }
    n
}

#[test]
fn new_machine_initial_state() {
    let chip = Chipi8::new();
    assert_eq!(chip.pc(), 0x200);
    assert_eq!(chip.index(), 0);
    assert_eq!(chip.stack_pointer(), 0);
    assert_eq!(chip.delay_timer(), 0);
    assert_eq!(chip.sound_timer(), 0);
    assert_eq!(chip.speed(), 1);
    assert!(!chip.is_paused());
    for x in 0..16 {
        assert_eq!(chip.register(x), 0);
    }
    for k in 0..16u8 {
        assert_eq!(chip.key_state(k), Some(false));
    }
    assert_eq!(chip.key_state(16), None);
    assert_eq!(lit_pixels(&chip), 0);
}

#[test]
fn new_machine_holds_font() {
    let chip = Chipi8::new();
    let zero = [0xF0, 0x90, 0x90, 0x90, 0xF0];
    let one = [0x20, 0x60, 0x20, 0x20, 0x70];
    let f = [0xF0, 0x80, 0xF0, 0x80, 0x80];
    for r in 0..5 {
        assert_eq!(chip.memory(0x00 + r), zero[r]);
        assert_eq!(chip.memory(0x08 + r), one[r]);
        assert_eq!(chip.memory(0x78 + r), f[r]);
    }
    // the three bytes after each glyph and everything past the font are zero
    for r in 5..8 {
        assert_eq!(chip.memory(0x08 + r), 0);
    }
    assert_eq!(chip.memory(0x80), 0);
    assert_eq!(chip.memory(0x200), 0);
    assert_eq!(chip.memory(4095), 0);
}

#[test]
fn set_speed_changes_speed() {
    let mut chip = Chipi8::new();
    chip.set_speed(7);
    assert_eq!(chip.speed(), 7);
    assert_eq!(chip.pc(), 0x200);
}

#[test]
fn cycle_delay_depends_on_speed() {
    let mut chip = Chipi8::new();
    assert_eq!(chip.cycle_delay_micros(), 1667);
    chip.set_speed(3);
    assert_eq!(chip.cycle_delay_micros(), 555);
}

#[test]
fn load_rom_places_program_and_fetch_reads_it() {
    let mut chip = Chipi8::new();
    chip.load_rom(&[0x12, 0x34, 0xAB]);
    assert_eq!(chip.memory(0x200), 0x12);
    assert_eq!(chip.memory(0x201), 0x34);
    assert_eq!(chip.memory(0x202), 0xAB);
    assert_eq!(chip.memory(0x203), 0);
    assert_eq!(chip.fetch(), 0x1234);
    // the font is untouched
    assert_eq!(chip.memory(0), 0xF0);
}

#[test]
fn load_rom_of_maximal_size_fills_memory() {
    let mut chip = Chipi8::new();
    let rom = vec![0x5Au8; MAX_ROM_SIZE];
    chip.load_rom(&rom);
    assert_eq!(chip.memory(0x200), 0x5A);
    assert_eq!(chip.memory(4095), 0x5A);
    assert_eq!(chip.memory(0x1FF), 0);
}

#[test]
fn load_and_add_immediate() {
    let mut chip = Chipi8::new();
    run_all(&mut chip, &[0x63FF, 0x7302]);
    assert_eq!(chip.register(3), 0x01); // wraps, VF untouched
    assert_eq!(chip.register(0xF), 0);
    assert_eq!(chip.pc(), 0x204);
}

#[test]
fn logic_operations() {
    let mut chip = Chipi8::new();
    run_all(&mut chip, &[0x61F0, 0x623C, 0x8120]);
    assert_eq!(chip.register(1), 0x3C);
    run_all(&mut chip, &[0x61F0, 0x8121]);
    assert_eq!(chip.register(1), 0xFC);
    run_all(&mut chip, &[0x61F0, 0x8122]);
    assert_eq!(chip.register(1), 0x30);
    run_all(&mut chip, &[0x61F0, 0x8123]);
    assert_eq!(chip.register(1), 0xCC);
}

#[test]
fn add_sets_carry() {
    let mut chip = Chipi8::new();
    run_all(&mut chip, &[0x61C8, 0x6264, 0x8124]);
    assert_eq!(chip.register(1), 0x2C); // 200 + 100 = 300 = 256 + 44
    assert_eq!(chip.register(0xF), 1);
    run_all(&mut chip, &[0x6110, 0x6220, 0x8124]);
    assert_eq!(chip.register(1), 0x30);
    assert_eq!(chip.register(0xF), 0);
}

#[test]
fn sub_sets_not_borrow() {
    let mut chip = Chipi8::new();
    run_all(&mut chip, &[0x6105, 0x6207, 0x8125]);
    assert_eq!(chip.register(1), 0xFE); // 5 - 7 wraps
    assert_eq!(chip.register(0xF), 0);
    run_all(&mut chip, &[0x6109, 0x6207, 0x8125]);
    assert_eq!(chip.register(1), 2);
    assert_eq!(chip.register(0xF), 1);
    // SUBN: Vx = Vy - Vx
    run_all(&mut chip, &[0x6103, 0x6208, 0x8127]);
    assert_eq!(chip.register(1), 5);
    assert_eq!(chip.register(0xF), 1);
    run_all(&mut chip, &[0x6108, 0x6203, 0x8127]);
    assert_eq!(chip.register(1), 0xFB);
    assert_eq!(chip.register(0xF), 0);
}

#[test]
fn shifts_set_flag_from_shifted_out_bit() {
    let mut chip = Chipi8::new();
    run_all(&mut chip, &[0x6105, 0x8106]);
    assert_eq!(chip.register(1), 2);
    assert_eq!(chip.register(0xF), 1);
    run_all(&mut chip, &[0x6104, 0x8106]);
    assert_eq!(chip.register(1), 2);
    assert_eq!(chip.register(0xF), 0);
    run_all(&mut chip, &[0x6181, 0x810E]);
    assert_eq!(chip.register(1), 2);
    assert_eq!(chip.register(0xF), 1);
    run_all(&mut chip, &[0x6141, 0x810E]);
    assert_eq!(chip.register(1), 0x82);
    assert_eq!(chip.register(0xF), 0);
}

#[test]
fn shift_of_flag_register_reads_cleared_flag() {
    let mut chip = Chipi8::new();
    // VF = 3; 8FF6 clears VF first, so the shifted value is 0
    run_all(&mut chip, &[0x6F03, 0x8FF6]);
    assert_eq!(chip.register(0xF), 0);
}

#[test]
fn invalid_alu_operation_halts() {
    let mut chip = Chipi8::new();
    assert_eq!(chip.execute(0x8128, 0), StepOutcome::Halt(Halt::InvalidInstruction(0x8128)));
    assert_eq!(chip.pc(), 0x202);
}

#[test]
fn skips() {
    let mut chip = Chipi8::new();
    run_all(&mut chip, &[0x6111]); // pc 0x202
    run_all(&mut chip, &[0x3111]); // equal: skip
    assert_eq!(chip.pc(), 0x206);
    run_all(&mut chip, &[0x3112]); // not equal: no skip
    assert_eq!(chip.pc(), 0x208);
    run_all(&mut chip, &[0x4112]);
    assert_eq!(chip.pc(), 0x20C);
    run_all(&mut chip, &[0x6211, 0x5120]);
    assert_eq!(chip.pc(), 0x212);
    run_all(&mut chip, &[0x9120]);
    assert_eq!(chip.pc(), 0x214);
}

#[test]
fn jumps() {
    let mut chip = Chipi8::new();
    run_all(&mut chip, &[0x1ABC]);
    assert_eq!(chip.pc(), 0xABC);
    run_all(&mut chip, &[0x6010, 0xB300]);
    assert_eq!(chip.pc(), 0x310);
}

#[test]
fn call_then_return() {
    let mut chip = Chipi8::new();
    run_all(&mut chip, &[0x2400]);
    assert_eq!(chip.pc(), 0x400);
    assert_eq!(chip.stack_pointer(), 1);
    run_all(&mut chip, &[0x00EE]);
    assert_eq!(chip.pc(), 0x202);
    assert_eq!(chip.stack_pointer(), 0);
}

#[test]
fn return_with_empty_stack_halts() {
    let mut chip = Chipi8::new();
    assert_eq!(chip.execute(0x00EE, 0), StepOutcome::Halt(Halt::StackUnderflow));
}

#[test]
fn zero_word_ends_program() {
    let mut chip = Chipi8::new();
    assert_eq!(chip.execute(0x0000, 0), StepOutcome::Halt(Halt::EndOfProgram));
    assert_eq!(chip.pc(), 0x202);
}

#[test]
fn unknown_system_call_halts() {
    let mut chip = Chipi8::new();
    assert_eq!(chip.execute(0x0123, 0), StepOutcome::Halt(Halt::InvalidInstruction(0x0123)));
}

#[test]
fn draw_glyph_then_draw_again_restores() {
    let mut chip = Chipi8::new();
    // I = glyph 0; V0 = V1 = 0; draw 5 rows at (0, 0)
    run_all(&mut chip, &[0xA000, 0x6000, 0x6100, 0xD015]);
    assert_eq!(chip.register(0xF), 0);
    // glyph 0 row 0 is 0xF0: four pixels on
    for c in 0..4 {
        assert!(chip.pixel(0, c));
    }
    assert!(!chip.pixel(0, 4));
    // row 1 is 0x90: pixels 0 and 3
    assert!(chip.pixel(1, 0));
    assert!(!chip.pixel(1, 1));
    assert!(chip.pixel(1, 3));
    assert_eq!(lit_pixels(&chip), 14);
    run_all(&mut chip, &[0xD015]);
    assert_eq!(chip.register(0xF), 1);
    assert_eq!(lit_pixels(&chip), 0);
}

#[test]
fn draw_wraps_around_edges() {
    let mut chip = Chipi8::new();
    // glyph 0 at (62, 31): rows wrap to 31, 0, 1, 2, 3 and columns to 62, 63, 0, 1
    run_all(&mut chip, &[0xA000, 0x603E, 0x611F, 0xD015]);
    assert!(chip.pixel(31, 62));
    assert!(chip.pixel(31, 63));
    assert!(chip.pixel(31, 0));
    assert!(chip.pixel(31, 1));
    assert!(chip.pixel(0, 62));
    assert!(!chip.pixel(0, 63));
    assert!(chip.pixel(0, 1));
    assert_eq!(lit_pixels(&chip), 14);
}

#[test]
fn clear_screen() {
    let mut chip = Chipi8::new();
    run_all(&mut chip, &[0xA000, 0xD005, 0x00E0]);
    assert_eq!(lit_pixels(&chip), 0);
}

#[test]
fn flat_display_matches_pixels() {
    let mut chip = Chipi8::new();
    run_all(&mut chip, &[0xA008, 0x6005, 0x6102, 0xD015]);
    let flat = chip.flat_display();
    for r in 0..32 {
        for c in 0..64 {
            assert_eq!(flat[r * 64 + c], if chip.pixel(r, c) { 1 } else { 0 });
        }
    }
    // glyph 1 row 0 is 0x20: only column 5 + 2
    assert_eq!(flat[2 * 64 + 7], 1);
    assert_eq!(flat[2 * 64 + 6], 0);
}

#[test]
fn bcd_of_register() {
    let mut chip = Chipi8::new();
    run_all(&mut chip, &[0x6A9C, 0xA300, 0xFA33]); // 156
    assert_eq!(chip.memory(0x300), 1);
    assert_eq!(chip.memory(0x301), 5);
    assert_eq!(chip.memory(0x302), 6);
    run_all(&mut chip, &[0x6AFF, 0xFA33]);
    assert_eq!(chip.memory(0x300), 2);
    assert_eq!(chip.memory(0x301), 5);
    assert_eq!(chip.memory(0x302), 5);
}

#[test]
fn store_and_load_registers() {
    let mut chip = Chipi8::new();
    run_all(&mut chip, &[0x6011, 0x6122, 0x6233, 0x6344, 0xA300, 0xF255]);
    assert_eq!(chip.memory(0x300), 0x11);
    assert_eq!(chip.memory(0x301), 0x22);
    assert_eq!(chip.memory(0x302), 0x33);
    assert_eq!(chip.memory(0x303), 0); // V3 not stored
    run_all(&mut chip, &[0x6000, 0x6100, 0x6200, 0x6399, 0xF265]);
    assert_eq!(chip.register(0), 0x11);
    assert_eq!(chip.register(1), 0x22);
    assert_eq!(chip.register(2), 0x33);
    assert_eq!(chip.register(3), 0x99);
    assert_eq!(chip.index(), 0x300); // I is not moved
}

#[test]
fn timers_and_index() {
    let mut chip = Chipi8::new();
    run_all(&mut chip, &[0x6507, 0xF515, 0xF607]);
    assert_eq!(chip.delay_timer(), 7);
    assert_eq!(chip.register(6), 7);
    run_all(&mut chip, &[0xA123, 0xF51E]);
    assert_eq!(chip.index(), 0x12A);
    run_all(&mut chip, &[0x650B, 0xF529]);
    assert_eq!(chip.index(), 0x58);
}

#[test]
fn sound_timer_starts_tone_above_one() {
    let mut chip = Chipi8::new();
    run_all(&mut chip, &[0x6501]);
    assert_eq!(chip.execute(0xF518, 0), StepOutcome::Continue);
    assert_eq!(chip.sound_timer(), 1);
    run_all(&mut chip, &[0x6502]);
    assert_eq!(chip.execute(0xF518, 0), StepOutcome::StartSound);
    assert_eq!(chip.sound_timer(), 2);
}

#[test]
fn glyph_of_large_value_halts() {
    let mut chip = Chipi8::new();
    run_all(&mut chip, &[0x6510]);
    assert_eq!(chip.execute(0xF529, 0), StepOutcome::Halt(Halt::InvalidSprite));
}

#[test]
fn unknown_f_and_e_operations_halt() {
    let mut chip = Chipi8::new();
    assert_eq!(chip.execute(0xF5FF, 0), StepOutcome::Halt(Halt::InvalidInstruction(0xF5FF)));
    assert_eq!(chip.execute(0xE500, 0), StepOutcome::Halt(Halt::InvalidInstruction(0xE500)));
}

#[test]
fn random_byte_is_masked() {
    let mut chip = Chipi8::new();
    run_all(&mut chip, &[0xC30F]);
    assert_eq!(chip.register(3), 0); // the byte given was 0
    assert_eq!(chip.execute(0xC30F, 0xAB), StepOutcome::Continue);
    assert_eq!(chip.register(3), 0x0B);
}

#[test]
fn step_draws_random_byte_within_mask() {
    for _ in 0..20 {
        let mut chip = Chipi8::new();
        chip.load_rom(&[0xC3, 0x0F]);
        assert_eq!(chip.step(), StepOutcome::Continue);
        assert_eq!(chip.register(3) & 0xF0, 0);
        assert_eq!(chip.pc(), 0x202);
    }
}

#[test]
fn step_runs_a_small_program() {
    let mut chip = Chipi8::new();
    // V0 = 5; V0 += 3; I = 0x300; BCD V0; end
    chip.load_rom(&[0x60, 0x05, 0x70, 0x03, 0xA3, 0x00, 0xF0, 0x33, 0x00, 0x00]);
    for _ in 0..4 {
        assert_eq!(chip.step(), StepOutcome::Continue);
    }
    assert_eq!(chip.register(0), 8);
    assert_eq!(chip.memory(0x302), 8);
    assert_eq!(chip.step(), StepOutcome::Halt(Halt::EndOfProgram));
}

#[test]
fn step_faults_on_fetch_past_memory() {
    let mut chip = Chipi8::new();
    run_all(&mut chip, &[0x1FFF]);
    assert_eq!(chip.step(), StepOutcome::Fault(Fault::FetchOutOfBounds));
    assert_eq!(chip.pc(), 0xFFF);
}

#[test]
fn step_faults_on_memory_past_end() {
    let mut chip = Chipi8::new();
    chip.load_rom(&[0xF0, 0x33, 0xD0, 0x05, 0xF3, 0x55, 0xF3, 0x65]);
    run_all(&mut chip, &[0xAFFE]);
    let pc = chip.pc();
    run_all(&mut chip, &[0x1200]);
    assert_eq!(chip.step(), StepOutcome::Fault(Fault::MemoryOutOfBounds));
    assert_eq!(chip.pc(), 0x200);
    assert_eq!(chip.memory(0xFFE), 0);
    run_all(&mut chip, &[0x1202]);
    assert_eq!(chip.step(), StepOutcome::Fault(Fault::MemoryOutOfBounds));
    run_all(&mut chip, &[0x1204]);
    assert_eq!(chip.step(), StepOutcome::Fault(Fault::MemoryOutOfBounds));
    run_all(&mut chip, &[0x1206]);
    assert_eq!(chip.step(), StepOutcome::Fault(Fault::MemoryOutOfBounds));
    assert_eq!(pc, 0x202);
}

#[test]
fn step_faults_on_index_overflow() {
    let mut chip = Chipi8::new();
    chip.load_rom(&[0xF0, 0x1E]);
    // raise I with Fx1E steps of 0xFF while that does not overflow
    run_all(&mut chip, &[0x60FF, 0xA000]);
    while chip.index() as u32 + 0xFF <= 0xFFFF {
        run_all(&mut chip, &[0xF01E]);
    }
    run_all(&mut chip, &[0x1200]);
    assert_eq!(chip.step(), StepOutcome::Fault(Fault::IndexOverflow));
}

#[test]
fn step_faults_on_stack_overflow() {
    let mut chip = Chipi8::new();
    chip.load_rom(&[0x22, 0x00]); // calls itself forever
    for _ in 0..255 {
        assert_eq!(chip.step(), StepOutcome::Continue);
    }
    assert_eq!(chip.stack_pointer(), 255);
    assert_eq!(chip.step(), StepOutcome::Fault(Fault::StackOverflow));
    assert_eq!(chip.stack_pointer(), 255);
}

#[test]
fn key_skips_follow_keypad() {
    let mut chip = Chipi8::new();
    run_all(&mut chip, &[0x6505]); // pc 0x202
    run_all(&mut chip, &[0xE59E]); // key 5 up: no skip
    assert_eq!(chip.pc(), 0x204);
    run_all(&mut chip, &[0xE5A1]); // up: skip
    assert_eq!(chip.pc(), 0x208);
    assert!(!chip.apply_command(EmulatorCommand::KeyPress(5)));
    run_all(&mut chip, &[0xE59E]);
    assert_eq!(chip.pc(), 0x20C);
    run_all(&mut chip, &[0xE5A1]);
    assert_eq!(chip.pc(), 0x20E);
}

#[test]
fn key_test_on_missing_key_halts() {
    let mut chip = Chipi8::new();
    run_all(&mut chip, &[0x6520]);
    assert_eq!(chip.execute(0xE59E, 0), StepOutcome::Halt(Halt::InvalidKey));
    // a key code sent by the front end becomes a key of the keypad
    assert!(!chip.apply_command(EmulatorCommand::KeyRelease(0x20)));
    assert_eq!(chip.execute(0xE5A1, 0), StepOutcome::Continue);
}

#[test]
fn wait_for_key() {
    let mut chip = Chipi8::new();
    assert_eq!(chip.execute(0xF30A, 0), StepOutcome::Continue);
    assert_eq!(chip.pc(), 0x200); // repeated
    chip.apply_command(EmulatorCommand::KeyPress(9));
    chip.apply_command(EmulatorCommand::KeyPress(4));
    assert_eq!(chip.execute(0xF30A, 0), StepOutcome::Continue);
    assert_eq!(chip.register(3), 4); // the lowest held key
    assert_eq!(chip.pc(), 0x202);
}

#[test]
fn commands() {
    let mut chip = Chipi8::new();
    assert!(!chip.apply_command(EmulatorCommand::KeyPress(0x10A))); // truncated to 0x0A
    assert_eq!(chip.key_state(0x0A), Some(true));
    assert!(!chip.apply_command(EmulatorCommand::KeyRelease(0x0A)));
    assert_eq!(chip.key_state(0x0A), Some(false));
    assert!(!chip.apply_command(EmulatorCommand::SetPaused(true)));
    assert!(chip.is_paused());
    assert!(!chip.apply_command(EmulatorCommand::SetSpeed(4)));
    assert_eq!(chip.speed(), 4);
    assert!(chip.apply_command(EmulatorCommand::Terminate));
    assert!(chip.is_paused());
}

#[test]
fn key_events_map_to_commands() {
    assert_eq!(command_for_key_event(0x10, true), EmulatorCommand::SetPaused(true));
    assert_eq!(command_for_key_event(0x11, false), EmulatorCommand::SetPaused(false));
    assert_eq!(command_for_key_event(0x12, true), EmulatorCommand::Terminate);
    assert_eq!(command_for_key_event(0x20, true), EmulatorCommand::SetSpeed(0));
    assert_eq!(command_for_key_event(0x25, false), EmulatorCommand::SetSpeed(5));
    assert_eq!(command_for_key_event(0x0C, true), EmulatorCommand::KeyPress(0x0C));
    assert_eq!(command_for_key_event(0x0C, false), EmulatorCommand::KeyRelease(0x0C));
    assert_eq!(command_for_key_event(0x13, true), EmulatorCommand::KeyPress(0x13));
}

#[test]
fn ticks_count_frames_and_timers() {
    let mut chip = Chipi8::new();
    run_all(&mut chip, &[0x6002, 0xF015]);
    assert_eq!(chip.execute(0xF018, 0), StepOutcome::StartSound);
    let mut counter = 0u32;
    for k in 1..10 {
        let t = chip.tick(&mut counter);
        assert_eq!(t, TickOutcome { paused: false, redraw: false, stop_sound: false });
        assert_eq!(counter, k);
    }
    assert_eq!(chip.delay_timer(), 2);
    let t = chip.tick(&mut counter);
    assert_eq!(t, TickOutcome { paused: false, redraw: true, stop_sound: false });
    assert_eq!(counter, 0);
    assert_eq!(chip.delay_timer(), 1);
    assert_eq!(chip.sound_timer(), 1);
    for _ in 1..10 {
        chip.tick(&mut counter);
    }
    let t = chip.tick(&mut counter);
    assert_eq!(t, TickOutcome { paused: false, redraw: true, stop_sound: true });
    assert_eq!(chip.delay_timer(), 0);
    assert_eq!(chip.sound_timer(), 0);
    for _ in 0..10 {
        chip.tick(&mut counter);
    }
    assert_eq!(chip.delay_timer(), 0); // stays at zero
}

#[test]
fn paused_tick_does_nothing() {
    let mut chip = Chipi8::new();
    run_all(&mut chip, &[0x6005, 0xF015]);
    chip.apply_command(EmulatorCommand::SetPaused(true));
    let mut counter = 9u32;
    let t = chip.tick(&mut counter);
    assert_eq!(t, TickOutcome { paused: true, redraw: false, stop_sound: false });
    assert_eq!(counter, 9);
    assert_eq!(chip.delay_timer(), 5);
}

#[test]
fn glyph_address_points_at_font() {
    let mut chip = Chipi8::new();
    let seven = [0xF0, 0x10, 0x20, 0x40, 0x40];
    run_all(&mut chip, &[0x6407, 0xF429]);
    let i = chip.index() as usize;
    assert_eq!(i, 0x38);
    for r in 0..5 {
        assert_eq!(chip.memory(i + r), seven[r]);
    }
}

#[test]
fn instructions_leave_host_state() {
    let mut chip = Chipi8::new();
    chip.set_speed(5);
    chip.apply_command(EmulatorCommand::KeyPress(3));
    run_all(&mut chip, &[0x6003, 0xF015, 0xA300, 0xF055, 0x00E0, 0x2400]);
    assert_eq!(chip.speed(), 5);
    assert!(!chip.is_paused());
    assert_eq!(chip.key_state(3), Some(true));
    assert_eq!(chip.key_state(4), Some(false));
}
