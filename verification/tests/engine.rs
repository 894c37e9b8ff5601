use chip8_emulator::cpu::CPU;
use chip8_emulator::display::Display;
use chip8_emulator::keyboard::Keyboard;
use chip8_emulator::machine::{EngineError, LoadError, RunState};

struct Machine {
    cpu: CPU,
    display: Display,
    keyboard: Keyboard,
}

fn machine() -> Machine {
    Machine { cpu: CPU::new(), display: Display::new(), keyboard: Keyboard::new() }
}

fn run(m: &mut Machine, opcode: u16) -> Result<(), EngineError> {
    m.cpu.execute(opcode, &mut m.display, &mut m.keyboard)
}

fn run_all(m: &mut Machine, opcodes: &[u16]) {
    for &opcode in opcodes {
        assert_eq!(run(m, opcode), Ok(()));
    }
}

fn lit_pixels(display: &Display) -> Vec<(usize, usize)> {
    let mut lit = Vec::new();
    for (y, row) in display.pixel_grid().iter().enumerate() {
        for (x, &pixel) in row.iter().enumerate() {
            if pixel {
                lit.push((x, y));
            }
        }
    }
    lit
}

#[test]
fn new_cpu_starts_at_program_start() {
    let cpu = CPU::new();
    assert_eq!(cpu.pc(), 0x200);
    assert_eq!(cpu.index(), 0);
    assert_eq!(cpu.stack_depth(), 0);
    assert_eq!(cpu.delay_timer(), 0);
    assert_eq!(cpu.sound_timer(), 0);
    assert_eq!(cpu.run_state(), RunState::Running);
    for x in 0..16 {
        assert_eq!(cpu.register(x), 0);
    }
    assert_eq!(cpu.memory_at(0), Ok(0));
    assert_eq!(cpu.memory_at(0x200), Ok(0));
    assert_eq!(cpu.memory_at(4095), Ok(0));
    assert_eq!(cpu.memory_at(4096), Err(EngineError::MemoryAccess));
}

#[test]
fn load_copies_the_program_to_0x200() {
    let mut cpu = CPU::new();
    assert_eq!(cpu.load_rom(&[0xAA, 0xBB, 0xCC]), Ok(()));
    assert_eq!(cpu.memory_at(0x1FF), Ok(0));
    assert_eq!(cpu.memory_at(0x200), Ok(0xAA));
    assert_eq!(cpu.memory_at(0x201), Ok(0xBB));
    assert_eq!(cpu.memory_at(0x202), Ok(0xCC));
    assert_eq!(cpu.memory_at(0x203), Ok(0));
    assert_eq!(cpu.pc(), 0x200);
}

#[test]
fn load_accepts_the_largest_program() {
    let mut cpu = CPU::new();
    let rom = vec![0x5A; 4096 - 0x200];
    assert_eq!(cpu.load_rom(&rom), Ok(()));
    assert_eq!(cpu.memory_at(0x200), Ok(0x5A));
    assert_eq!(cpu.memory_at(4095), Ok(0x5A));
    assert_eq!(cpu.memory_at(0x1FF), Ok(0));
}

#[test]
fn load_rejects_a_program_that_is_too_large_and_writes_nothing() {
    let mut cpu = CPU::new();
    let rom = vec![0x5A; 4096 - 0x200 + 1];
    assert_eq!(cpu.load_rom(&rom), Err(LoadError { length: 3585 }));
    assert_eq!(cpu.memory_at(0x200), Ok(0));
    assert_eq!(cpu.memory_at(4095), Ok(0));
}

#[test]
fn load_of_an_empty_program_changes_nothing() {
    let mut cpu = CPU::new();
    assert_eq!(cpu.load_rom(&[]), Ok(()));
    assert_eq!(cpu.memory_at(0x200), Ok(0));
}

#[test]
fn fetch_reads_big_endian_and_advances_by_two() {
    let mut cpu = CPU::new();
    cpu.load_rom(&[0x12, 0x34, 0xAB, 0xCD]).unwrap();
    assert_eq!(cpu.fetch(), Ok(0x1234));
    assert_eq!(cpu.pc(), 0x202);
    assert_eq!(cpu.fetch(), Ok(0xABCD));
    assert_eq!(cpu.pc(), 0x204);
}

#[test]
fn fetch_past_the_end_of_memory_is_an_error() {
    let mut m = machine();
    run_all(&mut m, &[0x1FFF]);
    assert_eq!(m.cpu.pc(), 0xFFF);
    assert_eq!(m.cpu.fetch(), Err(EngineError::MemoryAccess));
    assert_eq!(m.cpu.pc(), 0xFFF);
    run_all(&mut m, &[0x1FFE]);
    assert_eq!(m.cpu.fetch(), Ok(0));
    assert_eq!(m.cpu.pc(), 0x1000);
    assert_eq!(m.cpu.fetch(), Err(EngineError::MemoryAccess));
}

#[test]
fn add_immediate_wraps_and_leaves_the_flag_alone() {
    let mut m = machine();
    run_all(&mut m, &[0x6F07, 0x60FF, 0x7001]);
    assert_eq!(m.cpu.register(0), 0x00);
    assert_eq!(m.cpu.register(0xF), 0x07);
}

#[test]
fn add_registers_sets_carry() {
    let mut m = machine();
    run_all(&mut m, &[0x60FF, 0x6101, 0x8014]);
    assert_eq!(m.cpu.register(0), 0x00);
    assert_eq!(m.cpu.register(0xF), 1);
    run_all(&mut m, &[0x6001, 0x6101, 0x8014]);
    assert_eq!(m.cpu.register(0), 0x02);
    assert_eq!(m.cpu.register(0xF), 0);
}

#[test]
fn subtract_sets_flag_when_there_is_no_borrow() {
    let mut m = machine();
    run_all(&mut m, &[0x6005, 0x6103, 0x8015]);
    assert_eq!(m.cpu.register(0), 0x02);
    assert_eq!(m.cpu.register(0xF), 1);
    run_all(&mut m, &[0x6003, 0x6105, 0x8015]);
    assert_eq!(m.cpu.register(0), 0xFE);
    assert_eq!(m.cpu.register(0xF), 0);
    run_all(&mut m, &[0x6004, 0x6104, 0x8015]);
    assert_eq!(m.cpu.register(0), 0);
    assert_eq!(m.cpu.register(0xF), 1);
}

#[test]
fn reverse_subtract_computes_vy_minus_vx() {
    let mut m = machine();
    run_all(&mut m, &[0x6003, 0x6105, 0x8017]);
    assert_eq!(m.cpu.register(0), 0x02);
    assert_eq!(m.cpu.register(0xF), 1);
    run_all(&mut m, &[0x6005, 0x6103, 0x8017]);
    assert_eq!(m.cpu.register(0), 0xFE);
    assert_eq!(m.cpu.register(0xF), 0);
}

#[test]
fn shifts_report_the_bit_that_falls_out() {
    let mut m = machine();
    run_all(&mut m, &[0x6081, 0x8006]);
    assert_eq!(m.cpu.register(0), 0b0100_0000);
    assert_eq!(m.cpu.register(0xF), 1);
    run_all(&mut m, &[0x6081, 0x800E]);
    assert_eq!(m.cpu.register(0), 0b0000_0010);
    assert_eq!(m.cpu.register(0xF), 1);
    run_all(&mut m, &[0x6002, 0x8006]);
    assert_eq!(m.cpu.register(0), 1);
    assert_eq!(m.cpu.register(0xF), 0);
    run_all(&mut m, &[0x6041, 0x800E]);
    assert_eq!(m.cpu.register(0), 0x82);
    assert_eq!(m.cpu.register(0xF), 0);
}

#[test]
fn copy_and_bitwise_operations() {
    let mut m = machine();
    run_all(&mut m, &[0x600C, 0x610A, 0x8210, 0x8011]);
    assert_eq!(m.cpu.register(2), 0x0A);
    assert_eq!(m.cpu.register(0), 0x0E);
    run_all(&mut m, &[0x600C, 0x8012]);
    assert_eq!(m.cpu.register(0), 0x08);
    run_all(&mut m, &[0x600C, 0x8013]);
    assert_eq!(m.cpu.register(0), 0x06);
    assert_eq!(m.cpu.register(1), 0x0A);
}

#[test]
fn flag_register_as_destination_keeps_the_later_write() {
    let mut m = machine();
    run_all(&mut m, &[0x6FFF, 0x6101, 0x8F14]);
    assert_eq!(m.cpu.register(0xF), 1);
    run_all(&mut m, &[0x6F03, 0x8F06]);
    assert_eq!(m.cpu.register(0xF), 0);
    run_all(&mut m, &[0x6F81, 0x8F0E]);
    assert_eq!(m.cpu.register(0xF), 2);
}

#[test]
fn three_steps_of_a_loaded_program() {
    let mut m = machine();
    m.cpu.load_rom(&[0x60, 0x01, 0x70, 0x02, 0xA2, 0x34]).unwrap();
    for _ in 0..3 {
        assert_eq!(m.cpu.step(&mut m.display, &mut m.keyboard), Ok(()));
    }
    assert_eq!(m.cpu.register(0), 3);
    assert_eq!(m.cpu.index(), 0x234);
    assert_eq!(m.cpu.pc(), 0x206);
}

#[test]
fn jump_sets_the_program_counter() {
    let mut m = machine();
    run_all(&mut m, &[0x1ABC]);
    assert_eq!(m.cpu.pc(), 0xABC);
    run_all(&mut m, &[0x60FF, 0xBFFF]);
    assert_eq!(m.cpu.pc(), 0xFFF + 0xFF);
}

#[test]
fn call_then_return_restores_the_program_counter() {
    let mut m = machine();
    m.cpu.load_rom(&[0x23, 0x00]).unwrap();
    let opcode = m.cpu.fetch().unwrap();
    let after_call_instruction = m.cpu.pc();
    assert_eq!(after_call_instruction, 0x202);
    assert_eq!(run(&mut m, opcode), Ok(()));
    assert_eq!(m.cpu.pc(), 0x300);
    assert_eq!(m.cpu.stack_depth(), 1);
    assert_eq!(run(&mut m, 0x00EE), Ok(()));
    assert_eq!(m.cpu.pc(), after_call_instruction);
    assert_eq!(m.cpu.stack_depth(), 0);
}

#[test]
fn nested_calls_return_in_reverse_order() {
    let mut m = machine();
    run_all(&mut m, &[0x2300, 0x2400, 0x2500]);
    assert_eq!(m.cpu.stack_depth(), 3);
    run_all(&mut m, &[0x00EE]);
    assert_eq!(m.cpu.pc(), 0x400);
    run_all(&mut m, &[0x00EE]);
    assert_eq!(m.cpu.pc(), 0x300);
    run_all(&mut m, &[0x00EE]);
    assert_eq!(m.cpu.pc(), 0x200);
}

#[test]
fn return_on_an_empty_stack_is_reported_and_changes_nothing() {
    let mut m = machine();
    assert_eq!(run(&mut m, 0x00EE), Err(EngineError::StackUnderflow));
    assert_eq!(m.cpu.pc(), 0x200);
    assert_eq!(m.cpu.stack_depth(), 0);
    run_all(&mut m, &[0x6005]);
    assert_eq!(m.cpu.register(0), 5);
}

#[test]
fn step_reports_underflow_after_the_fetch() {
    let mut m = machine();
    m.cpu.load_rom(&[0x00, 0xEE]).unwrap();
    assert_eq!(m.cpu.step(&mut m.display, &mut m.keyboard), Err(EngineError::StackUnderflow));
    assert_eq!(m.cpu.pc(), 0x202);
}

#[test]
fn step_at_the_end_of_memory_is_a_memory_error() {
    let mut m = machine();
    run_all(&mut m, &[0x1FFF]);
    assert_eq!(m.cpu.step(&mut m.display, &mut m.keyboard), Err(EngineError::MemoryAccess));
    assert_eq!(m.cpu.pc(), 0xFFF);
}

#[test]
fn skips_on_immediate_compare() {
    let mut m = machine();
    run_all(&mut m, &[0x6042, 0x3042]);
    assert_eq!(m.cpu.pc(), 0x202);
    run_all(&mut m, &[0x3043]);
    assert_eq!(m.cpu.pc(), 0x202);
    run_all(&mut m, &[0x4043]);
    assert_eq!(m.cpu.pc(), 0x204);
    run_all(&mut m, &[0x4042]);
    assert_eq!(m.cpu.pc(), 0x204);
}

#[test]
fn skips_on_register_compare() {
    let mut m = machine();
    run_all(&mut m, &[0x6007, 0x6107, 0x6208, 0x5010]);
    assert_eq!(m.cpu.pc(), 0x202);
    run_all(&mut m, &[0x5020]);
    assert_eq!(m.cpu.pc(), 0x202);
    run_all(&mut m, &[0x9020]);
    assert_eq!(m.cpu.pc(), 0x204);
    run_all(&mut m, &[0x9010]);
    assert_eq!(m.cpu.pc(), 0x204);
}

#[test]
fn skips_on_key_state() {
    let mut m = machine();
    m.keyboard.set_key(5, true);
    run_all(&mut m, &[0x6005, 0x6106, 0xE09E]);
    assert_eq!(m.cpu.pc(), 0x202);
    run_all(&mut m, &[0xE19E]);
    assert_eq!(m.cpu.pc(), 0x202);
    run_all(&mut m, &[0xE1A1]);
    assert_eq!(m.cpu.pc(), 0x204);
    run_all(&mut m, &[0xE0A1]);
    assert_eq!(m.cpu.pc(), 0x204);
    assert!(m.keyboard.is_key_pressed(5));
}

#[test]
fn a_register_value_above_fifteen_names_no_key() {
    let mut m = machine();
    for key in 0..16 {
        m.keyboard.set_key(key, true);
    }
    run_all(&mut m, &[0x6010, 0xE09E]);
    assert_eq!(m.cpu.pc(), 0x200);
    run_all(&mut m, &[0xE0A1]);
    assert_eq!(m.cpu.pc(), 0x202);
    run_all(&mut m, &[0x60FF, 0xE09E]);
    assert_eq!(m.cpu.pc(), 0x202);
}

#[test]
fn random_is_masked_by_the_operand() {
    let mut m = machine();
    for _ in 0..64 {
        run_all(&mut m, &[0x60FF, 0xC00F]);
        assert_eq!(m.cpu.register(0) & 0xF0, 0);
        run_all(&mut m, &[0x61FF, 0xC100]);
        assert_eq!(m.cpu.register(1), 0);
    }
}

#[test]
fn random_with_a_given_byte_is_deterministic() {
    let mut m = machine();
    assert_eq!(m.cpu.execute_with_random(0xC23C, &mut m.display, &mut m.keyboard, 0xA5), Ok(()));
    assert_eq!(m.cpu.register(2), 0xA5 & 0x3C);
    assert_eq!(m.cpu.execute_with_random(0xC2FF, &mut m.display, &mut m.keyboard, 0x5A), Ok(()));
    assert_eq!(m.cpu.register(2), 0x5A);
    m.cpu.load_rom(&[0xC3, 0xF0]).unwrap();
    assert_eq!(m.cpu.step_with_random(&mut m.display, &mut m.keyboard, 0xBC), Ok(()));
    assert_eq!(m.cpu.register(3), 0xB0);
    assert_eq!(m.cpu.pc(), 0x202);
}

#[test]
fn timers_are_read_and_written() {
    let mut m = machine();
    run_all(&mut m, &[0x602A, 0xF015, 0x6133, 0xF118]);
    assert_eq!(m.cpu.delay_timer(), 0x2A);
    assert_eq!(m.cpu.sound_timer(), 0x33);
    m.cpu.set_delay_timer(0x29);
    m.cpu.set_sound_timer(0);
    run_all(&mut m, &[0xF207]);
    assert_eq!(m.cpu.register(2), 0x29);
    assert_eq!(m.cpu.sound_timer(), 0);
    assert_eq!(m.cpu.delay_timer(), 0x29);
}

#[test]
fn index_arithmetic() {
    let mut m = machine();
    run_all(&mut m, &[0xA123, 0x6010, 0xF01E]);
    assert_eq!(m.cpu.index(), 0x133);
    run_all(&mut m, &[0x600A, 0xF029]);
    assert_eq!(m.cpu.index(), 50);
    run_all(&mut m, &[0x60FF, 0xF029]);
    assert_eq!(m.cpu.index(), 1275);
}

#[test]
fn index_addition_wraps_at_sixteen_bits() {
    let mut m = machine();
    run_all(&mut m, &[0x60FF, 0xAFFF]);
    for _ in 0..(0xF000 / 0xFF) {
        run_all(&mut m, &[0xF01E]);
    }
    let before = m.cpu.index();
    assert_eq!(before, 0xFFF + (0xF000 / 0xFF) * 0xFF);
    assert!(before as u32 + 0xFF > 0xFFFF);
    run_all(&mut m, &[0xF01E]);
    assert_eq!(m.cpu.index() as u32, (before as u32 + 0xFF) - 0x10000);
}

#[test]
fn decimal_digits_are_stored_at_the_index() {
    let mut m = machine();
    run_all(&mut m, &[0x60EA, 0xA300, 0xF033]);
    assert_eq!(m.cpu.memory_at(0x300), Ok(2));
    assert_eq!(m.cpu.memory_at(0x301), Ok(3));
    assert_eq!(m.cpu.memory_at(0x302), Ok(4));
    assert_eq!(m.cpu.memory_at(0x303), Ok(0));
    assert_eq!(m.cpu.index(), 0x300);
    run_all(&mut m, &[0x6007, 0xF033]);
    assert_eq!(m.cpu.memory_at(0x300), Ok(0));
    assert_eq!(m.cpu.memory_at(0x301), Ok(0));
    assert_eq!(m.cpu.memory_at(0x302), Ok(7));
}

#[test]
fn decimal_store_past_the_end_of_memory_is_an_error() {
    let mut m = machine();
    run_all(&mut m, &[0x60EA, 0xAFFD, 0xF033]);
    assert_eq!(m.cpu.memory_at(0xFFF), Ok(4));
    run_all(&mut m, &[0xAFFE]);
    assert_eq!(run(&mut m, 0xF033), Err(EngineError::MemoryAccess));
    assert_eq!(m.cpu.memory_at(0xFFE), Ok(3));
    assert_eq!(m.cpu.memory_at(0xFFF), Ok(4));
}

#[test]
fn register_dump_and_load_leave_the_index_alone() {
    let mut m = machine();
    run_all(&mut m, &[0x6011, 0x6122, 0x6233, 0x6344, 0xA400, 0xF255]);
    assert_eq!(m.cpu.memory_at(0x400), Ok(0x11));
    assert_eq!(m.cpu.memory_at(0x401), Ok(0x22));
    assert_eq!(m.cpu.memory_at(0x402), Ok(0x33));
    assert_eq!(m.cpu.memory_at(0x403), Ok(0));
    assert_eq!(m.cpu.index(), 0x400);
    run_all(&mut m, &[0x6000, 0x6100, 0x6200, 0x6300, 0xF165]);
    assert_eq!(m.cpu.register(0), 0x11);
    assert_eq!(m.cpu.register(1), 0x22);
    assert_eq!(m.cpu.register(2), 0);
    assert_eq!(m.cpu.register(3), 0);
    assert_eq!(m.cpu.index(), 0x400);
}

#[test]
fn register_transfer_past_the_end_of_memory_is_an_error() {
    let mut m = machine();
    run_all(&mut m, &[0x6011, 0x6122, 0xAFFE, 0xF155]);
    assert_eq!(m.cpu.memory_at(0xFFE), Ok(0x11));
    assert_eq!(m.cpu.memory_at(0xFFF), Ok(0x22));
    run_all(&mut m, &[0x6033, 0x6144]);
    assert_eq!(run(&mut m, 0xF255), Err(EngineError::MemoryAccess));
    assert_eq!(m.cpu.memory_at(0xFFE), Ok(0x11));
    assert_eq!(m.cpu.memory_at(0xFFF), Ok(0x22));
    assert_eq!(run(&mut m, 0xF265), Err(EngineError::MemoryAccess));
    assert_eq!(m.cpu.register(0), 0x33);
    assert_eq!(m.cpu.register(1), 0x44);
}

#[test]
fn clear_instruction_blanks_the_display() {
    let mut m = machine();
    m.display.set_pixel(1, 1, true);
    m.display.set_pixel(40, 20, true);
    run_all(&mut m, &[0x00E0]);
    assert_eq!(lit_pixels(&m.display), vec![]);
}

#[test]
fn draw_plots_the_most_significant_bit_first() {
    let mut m = machine();
    m.cpu.load_rom(&[0b1010_0001, 0b1000_0000]).unwrap();
    run_all(&mut m, &[0xA200, 0x6003, 0x6105, 0xD012]);
    assert_eq!(lit_pixels(&m.display), vec![(3, 5), (5, 5), (10, 5), (3, 6)]);
    assert_eq!(m.cpu.register(0xF), 0);
    assert_eq!(m.cpu.index(), 0x200);
}

#[test]
fn drawing_twice_restores_the_display_and_reports_a_collision() {
    let mut m = machine();
    m.cpu.load_rom(&[0xF0, 0x90, 0x90, 0x90, 0xF0]).unwrap();
    m.display.set_pixel(30, 2, true);
    let before = lit_pixels(&m.display);
    run_all(&mut m, &[0xA200, 0x600A, 0x6104, 0xD015]);
    assert_eq!(m.cpu.register(0xF), 0);
    assert_eq!(lit_pixels(&m.display).len(), 1 + 14);
    run_all(&mut m, &[0xD015]);
    assert_eq!(m.cpu.register(0xF), 1);
    assert_eq!(lit_pixels(&m.display), before);
}

#[test]
fn drawing_an_empty_sprite_twice_reports_no_collision() {
    let mut m = machine();
    m.display.set_pixel(0, 0, true);
    run_all(&mut m, &[0xA300, 0xD012]);
    assert_eq!(m.cpu.register(0xF), 0);
    run_all(&mut m, &[0xD012]);
    assert_eq!(m.cpu.register(0xF), 0);
    assert_eq!(lit_pixels(&m.display), vec![(0, 0)]);
}

#[test]
fn draw_collision_turns_the_pixel_off() {
    let mut m = machine();
    m.cpu.load_rom(&[0xC0]).unwrap();
    m.display.set_pixel(1, 0, true);
    run_all(&mut m, &[0xA200, 0xD011]);
    assert_eq!(m.cpu.register(0xF), 1);
    assert_eq!(lit_pixels(&m.display), vec![(0, 0)]);
}

#[test]
fn draw_wraps_every_pixel_on_its_own() {
    let mut m = machine();
    m.cpu.load_rom(&[0xFF, 0xFF]).unwrap();
    run_all(&mut m, &[0xA200, 0x603C, 0x611F, 0xD012]);
    let mut expected = Vec::new();
    for y in [0usize, 31] {
        for x in [0usize, 1, 2, 3, 60, 61, 62, 63] {
            expected.push((x, y));
        }
    }
    assert_eq!(lit_pixels(&m.display), expected);
    assert_eq!(m.cpu.register(0xF), 0);
}

#[test]
fn draw_wraps_an_origin_beyond_the_surface() {
    let mut m = machine();
    m.cpu.load_rom(&[0x80]).unwrap();
    run_all(&mut m, &[0xA200, 0x60FF, 0x61FF, 0xD011]);
    assert_eq!(lit_pixels(&m.display), vec![(255 % 64, 255 % 32)]);
}

#[test]
fn draw_of_zero_rows_clears_the_flag_and_draws_nothing() {
    let mut m = machine();
    run_all(&mut m, &[0x6F01, 0xAFFF, 0x60FF, 0xF01E, 0xD120]);
    assert_eq!(m.cpu.register(0xF), 0);
    assert_eq!(lit_pixels(&m.display), vec![]);
}

#[test]
fn draw_past_the_end_of_memory_is_an_error_and_draws_nothing() {
    let mut m = machine();
    m.cpu.load_rom(&[0xFF; 3584]).unwrap();
    run_all(&mut m, &[0x6F07, 0xAFFE, 0xD012]);
    assert_eq!(lit_pixels(&m.display).len(), 16);
    assert_eq!(m.cpu.register(0xF), 0);
    run_all(&mut m, &[0x00E0, 0x6F07]);
    assert_eq!(run(&mut m, 0xD013), Err(EngineError::MemoryAccess));
    assert_eq!(lit_pixels(&m.display), vec![]);
    assert_eq!(m.cpu.register(0xF), 7);
}

#[test]
fn unknown_words_are_recorded_and_otherwise_ignored() {
    let mut m = machine();
    run_all(&mut m, &[0x6005, 0x0123, 0x8018, 0xE0FF, 0xF0FF]);
    assert_eq!(m.cpu.pc(), 0x200);
    assert_eq!(m.cpu.register(0), 5);
    assert_eq!(m.cpu.take_diagnostics(), vec![0x0123, 0x8018, 0xE0FF, 0xF0FF]);
    assert_eq!(m.cpu.take_diagnostics(), Vec::<u16>::new());
    run_all(&mut m, &[0x6006]);
    assert_eq!(m.cpu.take_diagnostics(), Vec::<u16>::new());
}

#[test]
fn step_moves_past_an_unknown_word() {
    let mut m = machine();
    m.cpu.load_rom(&[0x01, 0x23, 0x60, 0x09]).unwrap();
    assert_eq!(m.cpu.step(&mut m.display, &mut m.keyboard), Ok(()));
    assert_eq!(m.cpu.pc(), 0x202);
    assert_eq!(m.cpu.step(&mut m.display, &mut m.keyboard), Ok(()));
    assert_eq!(m.cpu.register(0), 9);
    assert_eq!(m.cpu.take_diagnostics(), vec![0x0123]);
}

#[test]
fn wait_for_key_suspends_until_a_key_is_pressed() {
    let mut m = machine();
    m.cpu.load_rom(&[0xF4, 0x0A, 0x65, 0x77, 0x66, 0x88]).unwrap();
    assert_eq!(m.cpu.step(&mut m.display, &mut m.keyboard), Ok(()));
    assert_eq!(m.cpu.run_state(), RunState::AwaitingKey(4));
    assert_eq!(m.cpu.pc(), 0x202);
    for _ in 0..5 {
        assert_eq!(m.cpu.step(&mut m.display, &mut m.keyboard), Ok(()));
        assert_eq!(m.cpu.run_state(), RunState::AwaitingKey(4));
        assert_eq!(m.cpu.pc(), 0x202);
        for x in 0..16 {
            assert_eq!(m.cpu.register(x), 0);
        }
    }
    assert_eq!(run(&mut m, 0x6A55), Ok(()));
    assert_eq!(m.cpu.register(0xA), 0);
    assert_eq!(run(&mut m, 0x00EE), Ok(()));
    assert_eq!(run(&mut m, 0x1300), Ok(()));
    assert_eq!(m.cpu.pc(), 0x202);
    m.keyboard.set_key(9, true);
    m.keyboard.set_key(0xB, true);
    assert_eq!(m.cpu.step(&mut m.display, &mut m.keyboard), Ok(()));
    assert_eq!(m.cpu.run_state(), RunState::Running);
    assert_eq!(m.cpu.register(4), 9);
    assert_eq!(m.cpu.register(5), 0);
    assert_eq!(m.cpu.pc(), 0x202);
    assert!(m.keyboard.is_key_pressed(9));
    assert_eq!(m.cpu.step(&mut m.display, &mut m.keyboard), Ok(()));
    assert_eq!(m.cpu.register(5), 0x77);
    assert_eq!(m.cpu.pc(), 0x204);
}

#[test]
fn wait_for_key_sees_a_key_that_is_already_down() {
    let mut m = machine();
    m.keyboard.set_key(0, true);
    run_all(&mut m, &[0x6C44, 0xFC0A]);
    assert_eq!(m.cpu.run_state(), RunState::AwaitingKey(0xC));
    assert_eq!(m.cpu.register(0xC), 0x44);
    assert_eq!(m.cpu.step(&mut m.display, &mut m.keyboard), Ok(()));
    assert_eq!(m.cpu.run_state(), RunState::Running);
    assert_eq!(m.cpu.register(0xC), 0);
    assert_eq!(m.cpu.pc(), 0x200);
}
