use chip8::alu::{add_with_carry, decimal_digits, shift_left, shift_right, sub_with_borrow};
use chip8::decode::{classify, decode, Instruction, Op};
use chip8::display::{clear, draw_sprite};
use chip8::keypad::{first_key, key_in, Keypad};
use chip8::machine::{Emulator, Flow, Frame, VmError, FLAG, MAX_PROGRAM_LEN};

const NO_KEYS: Keypad = Keypad { pressed: 0, released: 0 };

fn load(program: &[u8]) -> Emulator {
    Emulator::new(program).unwrap()
}

fn run_steps(emu: &mut Emulator, count: usize) {
    for _ in 0..count {
        emu.step(&NO_KEYS, 0).unwrap();
    }
}

fn all_dark(emu: &Emulator) -> bool {
    (0..32).all(|row| (0..64).all(|col| !emu.is_lit(col, row)))
}

#[test]
fn clear_then_self_jump_runs_without_error() {
    let mut emu = load(&[0x00, 0xE0, 0x12, 0x02]);
    let first = emu.run_frame(&NO_KEYS).unwrap();
    assert_eq!(first.redraw, true);
    assert!(all_dark(&emu));
    assert!(emu.framebuffer().iter().all(|&c| c == 0));
    for _ in 0..5 {
        let frame = emu.run_frame(&NO_KEYS).unwrap();
        assert_eq!(frame, Frame { redraw: false, tone: false });
    }
    assert_eq!(emu.pc(), 0x202);
}

#[test]
fn load_then_add_immediate() {
    let mut emu = load(&[0x60, 0x05, 0x70, 0x05]);
    run_steps(&mut emu, 2);
    assert_eq!(emu.register(0), 10);
    assert_eq!(emu.register(FLAG), 0);
}

#[test]
fn add_immediate_wraps_without_flag() {
    let mut emu = load(&[0x6F, 0x07, 0x63, 0xFF, 0x73, 0x02]);
    run_steps(&mut emu, 3);
    assert_eq!(emu.register(3), 1);
    assert_eq!(emu.register(FLAG), 7);
}

#[test]
fn sprite_at_right_edge_is_clipped() {
    // I = 0x208; v0 = 60; v1 = 0; draw one row; the sprite byte 0xFF.
    let mut emu = load(&[0xA2, 0x08, 0x60, 0x3C, 0x61, 0x00, 0xD0, 0x11, 0xFF]);
    run_steps(&mut emu, 3);
    assert_eq!(emu.step(&NO_KEYS, 0), Ok(Flow::Redraw));
    for col in 60..64 {
        assert!(emu.is_lit(col, 0));
    }
    for col in 0..60 {
        assert!(!emu.is_lit(col, 0));
    }
    for row in 1..32 {
        for col in 0..64 {
            assert!(!emu.is_lit(col, row));
        }
    }
    assert_eq!(emu.register(FLAG), 0);
    let fb = emu.framebuffer();
    assert_eq!(fb.len(), 64 * 32);
    assert_eq!(fb[60], 0xFFFF_FFFF);
    assert_eq!(fb[63], 0xFFFF_FFFF);
    assert_eq!(fb[59], 0);
    assert_eq!(fb[64], 0);
}

#[test]
fn return_with_empty_stack_fails() {
    let mut emu = load(&[0x00, 0xEE]);
    assert_eq!(emu.step(&NO_KEYS, 0), Err(VmError::StackUnderflow));
    let mut emu = load(&[0x00, 0xEE]);
    assert_eq!(emu.run_frame(&NO_KEYS), Err(VmError::StackUnderflow));
}

#[test]
fn call_and_return() {
    // 0x200: call 0x206; 0x202: v1 = 1; 0x204: jump 0x204; 0x206: v2 = 2; 0x208: return
    let mut emu = load(&[0x22, 0x06, 0x61, 0x01, 0x12, 0x04, 0x62, 0x02, 0x00, 0xEE]);
    emu.step(&NO_KEYS, 0).unwrap();
    assert_eq!(emu.pc(), 0x206);
    assert_eq!(emu.stack_depth(), 1);
    run_steps(&mut emu, 2);
    assert_eq!(emu.pc(), 0x202);
    assert_eq!(emu.stack_depth(), 0);
    run_steps(&mut emu, 1);
    assert_eq!(emu.register(1), 1);
    assert_eq!(emu.register(2), 2);
}

#[test]
fn invalid_instruction_fails() {
    let mut emu = load(&[0x80, 0x18]);
    assert_eq!(emu.step(&NO_KEYS, 0), Err(VmError::InvalidInstruction { word: 0x8018 }));
    let mut emu = load(&[0xFF, 0xFF]);
    assert_eq!(emu.run_frame(&NO_KEYS), Err(VmError::InvalidInstruction { word: 0xFFFF }));
}

#[test]
fn program_too_large_is_refused() {
    let big = vec![0u8; MAX_PROGRAM_LEN + 1];
    assert_eq!(Emulator::new(&big).err(), Some(VmError::ProgramTooLarge { len: MAX_PROGRAM_LEN + 1 }));
    let exact = vec![0u8; MAX_PROGRAM_LEN];
    let emu = Emulator::new(&exact).unwrap();
    assert_eq!(emu.memory(4095), 0);
}

#[test]
fn fresh_machine_layout() {
    let emu = load(&[0xAB, 0xCD]);
    assert_eq!(emu.pc(), 0x200);
    assert_eq!(emu.index(), 0);
    assert_eq!(emu.memory(0x200), 0xAB);
    assert_eq!(emu.memory(0x201), 0xCD);
    assert_eq!(emu.memory(0x202), 0);
    assert_eq!(emu.memory(0x50), 0xF0);
    assert_eq!(emu.memory(0x55), 0x20);
    assert_eq!(emu.memory(0x9F), 0x80);
    assert_eq!(emu.memory(0xA0), 0);
    assert_eq!(emu.memory(0x4F), 0);
    assert_eq!(emu.stack_depth(), 0);
    assert_eq!(emu.delay_timer(), 0);
    assert_eq!(emu.sound_timer(), 0);
    assert!(all_dark(&emu));
}

#[test]
fn add_with_carry_sets_flag_on_overflow() {
    assert_eq!(add_with_carry(200, 100), (44, 1));
    assert_eq!(add_with_carry(100, 100), (200, 0));
    assert_eq!(add_with_carry(255, 1), (0, 1));
    assert_eq!(add_with_carry(0, 0), (0, 0));
    let mut emu = load(&[0x60, 0xC8, 0x61, 0x64, 0x80, 0x14]);
    run_steps(&mut emu, 3);
    assert_eq!(emu.register(0), 44);
    assert_eq!(emu.register(FLAG), 1);
}

#[test]
fn subtract_flag_is_no_borrow() {
    assert_eq!(sub_with_borrow(10, 3), (7, 1));
    assert_eq!(sub_with_borrow(3, 10), (249, 0));
    assert_eq!(sub_with_borrow(5, 5), (0, 1));
    // v0 = 3, v1 = 10; v0 = v0 - v1
    let mut emu = load(&[0x60, 0x03, 0x61, 0x0A, 0x80, 0x15]);
    run_steps(&mut emu, 3);
    assert_eq!(emu.register(0), 249);
    assert_eq!(emu.register(FLAG), 0);
    // v0 = 3, v1 = 10; v0 = v1 - v0
    let mut emu = load(&[0x60, 0x03, 0x61, 0x0A, 0x80, 0x17]);
    run_steps(&mut emu, 3);
    assert_eq!(emu.register(0), 7);
    assert_eq!(emu.register(FLAG), 1);
}

#[test]
fn shifts_take_the_second_register() {
    assert_eq!(shift_right(0b1011), (0b101, 1));
    assert_eq!(shift_right(0b1010), (0b101, 0));
    assert_eq!(shift_left(0x81), (0x02, 1));
    assert_eq!(shift_left(0x41), (0x82, 0));
    // v1 = 5; v0 = v1 >> 1
    let mut emu = load(&[0x61, 0x05, 0x80, 0x16]);
    run_steps(&mut emu, 2);
    assert_eq!(emu.register(0), 2);
    assert_eq!(emu.register(FLAG), 1);
    // v1 = 0x81; v0 = v1 << 1
    let mut emu = load(&[0x61, 0x81, 0x80, 0x1E]);
    run_steps(&mut emu, 2);
    assert_eq!(emu.register(0), 2);
    assert_eq!(emu.register(FLAG), 1);
}

#[test]
fn logic_operations_clear_flag() {
    for (n, expected) in [(1u8, 0x0Fu8 | 0x35), (2, 0x0F & 0x35), (3, 0x0F ^ 0x35)] {
        let mut emu = load(&[0x6F, 0x09, 0x60, 0x0F, 0x61, 0x35, 0x80, 0x10 | n]);
        run_steps(&mut emu, 4);
        assert_eq!(emu.register(0), expected);
        assert_eq!(emu.register(FLAG), 0);
    }
}

#[test]
fn flag_register_as_target_keeps_flag() {
    // vF = 200, v1 = 100, vF = vF + v1: the flag wins.
    let mut emu = load(&[0x6F, 0xC8, 0x61, 0x64, 0x8F, 0x14]);
    run_steps(&mut emu, 3);
    assert_eq!(emu.register(FLAG), 1);
}

#[test]
fn register_dump_and_load_advance_index() {
    // v0..v3 = 1,2,3,4; I = 0x300; store v0..v3; I = 0x300; load v0..v1 after clearing.
    let mut emu = load(&[
        0x60, 0x01, 0x61, 0x02, 0x62, 0x03, 0x63, 0x04, 0xA3, 0x00, 0xF3, 0x55, 0x60, 0x00, 0x61, 0x00,
        0xA3, 0x00, 0xF1, 0x65,
    ]);
    run_steps(&mut emu, 6);
    assert_eq!(emu.index(), 0x304);
    assert_eq!(emu.memory(0x300), 1);
    assert_eq!(emu.memory(0x303), 4);
    assert_eq!(emu.memory(0x304), 0);
    run_steps(&mut emu, 4);
    assert_eq!(emu.index(), 0x302);
    assert_eq!(emu.register(0), 1);
    assert_eq!(emu.register(1), 2);
}

#[test]
fn decimal_digits_store() {
    assert_eq!(decimal_digits(254), (2, 5, 4));
    assert_eq!(decimal_digits(7), (0, 0, 7));
    let mut emu = load(&[0x65, 0x9C, 0xA3, 0x00, 0xF5, 0x33]);
    run_steps(&mut emu, 3);
    assert_eq!(emu.memory(0x300), 1);
    assert_eq!(emu.memory(0x301), 5);
    assert_eq!(emu.memory(0x302), 6);
    assert_eq!(emu.index(), 0x300);
}

#[test]
fn draw_twice_reports_collision_and_erases() {
    // I = font glyph of v0 (= 0); draw 5 rows at (0, 0) twice.
    let mut emu = load(&[0x60, 0x00, 0xF0, 0x29, 0xD0, 0x05, 0xD0, 0x05]);
    run_steps(&mut emu, 2);
    assert_eq!(emu.index(), 0x50);
    assert_eq!(emu.step(&NO_KEYS, 0), Ok(Flow::Redraw));
    assert_eq!(emu.register(FLAG), 0);
    assert!(emu.is_lit(0, 0) && emu.is_lit(3, 0) && !emu.is_lit(4, 0));
    assert!(emu.is_lit(0, 1) && !emu.is_lit(1, 1) && emu.is_lit(3, 1));
    assert_eq!(emu.step(&NO_KEYS, 0), Ok(Flow::Redraw));
    assert_eq!(emu.register(FLAG), 1);
    assert!(all_dark(&emu));
}

#[test]
fn sprite_at_bottom_edge_is_clipped() {
    // I = 0x20A; v0 = 0; v1 = 30 (0x1E); draw 4 rows of 0x80.
    let mut emu = load(&[0xA2, 0x0A, 0x60, 0x00, 0x61, 0x1E, 0xD0, 0x14, 0x12, 0x08, 0x80, 0x80, 0x80, 0x80]);
    run_steps(&mut emu, 4);
    assert!(emu.is_lit(0, 30) && emu.is_lit(0, 31));
    assert!(!emu.is_lit(0, 0) && !emu.is_lit(0, 1));
}

#[test]
fn draw_position_wraps_modulo_screen() {
    // v0 = 64 + 2, v1 = 32 + 1: the sprite starts at (2, 1).
    let mut emu = load(&[0xA2, 0x0A, 0x60, 0x42, 0x61, 0x21, 0xD0, 0x11, 0x12, 0x08, 0x80]);
    run_steps(&mut emu, 4);
    assert!(emu.is_lit(2, 1));
    assert!(!emu.is_lit(0, 0));
}

#[test]
fn clear_operation_with_lit_screen() {
    let mut emu = load(&[0x60, 0x00, 0xF0, 0x29, 0xD0, 0x05, 0x00, 0xE0]);
    run_steps(&mut emu, 3);
    assert!(!all_dark(&emu));
    assert_eq!(emu.step(&NO_KEYS, 0), Ok(Flow::Redraw));
    assert!(all_dark(&emu));
}

#[test]
fn frame_stops_after_draw() {
    // draw, then v5 = 9: the load must wait for the next frame.
    let mut emu = load(&[0xD0, 0x01, 0x65, 0x09, 0x12, 0x04]);
    let frame = emu.run_frame(&NO_KEYS).unwrap();
    assert!(frame.redraw);
    assert_eq!(emu.register(5), 0);
    let frame = emu.run_frame(&NO_KEYS).unwrap();
    assert!(!frame.redraw);
    assert_eq!(emu.register(5), 9);
}

#[test]
fn skips_on_register_and_immediate() {
    // v0 = 7; skip if v0 == 7; v1 = 1 (skipped); skip if v0 != 7; v2 = 2 (runs)
    let mut emu = load(&[0x60, 0x07, 0x30, 0x07, 0x61, 0x01, 0x40, 0x07, 0x62, 0x02]);
    run_steps(&mut emu, 4);
    assert_eq!(emu.register(1), 0);
    assert_eq!(emu.register(2), 2);
    // v0 = 7, v1 = 7; skip if v0 == v1; v2 = 1 (skipped); skip if v0 != v1; v3 = 3
    let mut emu = load(&[0x60, 0x07, 0x61, 0x07, 0x50, 0x10, 0x62, 0x01, 0x90, 0x10, 0x63, 0x03]);
    run_steps(&mut emu, 5);
    assert_eq!(emu.register(2), 0);
    assert_eq!(emu.register(3), 3);
}

#[test]
fn jump_with_offset() {
    let mut emu = load(&[0x60, 0x10, 0xB3, 0x00]);
    run_steps(&mut emu, 2);
    assert_eq!(emu.pc(), 0x310);
}

#[test]
fn random_is_masked() {
    let mut emu = load(&[0xC4, 0x0F]);
    assert_eq!(emu.step(&NO_KEYS, 0xAB), Ok(Flow::Continue));
    assert_eq!(emu.register(4), 0x0B);
    let mut emu = load(&[0xC4, 0x0F, 0x12, 0x02]);
    emu.run_frame(&NO_KEYS).unwrap();
    assert!(emu.register(4) <= 0x0F);
}

#[test]
fn key_skips_use_low_nibble() {
    let keys = Keypad { pressed: 1 << 0xA, released: 0 };
    // v0 = 0x1A (low nibble A); skip if key v0 pressed; v1 = 1 (skipped)
    let mut emu = load(&[0x60, 0x1A, 0xE0, 0x9E, 0x61, 0x01]);
    for _ in 0..2 {
        emu.step(&keys, 0).unwrap();
    }
    assert_eq!(emu.pc(), 0x206);
    assert_eq!(emu.register(1), 0);
    // skip if not pressed: key A is down, so no skip
    let mut emu = load(&[0x60, 0x0A, 0xE0, 0xA1, 0x61, 0x01]);
    for _ in 0..3 {
        emu.step(&keys, 0).unwrap();
    }
    assert_eq!(emu.register(1), 1);
}

#[test]
fn wait_for_key_rewinds_until_release() {
    let mut emu = load(&[0xF3, 0x0A]);
    emu.step(&NO_KEYS, 0).unwrap();
    assert_eq!(emu.pc(), 0x200);
    // key F alone is never reported
    emu.step(&Keypad { pressed: 0, released: 1 << 0xF }, 0).unwrap();
    assert_eq!(emu.pc(), 0x200);
    emu.step(&Keypad { pressed: 0, released: (1 << 9) | (1 << 5) }, 0).unwrap();
    assert_eq!(emu.pc(), 0x202);
    assert_eq!(emu.register(3), 5);
}

#[test]
fn timers_count_down_and_tone_follows_sound() {
    // v0 = 3; delay = v0; sound = v0; v1 = delay; loop
    let mut emu = load(&[0x60, 0x03, 0xF0, 0x15, 0xF0, 0x18, 0xF1, 0x07, 0x12, 0x08]);
    let frame = emu.run_frame(&NO_KEYS).unwrap();
    assert_eq!(frame, Frame { redraw: false, tone: true });
    assert_eq!(emu.register(1), 3);
    assert_eq!(emu.delay_timer(), 3);
    assert!(emu.run_frame(&NO_KEYS).unwrap().tone);
    assert!(emu.run_frame(&NO_KEYS).unwrap().tone);
    assert!(!emu.run_frame(&NO_KEYS).unwrap().tone);
    assert_eq!(emu.sound_timer(), 0);
    assert_eq!(emu.delay_timer(), 0);
    emu.tick_timers();
    assert_eq!(emu.delay_timer(), 0);
}

#[test]
fn index_add_and_font_address() {
    // v0 = 0x1F; I = 0xFFF0; can only set 12 bits, so I = 0xFF0 then add v0
    let mut emu = load(&[0x60, 0x1F, 0xAF, 0xF0, 0xF0, 0x1E, 0xF0, 0x29]);
    run_steps(&mut emu, 3);
    assert_eq!(emu.index(), 0x100F);
    run_steps(&mut emu, 1);
    assert_eq!(emu.index(), 0x50 + 5 * 0xF);
}

#[test]
fn decode_splits_fields() {
    let ins = decode(0xD1, 0x2F);
    assert_eq!(ins, Instruction { op: 0xD, x: 1, y: 2, n: 0xF, value: 0x2F, address: 0x12F });
    assert_eq!(classify(&ins), Some(Op::Draw { x: 1, y: 2, n: 0xF }));
    assert_eq!(classify(&decode(0x00, 0xE0)), Some(Op::Clear));
    assert_eq!(classify(&decode(0x00, 0xEE)), Some(Op::Return));
    assert_eq!(classify(&decode(0x00, 0x00)), None);
    assert_eq!(classify(&decode(0x51, 0x21)), None);
    assert_eq!(classify(&decode(0x8A, 0xBE)), Some(Op::ShiftLeft { x: 0xA, y: 0xB }));
    assert_eq!(classify(&decode(0xF7, 0x65)), Some(Op::LoadRegs { x: 7 }));
}

#[test]
fn keypad_queries() {
    assert!(key_in(0b100, 2));
    assert!(!key_in(0b100, 1));
    assert_eq!(first_key(0), None);
    assert_eq!(first_key(1 << 15), None);
    assert_eq!(first_key((1 << 14) | (1 << 3)), Some(3));
}

#[test]
fn screen_helpers() {
    let mut screen = vec![0u64; 32];
    assert!(!draw_sprite(&mut screen, &vec![0xF0, 0x90], 62, 31));
    assert_eq!(screen[31], 0b11);
    assert_eq!(screen[0], 0);
    assert!(draw_sprite(&mut screen, &vec![0x40], 62, 31));
    assert_eq!(screen[31], 0b10);
    clear(&mut screen);
    assert!(screen.iter().all(|&r| r == 0));
}
