use chip8::cpu::CPU;
use chip8::memory::LoadError;

fn cpu_with_rom(rom: &[u8]) -> CPU {
    let mut c = CPU::new();
    c.memory.load(rom).unwrap();
    c
}

#[test]
fn add_without_carry() {
    // 0x8014: V0 += V1
    let mut c = cpu_with_rom(&[0x80, 0x14]);
    c.v[0] = 100;
    c.v[1] = 55;
    c.step();
    assert_eq!(c.v[0], 155);
    assert_eq!(c.v[15], 0);
    assert_eq!(c.pc, 0x202);
}

#[test]
fn add_with_carry_wraps() {
    let mut c = cpu_with_rom(&[0x80, 0x14]);
    c.v[0] = 200;
    c.v[1] = 100;
    c.step();
    assert_eq!(c.v[0], 44); // (200 + 100) mod 256
    assert_eq!(c.v[15], 1);
}

#[test]
fn add_boundary_sum_255_no_carry() {
    let mut c = cpu_with_rom(&[0x80, 0x14]);
    c.v[0] = 255;
    c.v[1] = 0;
    c.step();
    assert_eq!(c.v[0], 255);
    assert_eq!(c.v[15], 0);
}

#[test]
fn sub_no_borrow_sets_flag() {
    // 0x8015: V0 -= V1
    let mut c = cpu_with_rom(&[0x80, 0x15]);
    c.v[0] = 20;
    c.v[1] = 10;
    c.step();
    assert_eq!(c.v[0], 10);
    assert_eq!(c.v[15], 1);
}

#[test]
fn sub_with_borrow_clears_flag() {
    let mut c = cpu_with_rom(&[0x80, 0x15]);
    c.v[0] = 10;
    c.v[1] = 20;
    c.step();
    assert_eq!(c.v[0], 246); // (10 - 20) mod 256
    assert_eq!(c.v[15], 0);
}

#[test]
fn sub_equal_operands_no_borrow() {
    let mut c = cpu_with_rom(&[0x80, 0x15]);
    c.v[0] = 7;
    c.v[1] = 7;
    c.step();
    assert_eq!(c.v[0], 0);
    assert_eq!(c.v[15], 1);
}

#[test]
fn sub_from_reverse_direction() {
    // 0x8017: V0 = V1 - V0
    let mut c = cpu_with_rom(&[0x80, 0x17]);
    c.v[0] = 10;
    c.v[1] = 30;
    c.step();
    assert_eq!(c.v[0], 20);
    assert_eq!(c.v[15], 1);
}

#[test]
fn jump_lands_exactly_on_target() {
    // 0x1234: jump to 0x234, no further advance
    let mut c = cpu_with_rom(&[0x12, 0x34]);
    c.step();
    assert_eq!(c.pc, 0x234);
}

#[test]
fn call_then_return_resumes_after_call_site() {
    // 0x200: call 0x204; 0x204: return
    let mut c = cpu_with_rom(&[0x22, 0x04, 0x00, 0x00, 0x00, 0xee]);
    c.step();
    assert_eq!(c.pc, 0x204);
    c.step();
    assert_eq!(c.pc, 0x202);
}

#[test]
fn wait_key_repeats_until_key_then_stores_it() {
    // 0xF30A: wait for a key into V3
    let mut c = cpu_with_rom(&[0xf3, 0x0a]);
    c.step();
    assert_eq!(c.pc, 0x200); // no key: net no movement
    c.step();
    assert_eq!(c.pc, 0x200);
    c.set_key_state(0xb, true);
    c.step();
    assert_eq!(c.pc, 0x202);
    assert_eq!(c.v[3], 0xb);
}

#[test]
fn wait_key_takes_lowest_pressed_key() {
    let mut c = cpu_with_rom(&[0xf0, 0x0a]);
    c.set_key_state(9, true);
    c.set_key_state(4, true);
    c.step();
    assert_eq!(c.v[0], 4);
}

#[test]
fn bcd_store_of_255_writes_2_5_5() {
    // 0xF233: BCD of V2 at I
    let mut c = cpu_with_rom(&[0xf2, 0x33]);
    c.v[2] = 255;
    c.i = 0x300;
    c.step();
    assert_eq!(c.memory.ram[0x300], 2);
    assert_eq!(c.memory.ram[0x301], 5);
    assert_eq!(c.memory.ram[0x302], 5);
}

#[test]
fn bcd_store_of_7() {
    let mut c = cpu_with_rom(&[0xf0, 0x33]);
    c.v[0] = 7;
    c.i = 0x300;
    c.step();
    assert_eq!(&c.memory.ram[0x300..0x303], &[0, 0, 7]);
}

#[test]
fn draw_twice_restores_framebuffer() {
    // 0xD013: draw 3 rows at (V0, V1)
    let mut c = cpu_with_rom(&[0xd0, 0x13, 0xd0, 0x13]);
    c.i = 0x210;
    c.memory.write_byte(0x210, 0b1010_0101);
    c.memory.write_byte(0x211, 0b1111_0000);
    c.memory.write_byte(0x212, 0b0000_1111);
    c.v[0] = 10;
    c.v[1] = 5;
    let before = c.display.snapshot().clone();
    c.step();
    assert_ne!(c.display.snapshot(), &before);
    assert_eq!(c.v[15], 0); // nothing was lit, no collision
    c.step();
    assert_eq!(c.display.snapshot(), &before);
    assert_eq!(c.v[15], 1); // second pass erased every pixel it drew
}

#[test]
fn draw_sets_pixels_and_collision_flag() {
    let mut c = cpu_with_rom(&[0xd0, 0x11]);
    c.i = 0x210;
    c.memory.write_byte(0x210, 0b1000_0000);
    c.v[0] = 0;
    c.v[1] = 0;
    c.step();
    assert!(c.display.snapshot()[0]);
    assert_eq!(c.v[15], 0);
}

#[test]
fn draw_wraps_start_coordinates() {
    let mut c = cpu_with_rom(&[0xd0, 0x11]);
    c.i = 0x210;
    c.memory.write_byte(0x210, 0b1000_0000);
    c.v[0] = 64; // wraps to column 0
    c.v[1] = 32; // wraps to row 0
    c.step();
    assert!(c.display.snapshot()[0]);
}

#[test]
fn draw_clips_at_right_and_bottom_edges() {
    let mut c = cpu_with_rom(&[0xd0, 0x12]);
    c.i = 0x210;
    c.memory.write_byte(0x210, 0xff);
    c.memory.write_byte(0x211, 0xff);
    c.v[0] = 62;
    c.v[1] = 31;
    c.step();
    let f = c.display.snapshot();
    // Only columns 62 and 63 of row 31 light; nothing wraps around.
    let lit: usize = f.iter().filter(|&&p| p).count();
    assert_eq!(lit, 2);
    assert!(f[31 * 64 + 62] && f[31 * 64 + 63]);
}

#[test]
fn clear_screen_blanks_display() {
    let mut c = cpu_with_rom(&[0xd0, 0x11, 0x00, 0xe0]);
    c.i = 0x210;
    c.memory.write_byte(0x210, 0xff);
    c.step();
    assert!(c.display.snapshot().iter().any(|&p| p));
    c.step();
    assert!(c.display.snapshot().iter().all(|&p| !p));
}

#[test]
fn skip_eq_imm_skips_when_equal() {
    let mut c = cpu_with_rom(&[0x30, 0x42]);
    c.v[0] = 0x42;
    c.step();
    assert_eq!(c.pc, 0x204);
}

#[test]
fn skip_eq_imm_no_skip_when_different() {
    let mut c = cpu_with_rom(&[0x30, 0x42]);
    c.v[0] = 0x41;
    c.step();
    assert_eq!(c.pc, 0x202);
}

#[test]
fn skip_ne_imm() {
    let mut c = cpu_with_rom(&[0x40, 0x42]);
    c.v[0] = 0x41;
    c.step();
    assert_eq!(c.pc, 0x204);
}

#[test]
fn skip_reg_pair() {
    let mut c = cpu_with_rom(&[0x50, 0x10]);
    c.v[0] = 3;
    c.v[1] = 3;
    c.step();
    assert_eq!(c.pc, 0x204);
    let mut c = cpu_with_rom(&[0x90, 0x10]);
    c.v[0] = 3;
    c.v[1] = 3;
    c.step();
    assert_eq!(c.pc, 0x202);
}

#[test]
fn set_and_add_immediate() {
    let mut c = cpu_with_rom(&[0x60, 0x2a, 0x70, 0xff]);
    c.step();
    assert_eq!(c.v[0], 0x2a);
    c.step();
    assert_eq!(c.v[0], 0x29); // 0x2a + 0xff wraps, flag untouched
    assert_eq!(c.v[15], 0);
}

#[test]
fn bitwise_register_ops() {
    let mut c = cpu_with_rom(&[0x80, 0x11, 0x80, 0x12, 0x80, 0x13, 0x80, 0x10]);
    c.v[0] = 0b1100;
    c.v[1] = 0b1010;
    c.step();
    assert_eq!(c.v[0], 0b1110); // or
    c.v[0] = 0b1100;
    c.step();
    assert_eq!(c.v[0], 0b1000); // and
    c.v[0] = 0b1100;
    c.step();
    assert_eq!(c.v[0], 0b0110); // xor
    c.step();
    assert_eq!(c.v[0], c.v[1]); // copy
}

#[test]
fn shift_right_flag_gets_low_bit() {
    let mut c = cpu_with_rom(&[0x80, 0x16]);
    c.v[0] = 0b1001;
    c.step();
    assert_eq!(c.v[0], 0b100);
    assert_eq!(c.v[15], 1);
}

#[test]
fn shift_left_flag_gets_high_bit() {
    let mut c = cpu_with_rom(&[0x80, 0x1e]);
    c.v[0] = 0b1000_0001;
    c.step();
    assert_eq!(c.v[0], 0b10);
    assert_eq!(c.v[15], 1);
}

#[test]
fn set_index_and_add_index() {
    let mut c = cpu_with_rom(&[0xa1, 0x23, 0xf0, 0x1e]);
    c.step();
    assert_eq!(c.i, 0x123);
    c.v[0] = 0x10;
    c.step();
    assert_eq!(c.i, 0x133);
    assert_eq!(c.v[15], 0); // no flag side effect
}

#[test]
fn jump_plus_v0() {
    let mut c = cpu_with_rom(&[0xb2, 0x10]);
    c.v[0] = 0x15;
    c.step();
    assert_eq!(c.pc, 0x225);
}

#[test]
fn random_is_masked() {
    let mut c = cpu_with_rom(&[0xc0, 0x0f]);
    c.v[0] = 0xff;
    c.step();
    assert_eq!(c.v[0] & 0xf0, 0);
}

#[test]
fn skip_key_pressed_and_not_pressed() {
    let mut c = cpu_with_rom(&[0xe0, 0x9e, 0xe0, 0xa1]);
    c.v[0] = 7;
    c.step();
    assert_eq!(c.pc, 0x202); // key 7 up: no skip
    c.set_key_state(7, true);
    c.step();
    assert_eq!(c.pc, 0x204); // key 7 down: skip-if-up does not skip
}

#[test]
fn timers_set_read_and_tick() {
    let mut c = cpu_with_rom(&[0xf0, 0x15, 0xf0, 0x18, 0xf1, 0x07]);
    c.v[0] = 3;
    c.step(); // delay timer = 3
    c.step(); // sound timer = 3
    c.tick_timers();
    c.step(); // V1 = delay timer
    assert_eq!(c.v[1], 2);
    c.tick_timers();
    c.tick_timers();
    c.tick_timers(); // floors at zero
    assert_eq!(c.dt, 0);
    assert_eq!(c.st, 0);
}

#[test]
fn font_index_is_five_per_glyph() {
    let mut c = cpu_with_rom(&[0xf0, 0x29]);
    c.v[0] = 0xa;
    c.step();
    assert_eq!(c.i, 50);
}

#[test]
fn store_and_load_registers_round_trip() {
    let mut c = cpu_with_rom(&[0xf3, 0x55, 0x63, 0x00, 0xf3, 0x65]);
    c.v[0] = 1;
    c.v[1] = 2;
    c.v[2] = 3;
    c.v[3] = 4;
    c.i = 0x400;
    c.step(); // store V0..=V3
    assert_eq!(&c.memory.ram[0x400..0x404], &[1, 2, 3, 4]);
    c.step(); // V3 = 0
    assert_eq!(c.v[3], 0);
    c.step(); // load V0..=V3 back
    assert_eq!(c.v[3], 4);
}

#[test]
fn unknown_opcode_is_a_no_op() {
    let mut c = cpu_with_rom(&[0x00, 0x00, 0x08, 0x09]);
    let regs = c.v.clone();
    c.step();
    assert_eq!(c.pc, 0x202);
    assert_eq!(c.v, regs);
    c.step();
    assert_eq!(c.pc, 0x204);
    assert_eq!(c.v, regs);
}

#[test]
fn return_on_empty_stack_is_clamped() {
    let mut c = cpu_with_rom(&[0x00, 0xee]);
    c.step();
    assert_eq!(c.pc, 0); // slot 0 reads as 0, pointer stays at the bottom
    assert_eq!(c.memory.sp, 0);
}

#[test]
fn add_into_flag_register_keeps_the_wrapped_sum() {
    // 0x8F14: VF += V1. The flag write comes first, the wrapped sum
    // lands last, so the flag register ends up holding the sum.
    let mut c = cpu_with_rom(&[0x8f, 0x14]);
    c.v[15] = 200;
    c.v[1] = 100;
    c.step();
    assert_eq!(c.v[15], 44);
}

#[test]
fn skip_eq_reg_routes_on_class_alone() {
    // 0x5015: class 5 dispatches without inspecting the low nibble.
    let mut c = cpu_with_rom(&[0x50, 0x15]);
    c.v[0] = 9;
    c.v[1] = 9;
    c.step();
    assert_eq!(c.pc, 0x204);
}

#[test]
fn fetch_wraps_at_the_top_of_memory() {
    let mut c = cpu_with_rom(&[0x1f, 0xff]); // jump to 0xfff
    c.step();
    assert_eq!(c.pc, 0xfff);
    // High byte at 0xfff; the low byte comes from address 0, which holds
    // 0xf0, the first font byte: the word is 0x6AF0, set VA = 0xF0.
    c.memory.write_byte(0xfff, 0x6a);
    c.step();
    assert_eq!(c.v[0xa], 0xf0);
    assert_eq!(c.pc, 1);
}

#[test]
fn wait_key_holds_even_where_the_counter_wraps() {
    let mut c = CPU::new();
    c.pc = 0xffe;
    c.memory.write_byte(0xffe, 0xf0);
    c.memory.write_byte(0xfff, 0x0a);
    c.step(); // no key down: net no movement, despite the wrap at 0
    assert_eq!(c.pc, 0xffe);
}

#[test]
fn rom_too_large_is_reported() {
    let mut c = CPU::new();
    let rom = vec![0u8; 4096 - 512 + 1];
    assert_eq!(c.memory.load(&rom), Err(LoadError::TooLarge));
    let rom = vec![0u8; 4096 - 512];
    assert_eq!(c.memory.load(&rom), Ok(()));
}
