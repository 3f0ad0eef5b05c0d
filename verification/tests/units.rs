use chip8::display::Display;
use chip8::font::font_table;
use chip8::keyboard::Keyboard;
use chip8::memory::{LoadError, Memory};

#[test]
fn loaded_rom_sits_at_0x200_over_font_and_zeroes() {
    let mut m = Memory::new();
    let rom: Vec<u8> = (1..=10).collect();
    m.load(&rom).unwrap();
    for (k, &b) in rom.iter().enumerate() {
        assert_eq!(m.read_byte(0x200 + k as u16), b);
    }
    let font = font_table();
    for a in 0..80 {
        assert_eq!(m.read_byte(a as u16), font[a]);
    }
    for a in 80..0x200 {
        assert_eq!(m.read_byte(a as u16), 0);
    }
    assert_eq!(m.read_byte(0x20a), 0); // first byte past the program
}

#[test]
fn load_error_when_rom_does_not_fit() {
    let mut m = Memory::new();
    let before = m.ram.clone();
    let rom = vec![0xabu8; 3585];
    assert_eq!(m.load(&rom), Err(LoadError::TooLarge));
    assert_eq!(m.ram, before); // nothing written on failure
    let rom = vec![0xabu8; 3584];
    assert_eq!(m.load(&rom), Ok(()));
    assert_eq!(m.read_byte(4095), 0xab);
}

#[test]
fn byte_access_masks_addresses() {
    let mut m = Memory::new();
    m.write_byte(4096 + 0x300, 0x5a); // wraps to 0x300
    assert_eq!(m.read_byte(0x300), 0x5a);
    assert_eq!(m.read_byte(4096 + 0x300), 0x5a);
}

#[test]
fn return_stack_pushes_and_pops() {
    let mut m = Memory::new();
    m.push_return(0x202);
    m.push_return(0x404);
    assert_eq!(m.pop_return(), 0x404);
    assert_eq!(m.pop_return(), 0x202);
}

#[test]
fn return_stack_underflow_is_clamped() {
    let mut m = Memory::new();
    assert_eq!(m.pop_return(), 0);
    assert_eq!(m.sp, 0);
    m.push_return(0x333);
    assert_eq!(m.pop_return(), 0x333);
    assert_eq!(m.pop_return(), 0); // empty again: bottom slot reads as 0
    assert_eq!(m.sp, 0);
}

#[test]
fn return_stack_overflow_drops_the_push() {
    let mut m = Memory::new();
    for k in 0..15 {
        m.push_return(0x200 + k);
    }
    m.push_return(0xfff); // sixteenth push: no slot above the bottom is free
    assert_eq!(m.pop_return(), 0x200 + 14);
}

#[test]
fn font_table_has_eighty_bytes_and_known_glyphs() {
    let f = font_table();
    assert_eq!(f.len(), 80);
    assert_eq!(&f[0..5], &[0xf0, 0x90, 0x90, 0x90, 0xf0]); // glyph 0
    assert_eq!(&f[75..80], &[0xf0, 0x80, 0xf0, 0x80, 0x80]); // glyph F
}

#[test]
fn display_draw_is_an_involution_on_a_busy_frame() {
    let mut d = Display::new();
    d.display_sprite(3, 4, &[0b1010_1010, 0b0101_0101]);
    let busy = d.snapshot().clone();
    let first = d.display_sprite(5, 4, &[0xff, 0xff, 0xff]);
    assert!(first); // overlaps pixels already lit
    let second = d.display_sprite(5, 4, &[0xff, 0xff, 0xff]);
    assert!(second);
    assert_eq!(d.snapshot(), &busy);
}

#[test]
fn display_clear_turns_everything_off() {
    let mut d = Display::new();
    d.display_sprite(0, 0, &[0xff]);
    d.clear();
    assert!(d.snapshot().iter().all(|&p| !p));
}

#[test]
fn display_collision_only_on_lit_overlap() {
    let mut d = Display::new();
    assert!(!d.display_sprite(0, 0, &[0b1000_0000]));
    assert!(!d.display_sprite(1, 0, &[0b1000_0000])); // neighbour, no overlap
    assert!(d.display_sprite(0, 0, &[0b1100_0000])); // hits the first pixel
}

#[test]
fn keyboard_press_release_and_scan() {
    let mut k = Keyboard::new();
    assert_eq!(k.any_pressed(), None);
    k.pressed(7);
    k.pressed(2);
    assert!(k.is_pressed(7));
    assert!(!k.is_pressed(3));
    assert_eq!(k.any_pressed(), Some(2)); // lowest pressed key
    k.released(2);
    assert_eq!(k.any_pressed(), Some(7));
    k.released(7);
    assert_eq!(k.any_pressed(), None);
}
