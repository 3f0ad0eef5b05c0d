//! The built-in bitmap font: one 5-byte glyph for each hexadecimal digit
//! 0-F, stored at the bottom of the address space. Each byte is one row of
//! the glyph, most significant bit leftmost.

use vstd::prelude::*;

verus! {

/// The 80 font bytes, glyph `d` occupying indices `5*d .. 5*d + 5`.
pub open spec fn font_seq() -> Seq<u8> {
    seq![
        0xf0u8, 0x90, 0x90, 0x90, 0xf0, // 0
        0x20, 0x60, 0x20, 0x20, 0x70, // 1
        0xf0, 0x10, 0xf0, 0x80, 0xf0, // 2
        0xf0, 0x10, 0xf0, 0x10, 0xf0, // 3
        0x90, 0x90, 0xf0, 0x10, 0x10, // 4
        0xf0, 0x80, 0xf0, 0x10, 0xf0, // 5
        0xf0, 0x80, 0xf0, 0x90, 0xf0, // 6
        0xf0, 0x10, 0x20, 0x40, 0x40, // 7
        0xf0, 0x90, 0xf0, 0x90, 0xf0, // 8
        0xf0, 0x90, 0xf0, 0x10, 0xf0, // 9
        0xf0, 0x90, 0xf0, 0x90, 0x90, // A
        0xe0, 0x90, 0xe0, 0x90, 0xe0, // B
        0xf0, 0x80, 0x80, 0x80, 0xf0, // C
        0xe0, 0x90, 0x90, 0x90, 0xe0, // D
        0xf0, 0x80, 0xf0, 0x80, 0xf0, // E
        0xf0, 0x80, 0xf0, 0x80, 0x80, // F
    ]
}

/// Appends the five rows of one glyph.
fn push_glyph(v: &mut Vec<u8>, b0: u8, b1: u8, b2: u8, b3: u8, b4: u8)
    ensures
        final(v)@ == old(v)@ + seq![b0, b1, b2, b3, b4],
{
    v.push(b0);
    v.push(b1);
    v.push(b2);
    v.push(b3);
    v.push(b4);
    assert(v@ =~= old(v)@ + seq![b0, b1, b2, b3, b4]);
}

/// Builds the font table as executable bytes.
pub fn font_table() -> (v: Vec<u8>)
    ensures
        v@ == font_seq(),
        v@.len() == 80,
{
    let mut v: Vec<u8> = Vec::new();
    push_glyph(&mut v, 0xf0, 0x90, 0x90, 0x90, 0xf0);
    push_glyph(&mut v, 0x20, 0x60, 0x20, 0x20, 0x70);
    push_glyph(&mut v, 0xf0, 0x10, 0xf0, 0x80, 0xf0);
    push_glyph(&mut v, 0xf0, 0x10, 0xf0, 0x10, 0xf0);
    push_glyph(&mut v, 0x90, 0x90, 0xf0, 0x10, 0x10);
    push_glyph(&mut v, 0xf0, 0x80, 0xf0, 0x10, 0xf0);
    push_glyph(&mut v, 0xf0, 0x80, 0xf0, 0x90, 0xf0);
    push_glyph(&mut v, 0xf0, 0x10, 0x20, 0x40, 0x40);
    push_glyph(&mut v, 0xf0, 0x90, 0xf0, 0x90, 0xf0);
    push_glyph(&mut v, 0xf0, 0x90, 0xf0, 0x10, 0xf0);
    push_glyph(&mut v, 0xf0, 0x90, 0xf0, 0x90, 0x90);
    push_glyph(&mut v, 0xe0, 0x90, 0xe0, 0x90, 0xe0);
    push_glyph(&mut v, 0xf0, 0x80, 0x80, 0x80, 0xf0);
    push_glyph(&mut v, 0xe0, 0x90, 0x90, 0x90, 0xe0);
    push_glyph(&mut v, 0xf0, 0x80, 0xf0, 0x80, 0xf0);
    push_glyph(&mut v, 0xf0, 0x80, 0xf0, 0x80, 0x80);
    assert(v@ =~= font_seq());
    v
}

} // verus!
