//! The 64x32 monochrome framebuffer.
//!
//! Sprites are drawn by XOR: each set sprite bit toggles one pixel, and a
//! draw reports a collision when some pixel goes from on to off. Pixels
//! that would fall outside the grid are clipped, not wrapped: rows below
//! the bottom edge and columns past the right edge are skipped.

use vstd::prelude::*;

verus! {

/// Width of the framebuffer in pixels.
pub const FRAME_WIDTH: usize = 64;

/// Height of the framebuffer in pixels.
pub const FRAME_HEIGHT: usize = 32;

/// Number of pixels; pixel (px, py) lives at index `py * 64 + px`.
pub const NUM_PIXELS: usize = 2048;

/// Bit `b` (0 = leftmost, most significant) of one sprite row.
pub open spec fn sprite_row_bit(row: u8, b: int) -> bool {
    (row >> ((7 - b) as u8)) & 1 == 1
}

/// Whether a sprite whose top-left corner is (x, y) toggles the pixel at
/// index `p`: the pixel lies within the sprite's 8-column window and its
/// row span, and the corresponding sprite bit is set. Clipping needs no
/// clause of its own: a pixel index `p` in 0..2048 always has `p % 64 <
/// 64` and `p / 64 < 32`, so clipped sprite cells cover no pixel.
pub open spec fn sprite_covers(x: int, y: int, s: Seq<u8>, p: int) -> bool {
    let px = p % 64;
    let py = p / 64;
    &&& y <= py < y + s.len()
    &&& x <= px < x + 8
    &&& sprite_row_bit(s[py - y], px - x)
}

/// Like `sprite_covers` for the single row drawn at pixel row `py`, with
/// only the leftmost `b` columns of the row considered.
pub open spec fn row_covers_upto(x: int, py: int, row: u8, b: int, p: int) -> bool {
    let px = p % 64;
    &&& p / 64 == py
    &&& x <= px < x + b
    &&& px < x + 8
    &&& sprite_row_bit(row, px - x)
}

/// The framebuffer after one sprite draw: every covered pixel toggled.
pub open spec fn frame_after_draw(frame: Seq<bool>, x: int, y: int, s: Seq<u8>) -> Seq<bool> {
    Seq::new(frame.len(), |p: int| frame[p] != sprite_covers(x, y, s, p))
}

/// Whether a draw turns some pixel from on to off.
pub open spec fn draw_collides(frame: Seq<bool>, x: int, y: int, s: Seq<u8>) -> bool {
    exists|p: int| 0 <= p < frame.len() && frame[p] && sprite_covers(x, y, s, p)
}

/// XOR drawing is an involution: drawing the same sprite twice at the
/// same coordinates restores the framebuffer that stood before the first
/// draw.
pub proof fn lemma_draw_involution(frame: Seq<bool>, x: int, y: int, s: Seq<u8>)
    ensures
        frame_after_draw(frame_after_draw(frame, x, y, s), x, y, s) == frame,
{
    assert(frame_after_draw(frame_after_draw(frame, x, y, s), x, y, s) =~= frame);
}

pub struct Display {
    /// Pixel states, row-major: pixel (px, py) at index `py * 64 + px`.
    pub frame: Vec<bool>,
}

impl Display {
    pub open spec fn wf(self) -> bool {
        self.frame@.len() == NUM_PIXELS
    }

    /// A framebuffer with every pixel off.
    pub fn new() -> (d: Display)
        ensures
            d.wf(),
            forall|p: int| 0 <= p < NUM_PIXELS ==> !d.frame@[p],
    {
        let mut frame: Vec<bool> = Vec::new();
        while frame.len() < NUM_PIXELS
            invariant
                frame@.len() <= NUM_PIXELS,
                forall|p: int| 0 <= p < frame@.len() ==> !frame@[p],
            decreases NUM_PIXELS - frame@.len(),
        {
            frame.push(false);
        }
        Display { frame }
    }

    /// Turns every pixel off.
    pub fn clear(&mut self)
        requires
            old(self).wf(),
        ensures
            final(self).wf(),
            forall|p: int| 0 <= p < NUM_PIXELS ==> !final(self).frame@[p],
    {
        let mut p: usize = 0;
        while p < NUM_PIXELS
            invariant
                self.wf(),
                p <= NUM_PIXELS,
                forall|q: int| 0 <= q < p ==> !self.frame@[q],
            decreases NUM_PIXELS - p,
        {
            self.frame.set(p, false);
            p = p + 1;
        }
    }

    /// The current pixel grid, for an external presentation layer.
    pub fn snapshot(&self) -> (f: &Vec<bool>)
        ensures
            f@ == self.frame@,
    {
        &self.frame
    }

    /// Toggles the pixels of one sprite row whose leftmost column is `x`
    /// on pixel row `py`; reports whether some pixel went on to off.
    fn toggle_row(&mut self, x: usize, py: usize, row: u8) -> (col: bool)
        requires
            old(self).wf(),
            x < FRAME_WIDTH,
            py < FRAME_HEIGHT,
        ensures
            final(self).wf(),
            forall|p: int|
                0 <= p < NUM_PIXELS ==> final(self).frame@[p] == (old(self).frame@[p]
                    != row_covers_upto(x as int, py as int, row, 8, p)),
            col == exists|p: int|
                0 <= p < NUM_PIXELS && old(self).frame@[p] && row_covers_upto(
                    x as int,
                    py as int,
                    row,
                    8,
                    p,
                ),
    {
        let mut col = false;
        let mut b: u8 = 0;
        while b < 8
            invariant
                self.wf(),
                x < FRAME_WIDTH,
                py < FRAME_HEIGHT,
                b <= 8,
                forall|p: int|
                    0 <= p < NUM_PIXELS ==> self.frame@[p] == (old(self).frame@[p]
                        != row_covers_upto(x as int, py as int, row, b as int, p)),
                col == exists|p: int|
                    0 <= p < NUM_PIXELS && old(self).frame@[p] && row_covers_upto(
                        x as int,
                        py as int,
                        row,
                        b as int,
                        p,
                    ),
            decreases 8 - b,
        {
            let ghost bi = b as int;
            if x + (b as usize) < FRAME_WIDTH && ((row >> (7 - b)) & 1) == 1 {
                let p0 = py * FRAME_WIDTH + x + (b as usize);
                proof {
                    assert(p0 as int % 64 == x + bi && p0 as int / 64 == py as int);
                    assert(sprite_row_bit(row, bi));
                }
                let prev = self.frame[p0];
                proof {
                    // Column x + b is not yet covered, so the pixel still
                    // holds its pre-draw state.
                    assert(!row_covers_upto(x as int, py as int, row, bi, p0 as int));
                    assert(prev == old(self).frame@[p0 as int]);
                }
                self.frame.set(p0, !prev);
                if prev {
                    col = true;
                }
                proof {
                    assert forall|p: int| 0 <= p < NUM_PIXELS && p != p0 implies row_covers_upto(
                        x as int,
                        py as int,
                        row,
                        bi + 1,
                        p,
                    ) == row_covers_upto(x as int, py as int, row, bi, p) by {
                        if p / 64 == py as int && p % 64 == x + bi {
                            assert(p == py * 64 + (x + bi)) by (nonlinear_arith)
                                requires
                                    p / 64 == py as int,
                                    p % 64 == x + bi,
                            ;
                        }
                    }
                    assert(row_covers_upto(x as int, py as int, row, bi + 1, p0 as int));
                    if col {
                        assert(exists|p: int|
                            0 <= p < NUM_PIXELS && old(self).frame@[p] && row_covers_upto(
                                x as int,
                                py as int,
                                row,
                                bi + 1,
                                p,
                            ));
                    } else {
                        assert forall|p: int|
                            0 <= p < NUM_PIXELS && old(self).frame@[p] implies !row_covers_upto(
                            x as int,
                            py as int,
                            row,
                            bi + 1,
                            p,
                        ) by {
                            if p == p0 {
                                assert(!old(self).frame@[p]);
                            }
                        }
                    }
                }
            } else {
                proof {
                    assert forall|p: int| 0 <= p < NUM_PIXELS implies row_covers_upto(
                        x as int,
                        py as int,
                        row,
                        bi + 1,
                        p,
                    ) == row_covers_upto(x as int, py as int, row, bi, p) by {
                        if x + (b as usize) < FRAME_WIDTH {
                            assert(!sprite_row_bit(row, bi));
                        } else {
                            assert(p % 64 < 64);
                        }
                    }
                }
            }
            b = b + 1;
        }
        col
    }

    /// Draws a sprite by XOR, one byte per row, most significant bit at
    /// column `x`. Rows below the bottom edge and columns past the right
    /// edge are clipped. Returns true when some pixel flipped on to off.
    pub fn display_sprite(&mut self, x: usize, y: usize, sprite: &[u8]) -> (collision: bool)
        requires
            old(self).wf(),
            x < FRAME_WIDTH,
            y < FRAME_HEIGHT,
        ensures
            final(self).wf(),
            final(self).frame@ == frame_after_draw(old(self).frame@, x as int, y as int, sprite@),
            collision == draw_collides(old(self).frame@, x as int, y as int, sprite@),
    {
        let mut collision = false;
        let mut idx: usize = 0;
        while idx < sprite.len()
            invariant
                self.wf(),
                old(self).wf(),
                x < FRAME_WIDTH,
                y < FRAME_HEIGHT,
                idx <= sprite@.len(),
                forall|p: int|
                    0 <= p < NUM_PIXELS ==> self.frame@[p] == (old(self).frame@[p]
                        != sprite_covers(x as int, y as int, sprite@.subrange(0, idx as int), p)),
                collision == exists|p: int|
                    0 <= p < NUM_PIXELS && old(self).frame@[p] && sprite_covers(
                        x as int,
                        y as int,
                        sprite@.subrange(0, idx as int),
                        p,
                    ),
            decreases sprite@.len() - idx,
        {
            let ghost ii = idx as int;
            let ghost pre = sprite@.subrange(0, ii);
            let ghost post = sprite@.subrange(0, ii + 1);
            let row = sprite[idx];
            if idx < FRAME_HEIGHT && y + idx < FRAME_HEIGHT {
                let ghost mid_frame = self.frame@;
                let rc = self.toggle_row(x, y + idx, row);
                if rc {
                    collision = true;
                }
                proof {
                    let xi = x as int;
                    let yi = y as int;
                    let pyi = yi + ii;
                    // A pixel on the row being drawn is untouched by the
                    // earlier rows, and vice versa: the two cover sets
                    // are disjoint, so the toggles compose pointwise.
                    assert forall|p: int| 0 <= p < NUM_PIXELS implies self.frame@[p] == (old(
                        self,
                    ).frame@[p] != sprite_covers(xi, yi, post, p)) by {
                        assert(self.frame@[p] == (mid_frame[p] != row_covers_upto(
                            xi,
                            pyi,
                            row,
                            8,
                            p,
                        )));
                        if p / 64 == pyi {
                            assert(!sprite_covers(xi, yi, pre, p));
                            assert(sprite_covers(xi, yi, post, p) == row_covers_upto(
                                xi,
                                pyi,
                                row,
                                8,
                                p,
                            ));
                        } else {
                            assert(!row_covers_upto(xi, pyi, row, 8, p));
                            assert(sprite_covers(xi, yi, post, p) == sprite_covers(
                                xi,
                                yi,
                                pre,
                                p,
                            ));
                        }
                    }
                    // The row's collision report is relative to the frame
                    // as it stood mid-draw, but on its own row that frame
                    // still agrees with the pre-draw frame.
                    assert forall|p: int|
                        0 <= p < NUM_PIXELS && row_covers_upto(
                            xi,
                            pyi,
                            row,
                            8,
                            p,
                        ) implies mid_frame[p] == old(self).frame@[p] by {
                        assert(!sprite_covers(xi, yi, pre, p));
                    }
                    if collision {
                        if rc {
                            let p = choose|p: int|
                                0 <= p < NUM_PIXELS && mid_frame[p] && row_covers_upto(
                                    xi,
                                    pyi,
                                    row,
                                    8,
                                    p,
                                );
                            assert(old(self).frame@[p] && sprite_covers(xi, yi, post, p));
                        } else {
                            let p = choose|p: int|
                                0 <= p < NUM_PIXELS && old(self).frame@[p] && sprite_covers(
                                    xi,
                                    yi,
                                    pre,
                                    p,
                                );
                            assert(sprite_covers(xi, yi, post, p));
                        }
                        assert(exists|p: int|
                            0 <= p < NUM_PIXELS && old(self).frame@[p] && sprite_covers(
                                xi,
                                yi,
                                post,
                                p,
                            ));
                    } else {
                        assert forall|p: int|
                            0 <= p < NUM_PIXELS && old(self).frame@[p] implies !sprite_covers(
                            xi,
                            yi,
                            post,
                            p,
                        ) by {
                            if sprite_covers(xi, yi, post, p) {
                                if p / 64 == pyi {
                                    assert(row_covers_upto(xi, pyi, row, 8, p));
                                    assert(mid_frame[p] && row_covers_upto(xi, pyi, row, 8, p));
                                } else {
                                    assert(sprite_covers(xi, yi, pre, p));
                                }
                            }
                        }
                    }
                }
            } else {
                proof {
                    // The whole row lies below the bottom edge: no pixel
                    // index reaches it, so the cover set does not grow.
                    assert forall|p: int| 0 <= p < NUM_PIXELS implies sprite_covers(
                        x as int,
                        y as int,
                        post,
                        p,
                    ) == sprite_covers(x as int, y as int, pre, p) by {
                        assert(p / 64 < 32);
                    }
                }
            }
            idx = idx + 1;
        }
        proof {
            assert(sprite@.subrange(0, sprite@.len() as int) =~= sprite@);
            assert(self.frame@ =~= frame_after_draw(
                old(self).frame@,
                x as int,
                y as int,
                sprite@,
            ));
        }
        collision
    }
}

} // verus!
