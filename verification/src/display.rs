//! The monochrome framebuffer: a fixed 64x32 grid of one-byte pixels
//! (0 or 1), with bounds-checked pixel access, a clear operation, and the
//! XOR sprite-drawing operation with collision detection.

use crate::errors::DisplayError;
use vstd::arithmetic::div_mod::{lemma_add_mod_noop, lemma_mod_bound};
use vstd::prelude::*;

verus! {

broadcast use vstd::array::group_array_axioms;

/// Width of the display in pixels.
pub const WIDTH: usize = 64;

/// Height of the display in pixels.
pub const HEIGHT: usize = 32;

/// Number of pixels of the display (`WIDTH * HEIGHT`).
pub const DISPLAY_SIZE: usize = 2048;

/// Whether some set bit of row byte `row`, drawn at unwrapped coordinates
/// `(x, y)`, lands on buffer position `p`.
pub open spec fn row_touches(x: int, y: int, row: u8, p: int) -> bool {
    exists|i: int| 0 <= i < 8 && sprite_bit(row, i) && wrapped_index(x + i, y) == p
}

/// Whether some set bit of `sprite`, drawn at unwrapped coordinates
/// `(x, y)`, lands on buffer position `p`.
pub open spec fn touches(x: int, y: int, sprite: Seq<u8>, p: int) -> bool {
    exists|j: int| 0 <= j < sprite.len() && row_touches(x, y + j, sprite[j], p)
}

/// The framebuffer. Row-major, one byte per pixel, each byte 0 or 1.
pub struct Display {
    memory: [u8; DISPLAY_SIZE],
}

impl View for Display {
    type V = Seq<u8>;

    closed spec fn view(&self) -> Seq<u8> {
        self.memory@
    }
}

/// Every pixel byte is 0 or 1 and the buffer has its fixed size.
pub open spec fn screen_inv(mem: Seq<u8>) -> bool {
    &&& mem.len() == DISPLAY_SIZE
    &&& forall|p: int| 0 <= p < mem.len() ==> mem[p] == 0 || mem[p] == 1
}

/// Index of the pixel at wrapped coordinates `(x, y)` in the row-major
/// buffer, for arbitrary (unwrapped) coordinates.
pub open spec fn wrapped_index(x: int, y: int) -> int {
    x % (WIDTH as int) + (y % (HEIGHT as int)) * (WIDTH as int)
}

/// Bit `i` of a sprite row, counting the most significant bit as the
/// leftmost pixel (`i = 0`).
pub open spec fn sprite_bit(row: u8, i: int) -> bool {
    (row >> ((7 - i) as u8)) & 0x01 == 1
}

/// A pixel byte after being toggled by a set sprite bit.
pub open spec fn toggled(v: u8) -> u8 {
    if v == 1 {
        0u8
    } else {
        1u8
    }
}

/// Effect of sprite bit `i` of row byte `row`, drawn at unwrapped
/// coordinates `(x, y)`, on a buffer/collision pair: a set bit toggles the
/// pixel at the wrapped position and records a collision when that pixel
/// was lit; a clear bit changes nothing.
pub open spec fn draw_bit(state: (Seq<u8>, bool), x: int, y: int, row: u8, i: int) -> (Seq<u8>, bool) {
    if sprite_bit(row, i) {
        let p = wrapped_index(x + i, y);
        (state.0.update(p, toggled(state.0[p])), state.1 || state.0[p] == 1)
    } else {
        state
    }
}

/// Effect of the first `nbits` bits of one sprite row, applied left to
/// right.
pub open spec fn draw_row_upto(state: (Seq<u8>, bool), x: int, y: int, row: u8, nbits: int) -> (Seq<
    u8,
>, bool)
    decreases nbits,
{
    if nbits <= 0 {
        state
    } else {
        draw_bit(draw_row_upto(state, x, y, row, nbits - 1), x, y, row, nbits - 1)
    }
}

/// Effect of the first `nrows` rows of a sprite, applied top to bottom.
pub open spec fn draw_upto(state: (Seq<u8>, bool), x: int, y: int, sprite: Seq<u8>, nrows: int) -> (
    Seq<u8>,
    bool,
)
    decreases nrows,
{
    if nrows <= 0 {
        state
    } else {
        draw_row_upto(draw_upto(state, x, y, sprite, nrows - 1), x, y + (nrows - 1), sprite[nrows - 1], 8)
    }
}

/// The buffer and collision flag that drawing `sprite` at `(x, y)` yields:
/// each set sprite bit toggles its wrapped pixel, and the flag reports
/// whether any toggled pixel was already lit when it was toggled.
pub open spec fn draw_spec(mem: Seq<u8>, x: int, y: int, sprite: Seq<u8>) -> (Seq<u8>, bool) {
    draw_upto((mem, false), x, y, sprite, sprite.len() as int)
}

impl Display {
    /// Which well-formed states the framebuffer keeps: see [`screen_inv`].
    pub open spec fn inv(&self) -> bool {
        screen_inv(self@)
    }

    /// A blank display, every pixel 0.
    pub fn new() -> (r: Self)
        ensures
            r.inv(),
            r@.len() == DISPLAY_SIZE,
            forall|p: int| 0 <= p < r@.len() ==> r@[p] == 0,
    {
        Self { memory: [0; DISPLAY_SIZE] }
    }

    /// The raw pixel buffer, row-major.
    pub fn get_memory(&self) -> (r: &[u8; DISPLAY_SIZE])
        ensures
            r@ == self@,
    {
        &self.memory
    }

    /// Writes one pixel; fails without mutating anything when the
    /// coordinates fall outside the grid.
    pub fn set_pixel(&mut self, x: usize, y: usize, value: bool) -> (r: Result<(), DisplayError>)
        requires
            old(self).inv(),
        ensures
            final(self).inv(),
            x < WIDTH && y < HEIGHT ==> r == Ok::<(), DisplayError>(()) && final(self)@ == old(
                self,
            )@.update((x + y * WIDTH) as int, if value { 1u8 } else { 0u8 }),
            !(x < WIDTH && y < HEIGHT) ==> r == Err::<(), DisplayError>(
                DisplayError::OutOfBounds {
                    x: x as u8,
                    y: y as u8,
                    width: WIDTH as u8,
                    height: HEIGHT as u8,
                },
            ) && final(self)@ == old(self)@,
    {
        if x >= WIDTH || y >= HEIGHT {
            return Err(
                DisplayError::OutOfBounds {
                    x: x as u8,
                    y: y as u8,
                    width: WIDTH as u8,
                    height: HEIGHT as u8,
                },
            );
        }
        self.memory[x + y * WIDTH] = if value {
            1
        } else {
            0
        };
        Ok(())
    }

    /// Reads one pixel; fails when the coordinates fall outside the grid.
    pub fn get_pixel(&self, x: usize, y: usize) -> (r: Result<u8, DisplayError>)
        ensures
            x < WIDTH && y < HEIGHT ==> r == Ok::<u8, DisplayError>(self@[(x + y * WIDTH) as int]),
            !(x < WIDTH && y < HEIGHT) ==> r == Err::<u8, DisplayError>(
                DisplayError::OutOfBounds {
                    x: x as u8,
                    y: y as u8,
                    width: WIDTH as u8,
                    height: HEIGHT as u8,
                },
            ),
    {
        if x >= WIDTH || y >= HEIGHT {
            return Err(
                DisplayError::OutOfBounds {
                    x: x as u8,
                    y: y as u8,
                    width: WIDTH as u8,
                    height: HEIGHT as u8,
                },
            );
        }
        Ok(self.memory[x + y * WIDTH])
    }

    /// Sets every pixel to 0. Never fails.
    pub fn clear(&mut self) -> (r: Result<(), DisplayError>)
        ensures
            r == Ok::<(), DisplayError>(()),
            final(self).inv(),
            final(self)@.len() == DISPLAY_SIZE,
            forall|p: int| 0 <= p < final(self)@.len() ==> final(self)@[p] == 0,
    {
        let mut p: usize = 0;
        while p < DISPLAY_SIZE
            invariant
                p <= DISPLAY_SIZE,
                self@.len() == DISPLAY_SIZE,
                forall|q: int| 0 <= q < p ==> self@[q] == 0,
            decreases DISPLAY_SIZE - p,
        {
            self.memory[p] = 0;
            p += 1;
        }
        Ok(())
    }

    /// Draws a sprite of 8-pixel-wide rows at `(x, y)`, wrapping both
    /// coordinates around the grid edges. Set sprite bits toggle pixels;
    /// clear bits leave them alone. Returns whether any toggled pixel was
    /// already lit. Never fails: the wrapping keeps every access in
    /// bounds.
    pub fn draw(&mut self, x: usize, y: usize, sprite: &[u8]) -> (r: Result<bool, DisplayError>)
        requires
            old(self).inv(),
        ensures
            final(self).inv(),
            final(self)@ == draw_spec(old(self)@, x as int, y as int, sprite@).0,
            r == Ok::<bool, DisplayError>(draw_spec(old(self)@, x as int, y as int, sprite@).1),
    {
        let mut collision = false;
        let ghost start = (old(self)@, false);
        let mut j: usize = 0;
        while j < sprite.len()
            invariant
                old(self).inv(),
                self.inv(),
                j <= sprite@.len(),
                (self@, collision) == draw_upto(start, x as int, y as int, sprite@, j as int),
            decreases sprite@.len() - j,
        {
            let row = sprite[j];
            let ghost row_start = (self@, collision);
            let mut i: usize = 0;
            while i < 8
                invariant
                    old(self).inv(),
                    self.inv(),
                    i <= 8,
                    j < sprite@.len(),
                    row == sprite@[j as int],
                    (self@, collision) == draw_row_upto(
                        row_start,
                        x as int,
                        (y + j) as int,
                        row,
                        i as int,
                    ),
                decreases 8 - i,
            {
                let new_value = (row >> ((7 - i) as u8)) & 0x01;
                proof {
                    assert((row >> ((7 - i as int) as u8)) & 0x01 == 0 || (row >> ((7
                        - i as int) as u8)) & 0x01 == 1) by (bit_vector);
                }
                if new_value == 1 {
                    let xi = (x % WIDTH + i) % WIDTH;
                    let yj = (y % HEIGHT + j % HEIGHT) % HEIGHT;
                    proof {
                        lemma_add_mod_noop(x as int, i as int, WIDTH as int);
                        lemma_add_mod_noop(y as int, j as int, HEIGHT as int);
                        assert(xi == (x + i) % (WIDTH as int));
                        assert(yj == (y + j) % (HEIGHT as int));
                    }
                    let old_value = match self.get_pixel(xi, yj) {
                        Ok(v) => v,
                        Err(e) => {
                            return Err(e);
                        },
                    };
                    collision = collision || old_value == 1;
                    match self.set_pixel(xi, yj, (new_value == 1) ^ (old_value == 1)) {
                        Ok(()) => {},
                        Err(e) => {
                            return Err(e);
                        },
                    }
                }
                i += 1;
                proof {
                    assert((self@, collision) == draw_bit(
                        draw_row_upto(row_start, x as int, (y + j) as int, row, i - 1),
                        x as int,
                        (y + j) as int,
                        row,
                        i - 1,
                    ));
                }
            }
            j += 1;
            proof {
                assert(draw_upto(start, x as int, y as int, sprite@, j as int) == draw_row_upto(
                    draw_upto(start, x as int, y as int, sprite@, j - 1),
                    x as int,
                    (y + j - 1) as int,
                    sprite@[j - 1],
                    8,
                ));
            }
        }
        Ok(collision)
    }
}

/// A wrapped position is a valid buffer index.
proof fn lemma_wrapped_index_range(x: int, y: int)
    requires
        x >= 0,
        y >= 0,
    ensures
        0 <= wrapped_index(x, y) < DISPLAY_SIZE,
{
    lemma_mod_bound(x, WIDTH as int);
    lemma_mod_bound(y, HEIGHT as int);
}

/// Two nonnegative coordinate pairs that wrap to the same position agree
/// on both wrapped coordinates.
proof fn lemma_wrapped_index_injective(x1: int, y1: int, x2: int, y2: int)
    requires
        x1 >= 0,
        y1 >= 0,
        x2 >= 0,
        y2 >= 0,
        wrapped_index(x1, y1) == wrapped_index(x2, y2),
    ensures
        x1 % (WIDTH as int) == x2 % (WIDTH as int),
        y1 % (HEIGHT as int) == y2 % (HEIGHT as int),
{
    lemma_mod_bound(x1, WIDTH as int);
    lemma_mod_bound(x2, WIDTH as int);
    lemma_mod_bound(y1, HEIGHT as int);
    lemma_mod_bound(y2, HEIGHT as int);
}

/// Two bit positions of one row that wrap to the same buffer position are
/// the same bit.
proof fn lemma_row_cells_distinct(x: int, y: int, i1: int, i2: int)
    requires
        x >= 0,
        y >= 0,
        0 <= i1 < 8,
        0 <= i2 < 8,
        wrapped_index(x + i1, y) == wrapped_index(x + i2, y),
    ensures
        i1 == i2,
{
    lemma_wrapped_index_injective(x + i1, y, x + i2, y);
    lemma_add_mod_noop(x, i1, WIDTH as int);
    lemma_add_mod_noop(x, i2, WIDTH as int);
    lemma_mod_bound(x, WIDTH as int);
}

/// What the first `n` bits of one row do, stated pixel by pixel: bits that
/// are set toggle their pairwise-distinct cells, everything else is kept,
/// and the collision flag accumulates whether any toggled cell held 1.
proof fn lemma_draw_row_upto_props(state: (Seq<u8>, bool), x: int, y: int, row: u8, n: int)
    requires
        0 <= n <= 8,
        x >= 0,
        y >= 0,
        state.0.len() == DISPLAY_SIZE,
    ensures
        ({
            let out = draw_row_upto(state, x, y, row, n);
            &&& out.0.len() == DISPLAY_SIZE
            &&& forall|p: int|
                0 <= p < DISPLAY_SIZE && !(exists|i: int|
                    0 <= i < n && sprite_bit(row, i) && wrapped_index(x + i, y) == p) ==> out.0[p]
                    == state.0[p]
            &&& forall|i: int|
                0 <= i < n && sprite_bit(row, i) ==> out.0[wrapped_index(x + i, y)] == toggled(
                    state.0[wrapped_index(x + i, y)],
                )
            &&& out.1 == (state.1 || exists|i: int|
                0 <= i < n && sprite_bit(row, i) && state.0[wrapped_index(x + i, y)] == 1)
        }),
    decreases n,
{
    if n > 0 {
        lemma_draw_row_upto_props(state, x, y, row, n - 1);
        let prev = draw_row_upto(state, x, y, row, n - 1);
        let out = draw_row_upto(state, x, y, row, n);
        if sprite_bit(row, n - 1) {
            let c = wrapped_index(x + (n - 1), y);
            lemma_wrapped_index_range(x + (n - 1), y);
            assert forall|i: int| 0 <= i < n - 1 && sprite_bit(row, i) implies wrapped_index(
                x + i,
                y,
            ) != c by {
                if wrapped_index(x + i, y) == c {
                    lemma_row_cells_distinct(x, y, i, n - 1);
                }
            }
            assert(!(exists|i: int|
                0 <= i < n - 1 && sprite_bit(row, i) && wrapped_index(x + i, y) == c));
            assert(prev.0[c] == state.0[c]);
            assert(out.0 == prev.0.update(c, toggled(prev.0[c])));
            assert forall|i: int|
                0 <= i < n && sprite_bit(row, i) implies out.0[wrapped_index(x + i, y)] == toggled(
                state.0[wrapped_index(x + i, y)],
            ) by {
                lemma_wrapped_index_range(x + i, y);
                if wrapped_index(x + i, y) == c {
                    lemma_row_cells_distinct(x, y, i, n - 1);
                } else {
                    assert(i < n - 1);
                }
            }
            if out.1 {
                if !state.1 {
                    if prev.1 {
                        let w = choose|i: int|
                            0 <= i < n - 1 && sprite_bit(row, i) && state.0[wrapped_index(
                                x + i,
                                y,
                            )] == 1;
                        assert(0 <= w < n && sprite_bit(row, w) && state.0[wrapped_index(x + w, y)]
                            == 1);
                    } else {
                        assert(state.0[wrapped_index(x + (n - 1), y)] == 1);
                    }
                }
            }
            if state.1 || (exists|i: int|
                0 <= i < n && sprite_bit(row, i) && state.0[wrapped_index(x + i, y)] == 1) {
                if !state.1 && !prev.1 {
                    let w = choose|i: int|
                        0 <= i < n && sprite_bit(row, i) && state.0[wrapped_index(x + i, y)] == 1;
                    if w < n - 1 {
                        assert(prev.1);
                    } else {
                        assert(prev.0[c] == 1);
                    }
                }
                assert(out.1);
            }
        } else {
            assert(out == prev);
            assert forall|i: int|
                0 <= i < n && sprite_bit(row, i) implies 0 <= i < n - 1 && sprite_bit(row, i) by {}
        }
    }
}

/// What the first `n` rows of a sprite do, stated pixel by pixel. Rows
/// land on pairwise-distinct cells as long as the sprite is no taller than
/// the display, so every toggle and every collision reads the pre-draw
/// buffer.
proof fn lemma_draw_upto_props(state: (Seq<u8>, bool), x: int, y: int, sprite: Seq<u8>, n: int)
    requires
        0 <= n <= sprite.len(),
        sprite.len() <= HEIGHT,
        x >= 0,
        y >= 0,
        state.0.len() == DISPLAY_SIZE,
    ensures
        ({
            let out = draw_upto(state, x, y, sprite, n);
            &&& out.0.len() == DISPLAY_SIZE
            &&& forall|p: int|
                0 <= p < DISPLAY_SIZE && !(exists|j: int|
                    0 <= j < n && row_touches(x, y + j, sprite[j], p)) ==> out.0[p] == state.0[p]
            &&& forall|j: int, i: int|
                0 <= j < n && 0 <= i < 8 && sprite_bit(sprite[j], i) ==> out.0[wrapped_index(
                    x + i,
                    y + j,
                )] == toggled(state.0[wrapped_index(x + i, y + j)])
            &&& out.1 == (state.1 || exists|j: int, i: int|
                0 <= j < n && 0 <= i < 8 && sprite_bit(sprite[j], i) && state.0[wrapped_index(
                    x + i,
                    y + j,
                )] == 1)
        }),
    decreases n,
{
    if n > 0 {
        lemma_draw_upto_props(state, x, y, sprite, n - 1);
        let prev = draw_upto(state, x, y, sprite, n - 1);
        let out = draw_upto(state, x, y, sprite, n);
        let yj = y + (n - 1);
        let row = sprite[n - 1];
        lemma_draw_row_upto_props(prev, x, yj, row, 8);
        assert(out == draw_row_upto(prev, x, yj, row, 8));

        // Cells of row n-1 are untouched by earlier rows.
        assert forall|i: int| 0 <= i < 8 && sprite_bit(row, i) implies prev.0[wrapped_index(
            x + i,
            yj,
        )] == state.0[wrapped_index(x + i, yj)] by {
            let c = wrapped_index(x + i, yj);
            lemma_wrapped_index_range(x + i, yj);
            assert forall|j: int| 0 <= j < n - 1 implies !row_touches(x, y + j, sprite[j], c) by {
                if row_touches(x, y + j, sprite[j], c) {
                    let i2 = choose|i2: int|
                        0 <= i2 < 8 && sprite_bit(sprite[j], i2) && wrapped_index(x + i2, y + j)
                            == c;
                    lemma_wrapped_index_injective(x + i2, y + j, x + i, yj);
                    lemma_mod_bound(y, HEIGHT as int);
                    lemma_add_mod_noop(y, j, HEIGHT as int);
                    lemma_add_mod_noop(y, n - 1, HEIGHT as int);
                    lemma_mod_bound(j, HEIGHT as int);
                    lemma_mod_bound(n - 1, HEIGHT as int);
                }
            }
        }

        // Pixels untouched by the first n rows are kept.
        assert forall|p: int|
            0 <= p < DISPLAY_SIZE && !(exists|j: int|
                0 <= j < n && row_touches(x, y + j, sprite[j], p)) implies out.0[p]
            == state.0[p] by {
            assert(!(exists|j: int| 0 <= j < n - 1 && row_touches(x, y + j, sprite[j], p)));
            assert(!row_touches(x, yj, row, p));
            assert(prev.0[p] == state.0[p]);
        }

        // Set bits of the first n rows toggle their cells.
        assert forall|j: int, i: int|
            0 <= j < n && 0 <= i < 8 && sprite_bit(sprite[j], i) implies out.0[wrapped_index(
            x + i,
            y + j,
        )] == toggled(state.0[wrapped_index(x + i, y + j)]) by {
            let c = wrapped_index(x + i, y + j);
            lemma_wrapped_index_range(x + i, y + j);
            if j == n - 1 {
                assert(out.0[c] == toggled(prev.0[c]));
            } else {
                assert(out.0[c] == prev.0[c] || row_touches(x, yj, row, c) || !row_touches(
                    x,
                    yj,
                    row,
                    c,
                ));
                if row_touches(x, yj, row, c) {
                    let i2 = choose|i2: int|
                        0 <= i2 < 8 && sprite_bit(row, i2) && wrapped_index(x + i2, yj) == c;
                    lemma_wrapped_index_injective(x + i2, yj, x + i, y + j);
                    lemma_mod_bound(y, HEIGHT as int);
                    lemma_add_mod_noop(y, j, HEIGHT as int);
                    lemma_add_mod_noop(y, n - 1, HEIGHT as int);
                    lemma_mod_bound(j, HEIGHT as int);
                    lemma_mod_bound(n - 1, HEIGHT as int);
                    assert(false);
                }
                assert(out.0[c] == prev.0[c]);
            }
        }

        // The collision flag accumulates exactly the lit toggled cells.
        if out.1 {
            if !state.1 && !prev.1 {
                let w = choose|i: int|
                    0 <= i < 8 && sprite_bit(row, i) && prev.0[wrapped_index(x + i, yj)] == 1;
                assert(state.0[wrapped_index(x + w, y + (n - 1))] == 1);
                assert(0 <= n - 1 < n && 0 <= w < 8 && sprite_bit(sprite[n - 1], w)
                    && state.0[wrapped_index(x + w, y + (n - 1))] == 1);
            }
        }
        if state.1 || (exists|j: int, i: int|
            0 <= j < n && 0 <= i < 8 && sprite_bit(sprite[j], i) && state.0[wrapped_index(
                x + i,
                y + j,
            )] == 1) {
            if !state.1 && !prev.1 {
                let (wj, wi) = choose|wj: int, wi: int|
                    0 <= wj < n && 0 <= wi < 8 && sprite_bit(sprite[wj], wi) && state.0[
                        wrapped_index(x + wi, y + wj)] == 1;
                if wj < n - 1 {
                    assert(prev.1);
                } else {
                    assert(prev.0[wrapped_index(x + wi, yj)] == 1);
                    assert(out.1);
                }
            }
            assert(out.1);
        }
    }
}

/// Drawing a sprite toggles exactly the touched pixels and keeps the
/// rest, and collides exactly when a touched pixel was lit — provided the
/// sprite is no taller than the display, so that no two sprite bits land
/// on one pixel.
pub proof fn lemma_draw_pointwise(mem: Seq<u8>, x: int, y: int, sprite: Seq<u8>)
    requires
        x >= 0,
        y >= 0,
        sprite.len() <= HEIGHT,
        mem.len() == DISPLAY_SIZE,
    ensures
        draw_spec(mem, x, y, sprite).0.len() == DISPLAY_SIZE,
        forall|p: int|
            0 <= p < DISPLAY_SIZE && !touches(x, y, sprite, p) ==> draw_spec(mem, x, y, sprite).0[p]
                == mem[p],
        forall|p: int|
            0 <= p < DISPLAY_SIZE && touches(x, y, sprite, p) ==> draw_spec(mem, x, y, sprite).0[p]
                == toggled(mem[p]),
        draw_spec(mem, x, y, sprite).1 == (exists|p: int|
            0 <= p < DISPLAY_SIZE && touches(x, y, sprite, p) && mem[p] == 1),
{
    lemma_draw_upto_props((mem, false), x, y, sprite, sprite.len() as int);
    let out = draw_spec(mem, x, y, sprite);

    assert forall|p: int|
        0 <= p < DISPLAY_SIZE && touches(x, y, sprite, p) implies out.0[p] == toggled(mem[p]) by {
        let j = choose|j: int| 0 <= j < sprite.len() && row_touches(x, y + j, sprite[j], p);
        let i = choose|i: int|
            0 <= i < 8 && sprite_bit(sprite[j], i) && wrapped_index(x + i, y + j) == p;
    }

    if out.1 {
        let (wj, wi) = choose|wj: int, wi: int|
            0 <= wj < sprite.len() && 0 <= wi < 8 && sprite_bit(sprite[wj], wi) && mem[
                wrapped_index(x + wi, y + wj)] == 1;
        let p = wrapped_index(x + wi, y + wj);
        lemma_wrapped_index_range(x + wi, y + wj);
        assert(row_touches(x, y + wj, sprite[wj], p));
        assert(touches(x, y, sprite, p));
        assert(0 <= p < DISPLAY_SIZE && touches(x, y, sprite, p) && mem[p] == 1);
    }
    if exists|p: int| 0 <= p < DISPLAY_SIZE && touches(x, y, sprite, p) && mem[p] == 1 {
        let p = choose|p: int| 0 <= p < DISPLAY_SIZE && touches(x, y, sprite, p) && mem[p] == 1;
        let j = choose|j: int| 0 <= j < sprite.len() && row_touches(x, y + j, sprite[j], p);
        let i = choose|i: int|
            0 <= i < 8 && sprite_bit(sprite[j], i) && wrapped_index(x + i, y + j) == p;
        assert(0 <= j < sprite.len() && 0 <= i < 8 && sprite_bit(sprite[j], i) && mem[wrapped_index(
            x + i,
            y + j,
        )] == 1);
        assert(out.1);
    }
}

/// XOR compositing is an involution: drawing the same sprite twice at the
/// same coordinates restores every pixel to its value before the first
/// draw, and the second draw reports a collision exactly when some touched
/// pixel was dark before the first draw (every touched pixel is lit after
/// the first draw precisely in that case). Holds for sprites no taller
/// than the display; a taller sprite wraps onto its own rows.
pub proof fn lemma_draw_twice(mem: Seq<u8>, x: int, y: int, sprite: Seq<u8>)
    requires
        screen_inv(mem),
        x >= 0,
        y >= 0,
        sprite.len() <= HEIGHT,
    ensures
        draw_spec(draw_spec(mem, x, y, sprite).0, x, y, sprite).0 == mem,
        draw_spec(draw_spec(mem, x, y, sprite).0, x, y, sprite).1 == (exists|p: int|
            0 <= p < DISPLAY_SIZE && touches(x, y, sprite, p) && mem[p] == 0),
{
    let first = draw_spec(mem, x, y, sprite);
    lemma_draw_pointwise(mem, x, y, sprite);
    lemma_draw_pointwise(first.0, x, y, sprite);
    let second = draw_spec(first.0, x, y, sprite);

    assert forall|p: int| 0 <= p < DISPLAY_SIZE implies second.0[p] == mem[p] by {
        if touches(x, y, sprite, p) {
            assert(second.0[p] == toggled(toggled(mem[p])));
        }
    }
    assert(second.0 =~= mem);

    assert forall|p: int| 0 <= p < DISPLAY_SIZE && touches(x, y, sprite, p) implies (first.0[p] == 1
        <==> mem[p] == 0) by {
        assert(first.0[p] == toggled(mem[p]));
        assert(mem[p] == 0 || mem[p] == 1);
    }
    if second.1 {
        let p = choose|p: int| 0 <= p < DISPLAY_SIZE && touches(x, y, sprite, p) && first.0[p] == 1;
        assert(0 <= p < DISPLAY_SIZE && touches(x, y, sprite, p) && mem[p] == 0);
    }
    if exists|p: int| 0 <= p < DISPLAY_SIZE && touches(x, y, sprite, p) && mem[p] == 0 {
        let p = choose|p: int| 0 <= p < DISPLAY_SIZE && touches(x, y, sprite, p) && mem[p] == 0;
        assert(0 <= p < DISPLAY_SIZE && touches(x, y, sprite, p) && first.0[p] == 1);
        assert(second.1);
    }
}

} // verus!
