use vstd::arithmetic::div_mod::{
    lemma_fundamental_div_mod, lemma_fundamental_div_mod_converse, lemma_mod_multiples_vanish,
    lemma_small_mod,
};
use vstd::prelude::*;

verus! {

/// Width of the framebuffer in pixels.
pub const COLS: usize = 64;

/// Height of the framebuffer in pixels.
pub const ROWS: usize = 32;

/// The divisor that isolates bit `k` of a sprite row, counting from the
/// most significant bit (leftmost pixel).
pub open spec fn bit_weight(k: int) -> u8 {
    if k == 0 {
        0x80
    } else if k == 1 {
        0x40
    } else if k == 2 {
        0x20
    } else if k == 3 {
        0x10
    } else if k == 4 {
        0x08
    } else if k == 5 {
        0x04
    } else if k == 6 {
        0x02
    } else {
        0x01
    }
}

/// Whether bit `k` (from the left) of one sprite row is set.
pub open spec fn sprite_row_bit(row: u8, k: int) -> bool {
    (row / bit_weight(k)) % 2 == 1
}

/// Row-major position of screen cell (cx, cy) in the framebuffer.
pub open spec fn pix_index(cx: int, cy: int) -> int {
    cy * 64 + cx
}

/// The sprite bit that lands on screen cell (cx, cy) when the sprite is
/// drawn with its origin at (x, y), restricted to the first `done` sprite
/// cells in row-major order (row r, bit b is cell number 8*r + b). Sprite
/// coordinates wrap: cell (cx, cy) is covered by sprite row (cy - y) mod 32
/// and bit (cx - x) mod 64, when those fall inside the sprite.
pub open spec fn overlay_upto(
    x: u8,
    y: u8,
    sprite: Seq<u8>,
    cx: int,
    cy: int,
    done: int,
) -> bool {
    let r = (cy - y as int) % 32;
    let b = (cx - x as int) % 64;
    &&& 8 * r + b < done
    &&& r < sprite.len()
    &&& b < 8
    &&& sprite_row_bit(sprite[r], b)
}

/// The sprite bit that lands on screen cell (cx, cy): the whole sprite.
pub open spec fn overlay(x: u8, y: u8, sprite: Seq<u8>, cx: int, cy: int) -> bool {
    overlay_upto(x, y, sprite, cx, cy, 8 * sprite.len() as int)
}

/// The framebuffer after the sprite is XORed in at (x, y), with coordinate
/// wraparound: every covered cell is toggled by its sprite bit, everything
/// else is untouched.
pub open spec fn draw_pixels(pix: Seq<bool>, x: u8, y: u8, sprite: Seq<u8>) -> Seq<bool> {
    Seq::new(pix.len(), |p: int| pix[p] != overlay(x, y, sprite, p % 64, p / 64))
}

/// Whether any pixel transitions from set to unset when the first `done`
/// sprite cells are XORed in at (x, y): a set sprite bit meets an already
/// set pixel.
pub open spec fn collision_upto(pix: Seq<bool>, x: u8, y: u8, sprite: Seq<u8>, done: int) -> bool {
    exists|r: int, b: int|
        0 <= r < sprite.len() && 0 <= b < 8 && 8 * r + b < done && #[trigger] sprite_row_bit(
            sprite[r],
            b,
        ) && pix[pix_index((x + b) % 64, (y + r) % 32)]
}

/// Whether drawing the sprite at (x, y) reports a collision.
pub open spec fn draw_collision(pix: Seq<bool>, x: u8, y: u8, sprite: Seq<u8>) -> bool {
    collision_upto(pix, x, y, sprite, 8 * sprite.len() as int)
}

/// Wraparound, forward direction: the cell that sprite row or bit `r` of an
/// origin `v` lands on is recovered as `r` again by the inverse offset.
proof fn lemma_wrap_fwd(v: u8, r: int, m: int)
    requires
        0 < m,
        0 <= r < m,
    ensures
        ((v + r) % m - v) % m == r,
{
    let c = (v + r) % m;
    lemma_fundamental_div_mod(v + r, m);
    let q = (v + r) / m;
    assert(v + r == m * q + c);
    assert(m * (-q) == -(m * q)) by (nonlinear_arith);
    assert(c - v == m * (-q) + r);
    lemma_mod_multiples_vanish(-q, r, m);
    lemma_small_mod(r as nat, m as nat);
}

/// Wraparound, backward direction: a cell `c` whose inverse offset from the
/// origin `v` is `r` is exactly the cell that sprite row or bit `r` lands on.
proof fn lemma_wrap_bwd(v: u8, c: int, m: int)
    requires
        0 < m,
        0 <= c < m,
    ensures
        (v + (c - v as int) % m) % m == c,
{
    let r = (c - v as int) % m;
    lemma_fundamental_div_mod(c - v as int, m);
    let q = (c - v as int) / m;
    assert(c - v == m * q + r);
    assert(m * (-q) == -(m * q)) by (nonlinear_arith);
    assert(v + r == m * (-q) + c);
    lemma_mod_multiples_vanish(-q, c, m);
    lemma_small_mod(c as nat, m as nat);
}

/// The 64 by 32 monochrome framebuffer, row-major, initialized all clear.
/// Mutated only by the clear (00E0) and XOR-draw (Dxyn) instructions.
pub struct Display {
    pix: [bool; 2048],
}

impl View for Display {
    type V = Seq<bool>;

    closed spec fn view(&self) -> Seq<bool> {
        self.pix@
    }
}

impl Display {
    /// The framebuffer always spans exactly 64 * 32 pixels.
    #[verifier::type_invariant]
    pub open spec fn inv(self) -> bool {
        self@.len() == 2048
    }

    pub fn new() -> (d: Display)
        ensures
            d@.len() == 2048,
            forall|p: int| 0 <= p < 2048 ==> !d@[p],
    {
        Display { pix: [false; 2048] }
    }

    /// Set every pixel false (instruction 00E0).
    pub fn clear(&mut self)
        ensures
            final(self)@.len() == 2048,
            forall|p: int| 0 <= p < 2048 ==> !final(self)@[p],
    {
        self.pix = [false; 2048];
    }

    /// Pure pixel read for the renderer and for tests; coordinates must be
    /// in range, the caller does its own wrapping.
    pub fn get(&self, x: usize, y: usize) -> (r: bool)
        requires
            x < 64,
            y < 32,
        ensures
            r == self@[pix_index(x as int, y as int)],
    {
        self.pix[y * 64 + x]
    }

    /// XOR one sprite into the framebuffer with its origin at (x mod 64,
    /// y mod 32); coordinates wrap rather than clip. Returns whether any
    /// pixel transitioned from set to unset (collision); the CPU stores
    /// that flag as VF.
    pub fn draw(&mut self, x: u8, y: u8, sprite: &Vec<u8>) -> (col: bool)
        requires
            sprite@.len() <= 15,
            old(self)@.len() == 2048,
        ensures
            final(self)@ == draw_pixels(old(self)@, x, y, sprite@),
            col == draw_collision(old(self)@, x, y, sprite@),
    {
        let ghost pix0 = self@;
        let mut col = false;
        let n = sprite.len();
        let mut r: usize = 0;
        while r < n
            invariant
                0 <= r <= n,
                n == sprite@.len() <= 15,
                self@.len() == 2048,
                pix0.len() == 2048,
                forall|p: int|
                    0 <= p < 2048 ==> self@[p] == (pix0[p] != overlay_upto(
                        x,
                        y,
                        sprite@,
                        p % 64,
                        p / 64,
                        8 * r,
                    )),
                col == collision_upto(pix0, x, y, sprite@, 8 * r),
            decreases n - r,
        {
            let row = sprite[r];
            let cy = (y as usize + r) % 32;
            let mut b: usize = 0;
            while b < 8
                invariant
                    0 <= b <= 8,
                    r < n,
                    n == sprite@.len() <= 15,
                    self@.len() == 2048,
                    pix0.len() == 2048,
                    cy == (y + r) % 32,
                    row == sprite@[r as int],
                    forall|p: int|
                        0 <= p < 2048 ==> self@[p] == (pix0[p] != overlay_upto(
                            x,
                            y,
                            sprite@,
                            p % 64,
                            p / 64,
                            8 * r + b,
                        )),
                    col == collision_upto(pix0, x, y, sprite@, 8 * r + b),
                decreases 8 - b,
            {
                let ghost done = 8 * (r as int) + b;
                let ghost pre = self@;
                let cx = (x as usize + b) % 64;
                let idx = cy * 64 + cx;
                proof {
                    lemma_wrap_fwd(y, r as int, 32);
                    lemma_wrap_fwd(x, b as int, 64);
                    lemma_fundamental_div_mod_converse(idx as int, 64, cy as int, cx as int);
                }
                if bit_set(row, b) {
                    let cur = self.pix[idx];
                    if cur {
                        col = true;
                    }
                    self.pix[idx] = !cur;
                    proof {
                        assert(pix0[idx as int] == cur);
                        assert forall|p: int| 0 <= p < 2048 implies self@[p] == (pix0[p]
                            != overlay_upto(x, y, sprite@, p % 64, p / 64, done + 1)) by {
                            lemma_fundamental_div_mod(p, 64);
                            let cxp = p % 64;
                            let cyp = p / 64;
                            if p == idx {
                                assert(cxp == cx && cyp == cy);
                                assert(overlay_upto(x, y, sprite@, cxp, cyp, done + 1));
                            } else {
                                let rr = (cyp - y as int) % 32;
                                let bb = (cxp - x as int) % 64;
                                if 8 * rr + bb == done && rr < sprite@.len() && bb < 8 {
                                    lemma_wrap_bwd(y, cyp, 32);
                                    lemma_wrap_bwd(x, cxp, 64);
                                    assert(rr == r && bb == b);
                                    assert(p == idx);
                                    assert(false);
                                }
                            }
                        }
                        if cur {
                            assert(pix0[pix_index((x + b) % 64, (y + r) % 32)]);
                            assert(collision_upto(pix0, x, y, sprite@, done + 1));
                        } else {
                            if collision_upto(pix0, x, y, sprite@, done + 1) {
                                let (rr, bb) = choose|rr: int, bb: int|
                                    0 <= rr < sprite@.len() && 0 <= bb < 8 && 8 * rr + bb < done
                                        + 1 && #[trigger] sprite_row_bit(sprite@[rr], bb)
                                        && pix0[pix_index((x + bb) % 64, (y + rr) % 32)];
                                if 8 * rr + bb == done {
                                    assert(rr == r && bb == b);
                                    assert(pix0[idx as int]);
                                    assert(false);
                                } else {
                                    assert(collision_upto(pix0, x, y, sprite@, done));
                                }
                            }
                            assert(col == collision_upto(pix0, x, y, sprite@, done + 1)) by {
                                if col {
                                    lemma_collision_monotone(pix0, x, y, sprite@, done, done + 1);
                                }
                            }
                        }
                    }
                } else {
                    proof {
                        assert forall|p: int| 0 <= p < 2048 implies self@[p] == (pix0[p]
                            != overlay_upto(x, y, sprite@, p % 64, p / 64, done + 1)) by {
                            lemma_fundamental_div_mod(p, 64);
                            let cxp = p % 64;
                            let cyp = p / 64;
                            let rr = (cyp - y as int) % 32;
                            let bb = (cxp - x as int) % 64;
                            if 8 * rr + bb == done && rr < sprite@.len() && bb < 8 {
                                lemma_wrap_bwd(y, cyp, 32);
                                lemma_wrap_bwd(x, cxp, 64);
                                assert(rr == r && bb == b);
                                assert(!sprite_row_bit(sprite@[rr], bb));
                            }
                        }
                        if collision_upto(pix0, x, y, sprite@, done + 1) {
                            let (rr, bb) = choose|rr: int, bb: int|
                                0 <= rr < sprite@.len() && 0 <= bb < 8 && 8 * rr + bb < done + 1
                                    && #[trigger] sprite_row_bit(sprite@[rr], bb)
                                    && pix0[pix_index((x + bb) % 64, (y + rr) % 32)];
                            if 8 * rr + bb == done {
                                assert(rr == r && bb == b);
                                assert(false);
                            } else {
                                assert(collision_upto(pix0, x, y, sprite@, done));
                            }
                        }
                        assert(col == collision_upto(pix0, x, y, sprite@, done + 1)) by {
                            if col {
                                lemma_collision_monotone(pix0, x, y, sprite@, done, done + 1);
                            }
                        }
                    }
                }
                b = b + 1;
            }
            r = r + 1;
        }
        proof {
            assert(self@ =~= draw_pixels(pix0, x, y, sprite@));
        }
        col
    }
}

/// A collision seen among the first `d1` sprite cells is still seen among
/// any larger prefix.
proof fn lemma_collision_monotone(pix: Seq<bool>, x: u8, y: u8, sprite: Seq<u8>, d1: int, d2: int)
    requires
        d1 <= d2,
        collision_upto(pix, x, y, sprite, d1),
    ensures
        collision_upto(pix, x, y, sprite, d2),
{
    let (rr, bb) = choose|rr: int, bb: int|
        0 <= rr < sprite.len() && 0 <= bb < 8 && 8 * rr + bb < d1 && #[trigger] sprite_row_bit(
            sprite[rr],
            bb,
        ) && pix[pix_index((x + bb) % 64, (y + rr) % 32)];
    assert(8 * rr + bb < d2);
    assert(collision_upto(pix, x, y, sprite, d2));
}

/// The mask isolating bit `k` of a sprite row, from the left.
fn bit_mask(k: usize) -> (m: u8)
    requires
        k < 8,
    ensures
        m == bit_weight(k as int),
        m > 0,
{
    if k == 0 {
        0x80
    } else if k == 1 {
        0x40
    } else if k == 2 {
        0x20
    } else if k == 3 {
        0x10
    } else if k == 4 {
        0x08
    } else if k == 5 {
        0x04
    } else if k == 6 {
        0x02
    } else {
        0x01
    }
}

/// Whether bit `k` (from the left) of one sprite row is set.
fn bit_set(row: u8, k: usize) -> (r: bool)
    requires
        k < 8,
    ensures
        r == sprite_row_bit(row, k as int),
{
    let m = bit_mask(k);
    (row / m) % 2 == 1
}

/// Clearing the framebuffer and then drawing any sprite never reports a
/// collision: a collision needs an already set pixel.
pub proof fn lemma_draw_on_clear_no_collision(pix: Seq<bool>, x: u8, y: u8, sprite: Seq<u8>)
    requires
        pix.len() == 2048,
        forall|p: int| 0 <= p < 2048 ==> !pix[p],
    ensures
        !draw_collision(pix, x, y, sprite),
{
    if draw_collision(pix, x, y, sprite) {
        let (rr, bb) = choose|rr: int, bb: int|
            0 <= rr < sprite.len() && 0 <= bb < 8 && 8 * rr + bb < 8 * sprite.len() as int
                && #[trigger] sprite_row_bit(sprite[rr], bb) && pix[pix_index(
                (x + bb) % 64,
                (y + rr) % 32,
            )];
        let cx = (x + bb) % 64;
        let cy = (y + rr) % 32;
        assert(0 <= cx < 64 && 0 <= cy < 32);
        assert(0 <= pix_index(cx, cy) < 2048);
        assert(false);
    }
}

/// Coordinate wraparound: sprite row `r`, bit `b` lands exactly on the cell
/// ((x + b) mod 64, (y + r) mod 32), so a sprite drawn at the right or
/// bottom edge continues at column 0 or row 0.
pub proof fn lemma_overlay_at_wrapped_cell(x: u8, y: u8, sprite: Seq<u8>, r: int, b: int)
    requires
        0 <= r < sprite.len(),
        sprite.len() <= 32,
        0 <= b < 8,
    ensures
        overlay(x, y, sprite, (x + b) % 64, (y + r) % 32) == sprite_row_bit(sprite[r], b),
{
    lemma_wrap_fwd(y, r, 32);
    lemma_wrap_fwd(x, b, 64);
}

/// Drawing a sprite a second time at the same coordinates, onto a cleared
/// framebuffer that already holds exactly that sprite, reports a collision
/// precisely when the sprite has any set bit: every previously set pixel is
/// addressed again.
pub proof fn lemma_redraw_collides(pix: Seq<bool>, x: u8, y: u8, sprite: Seq<u8>)
    requires
        pix.len() == 2048,
        sprite.len() <= 15,
        forall|p: int| 0 <= p < 2048 ==> !pix[p],
    ensures
        draw_collision(draw_pixels(pix, x, y, sprite), x, y, sprite) <==> (exists|r: int, b: int|
            0 <= r < sprite.len() && 0 <= b < 8 && #[trigger] sprite_row_bit(sprite[r], b)),
{
    let pix1 = draw_pixels(pix, x, y, sprite);
    assert(pix1.len() == 2048);
    if exists|r: int, b: int|
        0 <= r < sprite.len() && 0 <= b < 8 && #[trigger] sprite_row_bit(sprite[r], b) {
        let (r, b) = choose|r: int, b: int|
            0 <= r < sprite.len() && 0 <= b < 8 && #[trigger] sprite_row_bit(sprite[r], b);
        let cx = (x + b) % 64;
        let cy = (y + r) % 32;
        lemma_wrap_fwd(y, r, 32);
        lemma_wrap_fwd(x, b, 64);
        let p = pix_index(cx, cy);
        assert(0 <= p < 2048);
        lemma_fundamental_div_mod_converse(p, 64, cy, cx);
        assert(overlay(x, y, sprite, cx, cy));
        assert(pix1[p]);
        assert(collision_upto(pix1, x, y, sprite, 8 * sprite.len() as int));
    }
    if draw_collision(pix1, x, y, sprite) {
        let (r, b) = choose|r: int, b: int|
            0 <= r < sprite.len() && 0 <= b < 8 && 8 * r + b < 8 * sprite.len() as int
                && #[trigger] sprite_row_bit(sprite[r], b) && pix1[pix_index(
                (x + b) % 64,
                (y + r) % 32,
            )];
        assert(sprite_row_bit(sprite[r], b));
    }
}

} // verus!
