//! The display surface: a 64 by 32 grid of on/off pixels, stored row-major.
use vstd::prelude::*;

verus! {

/// Number of pixel columns.
pub const WIDTH: usize = 64;

/// Number of pixel rows.
pub const HEIGHT: usize = 32;

/// Whether bit `j` of the sprite row `b` is set, counting from the most
/// significant bit (column 0) down to the least significant one (column 7).
pub open spec fn bit_set(b: u8, j: int) -> bool {
    ((b >> ((7 - j) as u8)) & 1u8) == 1u8
}

/// The sprite row that would land on the pixel with row-major index `p`
/// when the sprite's top-left corner stands at `(x0, y0)`.
pub open spec fn row_offset(y0: int, p: int) -> int {
    (p / 64 - y0) % 32
}

/// The sprite column that would land on the pixel with row-major index `p`.
pub open spec fn col_offset(x0: int, p: int) -> int {
    (p % 64 - x0) % 64
}

/// Whether a set bit of `sprite`, drawn at `(x0, y0)` with wrap-around,
/// falls on the pixel `p`.
pub open spec fn sprite_hits(sprite: Seq<u8>, x0: int, y0: int, p: int) -> bool {
    let k = row_offset(y0, p);
    let j = col_offset(x0, p);
    k < sprite.len() && j < 8 && bit_set(sprite[k], j)
}

/// The pixels after drawing `sprite` at `(x0, y0)`: each pixel that a set bit
/// falls on is toggled, every other pixel keeps its state.
pub open spec fn drawn(screen: Seq<bool>, sprite: Seq<u8>, x0: int, y0: int) -> Seq<bool> {
    Seq::new(screen.len(), |p: int| screen[p] != sprite_hits(sprite, x0, y0, p))
}

/// Whether drawing `sprite` at `(x0, y0)` turns some lit pixel off.
pub open spec fn collides(screen: Seq<bool>, sprite: Seq<u8>, x0: int, y0: int) -> bool {
    exists|p: int| 0 <= p < screen.len() && #[trigger] screen[p] && sprite_hits(sprite, x0, y0, p)
}

/// The pixel with row-major index `p` is hit by sprite bit `(k, j)`, and that
/// bit comes before bit `(kk, jj)` in drawing order.
spec fn hit_before(sprite: Seq<u8>, x0: int, y0: int, p: int, kk: int, jj: int) -> bool {
    let k = row_offset(y0, p);
    let j = col_offset(x0, p);
    sprite_hits(sprite, x0, y0, p) && (k < kk || (k == kk && j < jj))
}

/// Sprite bit `(k, j)` drawn at `(x0, y0)` lands on exactly one pixel, `t`.
proof fn lemma_target(x0: int, y0: int, k: int, j: int, t: int)
    requires
        0 <= x0 < 256,
        0 <= y0 < 256,
        0 <= k < 32,
        0 <= j < 8,
        t == ((y0 + k) % 32) * 64 + (x0 + j) % 64,
    ensures
        0 <= t < 2048,
        row_offset(y0, t) == k,
        col_offset(x0, t) == j,
        forall|p: int|
            0 <= p < 2048 && row_offset(y0, p) == k && col_offset(x0, p) == j ==> p == t,
{
    let r = (y0 + k) % 32;
    let c = (x0 + j) % 64;
    assert(0 <= t < 2048) by (nonlinear_arith)
        requires t == r * 64 + c, 0 <= r < 32, 0 <= c < 64;
    assert(t / 64 == r && t % 64 == c) by (nonlinear_arith)
        requires t == r * 64 + c, 0 <= r < 32, 0 <= c < 64;
    assert forall|p: int|
        0 <= p < 2048 && row_offset(y0, p) == k && col_offset(x0, p) == j implies p == t by {
        let pr = p / 64;
        let pc = p % 64;
        assert(p == pr * 64 + pc && 0 <= pr < 32 && 0 <= pc < 64) by (nonlinear_arith)
            requires 0 <= p < 2048, pr == p / 64, pc == p % 64;
    }
}

/// The display surface.
pub struct Window {
    pixels: [bool; 2048],
}

impl View for Window {
    type V = Seq<bool>;

    /// The pixels, row-major: pixel `(x, y)` is at index `y * 64 + x`.
    closed spec fn view(&self) -> Seq<bool> {
        self.pixels@
    }
}

impl Window {
    /// The surface always holds exactly 2048 pixels.
    pub proof fn lemma_len(&self)
        ensures
            self@.len() == 2048,
    {
    }

    /// A surface with every pixel off.
    pub fn new() -> (w: Window)
        ensures
            w@ == Seq::new(2048, |p: int| false),
    {
        let w = Window { pixels: [false; 2048] };
        assert(w@ =~= Seq::new(2048, |p: int| false));
        w
    }

    /// Whether the pixel at column `x`, row `y` is on.
    pub fn pixel(&self, x: usize, y: usize) -> (on: bool)
        requires
            x < 64,
            y < 32,
        ensures
            on == self@[y * 64 + x],
    {
        self.pixels[y * 64 + x]
    }

    /// Turns every pixel off.
    pub fn clear_screen(&mut self)
        ensures
            final(self)@ == Seq::new(2048, |p: int| false),
    {
        let mut p: usize = 0;
        while p < 2048
            invariant
                p <= 2048,
                forall|q: int| 0 <= q < p ==> !self.pixels@[q],
            decreases 2048 - p,
        {
            self.pixels[p] = false;
            p += 1;
        }
        assert(self@ =~= Seq::new(2048, |p: int| false));
    }

    /// XOR-draws `sprite` with its top-left corner at `(x0, y0)`; rows and
    /// columns wrap around the edges. Returns whether a lit pixel was turned
    /// off. A sprite taller than the screen would cover a row twice, so its
    /// height is at most 32.
    pub fn draw(&mut self, sprite: &[u8], x0: u8, y0: u8) -> (collision: bool)
        requires
            sprite@.len() <= 32,
        ensures
            final(self)@ == drawn(old(self)@, sprite@, x0 as int, y0 as int),
            collision == collides(old(self)@, sprite@, x0 as int, y0 as int),
    {
        let ghost start = self.pixels@;
        let ghost sp = sprite@;
        let ghost gx = x0 as int;
        let ghost gy = y0 as int;
        let mut collision = false;
        let mut k: usize = 0;
        while k < sprite.len()
            invariant
                sprite@ == sp,
                gx == x0 as int,
                gy == y0 as int,
                sp.len() <= 32,
                k <= sp.len(),
                start.len() == 2048,
                forall|p: int|
                    0 <= p < 2048 ==> #[trigger] self.pixels@[p] == (start[p] != hit_before(
                        sp,
                        gx,
                        gy,
                        p,
                        k as int,
                        0,
                    )),
                collision == exists|p: int|
                    0 <= p < 2048 && #[trigger] start[p] && hit_before(sp, gx, gy, p, k as int, 0),
            decreases sp.len() - k,
        {
            let b = sprite[k];
            let row = (y0 as usize + k) % 32;
            let mut j: u8 = 0;
            while j < 8
                invariant
                    sprite@ == sp,
                    gx == x0 as int,
                    gy == y0 as int,
                    sp.len() <= 32,
                    k < sp.len(),
                    b == sp[k as int],
                    row == (gy + k) % 32,
                    j <= 8,
                    start.len() == 2048,
                    forall|p: int|
                        0 <= p < 2048 ==> #[trigger] self.pixels@[p] == (start[p] != hit_before(
                            sp,
                            gx,
                            gy,
                            p,
                            k as int,
                            j as int,
                        )),
                    collision == exists|p: int|
                        0 <= p < 2048 && #[trigger] start[p] && hit_before(
                            sp,
                            gx,
                            gy,
                            p,
                            k as int,
                            j as int,
                        ),
                decreases 8 - j,
            {
                let col = (x0 as usize + j as usize) % 64;
                let t = row * 64 + col;
                proof {
                    lemma_target(gx, gy, k as int, j as int, t as int);
                }
                let ghost before = self.pixels@;
                if (b >> (7 - j)) & 1 == 1 {
                    if self.pixels[t] {
                        collision = true;
                    }
                    self.pixels[t] = !self.pixels[t];
                }
                j += 1;
                proof {
                    assert forall|p: int| 0 <= p < 2048 implies #[trigger] self.pixels@[p] == (
                    start[p] != hit_before(sp, gx, gy, p, k as int, j as int)) by {
                        if p != t {
                            assert(before[p] == self.pixels@[p]);
                        }
                    }
                    if collision {
                        if !(exists|p: int|
                            0 <= p < 2048 && #[trigger] start[p] && hit_before(
                                sp,
                                gx,
                                gy,
                                p,
                                k as int,
                                j as int - 1,
                            )) {
                            assert(start[t as int] && hit_before(sp, gx, gy, t as int, k as int, j as int));
                        } else {
                            let q = choose|p: int|
                                0 <= p < 2048 && #[trigger] start[p] && hit_before(
                                    sp,
                                    gx,
                                    gy,
                                    p,
                                    k as int,
                                    j as int - 1,
                                );
                            assert(start[q] && hit_before(sp, gx, gy, q, k as int, j as int));
                        }
                    } else {
                        assert forall|p: int|
                            0 <= p < 2048 && #[trigger] start[p] implies !hit_before(
                            sp,
                            gx,
                            gy,
                            p,
                            k as int,
                            j as int,
                        ) by {
                            if p != t {
                                assert(!hit_before(sp, gx, gy, p, k as int, j as int - 1));
                            }
                        }
                    }
                }
            }
            k += 1;
            proof {
                assert forall|p: int| 0 <= p < 2048 implies hit_before(sp, gx, gy, p, k as int, 0)
                    == hit_before(sp, gx, gy, p, k as int - 1, 8) by {}
            }
        }
        proof {
            assert forall|p: int| 0 <= p < 2048 implies hit_before(sp, gx, gy, p, k as int, 0)
                == sprite_hits(sp, gx, gy, p) by {
                assert(row_offset(gy, p) >= 0);
            }
            assert(self@ =~= drawn(start, sp, gx, gy));
        }
        collision
    }
}

} // verus!
