use vstd::prelude::*;
use vstd::arithmetic::div_mod::lemma_add_mod_noop;

verus! {

/// Width of the screen in pixels.
pub const WIDTH: usize = 64;

/// Height of the screen in pixels.
pub const HEIGHT: usize = 32;

/// Number of pixels on the screen.
pub const PIXEL_COUNT: usize = 2048;

/// Monochrome framebuffer, one byte per pixel, row-major (`row * WIDTH + column`).
pub struct Display {
    pub gfx: Vec<u8>,
}

/// Whether bit `j` of a sprite byte is set, bit 0 being the most significant (leftmost).
pub open spec fn sprite_bit(b: u8, j: int) -> bool {
    b & (0x80u8 >> (j as u8)) != 0
}

/// How many columns to the right of the left edge `x` the column `c` lies, wrapping at the
/// screen's width.
pub open spec fn col_offset(x: int, c: int) -> int {
    (c - x % 64 + 64) % 64
}

/// Whether the first `k` bits of the sprite byte `b`, drawn on `row` from left edge `x`,
/// cover the pixel at index `idx`.
pub open spec fn covers(x: int, row: int, b: u8, k: int, idx: int) -> bool {
    &&& idx / 64 == row
    &&& col_offset(x, idx % 64) < k
    &&& sprite_bit(b, col_offset(x, idx % 64))
}

/// The other value of a pixel.
pub open spec fn flip(p: u8) -> u8 {
    if p == 0 {
        1
    } else {
        0
    }
}

/// The framebuffer `g` after XOR-ing in the first `k` bits of a sprite row.
pub open spec fn xor_row(g: Seq<u8>, x: int, row: int, b: u8, k: int) -> Seq<u8> {
    Seq::new(g.len(), |idx: int| if covers(x, row, b, k, idx) { flip(g[idx]) } else { g[idx] })
}

/// Whether the first `k` bits of a sprite row hit a pixel that is set in `g`.
pub open spec fn row_collides(g: Seq<u8>, x: int, row: int, b: u8, k: int) -> bool {
    exists|idx: int| 0 <= idx < g.len() && covers(x, row, b, k, idx) && g[idx] == 1
}

/// The framebuffer and the collision flag after drawing `sprite` at `(x, y)` on `g`:
/// row `r` of the sprite lands on screen row `(y + r) % HEIGHT`, the rows are drawn in order,
/// and a collision is any set bit that falls on a pixel set at the time it is drawn.
pub open spec fn draw(g: Seq<u8>, x: int, y: int, sprite: Seq<u8>) -> (Seq<u8>, bool)
    decreases sprite.len(),
{
    if sprite.len() == 0 {
        (g, false)
    } else {
        let (g0, c0) = draw(g, x, y, sprite.drop_last());
        let row = (y + sprite.len() - 1) % 32;
        (xor_row(g0, x, row, sprite.last(), 8), c0 || row_collides(g0, x, row, sprite.last(), 8))
    }
}

/// Every pixel is 0 or 1.
pub open spec fn pixels_ok(g: Seq<u8>) -> bool {
    &&& g.len() == PIXEL_COUNT
    &&& forall|k: int| 0 <= k < g.len() ==> #[trigger] g[k] <= 1
}

/// The pixel at `idx` is the one bit `j` of a row lands on, and no bit before `j` of that row.
proof fn lemma_cell(x: int, row: int, j: int, idx: int)
    requires
        0 <= x,
        0 <= row < 32,
        0 <= j < 8,
        0 <= idx < 2048,
    ensures
        col_offset(x, (x % 64 + j) % 64) == j,
        (idx / 64 == row && col_offset(x, idx % 64) == j) <==> idx == row * 64 + (x % 64 + j) % 64,
{
    assert(idx == 64 * (idx / 64) + idx % 64);
    assert(0 <= idx % 64 < 64);
    assert(0 <= x % 64 < 64);
    if idx == row * 64 + (x % 64 + j) % 64 {
        assert(idx / 64 == row);
        assert(idx % 64 == (x % 64 + j) % 64);
    }
}

/// Whether pixel `idx` is covered by an odd number of the sprite's rows, so that drawing the
/// sprite inverts it.
pub open spec fn flipped(x: int, y: int, sprite: Seq<u8>, idx: int) -> bool
    decreases sprite.len(),
{
    if sprite.len() == 0 {
        false
    } else {
        flipped(x, y, sprite.drop_last(), idx) != covers(x, (y + sprite.len() - 1) % 32, sprite.last(), 8, idx)
    }
}

/// Whether some row of the sprite covers pixel `idx`.
pub open spec fn hits(x: int, y: int, sprite: Seq<u8>, idx: int) -> bool {
    exists|r: int| 0 <= r < sprite.len() && #[trigger] covers(x, (y + r) % 32, sprite[r], 8, idx)
}

/// Drawing inverts exactly the pixels that an odd number of rows cover.
proof fn lemma_draw_flips(g: Seq<u8>, x: int, y: int, sprite: Seq<u8>)
    requires
        pixels_ok(g),
    ensures
        draw(g, x, y, sprite).0 == Seq::new(g.len(), |idx: int| if flipped(x, y, sprite, idx) { flip(g[idx]) } else { g[idx] }),
        pixels_ok(draw(g, x, y, sprite).0),
    decreases sprite.len(),
{
    if sprite.len() > 0 {
        lemma_draw_flips(g, x, y, sprite.drop_last());
        assert(draw(g, x, y, sprite).0 =~= Seq::new(g.len(), |idx: int| if flipped(x, y, sprite, idx) { flip(g[idx]) } else { g[idx] }));
    }
}

/// Distinct rows of a sprite no taller than the screen land on distinct screen rows.
proof fn lemma_rows_distinct(y: int, i: int, j: int)
    requires
        0 <= i < j < 32,
    ensures
        (y + i) % 32 != (y + j) % 32,
{
    assert((y + j) - (y + i) == j - i);
    assert((y + i) == 32 * ((y + i) / 32) + (y + i) % 32);
    assert((y + j) == 32 * ((y + j) / 32) + (y + j) % 32);
    if (y + i) % 32 == (y + j) % 32 {
        assert(j - i == 32 * ((y + j) / 32 - (y + i) / 32)) by (nonlinear_arith)
            requires
                (y + i) == 32 * ((y + i) / 32) + (y + i) % 32,
                (y + j) == 32 * ((y + j) / 32) + (y + j) % 32,
                (y + i) % 32 == (y + j) % 32;
        assert(false) by (nonlinear_arith)
            requires
                j - i == 32 * ((y + j) / 32 - (y + i) / 32),
                0 < j - i < 32;
    }
}

/// On a sprite no taller than the screen, the inverted pixels are the covered ones, and a
/// collision is a covered pixel that was set.
proof fn lemma_draw_short(g: Seq<u8>, x: int, y: int, sprite: Seq<u8>)
    requires
        pixels_ok(g),
        sprite.len() <= 32,
    ensures
        forall|idx: int| flipped(x, y, sprite, idx) == hits(x, y, sprite, idx),
        draw(g, x, y, sprite).1 == exists|idx: int| 0 <= idx < g.len() && hits(x, y, sprite, idx) && g[idx] == 1,
    decreases sprite.len(),
{
    if sprite.len() > 0 {
        let s0 = sprite.drop_last();
        let last = (sprite.len() - 1) as int;
        let row = (y + last) % 32;
        lemma_draw_short(g, x, y, s0);
        lemma_draw_flips(g, x, y, s0);
        assert forall|idx: int| flipped(x, y, sprite, idx) == hits(x, y, sprite, idx) by {
            if covers(x, row, sprite.last(), 8, idx) {
                assert(covers(x, (y + last) % 32, sprite[last], 8, idx));
                if hits(x, y, s0, idx) {
                    let r = choose|r: int| 0 <= r < s0.len() && #[trigger] covers(x, (y + r) % 32, s0[r], 8, idx);
                    lemma_rows_distinct(y, r, last);
                }
            } else {
                if hits(x, y, sprite, idx) {
                    let r = choose|r: int| 0 <= r < sprite.len() && #[trigger] covers(x, (y + r) % 32, sprite[r], 8, idx);
                    assert(s0[r] == sprite[r]);
                    assert(hits(x, y, s0, idx));
                }
                if hits(x, y, s0, idx) {
                    let r = choose|r: int| 0 <= r < s0.len() && #[trigger] covers(x, (y + r) % 32, s0[r], 8, idx);
                    assert(sprite[r] == s0[r]);
                    assert(hits(x, y, sprite, idx));
                }
            }
        }
        let g0 = draw(g, x, y, s0).0;
        let lhs = draw(g, x, y, sprite).1;
        let rhs = exists|idx: int| 0 <= idx < g.len() && hits(x, y, sprite, idx) && g[idx] == 1;
        if lhs {
            if row_collides(g0, x, row, sprite.last(), 8) {
                let idx = choose|idx: int| 0 <= idx < g0.len() && covers(x, row, sprite.last(), 8, idx) && g0[idx] == 1;
                assert(covers(x, (y + last) % 32, sprite[last], 8, idx));
                assert(!flipped(x, y, s0, idx)) by {
                    if hits(x, y, s0, idx) {
                        let r = choose|r: int| 0 <= r < s0.len() && #[trigger] covers(x, (y + r) % 32, s0[r], 8, idx);
                        lemma_rows_distinct(y, r, last);
                    }
                }
                assert(hits(x, y, sprite, idx) && g[idx] == 1);
            } else {
                let idx = choose|idx: int| 0 <= idx < g.len() && hits(x, y, s0, idx) && g[idx] == 1;
                let r = choose|r: int| 0 <= r < s0.len() && #[trigger] covers(x, (y + r) % 32, s0[r], 8, idx);
                assert(sprite[r] == s0[r]);
                assert(hits(x, y, sprite, idx));
            }
        }
        if rhs {
            let idx = choose|idx: int| 0 <= idx < g.len() && hits(x, y, sprite, idx) && g[idx] == 1;
            let r = choose|r: int| 0 <= r < sprite.len() && #[trigger] covers(x, (y + r) % 32, sprite[r], 8, idx);
            if r == last {
                assert(!hits(x, y, s0, idx)) by {
                    if hits(x, y, s0, idx) {
                        let r2 = choose|r2: int| 0 <= r2 < s0.len() && #[trigger] covers(x, (y + r2) % 32, s0[r2], 8, idx);
                        lemma_rows_distinct(y, r2, last);
                    }
                }
                assert(g0[idx] == 1);
                assert(row_collides(g0, x, row, sprite.last(), 8));
            } else {
                assert(s0[r] == sprite[r]);
                assert(hits(x, y, s0, idx));
            }
        }
        assert(lhs == rhs);
    }
}

/// Drawing the same sprite twice at the same place leaves the screen as it was.
pub proof fn draw_twice_restores(g: Seq<u8>, x: int, y: int, sprite: Seq<u8>)
    requires
        pixels_ok(g),
    ensures
        draw(draw(g, x, y, sprite).0, x, y, sprite).0 == g,
{
    let g1 = draw(g, x, y, sprite).0;
    lemma_draw_flips(g, x, y, sprite);
    lemma_draw_flips(g1, x, y, sprite);
    assert(draw(g1, x, y, sprite).0 =~= g);
}

/// For a sprite no taller than the screen, the second of two identical draws at the same place
/// reports a collision exactly when the sprite covers a pixel that was off before the first.
pub proof fn second_draw_collides(g: Seq<u8>, x: int, y: int, sprite: Seq<u8>)
    requires
        pixels_ok(g),
        sprite.len() <= 32,
    ensures
        draw(draw(g, x, y, sprite).0, x, y, sprite).1
            == exists|idx: int| 0 <= idx < g.len() && hits(x, y, sprite, idx) && g[idx] == 0,
{
    let g1 = draw(g, x, y, sprite).0;
    lemma_draw_flips(g, x, y, sprite);
    lemma_draw_short(g, x, y, sprite);
    lemma_draw_short(g1, x, y, sprite);
    let lhs = draw(g1, x, y, sprite).1;
    let rhs = exists|idx: int| 0 <= idx < g.len() && hits(x, y, sprite, idx) && g[idx] == 0;
    if lhs {
        let idx = choose|idx: int| 0 <= idx < g1.len() && hits(x, y, sprite, idx) && g1[idx] == 1;
        assert(g[idx] == 0);
    }
    if rhs {
        let idx = choose|idx: int| 0 <= idx < g.len() && hits(x, y, sprite, idx) && g[idx] == 0;
        assert(g1[idx] == 1);
    }
}

impl Display {
    /// Well-formed: the right size, and every pixel 0 or 1.
    pub open spec fn wf(&self) -> bool {
        pixels_ok(self.gfx@)
    }

    /// A blank screen.
    pub fn new() -> (r: Display)
        ensures
            r.wf(),
            r.gfx@ == Seq::new(PIXEL_COUNT as nat, |k: int| 0u8),
    {
        let r = Display { gfx: vec![0u8; PIXEL_COUNT] };
        assert(r.gfx@ =~= Seq::new(PIXEL_COUNT as nat, |k: int| 0u8));
        r
    }

    fn get_index(&self, row: usize, column: usize) -> (r: usize)
        requires
            row < HEIGHT,
            column < WIDTH,
        ensures
            r == row * WIDTH + column,
            r < PIXEL_COUNT,
    {
        row * WIDTH + column
    }

    /// XORs `sprite`, eight pixels per byte with the most significant bit leftmost, onto the
    /// screen with its top-left corner at `(x, y)`, wrapping around the edges. Returns whether a
    /// set bit fell on a pixel that was already set.
    pub fn draw_sprite(&mut self, x: usize, y: usize, sprite: &[u8]) -> (collision: bool)
        requires
            old(self).wf(),
        ensures
            final(self).wf(),
            (final(self).gfx@, collision) == draw(old(self).gfx@, x as int, y as int, sprite@),
    {
        let mut collision = false;
        let xm = x % WIDTH;
        let ym = y % HEIGHT;
        let mut i: usize = 0;
        while i < sprite.len()
            invariant
                self.wf(),
                i <= sprite@.len(),
                ym == y % 32,
                xm == x % 64,
                (self.gfx@, collision) == draw(old(self).gfx@, x as int, y as int, sprite@.subrange(0, i as int)),
            decreases sprite.len() - i,
        {
            let row = (ym + i % HEIGHT) % HEIGHT;
            proof {
                lemma_add_mod_noop(y as int, i as int, 32);
            }
            let b = sprite[i];
            let ghost g0 = self.gfx@;
            let ghost c0 = collision;
            let mut j: usize = 0;
            while j < 8
                invariant
                    self.wf(),
                    g0.len() == PIXEL_COUNT,
                    j <= 8,
                    row < 32,
                    xm == x % 64,
                    self.gfx@ == xor_row(g0, x as int, row as int, b, j as int),
                    collision == (c0 || row_collides(g0, x as int, row as int, b, j as int)),
                decreases 8 - j,
            {
                let column = (xm + j) % WIDTH;
                let idx = self.get_index(row, column);
                let ghost before = self.gfx@;
                proof {
                    lemma_cell(x as int, row as int, j as int, idx as int);
                }
                if b & (0x80u8 >> (j as u8)) != 0 {
                    if self.gfx[idx] == 1 {
                        collision = true;
                        self.gfx.set(idx, 0);
                    } else {
                        self.gfx.set(idx, 1);
                    }
                }
                proof {
                    assert forall|k: int| 0 <= k < PIXEL_COUNT implies
                        (covers(x as int, row as int, b, j + 1, k) <==> (covers(x as int, row as int, b, j as int, k)
                            || (k == idx && sprite_bit(b, j as int)))) by {
                        lemma_cell(x as int, row as int, j as int, k);
                    }
                    assert(self.gfx@ =~= xor_row(g0, x as int, row as int, b, j + 1));
                    if sprite_bit(b, j as int) && before[idx as int] == 1 {
                        assert(covers(x as int, row as int, b, j + 1, idx as int));
                    }
                    if row_collides(g0, x as int, row as int, b, j + 1) {
                        let k = choose|k: int| 0 <= k < g0.len() && covers(x as int, row as int, b, j + 1, k) && g0[k] == 1;
                        if k != idx {
                            assert(row_collides(g0, x as int, row as int, b, j as int));
                        }
                    }
                }
                j += 1;
            }
            proof {
                assert(sprite@.subrange(0, i + 1).drop_last() =~= sprite@.subrange(0, i as int));
            }
            i += 1;
        }
        proof {
            assert(sprite@.subrange(0, sprite@.len() as int) =~= sprite@);
        }
        collision
    }

    /// Turns every pixel off.
    pub fn clear(&mut self)
        requires
            old(self).wf(),
        ensures
            final(self).wf(),
            final(self).gfx@ == Seq::new(PIXEL_COUNT as nat, |k: int| 0u8),
    {
        let mut k: usize = 0;
        while k < self.gfx.len()
            invariant
                self.gfx@.len() == PIXEL_COUNT,
                k <= PIXEL_COUNT,
                forall|m: int| 0 <= m < k ==> self.gfx@[m] == 0,
                forall|m: int| 0 <= m < PIXEL_COUNT ==> #[trigger] self.gfx@[m] <= 1,
            decreases PIXEL_COUNT - k,
        {
            self.gfx.set(k, 0);
            k += 1;
        }
        assert(self.gfx@ =~= Seq::new(PIXEL_COUNT as nat, |k: int| 0u8));
    }
}

} // verus!
