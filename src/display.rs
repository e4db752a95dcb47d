use vstd::prelude::*;

verus! {

/// Pixel columns.
pub const DISPLAY_WIDTH: usize = 64;

/// Pixel rows.
pub const DISPLAY_HEIGHT: usize = 32;

/// Number of pixels, stored row-major.
pub const PIXEL_COUNT: usize = 2048;

/// Whether sprite row `row` has its column `col` lit (most significant bit leftmost).
pub open spec fn sprite_bit(sprite: Seq<u8>, row: int, col: int) -> bool {
    0 <= row < sprite.len() && 0 <= col < 8 && (sprite[row] & (0x80u8 >> col as u8)) != 0
}

/// The row offset, around the bottom edge, of pixel `p` from a sprite drawn at row `y`.
pub open spec fn row_offset(p: int, y: int) -> int {
    (p / DISPLAY_WIDTH as int - y) % DISPLAY_HEIGHT as int
}

/// The column offset, around the right edge, of pixel `p` from a sprite drawn at column `x`.
pub open spec fn col_offset(p: int, x: int) -> int {
    (p % DISPLAY_WIDTH as int - x) % DISPLAY_WIDTH as int
}

/// Whether the pixel at index `p` is covered by a lit sprite bit when the sprite's top-left
/// corner is drawn at (`x`, `y`), wrapping around both edges.
pub open spec fn covers(sprite: Seq<u8>, x: int, y: int, p: int) -> bool {
    sprite_bit(sprite, row_offset(p, y), col_offset(p, x))
}

/// The grid after XOR-drawing `sprite` at (`x`, `y`).
pub open spec fn drawn(pixels: Seq<bool>, sprite: Seq<u8>, x: int, y: int) -> Seq<bool> {
    Seq::new(pixels.len(), |p: int| pixels[p] != covers(sprite, x, y, p))
}

/// Whether drawing `sprite` at (`x`, `y`) turns some lit pixel off.
pub open spec fn collides(pixels: Seq<bool>, sprite: Seq<u8>, x: int, y: int) -> bool {
    exists|p: int| 0 <= p < pixels.len() && #[trigger] pixels[p] && covers(sprite, x, y, p)
}

/// An all-off grid.
pub open spec fn blank() -> Seq<bool> {
    Seq::new(PIXEL_COUNT as nat, |p: int| false)
}

/// Index of the pixel at column `px`, row `py`.
pub open spec fn pixel_index(px: int, py: int) -> int {
    py * DISPLAY_WIDTH as int + px
}

/// Moving `d` steps from `a` around a circle of `m` positions lands on `b` exactly when `b`
/// is `d` steps past `a`.
proof fn lemma_wrap(a: int, b: int, d: int, m: int)
    requires
        m > 0,
        0 <= a < m,
        0 <= b < m,
        0 <= d < m,
    ensures
        ((b - a) % m == d) == (b == (a + d) % m),
{
    if a + d < m {
        vstd::arithmetic::div_mod::lemma_small_mod((a + d) as nat, m as nat);
    } else {
        vstd::arithmetic::div_mod::lemma_mod_sub_multiples_vanish(a + d, m);
        vstd::arithmetic::div_mod::lemma_small_mod((a + d - m) as nat, m as nat);
    }
    if b >= a {
        vstd::arithmetic::div_mod::lemma_small_mod((b - a) as nat, m as nat);
    } else {
        vstd::arithmetic::div_mod::lemma_mod_add_multiples_vanish(b - a, m);
        vstd::arithmetic::div_mod::lemma_small_mod((b - a + m) as nat, m as nat);
    }
}

/// The 64×32 monochrome frame buffer.
pub struct Display {
    pixels: Vec<bool>,
}

impl View for Display {
    type V = Seq<bool>;

    closed spec fn view(&self) -> Seq<bool> {
        self.pixels@
    }
}

impl Display {
    /// Every grid holds exactly `PIXEL_COUNT` pixels.
    pub open spec fn wf(&self) -> bool {
        self@.len() == PIXEL_COUNT
    }

    /// An all-off display.
    pub fn new() -> (r: Display)
        ensures
            r.wf(),
            r@ == blank(),
    {
        let mut pixels: Vec<bool> = Vec::with_capacity(PIXEL_COUNT);
        let mut p: usize = 0;
        while p < PIXEL_COUNT
            invariant
                p <= PIXEL_COUNT,
                pixels@.len() == p,
                forall|j: int| 0 <= j < p ==> !pixels@[j],
            decreases PIXEL_COUNT - p,
        {
            pixels.push(false);
            p = p + 1;
        }
        assert(pixels@ == blank());
        Display { pixels }
    }

    /// Turns every pixel off.
    pub fn clear(&mut self)
        requires
            old(self).wf(),
        ensures
            final(self).wf(),
            final(self)@ == blank(),
    {
        let mut p: usize = 0;
        while p < PIXEL_COUNT
            invariant
                p <= PIXEL_COUNT,
                self.wf(),
                forall|j: int| 0 <= j < p ==> !self@[j],
            decreases PIXEL_COUNT - p,
        {
            self.pixels.set(p, false);
            p = p + 1;
        }
        assert(self@ == blank());
    }

    /// Whether the pixel at column `x`, row `y` is lit.
    pub fn pixel(&self, x: usize, y: usize) -> (r: bool)
        requires
            self.wf(),
            x < DISPLAY_WIDTH,
            y < DISPLAY_HEIGHT,
        ensures
            r == self@[pixel_index(x as int, y as int)],
    {
        self.pixels[y * DISPLAY_WIDTH + x]
    }

    /// The grid as `DISPLAY_HEIGHT` rows of `DISPLAY_WIDTH` pixels.
    pub fn grid(&self) -> (r: Vec<Vec<bool>>)
        requires
            self.wf(),
        ensures
            r@.len() == DISPLAY_HEIGHT,
            forall|y: int| 0 <= y < DISPLAY_HEIGHT ==> (#[trigger] r@[y])@.len() == DISPLAY_WIDTH,
            forall|y: int, x: int|
                0 <= y < DISPLAY_HEIGHT && 0 <= x < DISPLAY_WIDTH ==> (#[trigger] r@[y]@[x])
                    == self@[pixel_index(x, y)],
    {
        let mut rows: Vec<Vec<bool>> = Vec::with_capacity(DISPLAY_HEIGHT);
        let mut y: usize = 0;
        while y < DISPLAY_HEIGHT
            invariant
                self.wf(),
                y <= DISPLAY_HEIGHT,
                rows@.len() == y,
                forall|j: int| 0 <= j < y ==> (#[trigger] rows@[j])@.len() == DISPLAY_WIDTH,
                forall|j: int, x: int|
                    0 <= j < y && 0 <= x < DISPLAY_WIDTH ==> (#[trigger] rows@[j]@[x])
                        == self@[pixel_index(x, j)],
            decreases DISPLAY_HEIGHT - y,
        {
            let mut row: Vec<bool> = Vec::with_capacity(DISPLAY_WIDTH);
            let mut x: usize = 0;
            while x < DISPLAY_WIDTH
                invariant
                    self.wf(),
                    y < DISPLAY_HEIGHT,
                    x <= DISPLAY_WIDTH,
                    row@.len() == x,
                    forall|i: int| 0 <= i < x ==> row@[i] == self@[pixel_index(i, y as int)],
                decreases DISPLAY_WIDTH - x,
            {
                row.push(self.pixels[y * DISPLAY_WIDTH + x]);
                x = x + 1;
            }
            rows.push(row);
            y = y + 1;
        }
        rows
    }

    /// XOR-draws `sprite`, at most `DISPLAY_HEIGHT` rows, with its top-left corner at
    /// (`x`, `y`), wrapping around the edges, and returns whether a lit pixel was turned off.
    pub fn draw_sprite(&mut self, x: u8, y: u8, sprite: &Vec<u8>) -> (collision: bool)
        requires
            old(self).wf(),
            sprite@.len() <= DISPLAY_HEIGHT,
        ensures
            final(self).wf(),
            final(self)@ == drawn(old(self)@, sprite@, x as int, y as int),
            collision == collides(old(self)@, sprite@, x as int, y as int),
    {
        let ghost before = self@;
        let x0: usize = (x as usize) % DISPLAY_WIDTH;
        let y0: usize = (y as usize) % DISPLAY_HEIGHT;
        let mut collision = false;
        let mut row: usize = 0;
        while row < sprite.len()
            invariant
                self.wf(),
                before.len() == PIXEL_COUNT,
                x0 < 64,
                y0 < 32,
                sprite@.len() <= DISPLAY_HEIGHT,
                row <= sprite@.len(),
                forall|p: int|
                    0 <= p < PIXEL_COUNT ==> #[trigger] self@[p] == (before[p] != (covers(
                        sprite@,
                        x0 as int,
                        y0 as int,
                        p,
                    ) && row_offset(p, y0 as int) < row)),
                collision == exists|p: int|
                    0 <= p < PIXEL_COUNT && #[trigger] before[p] && covers(
                        sprite@,
                        x0 as int,
                        y0 as int,
                        p,
                    ) && row_offset(p, y0 as int) < row,
            decreases sprite@.len() - row,
        {
            let bits = sprite[row];
            let py: usize = (y0 + row) % DISPLAY_HEIGHT;
            let mut col: usize = 0;
            while col < 8
                invariant
                    self.wf(),
                    before.len() == PIXEL_COUNT,
                    x0 < 64,
                    y0 < 32,
                x0 < 64,
                y0 < 32,
                    sprite@.len() <= DISPLAY_HEIGHT,
                    row < sprite@.len(),
                    bits == sprite@[row as int],
                    py == (y0 + row) % 32,
                    col <= 8,
                    forall|p: int|
                        0 <= p < PIXEL_COUNT ==> #[trigger] self@[p] == (before[p] != (covers(
                            sprite@,
                            x0 as int,
                            y0 as int,
                            p,
                        ) && (row_offset(p, y0 as int) < row || (row_offset(p, y0 as int) == row && col_offset(p, x0 as int) < col)))),
                    collision == exists|p: int|
                        0 <= p < PIXEL_COUNT && #[trigger] before[p] && covers(
                            sprite@,
                            x0 as int,
                            y0 as int,
                            p,
                        ) && (row_offset(p, y0 as int) < row || (row_offset(p, y0 as int) == row && col_offset(p, x0 as int) < col)),
                decreases 8 - col,
            {
                let px: usize = (x0 + col) % DISPLAY_WIDTH;
                let idx: usize = py * DISPLAY_WIDTH + px;
                let lit = bits & (0x80u8 >> col as u8) != 0;
                proof {
                    lemma_pixel_coords(x0 as int, y0 as int, px as int, py as int, col as int, row as int);
                }
                if lit {
                    let old_pixel = self.pixels[idx];
                    if old_pixel {
                        collision = true;
                    }
                    self.pixels.set(idx, !old_pixel);
                }
                col = col + 1;
            }
            row = row + 1;
        }
        proof {
            lemma_origin_wraps(sprite@, x as int, y as int);
        }
        assert(self@ == drawn(before, sprite@, x as int, y as int));
        collision
    }
}

/// Drawing the same sprite twice at the same place restores every pixel, and the second draw
/// reports a collision exactly when the sprite covers a pixel that was off before the first.
/// In particular, on a blank grid a sprite with a lit bit turns its pixels on and then off
/// again, and the second draw collides.
pub proof fn lemma_draw_twice(pixels: Seq<bool>, sprite: Seq<u8>, x: int, y: int, row: int, col: int)
    requires
        pixels.len() == PIXEL_COUNT,
        sprite.len() <= DISPLAY_HEIGHT,
        0 <= x,
        0 <= y,
    ensures
        drawn(drawn(pixels, sprite, x, y), sprite, x, y) == pixels,
        collides(drawn(pixels, sprite, x, y), sprite, x, y) == exists|p: int|
            0 <= p < PIXEL_COUNT && !#[trigger] pixels[p] && covers(sprite, x, y, p),
        pixels == blank() && sprite_bit(sprite, row, col) ==> {
            &&& !collides(pixels, sprite, x, y)
            &&& collides(drawn(pixels, sprite, x, y), sprite, x, y)
        },
{
    let once = drawn(pixels, sprite, x, y);
    assert(drawn(once, sprite, x, y) =~= pixels);
    assert(collides(once, sprite, x, y) == exists|p: int|
        0 <= p < PIXEL_COUNT && !#[trigger] pixels[p] && covers(sprite, x, y, p)) by {
        if collides(once, sprite, x, y) {
            let p = choose|p: int| 0 <= p < once.len() && #[trigger] once[p] && covers(sprite, x, y, p);
            assert(!pixels[p] && covers(sprite, x, y, p));
        }
        if exists|p: int| 0 <= p < PIXEL_COUNT && !#[trigger] pixels[p] && covers(sprite, x, y, p) {
            let p = choose|p: int| 0 <= p < PIXEL_COUNT && !#[trigger] pixels[p] && covers(sprite, x, y, p);
            assert(once[p]);
        }
    }
    if pixels == blank() && sprite_bit(sprite, row, col) {
        let x0 = x % 64;
        let y0 = y % 32;
        let px = (x0 + col) % 64;
        let py = (y0 + row) % 32;
        lemma_pixel_coords(x0, y0, px, py, col, row);
        lemma_origin_wraps(sprite, x, y);
        let p = py * 64 + px;
        assert(row_offset(p, y0) == row && col_offset(p, x0) == col);
        assert(covers(sprite, x0, y0, p));
        assert(covers(sprite, x, y, p));
        assert(!pixels[p]);
    }
}

/// The pixel reached from (`x0`, `y0`) by `col` columns and `row` rows is the one whose
/// offsets from the origin, around the edges, are exactly `col` and `row`.
proof fn lemma_pixel_coords(x0: int, y0: int, px: int, py: int, col: int, row: int)
    requires
        0 <= x0 < 64,
        0 <= y0 < 32,
        0 <= col < 8,
        0 <= row < 32,
        px == (x0 + col) % 64,
        py == (y0 + row) % 32,
    ensures
        0 <= px < 64,
        0 <= py < 32,
        0 <= py * 64 + px < PIXEL_COUNT,
        forall|p: int|
            0 <= p < PIXEL_COUNT ==> ((row_offset(p, y0) == row && #[trigger] col_offset(p, x0)
                == col) <==> p == py * 64 + px),
{
    assert forall|p: int| 0 <= p < PIXEL_COUNT implies ((row_offset(p, y0) == row
        && #[trigger] col_offset(p, x0) == col) <==> p == py * 64 + px) by {
        lemma_wrap(y0, p / 64, row, 32);
        lemma_wrap(x0, p % 64, col, 64);
        assert(p == (p / 64) * 64 + p % 64);
        if p == py * 64 + px {
            vstd::arithmetic::div_mod::lemma_fundamental_div_mod_converse(p, 64, py, px);
        }
    }
}

/// Drawing at (`x`, `y`) covers the same pixels as drawing at their reductions onto the grid.
proof fn lemma_origin_wraps(sprite: Seq<u8>, x: int, y: int)
    requires
        0 <= x,
        0 <= y,
    ensures
        forall|p: int|
            0 <= p < PIXEL_COUNT ==> covers(sprite, x % 64, y % 32, p) == #[trigger] covers(
                sprite,
                x,
                y,
                p,
            ),
{
    assert forall|p: int| 0 <= p < PIXEL_COUNT implies covers(sprite, x % 64, y % 32, p)
        == #[trigger] covers(sprite, x, y, p) by {
        vstd::arithmetic::div_mod::lemma_mod_sub_multiples_vanish(p / 64 - y % 32 + 0, 32);
        assert((p / 64 - y % 32) % 32 == (p / 64 - y) % 32) by {
            vstd::arithmetic::div_mod::lemma_fundamental_div_mod(y, 32);
            vstd::arithmetic::div_mod::lemma_mod_multiples_vanish(y / 32, p / 64 - y, 32);
        }
        assert((p % 64 - x % 64) % 64 == (p % 64 - x) % 64) by {
            vstd::arithmetic::div_mod::lemma_fundamental_div_mod(x, 64);
            vstd::arithmetic::div_mod::lemma_mod_multiples_vanish(x / 64, p % 64 - x, 64);
        }
    }
}

} // verus!
