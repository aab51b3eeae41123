//! The 64x32 monochrome screen with XOR sprite drawing.
//!
//! A sprite is a sequence of bytes, each byte one 8-pixel-wide row, most
//! significant bit leftmost.  Drawing XORs the sprite onto the grid: the
//! initial coordinates wrap (`x mod 64`, `y mod 32`), each pixel of a row
//! wraps around the right edge individually, and rows below the bottom edge
//! are clipped (the row coordinate is not wrapped mid-draw).  A draw reports
//! a collision when it erases at least one lit pixel.

use vstd::prelude::*;

verus! {

/// The number of pixel columns.
pub const SCREEN_WIDTH: usize = 64;

/// The number of pixel rows.
pub const SCREEN_HEIGHT: usize = 32;

/// One monochrome pixel.
#[derive(Clone, Copy, Debug, Default, PartialEq, Eq, Structural)]
pub struct Pixel {
    filled: bool,
}

impl Pixel {
    /// Whether the pixel is lit.
    pub fn filled(&self) -> (r: bool)
        ensures
            r == self@,
    {
        self.filled
    }

    /// Lights or darkens the pixel.
    pub fn set_filled(&mut self, filled: bool)
        ensures
            final(self)@ == filled,
    {
        self.filled = filled;
    }

    /// A dark pixel.
    pub fn new() -> (r: Pixel)
        ensures
            r@ == false,
    {
        Pixel { filled: false }
    }
}

impl View for Pixel {
    type V = bool;

    closed spec fn view(&self) -> bool {
        self.filled
    }
}

/// The mathematical state of a [`Screen`]: the pixel grid as a sequence of
/// 2048 booleans (row-major, index `row * 64 + column`), and the dirty flag
/// that records whether the grid changed since it was last rendered.
#[verifier::ext_equal]
pub ghost struct ScreenView {
    pub grid: Seq<bool>,
    pub changed: bool,
}

/// Bit `j` (counting from the most significant, so `j == 0` is the leftmost
/// pixel) of one sprite row byte.
pub open spec fn nth_bit(b: u8, j: int) -> bool {
    (b >> ((7 - j) as u8)) & 1 == 1
}

/// The sprite row index that covers pixel index `p` when drawing at row `y`.
pub open spec fn sprite_k(p: int, y: int) -> int {
    p / 64 - y
}

/// The sprite column offset that covers pixel index `p` when drawing at
/// column `x`.
pub open spec fn sprite_j(p: int, x: int) -> int {
    (p % 64 - x) % 64
}

/// Whether pixel index `p` is touched by the first `k` whole rows plus the
/// first `j` columns of row `k` of an `n`-row sprite drawn at `(x, y)`.
pub open spec fn covered_upto(p: int, x: int, y: int, n: int, k: int, j: int) -> bool {
    let kk = sprite_k(p, y);
    let jj = sprite_j(p, x);
    0 <= kk < n && 0 <= jj < 8 && (kk < k || (kk == k && jj < j))
}

/// The grid after drawing the first `k` whole rows plus the first `j`
/// columns of row `k` of `sprite` at `(x, y)`.
pub open spec fn drawn_upto(grid: Seq<bool>, x: int, y: int, sprite: Seq<u8>, k: int, j: int) -> Seq<
    bool,
> {
    Seq::new(
        grid.len(),
        |p: int|
            if covered_upto(p, x, y, sprite.len() as int, k, j) {
                grid[p] != nth_bit(sprite[sprite_k(p, y)], sprite_j(p, x))
            } else {
                grid[p]
            },
    )
}

/// The grid after XOR-drawing `sprite` at the wrapped position `(x, y)`,
/// with `0 <= x < 64` and `0 <= y < 32`.  Rows that would fall below the
/// bottom edge are clipped.
pub open spec fn draw_grid(grid: Seq<bool>, x: int, y: int, sprite: Seq<u8>) -> Seq<bool> {
    drawn_upto(grid, x, y, sprite, sprite.len() as int, 8)
}

/// Whether drawing the first `k` whole rows plus the first `j` columns of
/// row `k` of `sprite` at `(x, y)` erases a lit pixel of `grid`.
pub open spec fn erases_upto(grid: Seq<bool>, x: int, y: int, sprite: Seq<u8>, k: int, j: int) -> bool {
    exists|kk: int, jj: int|
        0 <= kk < sprite.len() && 0 <= jj < 8 && (kk < k || (kk == k && jj < j)) && y + kk < 32
            && grid[(y + kk) * 64 + (x + jj) % 64] && #[trigger] nth_bit(sprite[kk], jj)
}

/// Whether XOR-drawing `sprite` at `(x, y)` erases at least one lit pixel
/// (the collision that the draw reports in `VF`).
pub open spec fn draw_erases(grid: Seq<bool>, x: int, y: int, sprite: Seq<u8>) -> bool {
    erases_upto(grid, x, y, sprite, sprite.len() as int, 8)
}

/// Round-trip facts about the pixel index `p = (y + k) * 64 + (x + j) % 64`
/// touched by sprite row `k`, column offset `j`.
proof fn lemma_pixel_index(x: int, y: int, k: int, j: int)
    requires
        0 <= x < 64,
        0 <= y,
        0 <= k,
        y + k < 32,
        0 <= j < 8,
    ensures
        0 <= (y + k) * 64 + (x + j) % 64 < 2048,
        sprite_k((y + k) * 64 + (x + j) % 64, y) == k,
        sprite_j((y + k) * 64 + (x + j) % 64, x) == j,
{
    let c = (x + j) % 64;
    assert(0 <= c < 64);
    let p = (y + k) * 64 + c;
    assert(p / 64 == y + k && p % 64 == c) by (nonlinear_arith)
        requires
            0 <= c < 64,
            0 <= y + k < 32,
            p == (y + k) * 64 + c,
    ;
    if x + j < 64 {
        assert(c == x + j);
        assert((c - x) % 64 == j);
    } else {
        assert(c == x + j - 64);
        assert((c - x) % 64 == j);
    }
}

/// Distinct sprite cells touch distinct pixels: the pixel index determines
/// the row `k` and the column offset `j`.
proof fn lemma_cell_of_pixel(x: int, y: int, p: int)
    requires
        0 <= x < 64,
        0 <= y < 32,
        0 <= p < 2048,
    ensures
        0 <= sprite_j(p, x) < 64,
        sprite_k(p, y) < 32,
        0 <= sprite_k(p, y) && sprite_j(p, x) < 8 ==> p == (y + sprite_k(p, y)) * 64 + (x
            + sprite_j(p, x)) % 64,
{
    let r = p / 64;
    let c = p % 64;
    assert(0 <= c < 64 && 0 <= r < 32 && p == r * 64 + c) by (nonlinear_arith)
        requires
            0 <= p < 2048,
            r == p / 64,
            c == p % 64,
    ;
    let j = (c - x) % 64;
    assert(0 <= j < 64);
    if 0 <= sprite_k(p, y) && j < 8 {
        if c >= x {
            assert((c - x) % 64 == c - x);
            assert((x + j) % 64 == c);
        } else {
            assert((c - x) % 64 == c - x + 64);
            assert(x + j == c + 64);
            assert((x + j) % 64 == c);
        }
    }
}

/// The monochrome pixel grid with a dirty flag for render-skip.
pub struct Screen {
    buffer: Vec<Pixel>,
    changed: bool,
}

impl View for Screen {
    type V = ScreenView;

    closed spec fn view(&self) -> ScreenView {
        ScreenView { grid: self.buffer@.map_values(|p: Pixel| p@), changed: self.changed }
    }
}

impl Screen {
    /// Well-formedness: the grid holds exactly one pixel per screen cell.
    pub open spec fn wf(&self) -> bool {
        self@.grid.len() == 2048
    }

    /// A screen with every pixel dark and no pending change.
    pub fn new() -> (r: Screen)
        ensures
            r.wf(),
            r@.grid =~= Seq::new(2048, |p: int| false),
            !r@.changed,
    {
        let mut buffer: Vec<Pixel> = Vec::new();
        let mut i: usize = 0;
        while i < 2048
            invariant
                i <= 2048,
                buffer@.len() == i,
                forall|q: int| 0 <= q < i ==> !(#[trigger] buffer@[q])@,
            decreases 2048 - i,
        {
            buffer.push(Pixel { filled: false });
            i += 1;
        }
        let r = Screen { buffer, changed: false };
        assert forall|p: int| 0 <= p < 2048 implies r@.grid[p] == false by {
            assert(!(r.buffer@[p])@);
        }
        r
    }

    /// Darkens every pixel and marks the screen changed.
    pub fn clear(&mut self)
        requires
            old(self).wf(),
        ensures
            final(self).wf(),
            final(self)@.grid =~= Seq::new(2048, |p: int| false),
            final(self)@.changed,
    {
        self.fill(Pixel::new());
        self.changed = true;
    }

    /// Sets every pixel to `pixel` without touching the dirty flag.
    pub fn fill(&mut self, pixel: Pixel)
        requires
            old(self).wf(),
        ensures
            final(self).wf(),
            final(self)@.grid =~= Seq::new(2048, |p: int| pixel@),
            final(self)@.changed == old(self)@.changed,
    {
        let mut i: usize = 0;
        while i < 2048
            invariant
                self.wf(),
                i <= 2048,
                self.buffer@.len() == 2048,
                self.changed == old(self).changed,
                forall|q: int| 0 <= q < i ==> (#[trigger] self.buffer@[q])@ == pixel@,
            decreases 2048 - i,
        {
            self.buffer.set(i, pixel);
            i += 1;
        }
        assert forall|p: int| 0 <= p < 2048 implies self@.grid[p] == pixel@ by {
            assert((self.buffer@[p])@ == pixel@);
        }
    }

    /// XOR-draws one pixel: the cell at `(x, y)` flips when `fill` is lit,
    /// and the call reports whether it erased a lit pixel.  Marks the screen
    /// changed.
    pub fn set_pixel(&mut self, x: usize, y: usize, fill: bool) -> (erased: bool)
        requires
            old(self).wf(),
            x < 64,
            y < 32,
        ensures
            final(self).wf(),
            final(self)@.grid =~= old(self)@.grid.update(
                y * 64 + x,
                old(self)@.grid[y * 64 + x] != fill,
            ),
            final(self)@.changed,
            erased == (old(self)@.grid[y * 64 + x] && fill),
    {
        let index: usize = y * 64 + x;
        assert(index < 2048);
        let was = self.buffer[index].filled();
        let erased = was && fill;
        let mut px = self.buffer[index];
        px.set_filled(was != fill);
        self.buffer.set(index, px);
        self.changed = true;
        assert(final(self)@.grid =~= old(self)@.grid.update(
            y * 64 + x,
            old(self)@.grid[y * 64 + x] != fill,
        ));
        erased
    }

    /// Reads the pixel at `(x, y)`.
    pub fn get_pixel(&self, x: usize, y: usize) -> (lit: bool)
        requires
            self.wf(),
            x < 64,
            y < 32,
        ensures
            lit == self@.grid[y * 64 + x],
    {
        self.buffer[y * 64 + x].filled()
    }

    /// XOR-draws an entire sprite at `(x mod 64, y mod 32)`, clipping rows
    /// past the bottom edge, and reports whether any lit pixel was erased.
    pub fn draw_sprite(&mut self, x: usize, y: usize, sprite: &Vec<u8>) -> (erased: bool)
        requires
            old(self).wf(),
        ensures
            final(self).wf(),
            final(self)@.grid =~= draw_grid(
                old(self)@.grid,
                (x % 64) as int,
                (y % 32) as int,
                sprite@,
            ),
            final(self)@.changed,
            erased == draw_erases(old(self)@.grid, (x % 64) as int, (y % 32) as int, sprite@),
    {
        let x0: usize = x % 64;
        let y0: usize = y % 32;
        let ghost g0 = old(self)@.grid;
        let mut erased = false;
        let mut k: usize = 0;
        assert(self@.grid =~= drawn_upto(g0, x0 as int, y0 as int, sprite@, 0, 0));
        while k < sprite.len()
            invariant
                self.wf(),
                x0 == x % 64,
                y0 == y % 32,
                x0 < 64,
                y0 < 32,
                k <= sprite.len(),
                self@.grid == drawn_upto(g0, x0 as int, y0 as int, sprite@, k as int, 0),
                erased == erases_upto(g0, x0 as int, y0 as int, sprite@, k as int, 0),
                g0.len() == 2048,
            decreases sprite.len() - k,
        {
            if k < 32 && y0 + k < 32 {
                let yy = y0 + k;
                let byte = sprite[k];
                let mut j: usize = 0;
                while j < 8
                    invariant
                        self.wf(),
                        x0 < 64,
                        y0 < 32,
                        j <= 8,
                        k < sprite.len(),
                        yy == y0 + k,
                        yy < 32,
                        byte == sprite@[k as int],
                        self@.grid == drawn_upto(
                            g0,
                            x0 as int,
                            y0 as int,
                            sprite@,
                            k as int,
                            j as int,
                        ),
                        erased == erases_upto(g0, x0 as int, y0 as int, sprite@, k as int, j as int),
                        g0.len() == 2048,
                    decreases 8 - j,
                {
                    let shift: u8 = (7 - j) as u8;
                    let fill = (byte >> shift) & 1 == 1;
                    assert(fill == nth_bit(byte, j as int));
                    let c = (x0 + j) % 64;
                    proof {
                        lemma_pixel_index(x0 as int, y0 as int, k as int, j as int);
                    }
                    let ghost p = (yy * 64 + c) as int;
                    let ghost before = self@.grid;
                    let e = self.set_pixel(c, yy, fill);
                    proof {
                        assert(before[p] == g0[p]) by {
                            assert(sprite_k(p, y0 as int) == k && sprite_j(p, x0 as int) == j);
                        }
                        assert(self@.grid =~= drawn_upto(
                            g0,
                            x0 as int,
                            y0 as int,
                            sprite@,
                            k as int,
                            j + 1,
                        )) by {
                            assert forall|q: int| 0 <= q < 2048 implies self@.grid[q] == drawn_upto(
                                g0,
                                x0 as int,
                                y0 as int,
                                sprite@,
                                k as int,
                                j + 1,
                            )[q] by {
                                lemma_cell_of_pixel(x0 as int, y0 as int, q);
                                if q != p {
                                    assert(self@.grid[q] == before[q]);
                                }
                            }
                        }
                        lemma_erases_step(g0, x0 as int, y0 as int, sprite@, k as int, j as int);
                        assert((erased || e) == erases_upto(
                            g0,
                            x0 as int,
                            y0 as int,
                            sprite@,
                            k as int,
                            j + 1,
                        )) by {
                            assert(e == (g0[(y0 + k) * 64 + (x0 + j) % 64] && nth_bit(
                                sprite@[k as int],
                                j as int,
                            )));
                        }
                    }
                    erased = erased || e;
                    j += 1;
                }
                proof {
                    assert(drawn_upto(g0, x0 as int, y0 as int, sprite@, k as int, 8) =~= drawn_upto(
                        g0,
                        x0 as int,
                        y0 as int,
                        sprite@,
                        k + 1,
                        0,
                    ));
                    lemma_erases_row_done(g0, x0 as int, y0 as int, sprite@, k as int);
                }
            } else {
                proof {
                    assert(drawn_upto(g0, x0 as int, y0 as int, sprite@, k as int, 0) =~= drawn_upto(
                        g0,
                        x0 as int,
                        y0 as int,
                        sprite@,
                        k + 1,
                        0,
                    )) by {
                        assert forall|q: int| 0 <= q < 2048 implies !(sprite_k(q, y0 as int) == k
                            && 0 <= sprite_k(q, y0 as int)) by {
                            lemma_cell_of_pixel(x0 as int, y0 as int, q);
                        }
                    }
                    lemma_erases_row_clipped(g0, x0 as int, y0 as int, sprite@, k as int);
                }
            }
            k += 1;
        }
        self.changed = true;
        proof {
            assert(drawn_upto(g0, x0 as int, y0 as int, sprite@, sprite@.len() as int, 0)
                =~= draw_grid(g0, x0 as int, y0 as int, sprite@));
            assert(erases_upto(g0, x0 as int, y0 as int, sprite@, sprite@.len() as int, 0)
                == draw_erases(g0, x0 as int, y0 as int, sprite@)) by {
                lemma_erases_full(g0, x0 as int, y0 as int, sprite@);
            }
        }
        erased
    }

    /// The RGBA image of a grid: four `0xFF` bytes per lit pixel, four zero
    /// bytes per dark pixel.
    pub open spec fn frame_of(grid: Seq<bool>) -> Seq<u8> {
        Seq::new(8192, |b: int| if grid[b / 4] { 0xFFu8 } else { 0u8 })
    }

    /// Renders the grid into an RGBA frame buffer, but only when the screen
    /// changed since the last render; clears the dirty flag and reports
    /// whether a copy happened.
    pub fn draw(&mut self, frame: &mut Vec<u8>) -> (rendered: bool)
        requires
            old(self).wf(),
            old(frame)@.len() == 8192,
        ensures
            final(self).wf(),
            rendered == old(self)@.changed,
            final(self)@.grid == old(self)@.grid,
            !final(self)@.changed,
            old(self)@.changed ==> final(frame)@ =~= Self::frame_of(old(self)@.grid),
            !old(self)@.changed ==> final(frame)@ == old(frame)@,
    {
        if !self.changed {
            return false;
        }
        let mut i: usize = 0;
        while i < 2048
            invariant
                self.wf(),
                *self == *old(self),
                i <= 2048,
                frame@.len() == 8192,
                forall|b: int| 0 <= b < 4 * i ==> frame@[b] == Self::frame_of(self@.grid)[b],
            decreases 2048 - i,
        {
            let v: u8 = if self.buffer[i].filled() {
                0xFF
            } else {
                0x00
            };
            let base = 4 * i;
            frame.set(base, v);
            frame.set(base + 1, v);
            frame.set(base + 2, v);
            frame.set(base + 3, v);
            proof {
                assert forall|b: int| 0 <= b < 4 * (i + 1) implies frame@[b] == Self::frame_of(
                    self@.grid,
                )[b] by {
                    if 4 * i <= b {
                        assert(b / 4 == i) by (nonlinear_arith)
                            requires
                                4 * i <= b < 4 * (i + 1),
                        ;
                        assert(v == Self::frame_of(self@.grid)[b]);
                    }
                }
            }
            i += 1;
        }
        self.changed = false;
        true
    }
}

impl Default for Screen {
    /// The same dark, unchanged screen as [`Screen::new`].
    fn default() -> (r: Screen)
        ensures
            r.wf(),
            r@.grid =~= Seq::new(2048, |p: int| false),
            !r@.changed,
    {
        Screen::new()
    }
}

/// Extending a row prefix by one column adds exactly the collision of that
/// single cell.
proof fn lemma_erases_step(grid: Seq<bool>, x: int, y: int, sprite: Seq<u8>, k: int, j: int)
    requires
        0 <= x < 64,
        0 <= y < 32,
        0 <= k < sprite.len(),
        y + k < 32,
        0 <= j < 8,
    ensures
        erases_upto(grid, x, y, sprite, k, j + 1) == (erases_upto(grid, x, y, sprite, k, j) || (
        grid[(y + k) * 64 + (x + j) % 64] && nth_bit(sprite[k], j))),
{
    if erases_upto(grid, x, y, sprite, k, j) {
        let (kk, jj) = choose|kk: int, jj: int|
            0 <= kk < sprite.len() && 0 <= jj < 8 && (kk < k || (kk == k && jj < j)) && y + kk < 32
                && grid[(y + kk) * 64 + (x + jj) % 64] && #[trigger] nth_bit(sprite[kk], jj);
        assert(kk < k || (kk == k && jj < j + 1));
        assert(erases_upto(grid, x, y, sprite, k, j + 1));
    } else if grid[(y + k) * 64 + (x + j) % 64] && nth_bit(sprite[k], j) {
        assert(erases_upto(grid, x, y, sprite, k, j + 1));
    }
    if erases_upto(grid, x, y, sprite, k, j + 1) {
        let (kk, jj) = choose|kk: int, jj: int|
            0 <= kk < sprite.len() && 0 <= jj < 8 && (kk < k || (kk == k && jj < j + 1)) && y + kk
                < 32 && grid[(y + kk) * 64 + (x + jj) % 64] && #[trigger] nth_bit(sprite[kk], jj);
        if kk == k && jj == j {
            assert(grid[(y + k) * 64 + (x + j) % 64] && nth_bit(sprite[k], j));
        } else {
            assert(0 <= kk < sprite.len() && 0 <= jj < 8 && (kk < k || (kk == k && jj < j)) && y
                + kk < 32 && grid[(y + kk) * 64 + (x + jj) % 64] && nth_bit(sprite[kk], jj));
            assert(erases_upto(grid, x, y, sprite, k, j));
        }
    }
}

/// Finishing all eight columns of a row is the same as starting the next
/// row.
proof fn lemma_erases_row_done(grid: Seq<bool>, x: int, y: int, sprite: Seq<u8>, k: int)
    requires
        0 <= k < sprite.len(),
    ensures
        erases_upto(grid, x, y, sprite, k, 8) == erases_upto(grid, x, y, sprite, k + 1, 0),
{
    if erases_upto(grid, x, y, sprite, k, 8) {
        let (kk, jj) = choose|kk: int, jj: int|
            0 <= kk < sprite.len() && 0 <= jj < 8 && (kk < k || (kk == k && jj < 8)) && y + kk < 32
                && grid[(y + kk) * 64 + (x + jj) % 64] && #[trigger] nth_bit(sprite[kk], jj);
        assert(kk < k + 1);
        assert(erases_upto(grid, x, y, sprite, k + 1, 0));
    }
    if erases_upto(grid, x, y, sprite, k + 1, 0) {
        let (kk, jj) = choose|kk: int, jj: int|
            0 <= kk < sprite.len() && 0 <= jj < 8 && (kk < k + 1 || (kk == k + 1 && jj < 0)) && y
                + kk < 32 && grid[(y + kk) * 64 + (x + jj) % 64] && #[trigger] nth_bit(
                sprite[kk],
                jj,
            );
        assert(kk < k || (kk == k && jj < 8));
        assert(erases_upto(grid, x, y, sprite, k, 8));
    }
}

/// A row clipped below the bottom edge adds no collision.
proof fn lemma_erases_row_clipped(grid: Seq<bool>, x: int, y: int, sprite: Seq<u8>, k: int)
    requires
        0 <= k < sprite.len(),
        y + k >= 32,
    ensures
        erases_upto(grid, x, y, sprite, k, 0) == erases_upto(grid, x, y, sprite, k + 1, 0),
{
    if erases_upto(grid, x, y, sprite, k + 1, 0) {
        let (kk, jj) = choose|kk: int, jj: int|
            0 <= kk < sprite.len() && 0 <= jj < 8 && (kk < k + 1 || (kk == k + 1 && jj < 0)) && y
                + kk < 32 && grid[(y + kk) * 64 + (x + jj) % 64] && #[trigger] nth_bit(
                sprite[kk],
                jj,
            );
        assert(kk != k);
        assert(erases_upto(grid, x, y, sprite, k, 0));
    }
    if erases_upto(grid, x, y, sprite, k, 0) {
        let (kk, jj) = choose|kk: int, jj: int|
            0 <= kk < sprite.len() && 0 <= jj < 8 && (kk < k || (kk == k && jj < 0)) && y + kk < 32
                && grid[(y + kk) * 64 + (x + jj) % 64] && #[trigger] nth_bit(sprite[kk], jj);
        assert(erases_upto(grid, x, y, sprite, k + 1, 0));
    }
}

/// Having drawn every row, no further row index can collide: the loop bound
/// and the full-draw statement agree.
proof fn lemma_erases_full(grid: Seq<bool>, x: int, y: int, sprite: Seq<u8>)
    ensures
        erases_upto(grid, x, y, sprite, sprite.len() as int, 0) == draw_erases(grid, x, y, sprite),
{
    let n = sprite.len() as int;
    if erases_upto(grid, x, y, sprite, n, 0) {
        let (kk, jj) = choose|kk: int, jj: int|
            0 <= kk < sprite.len() && 0 <= jj < 8 && (kk < n || (kk == n && jj < 0)) && y + kk < 32
                && grid[(y + kk) * 64 + (x + jj) % 64] && #[trigger] nth_bit(sprite[kk], jj);
        assert(kk < n || (kk == n && jj < 8));
        assert(draw_erases(grid, x, y, sprite));
    }
    if draw_erases(grid, x, y, sprite) {
        let (kk, jj) = choose|kk: int, jj: int|
            0 <= kk < sprite.len() && 0 <= jj < 8 && (kk < n || (kk == n && jj < 8)) && y + kk < 32
                && grid[(y + kk) * 64 + (x + jj) % 64] && #[trigger] nth_bit(sprite[kk], jj);
        assert(kk < n);
        assert(erases_upto(grid, x, y, sprite, n, 0));
    }
}

/// Drawing the same sprite twice at the same location restores every pixel:
/// XOR is an involution, so the second draw erases exactly what the first
/// draw lit and relights exactly what it erased.
pub proof fn lemma_draw_twice_restores(grid: Seq<bool>, x: int, y: int, sprite: Seq<u8>)
    requires
        grid.len() == 2048,
    ensures
        draw_grid(draw_grid(grid, x, y, sprite), x, y, sprite) =~= grid,
{
    let once = draw_grid(grid, x, y, sprite);
    let twice = draw_grid(once, x, y, sprite);
    assert forall|p: int| 0 <= p < 2048 implies twice[p] == grid[p] by {
        assert(once.len() == 2048);
    }
}

/// Whether any lit bit of the sprite lands on the screen (rows below the
/// bottom edge are clipped, so their bits never show).
pub open spec fn sprite_visible(x: int, y: int, sprite: Seq<u8>) -> bool {
    exists|k: int, j: int|
        0 <= k < sprite.len() && 0 <= j < 8 && y + k < 32 && #[trigger] nth_bit(sprite[k], j)
}

/// Drawing the same sprite twice at the same location reports a collision
/// on the second draw, provided the first draw erased nothing and some lit
/// bit of the sprite is visible: the first draw lit that pixel, so the
/// second draw erases it.
pub proof fn lemma_draw_twice_collides(grid: Seq<bool>, x: int, y: int, sprite: Seq<u8>)
    requires
        grid.len() == 2048,
        0 <= x < 64,
        0 <= y < 32,
        !draw_erases(grid, x, y, sprite),
        sprite_visible(x, y, sprite),
    ensures
        draw_erases(draw_grid(grid, x, y, sprite), x, y, sprite),
{
    let once = draw_grid(grid, x, y, sprite);
    let (k, j) = choose|k: int, j: int|
        0 <= k < sprite.len() && 0 <= j < 8 && y + k < 32 && #[trigger] nth_bit(sprite[k], j);
    lemma_pixel_index(x, y, k, j);
    let p = (y + k) * 64 + (x + j) % 64;
    assert(!grid[p]) by {
        if grid[p] {
            assert(0 <= k < sprite.len() && 0 <= j < 8 && (k < sprite.len() as int || (k
                == sprite.len() as int && j < 8)) && y + k < 32 && grid[(y + k) * 64 + (x + j) % 64]
                && nth_bit(sprite[k], j));
            assert(draw_erases(grid, x, y, sprite));
        }
    }
    assert(once[p]) by {
        assert(covered_upto(p, x, y, sprite.len() as int, sprite.len() as int, 8));
    }
    assert(once[(y + k) * 64 + (x + j) % 64] && nth_bit(sprite[k], j));
}

} // verus!
