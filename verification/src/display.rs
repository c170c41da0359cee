//! The monochrome framebuffer and the semantics of XOR sprite blitting.
//!
//! The grid is a flat, row-major vector of cells, each holding 0 or 1.
//! `drawn_grid` and `draw_collision` give the mathematical meaning of one
//! sprite blit: every sprite bit lands on a toroidally wrapped cell, the cell
//! is XORed with the bit, and a collision is any sprite bit that hits a lit
//! cell.

use vstd::prelude::*;
use vstd::arithmetic::div_mod::lemma_fundamental_div_mod;
use vstd::arithmetic::div_mod::lemma_fundamental_div_mod_converse;
use vstd::arithmetic::div_mod::lemma_mod_bound;
use vstd::arithmetic::div_mod::lemma_mod_multiples_vanish;
use vstd::arithmetic::div_mod::lemma_mod_pos_bound;
use vstd::arithmetic::div_mod::lemma_small_mod;

use crate::arch;

verus! {

/// Framebuffer width as a mathematical integer.
#[verifier::inline]
pub open spec fn width() -> int {
    64
}

/// Framebuffer height as a mathematical integer.
#[verifier::inline]
pub open spec fn height() -> int {
    32
}

/// Number of cells in the framebuffer.
#[verifier::inline]
pub open spec fn grid_len() -> int {
    2048
}

/// Flat index of the cell at column `x`, row `y`.
pub open spec fn cell_index(x: int, y: int) -> int {
    y * width() + x
}

/// A well-formed framebuffer: full size, every cell 0 or 1.
pub open spec fn grid_wf(g: Seq<u8>) -> bool {
    &&& g.len() == grid_len()
    &&& forall|i: int| 0 <= i < g.len() ==> #[trigger] g[i] <= 1
}

/// The all-dark framebuffer.
pub open spec fn blank_grid() -> Seq<u8> {
    Seq::new(grid_len() as nat, |i: int| 0u8)
}

/// Bit `c` (counted from the left) of one sprite row byte.
pub open spec fn sprite_row_bit(b: u8, c: int) -> u8 {
    (b >> ((7 - c) as u8)) & 1
}

/// The sprite bit with flat offset `j` (row `j / 8`, column `j % 8`).
pub open spec fn sprite_bit_at(spr: Seq<u8>, j: int) -> u8 {
    sprite_row_bit(spr[j / 8], j % 8)
}

/// The cell that sprite offset `j` lands on when the sprite's top-left corner
/// is at `(x, y)`, with toroidal wraparound.
pub open spec fn sprite_cell(x: u8, y: u8, j: int) -> int {
    cell_index((x + j % 8) % width(), (y + j / 8) % height())
}

/// Value of cell `idx` after blitting sprite `spr` at `(x, y)` onto `g`:
/// unchanged unless some sprite offset lands on `idx`, in which case the cell
/// is XORed with that sprite bit. The landing offset is recovered from the
/// cell coordinates by modular subtraction.
pub open spec fn drawn_cell(g: Seq<u8>, spr: Seq<u8>, x: u8, y: u8, idx: int) -> u8 {
    let px = idx % width();
    let py = idx / width();
    let c = (px - x) % width();
    let r = (py - y) % height();
    if r < spr.len() && c < 8 {
        g[idx] ^ sprite_row_bit(spr[r], c)
    } else {
        g[idx]
    }
}

/// The framebuffer after blitting sprite `spr` at `(x, y)` onto `g`.
pub open spec fn drawn_grid(g: Seq<u8>, spr: Seq<u8>, x: u8, y: u8) -> Seq<u8> {
    Seq::new(g.len(), |idx: int| drawn_cell(g, spr, x, y, idx))
}

/// Whether sprite offset `j` hits a lit cell of `g`.
pub open spec fn sprite_hit(g: Seq<u8>, spr: Seq<u8>, x: u8, y: u8, j: int) -> bool {
    sprite_bit_at(spr, j) == 1 && g[sprite_cell(x, y, j)] == 1
}

/// Whether blitting sprite `spr` at `(x, y)` onto `g` turns any cell off,
/// i.e. some sprite bit lands on a lit cell.
pub open spec fn draw_collision(g: Seq<u8>, spr: Seq<u8>, x: u8, y: u8) -> bool {
    exists|j: int| 0 <= j < 8 * spr.len() && sprite_hit(g, spr, x, y, j)
}

/// One framebuffer cell scheduled for writing: its coordinates and new value.
#[derive(Clone, Copy, Debug)]
pub struct Pixel {
    x: usize,
    y: usize,
    value: u8,
}

/// Mathematical image of a `Pixel`.
pub ghost struct PixelV {
    pub x: int,
    pub y: int,
    pub value: u8,
}

impl View for Pixel {
    type V = PixelV;

    closed spec fn view(&self) -> PixelV {
        PixelV { x: self.x as int, y: self.y as int, value: self.value }
    }
}

/// Whether a pixel lies inside the framebuffer and carries a single bit.
pub open spec fn pixel_in_grid(p: PixelV) -> bool {
    0 <= p.x < width() && 0 <= p.y < height() && p.value <= 1
}

/// The cell a pixel addresses.
pub open spec fn pixel_cell(p: PixelV) -> int {
    cell_index(p.x, p.y)
}

impl Pixel {
    /// Package coordinates and a new cell value.
    pub fn new(x: usize, y: usize, value: u8) -> (p: Pixel)
        ensures
            p@ == (PixelV { x: x as int, y: y as int, value: value }),
    {
        Pixel { x: x, y: y, value: value }
    }

    /// The new cell value.
    pub fn value(&self) -> (v: u8)
        ensures
            v == self@.value,
    {
        self.value
    }

    /// The cell's column.
    pub fn x(&self) -> (v: usize)
        ensures
            v == self@.x,
    {
        self.x
    }

    /// The cell's row.
    pub fn y(&self) -> (v: usize)
        ensures
            v == self@.y,
    {
        self.y
    }
}

/// The grid after writing a list of pixels in order (later writes win).
pub open spec fn apply_pixels(g: Seq<u8>, ps: Seq<Pixel>) -> Seq<u8>
    decreases ps.len(),
{
    if ps.len() == 0 {
        g
    } else {
        let p = ps.last()@;
        apply_pixels(g, ps.drop_last()).update(pixel_cell(p), p.value)
    }
}

/// The framebuffer: a flat, row-major grid of single-bit cells.
pub struct Display {
    pixels: Vec<u8>,
}

impl View for Display {
    type V = Seq<u8>;

    closed spec fn view(&self) -> Seq<u8> {
        self.pixels@
    }
}

/// A full-size vector of dark cells.
fn blank_pixels() -> (v: Vec<u8>)
    ensures
        v@ == blank_grid(),
{
    let mut v: Vec<u8> = Vec::new();
    let mut i: usize = 0;
    while i < arch::DISPLAY_WIDTH * arch::DISPLAY_HEIGHT
        invariant
            i <= grid_len(),
            v@.len() == i,
            forall|k: int| 0 <= k < i ==> #[trigger] v@[k] == 0,
        decreases grid_len() - i,
    {
        v.push(0);
        i = i + 1;
    }
    assert(v@ =~= blank_grid());
    v
}

impl Display {
    /// A dark framebuffer.
    pub fn new() -> (d: Display)
        ensures
            d@ == blank_grid(),
            grid_wf(d@),
    {
        Display { pixels: blank_pixels() }
    }

    /// Read the cell at column `x`, row `y`.
    pub fn get_pixel(&self, x: usize, y: usize) -> (v: u8)
        requires
            grid_wf(self@),
            x < arch::DISPLAY_WIDTH,
            y < arch::DISPLAY_HEIGHT,
        ensures
            v == self@[cell_index(x as int, y as int)],
    {
        proof {
            assert(y * arch::DISPLAY_WIDTH + x < grid_len());
        }
        self.pixels[y * arch::DISPLAY_WIDTH + x]
    }

    /// Turn every cell off.
    pub fn clear(&mut self)
        ensures
            final(self)@ == blank_grid(),
            grid_wf(final(self)@),
    {
        self.pixels = blank_pixels();
    }

    /// Write the given pixels into the grid, in order.
    pub fn draw(&mut self, pixels: Vec<Pixel>)
        requires
            grid_wf(old(self)@),
            forall|k: int| 0 <= k < pixels@.len() ==> pixel_in_grid(#[trigger] pixels@[k]@),
        ensures
            final(self)@ == apply_pixels(old(self)@, pixels@),
            grid_wf(final(self)@),
    {
        let ghost g0 = self@;
        let mut i: usize = 0;
        while i < pixels.len()
            invariant
                i <= pixels@.len(),
                grid_wf(self@),
                self@ == apply_pixels(g0, pixels@.take(i as int)),
                grid_wf(g0),
                forall|k: int| 0 <= k < pixels@.len() ==> pixel_in_grid(#[trigger] pixels@[k]@),
            decreases pixels@.len() - i,
        {
            let p = pixels[i];
            proof {
                assert(pixel_in_grid(pixels@[i as int]@));
                assert(p.y * arch::DISPLAY_WIDTH + p.x < grid_len());
            }
            let cell = p.y * arch::DISPLAY_WIDTH + p.x;
            self.pixels.set(cell, p.value);
            proof {
                assert(pixels@.take(i + 1).drop_last() =~= pixels@.take(i as int));
                assert(pixels@.take(i + 1).last() == pixels@[i as int]);
            }
            i = i + 1;
        }
        proof {
            assert(pixels@.take(pixels@.len() as int) =~= pixels@);
        }
    }
}

/// Elementary facts about XOR and single-bit bytes, used throughout the
/// drawing proofs.
pub proof fn lemma_bit_facts()
    by (bit_vector)
    ensures
        forall|b: u8, s: u8| #[trigger] ((b >> s) & 1) <= 1,
        forall|a: u8, b: u8| #[trigger] ((a ^ b) ^ b) == a,
        forall|a: u8, b: u8| a <= 1 && b <= 1 ==> #[trigger] (a ^ b) <= 1,
        forall|a: u8, b: u8| a <= 1 && b <= 1 ==> (#[trigger] (a ^ b) == 0 <==> a == b),
{
}

/// Wrapping a coordinate and then subtracting the origin modulo the period
/// recovers the original offset.
proof fn lemma_wrap_recover(y: int, r: int, m: int)
    requires
        0 < m,
        0 <= r < m,
    ensures
        ((y + r) % m - y) % m == r,
{
    let a = y + r;
    lemma_fundamental_div_mod(a, m);
    let q = a / m;
    assert(m * (-q) == -(m * q)) by (nonlinear_arith);
    assert(a % m - y == m * (-q) + r);
    lemma_mod_multiples_vanish(-q, r, m);
    lemma_small_mod(r as nat, m as nat);
}

/// Adding back a recovered offset reproduces the wrapped coordinate.
proof fn lemma_wrap_apply(y: int, p: int, m: int)
    requires
        0 < m,
        0 <= p < m,
    ensures
        (y + (p - y) % m) % m == p,
{
    let b = p - y;
    lemma_fundamental_div_mod(b, m);
    let q = b / m;
    assert(m * (-q) == -(m * q)) by (nonlinear_arith);
    assert(y + b % m == m * (-q) + p);
    lemma_mod_multiples_vanish(-q, p, m);
    lemma_small_mod(p as nat, m as nat);
}

/// A flat cell index decomposes uniquely into its column and row.
proof fn lemma_cell_index_recover(x: int, y: int)
    requires
        0 <= x < width(),
        0 <= y < height(),
    ensures
        cell_index(x, y) % width() == x,
        cell_index(x, y) / width() == y,
        0 <= cell_index(x, y) < grid_len(),
{
    lemma_fundamental_div_mod_converse(y * width() + x, width(), y, x);
}

/// The column and row offsets of a sprite bit can be recovered from the cell
/// it lands on, as long as the sprite has at most `height()` rows.
proof fn lemma_sprite_cell_recover(x: u8, y: u8, n: int, j: int)
    requires
        0 <= j < 8 * n,
        n <= height(),
    ensures
        0 <= sprite_cell(x, y, j) < grid_len(),
        (sprite_cell(x, y, j) % width() - x) % width() == j % 8,
        (sprite_cell(x, y, j) / width() - y) % height() == j / 8,
{
    let r = j / 8;
    let c = j % 8;
    lemma_fundamental_div_mod(j, 8);
    lemma_mod_pos_bound(j, 8);
    assert(0 <= r < n);
    let px = (x + c) % width();
    let py = (y + r) % height();
    lemma_mod_pos_bound(x + c, width());
    lemma_mod_pos_bound(y + r, height());
    lemma_cell_index_recover(px, py);
    lemma_wrap_recover(x as int, c, width());
    lemma_wrap_recover(y as int, r, height());
}

/// Distinct sprite offsets land on distinct cells.
proof fn lemma_sprite_cell_injective(x: u8, y: u8, n: int, j1: int, j2: int)
    requires
        n <= height(),
        0 <= j1 < 8 * n,
        0 <= j2 < 8 * n,
        sprite_cell(x, y, j1) == sprite_cell(x, y, j2),
    ensures
        j1 == j2,
{
    lemma_sprite_cell_recover(x, y, n, j1);
    lemma_sprite_cell_recover(x, y, n, j2);
    lemma_fundamental_div_mod(j1, 8);
    lemma_fundamental_div_mod(j2, 8);
}

/// If a cell's recovered row and column offsets fall inside the sprite, some
/// sprite offset lands exactly on that cell.
proof fn lemma_drawn_cond_covered(x: u8, y: u8, n: int, idx: int)
    requires
        0 <= idx < grid_len(),
        n <= height(),
        (idx / width() - y) % height() < n,
        (idx % width() - x) % width() < 8,
    ensures
        ({
            let r = (idx / width() - y) % height();
            let c = (idx % width() - x) % width();
            0 <= 8 * r + c < 8 * n && sprite_cell(x, y, 8 * r + c) == idx
        }),
{
    let px = idx % width();
    let py = idx / width();
    lemma_fundamental_div_mod(idx, width());
    lemma_mod_pos_bound(idx, width());
    assert(0 <= px < width());
    assert(0 <= py < height());
    let r = (py - y) % height();
    let c = (px - x) % width();
    lemma_mod_bound(py - y, height());
    lemma_mod_bound(px - x, width());
    let j = 8 * r + c;
    lemma_fundamental_div_mod_converse(j, 8, r, c);
    lemma_wrap_apply(y as int, py, height());
    lemma_wrap_apply(x as int, px, width());
    assert(sprite_cell(x, y, j) == cell_index(px, py));
    assert(cell_index(px, py) == idx);
}

/// Whether some listed pixel addresses cell `idx`.
pub open spec fn covered(ps: Seq<Pixel>, idx: int) -> bool {
    exists|k: int| 0 <= k < ps.len() && pixel_cell(ps[k]@) == idx
}

/// Pointwise reading of `apply_pixels` when all listed pixels address
/// distinct cells: each listed cell holds its pixel's value, every other cell
/// is untouched.
proof fn lemma_apply_pixels_pointwise(g: Seq<u8>, ps: Seq<Pixel>)
    requires
        g.len() == grid_len(),
        forall|k: int| 0 <= k < ps.len() ==> pixel_in_grid(#[trigger] ps[k]@),
        forall|k1: int, k2: int|
            0 <= k1 < k2 < ps.len() ==> pixel_cell(ps[k1]@) != pixel_cell(ps[k2]@),
    ensures
        apply_pixels(g, ps).len() == g.len(),
        forall|k: int|
            0 <= k < ps.len() ==> apply_pixels(g, ps)[pixel_cell(#[trigger] ps[k]@)]
                == ps[k]@.value,
        forall|idx: int|
            0 <= idx < g.len() && !covered(ps, idx) ==> apply_pixels(g, ps)[idx] == g[idx],
    decreases ps.len(),
{
    if ps.len() > 0 {
        let prefix = ps.drop_last();
        let p = ps.last()@;
        let n = ps.len() - 1;
        lemma_apply_pixels_pointwise(g, prefix);
        let res = apply_pixels(g, ps);
        let pre = apply_pixels(g, prefix);
        assert(res == pre.update(pixel_cell(p), p.value));
        assert(pixel_in_grid(p)) by {
            assert(ps[n]@ == p);
        }
        assert(0 <= pixel_cell(p) < grid_len());
        assert forall|k: int| 0 <= k < ps.len() implies res[pixel_cell(#[trigger] ps[k]@)]
            == ps[k]@.value by {
            if k < n {
                assert(prefix[k] == ps[k]);
                assert(pixel_cell(ps[k]@) != pixel_cell(p));
                assert(0 <= pixel_cell(ps[k]@) < grid_len());
            }
        }
        assert forall|idx: int|
            0 <= idx < g.len() && !covered(ps, idx) implies res[idx] == g[idx] by {
            assert(pixel_cell(ps[n]@) != idx);
            assert(!covered(prefix, idx)) by {
                if covered(prefix, idx) {
                    let k = choose|k: int| 0 <= k < prefix.len() && pixel_cell(prefix[k]@) == idx;
                    assert(prefix[k] == ps[k]);
                    assert(pixel_cell(ps[k]@) == idx);
                }
            }
        }
    }
}

/// The pixel that sprite offset `j` writes when sprite `spr` is blitted onto
/// grid `g` at `(x, y)`.
pub open spec fn sprite_pixel(g: Seq<u8>, spr: Seq<u8>, x: u8, y: u8, j: int) -> PixelV {
    PixelV {
        x: (x + j % 8) % width(),
        y: (y + j / 8) % height(),
        value: g[sprite_cell(x, y, j)] ^ sprite_bit_at(spr, j),
    }
}

/// Writing, in any order, one pixel per sprite offset — each carrying the
/// XOR of the underlying cell with its sprite bit — produces exactly the
/// blitted grid.
pub proof fn lemma_sprite_pixels_draw(g: Seq<u8>, spr: Seq<u8>, x: u8, y: u8, ps: Seq<Pixel>)
    requires
        grid_wf(g),
        spr.len() <= height(),
        ps.len() == 8 * spr.len(),
        forall|j: int| 0 <= j < ps.len() ==> #[trigger] ps[j]@ == sprite_pixel(g, spr, x, y, j),
    ensures
        apply_pixels(g, ps) == drawn_grid(g, spr, x, y),
{
    lemma_bit_facts();
    let n = spr.len() as int;
    assert forall|j: int| 0 <= j < ps.len() implies pixel_in_grid(#[trigger] ps[j]@) by {
        lemma_sprite_cell_recover(x, y, n, j);
        lemma_mod_pos_bound(x + j % 8, width());
        lemma_mod_pos_bound(y + j / 8, height());
        lemma_mod_pos_bound(j, 8);
        lemma_fundamental_div_mod(j, 8);
        assert(g[sprite_cell(x, y, j)] <= 1);
        assert(sprite_bit_at(spr, j) <= 1);
    }
    assert forall|j: int| 0 <= j < ps.len() implies #[trigger] pixel_cell(ps[j]@)
        == sprite_cell(x, y, j) by {
        assert(ps[j]@ == sprite_pixel(g, spr, x, y, j));
    }
    assert forall|j1: int, j2: int|
        0 <= j1 < j2 < ps.len() implies pixel_cell(ps[j1]@) != pixel_cell(ps[j2]@) by {
        if pixel_cell(ps[j1]@) == pixel_cell(ps[j2]@) {
            lemma_sprite_cell_injective(x, y, n, j1, j2);
        }
    }
    lemma_apply_pixels_pointwise(g, ps);
    let res = apply_pixels(g, ps);
    let target = drawn_grid(g, spr, x, y);
    assert forall|idx: int| 0 <= idx < grid_len() implies res[idx] == target[idx] by {
        if covered(ps, idx) {
            let k = choose|k: int| 0 <= k < ps.len() && pixel_cell(ps[k]@) == idx;
            assert(res[pixel_cell(ps[k]@)] == ps[k]@.value);
            lemma_sprite_cell_recover(x, y, n, k);
            lemma_fundamental_div_mod(k, 8);
            lemma_mod_pos_bound(k, 8);
            assert(target[idx] == drawn_cell(g, spr, x, y, idx));
        } else {
            let r = (idx / width() - y) % height();
            let c = (idx % width() - x) % width();
            lemma_mod_bound(idx / width() - y, height());
            lemma_mod_bound(idx % width() - x, width());
            if r < n && c < 8 {
                lemma_drawn_cond_covered(x, y, n, idx);
                let j = 8 * r + c;
                assert(pixel_cell(ps[j]@) == sprite_cell(x, y, j));
                assert(covered(ps, idx));
            }
            assert(target[idx] == g[idx]);
        }
    }
    assert(res =~= target);
}

/// The value the blit leaves at the cell that sprite offset `j` lands on:
/// the old cell XORed with the sprite bit.
pub proof fn lemma_drawn_at_sprite_cell(g: Seq<u8>, spr: Seq<u8>, x: u8, y: u8, j: int)
    requires
        g.len() == grid_len(),
        spr.len() <= height(),
        0 <= j < 8 * spr.len(),
    ensures
        drawn_grid(g, spr, x, y)[sprite_cell(x, y, j)]
            == g[sprite_cell(x, y, j)] ^ sprite_bit_at(spr, j),
{
    lemma_sprite_cell_recover(x, y, spr.len() as int, j);
    lemma_fundamental_div_mod(j, 8);
    lemma_mod_pos_bound(j, 8);
}

/// Drawing the same sprite at the same position twice restores the grid
/// exactly, and the second draw reports a collision precisely when the first
/// draw turned some cell on (every sprite bit that lit a cell now clears it).
pub proof fn lemma_draw_involution(g: Seq<u8>, spr: Seq<u8>, x: u8, y: u8)
    requires
        grid_wf(g),
        spr.len() <= height(),
    ensures
        drawn_grid(drawn_grid(g, spr, x, y), spr, x, y) == g,
        draw_collision(drawn_grid(g, spr, x, y), spr, x, y) <==> (exists|j: int|
            0 <= j < 8 * spr.len() && sprite_bit_at(spr, j) == 1 && g[sprite_cell(x, y, j)]
                == 0),
{
    lemma_bit_facts();
    let g1 = drawn_grid(g, spr, x, y);
    let g2 = drawn_grid(g1, spr, x, y);
    assert forall|idx: int| 0 <= idx < grid_len() implies g2[idx] == g[idx] by {
        assert(g1[idx] == drawn_cell(g, spr, x, y, idx));
        assert(g2[idx] == drawn_cell(g1, spr, x, y, idx));
    }
    assert(g2 =~= g);
    assert forall|j: int|
        0 <= j < 8 * spr.len() implies (sprite_hit(g1, spr, x, y, j) <==> (sprite_bit_at(
        spr,
        j,
    ) == 1 && g[sprite_cell(x, y, j)] == 0)) by {
        lemma_drawn_at_sprite_cell(g, spr, x, y, j);
        lemma_sprite_cell_recover(x, y, spr.len() as int, j);
        assert(g[sprite_cell(x, y, j)] <= 1);
    }
}

} // verus!
