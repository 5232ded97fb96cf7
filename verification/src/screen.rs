//! The 64×32 monochrome display.
//!
//! The framebuffer is a row-major sequence of booleans, one per pixel, with
//! flat index `x + 64·y`.  Coordinates wrap modulo the screen width and
//! height independently, so the screen behaves as a torus.  Sprites are
//! drawn by XOR: a set sprite bit flips the pixel under it, and a draw
//! reports a collision when any flipped pixel was already lit.

use vstd::prelude::*;

verus! {

pub const SCREEN_WIDTH: usize = 64;

pub const SCREEN_HEIGHT: usize = 32;

pub const NUM_PIXELS: usize = 2048;

/// The framebuffer with every pixel off.
pub open spec fn blank_screen() -> Seq<bool> {
    Seq::new(NUM_PIXELS as nat, |idx: int| false)
}

/// Flat framebuffer index of the (wrapped) coordinate pair.
pub open spec fn pixel_index(x: int, y: int) -> int {
    x % 64 + 64 * (y % 32)
}

/// The weight of sprite column `c`: sprite rows are bytes drawn most
/// significant bit first, so column 0 carries bit 7.
pub open spec fn col_weight(c: int) -> int {
    if c == 0 {
        128
    } else if c == 1 {
        64
    } else if c == 2 {
        32
    } else if c == 3 {
        16
    } else if c == 4 {
        8
    } else if c == 5 {
        4
    } else if c == 6 {
        2
    } else {
        1
    }
}

/// Whether column `c` (0 = leftmost) of a sprite row byte is set.
pub open spec fn row_bit(row: u8, c: int) -> bool {
    (row as int / col_weight(c)) % 2 == 1
}

/// Whether the sprite anchored at (x0, y0) puts a set bit on the pixel with
/// flat index `idx`.  The sprite is 8 pixels wide and `rows.len()` tall, and
/// both coordinates wrap around the screen edges per pixel.
pub open spec fn sprite_bit_at(x0: u8, y0: u8, rows: Seq<u8>, idx: int) -> bool {
    let dx = (idx % 64 - x0) % 64;
    let dy = (idx / 64 - y0) % 32;
    dx < 8 && dy < rows.len() && row_bit(rows[dy], dx)
}

/// The framebuffer after XOR-drawing the sprite `rows` at (x0, y0).
pub open spec fn blit(px: Seq<bool>, x0: u8, y0: u8, rows: Seq<u8>) -> Seq<bool> {
    Seq::new(NUM_PIXELS as nat, |idx: int| px[idx] != sprite_bit_at(x0, y0, rows, idx))
}

/// Whether XOR-drawing the sprite `rows` at (x0, y0) turns any lit pixel off,
/// i.e. whether a set sprite bit lands on a pixel that was already on.
pub open spec fn blit_collides(px: Seq<bool>, x0: u8, y0: u8, rows: Seq<u8>) -> bool {
    exists|idx: int| 0 <= idx < NUM_PIXELS && px[idx] && sprite_bit_at(x0, y0, rows, idx)
}

/// Like [`sprite_bit_at`], restricted to the sprite bits strictly before
/// row `r`, column `c` in row-major sprite order: the part of the sprite a
/// blit loop has already drawn.
spec fn sprite_bit_before(x0: u8, y0: u8, rows: Seq<u8>, idx: int, r: int, c: int) -> bool {
    let dx = (idx % 64 - x0) % 64;
    let dy = (idx / 64 - y0) % 32;
    dx < 8 && dy < rows.len() && (dy < r || (dy == r && dx < c)) && row_bit(rows[dy], dx)
}

/// The framebuffer with only the sprite bits before (r, c) drawn.
spec fn blit_partial(px: Seq<bool>, x0: u8, y0: u8, rows: Seq<u8>, r: int, c: int) -> Seq<bool> {
    Seq::new(NUM_PIXELS as nat, |idx: int| px[idx] != sprite_bit_before(x0, y0, rows, idx, r, c))
}

/// Collision over only the sprite bits before (r, c).
spec fn collides_partial(px: Seq<bool>, x0: u8, y0: u8, rows: Seq<u8>, r: int, c: int) -> bool {
    exists|idx: int|
        0 <= idx < NUM_PIXELS && px[idx] && sprite_bit_before(x0, y0, rows, idx, r, c)
}

/// For `xx` in [0, m), the wrapped offset of `xx` from `b` is `c` exactly
/// when `xx` is the wrap of `b + c`.
proof fn lemma_wrap_index(m: int, b: int, xx: int, c: int)
    requires
        m > 0,
        0 <= xx < m,
        0 <= c < m,
    ensures
        ((xx - b) % m == c) <==> (xx == (b + c) % m),
{
    let q = (b + c) / m;
    let t = (b + c) % m;
    let q1 = (xx - b) / m;
    vstd::arithmetic::div_mod::lemma_fundamental_div_mod(b + c, m);
    vstd::arithmetic::div_mod::lemma_fundamental_div_mod(xx - b, m);
    vstd::arithmetic::div_mod::lemma_mod_bound(b + c, m);
    if (xx - b) % m == c {
        assert(xx == m * q1 + m * q + t);
        vstd::arithmetic::mul::lemma_mul_is_distributive_add(m, q1, q);
        vstd::arithmetic::mul::lemma_mul_is_commutative(m, q1 + q);
        vstd::arithmetic::div_mod::lemma_fundamental_div_mod_converse_mod(xx, m, q1 + q, t);
        vstd::arithmetic::div_mod::lemma_small_mod(xx as nat, m as nat);
    }
    if xx == (b + c) % m {
        vstd::arithmetic::mul::lemma_mul_is_commutative(m, q);
        vstd::arithmetic::mul::lemma_mul_unary_negation(q, m);
        assert(xx - b == (-q) * m + c);
        vstd::arithmetic::div_mod::lemma_fundamental_div_mod_converse_mod(xx - b, m, -q, c);
    }
}

/// Decompose a framebuffer index into its column and row.
proof fn lemma_idx_decomp(idx: int)
    requires
        0 <= idx < NUM_PIXELS,
    ensures
        0 <= idx % 64 < 64,
        0 <= idx / 64 < 32,
        idx == idx % 64 + 64 * (idx / 64),
{
    vstd::arithmetic::div_mod::lemma_mod_bound(idx, 64);
    vstd::arithmetic::div_mod::lemma_fundamental_div_mod(idx, 64);
}

/// Drawing one more sprite bit — row `r`, column `c` — changes the
/// already-drawn predicate only at that bit's target pixel, where it
/// becomes the bit itself.  Rows at most 32 tall hit each pixel at most
/// once, which is what makes the target unique.
proof fn lemma_hit_step(x0: u8, y0: u8, rows: Seq<u8>, r: int, c: int)
    requires
        rows.len() <= 32,
        0 <= r < rows.len(),
        0 <= c < 8,
    ensures
        ({
            let idx_t = (x0 + c) % 64 + 64 * ((y0 + r) % 32);
            &&& 0 <= idx_t < NUM_PIXELS
            &&& forall|idx: int|
                0 <= idx < NUM_PIXELS && idx != idx_t ==> sprite_bit_before(
                    x0,
                    y0,
                    rows,
                    idx,
                    r,
                    c + 1,
                ) == sprite_bit_before(x0, y0, rows, idx, r, c)
            &&& !sprite_bit_before(x0, y0, rows, idx_t, r, c)
            &&& sprite_bit_before(x0, y0, rows, idx_t, r, c + 1) == row_bit(rows[r], c)
            &&& sprite_bit_at(x0, y0, rows, idx_t) == row_bit(rows[r], c)
        }),
{
    let tx = (x0 + c) % 64;
    let ty = (y0 + r) % 32;
    let idx_t = tx + 64 * ty;
    vstd::arithmetic::div_mod::lemma_mod_bound(x0 + c, 64);
    vstd::arithmetic::div_mod::lemma_mod_bound(y0 + r, 32);
    vstd::arithmetic::div_mod::lemma_fundamental_div_mod_converse_mod(idx_t, 64, ty, tx);
    vstd::arithmetic::div_mod::lemma_fundamental_div_mod(idx_t, 64);
    assert(idx_t % 64 == tx && idx_t / 64 == ty);
    lemma_wrap_index(64, x0 as int, tx, c);
    lemma_wrap_index(32, y0 as int, ty, r);
    assert forall|idx: int|
        0 <= idx < NUM_PIXELS && idx != idx_t implies sprite_bit_before(x0, y0, rows, idx, r, c + 1)
        == sprite_bit_before(x0, y0, rows, idx, r, c) by {
        lemma_idx_decomp(idx);
        lemma_wrap_index(64, x0 as int, idx % 64, c);
        lemma_wrap_index(32, y0 as int, idx / 64, r);
    }
}

/// Finishing a row is the same as standing at the start of the next one.
proof fn lemma_row_advance(x0: u8, y0: u8, rows: Seq<u8>, r: int, idx: int)
    ensures
        sprite_bit_before(x0, y0, rows, idx, r, 8) == sprite_bit_before(x0, y0, rows, idx, r + 1, 0),
{
}

/// One drawing step extends the collision exactly by the new bit landing on
/// a lit pixel.
proof fn lemma_collides_step(px: Seq<bool>, x0: u8, y0: u8, rows: Seq<u8>, r: int, c: int)
    requires
        px.len() == NUM_PIXELS,
        rows.len() <= 32,
        0 <= r < rows.len(),
        0 <= c < 8,
    ensures
        ({
            let idx_t = (x0 + c) % 64 + 64 * ((y0 + r) % 32);
            collides_partial(px, x0, y0, rows, r, c + 1) == (collides_partial(px, x0, y0, rows, r, c)
                || (px[idx_t] && row_bit(rows[r], c)))
        }),
{
    let idx_t = (x0 + c) % 64 + 64 * ((y0 + r) % 32);
    lemma_hit_step(x0, y0, rows, r, c);
    if collides_partial(px, x0, y0, rows, r, c) {
        let w = choose|idx: int|
            0 <= idx < NUM_PIXELS && px[idx] && sprite_bit_before(x0, y0, rows, idx, r, c);
        assert(px[w] && sprite_bit_before(x0, y0, rows, w, r, c + 1));
    }
    if px[idx_t] && row_bit(rows[r], c) {
        assert(px[idx_t] && sprite_bit_before(x0, y0, rows, idx_t, r, c + 1));
    }
    if collides_partial(px, x0, y0, rows, r, c + 1) {
        let w = choose|idx: int|
            0 <= idx < NUM_PIXELS && px[idx] && sprite_bit_before(x0, y0, rows, idx, r, c + 1);
        if w != idx_t {
            assert(px[w] && sprite_bit_before(x0, y0, rows, w, r, c));
        }
    }
}

/// Collision at the end of a row equals collision at the start of the next.
proof fn lemma_collides_row(px: Seq<bool>, x0: u8, y0: u8, rows: Seq<u8>, r: int)
    requires
        px.len() == NUM_PIXELS,
    ensures
        collides_partial(px, x0, y0, rows, r, 8) == collides_partial(px, x0, y0, rows, r + 1, 0),
{
    assert forall|idx: int| 0 <= idx < NUM_PIXELS implies sprite_bit_before(x0, y0, rows, idx, r, 8)
        == sprite_bit_before(x0, y0, rows, idx, r + 1, 0) by {
        lemma_row_advance(x0, y0, rows, r, idx);
    }
    if collides_partial(px, x0, y0, rows, r, 8) {
        let w = choose|idx: int|
            0 <= idx < NUM_PIXELS && px[idx] && sprite_bit_before(x0, y0, rows, idx, r, 8);
        assert(px[w] && sprite_bit_before(x0, y0, rows, w, r + 1, 0));
    }
    if collides_partial(px, x0, y0, rows, r + 1, 0) {
        let w = choose|idx: int|
            0 <= idx < NUM_PIXELS && px[idx] && sprite_bit_before(x0, y0, rows, idx, r + 1, 0);
        assert(px[w] && sprite_bit_before(x0, y0, rows, w, r, 8));
    }
}

/// Before any bit is drawn, nothing is drawn and nothing collides.
proof fn lemma_blit_start(px: Seq<bool>, x0: u8, y0: u8, rows: Seq<u8>)
    requires
        px.len() == NUM_PIXELS,
    ensures
        blit_partial(px, x0, y0, rows, 0, 0) == px,
        !collides_partial(px, x0, y0, rows, 0, 0),
{
    assert forall|idx: int| 0 <= idx < NUM_PIXELS implies !sprite_bit_before(
        x0,
        y0,
        rows,
        idx,
        0,
        0,
    ) by {
        vstd::arithmetic::div_mod::lemma_mod_bound(idx % 64 - x0, 64);
        vstd::arithmetic::div_mod::lemma_mod_bound(idx / 64 - y0, 32);
    }
    assert(blit_partial(px, x0, y0, rows, 0, 0) =~= px);
    if collides_partial(px, x0, y0, rows, 0, 0) {
        let w = choose|idx: int|
            0 <= idx < NUM_PIXELS && px[idx] && sprite_bit_before(x0, y0, rows, idx, 0, 0);
        assert(false);
    }
}

/// Having drawn every row is the full blit.
proof fn lemma_blit_finish(px: Seq<bool>, x0: u8, y0: u8, rows: Seq<u8>)
    requires
        px.len() == NUM_PIXELS,
    ensures
        blit_partial(px, x0, y0, rows, rows.len() as int, 0) == blit(px, x0, y0, rows),
        collides_partial(px, x0, y0, rows, rows.len() as int, 0) == blit_collides(px, x0, y0, rows),
{
    let n = rows.len() as int;
    assert forall|idx: int| 0 <= idx < NUM_PIXELS implies sprite_bit_before(x0, y0, rows, idx, n, 0)
        == sprite_bit_at(x0, y0, rows, idx) by {}
    assert(blit_partial(px, x0, y0, rows, n, 0) =~= blit(px, x0, y0, rows));
    if collides_partial(px, x0, y0, rows, n, 0) {
        let w = choose|idx: int|
            0 <= idx < NUM_PIXELS && px[idx] && sprite_bit_before(x0, y0, rows, idx, n, 0);
        assert(px[w] && sprite_bit_at(x0, y0, rows, w));
    }
    if blit_collides(px, x0, y0, rows) {
        let w = choose|idx: int| 0 <= idx < NUM_PIXELS && px[idx] && sprite_bit_at(x0, y0, rows, idx);
        assert(px[w] && sprite_bit_before(x0, y0, rows, w, n, 0));
    }
}

/// Draw idempotence under double-XOR: drawing the same sprite at the same
/// location twice in succession restores the pre-draw framebuffer exactly,
/// because XOR-drawing is its own inverse.
pub proof fn lemma_blit_involution(px: Seq<bool>, x0: u8, y0: u8, rows: Seq<u8>)
    requires
        px.len() == NUM_PIXELS,
    ensures
        blit(blit(px, x0, y0, rows), x0, y0, rows) == px,
{
    assert(blit(blit(px, x0, y0, rows), x0, y0, rows) =~= px);
}

/// Whether column `c` of a sprite row byte is set.
fn row_bit_exec(row: u8, c: usize) -> (b: bool)
    requires
        c < 8,
    ensures
        b == row_bit(row, c as int),
{
    let w: u8 = if c == 0 {
        128
    } else if c == 1 {
        64
    } else if c == 2 {
        32
    } else if c == 3 {
        16
    } else if c == 4 {
        8
    } else if c == 5 {
        4
    } else if c == 6 {
        2
    } else {
        1
    };
    (row / w) % 2 == 1
}

pub struct Screen {
    cells: Vec<bool>,
}

impl View for Screen {
    type V = Seq<bool>;

    closed spec fn view(&self) -> Seq<bool> {
        self.cells@
    }
}

impl Screen {
    pub open spec fn wf(self) -> bool {
        self@.len() == NUM_PIXELS
    }

    /// A screen with every pixel off.
    pub fn new() -> (s: Screen)
        ensures
            s.wf(),
            s@ == blank_screen(),
    {
        let mut cells: Vec<bool> = Vec::new();
        let mut k: usize = 0;
        while k < NUM_PIXELS
            invariant
                k <= NUM_PIXELS,
                cells@.len() == k,
                forall|j: int| 0 <= j < k ==> !cells@[j],
            decreases NUM_PIXELS - k,
        {
            cells.push(false);
            k += 1;
        }
        let s = Screen { cells };
        proof {
            assert(s@ =~= blank_screen());
        }
        s
    }

    /// Turn every pixel off.
    pub fn reset(&mut self)
        requires
            old(self).wf(),
        ensures
            final(self).wf(),
            final(self)@ == blank_screen(),
    {
        let mut k: usize = 0;
        while k < NUM_PIXELS
            invariant
                k <= NUM_PIXELS,
                self@.len() == NUM_PIXELS,
                forall|j: int| 0 <= j < k ==> !self@[j],
            decreases NUM_PIXELS - k,
        {
            self.cells.set(k, false);
            k += 1;
        }
        proof {
            assert(self@ =~= blank_screen());
        }
    }

    /// Read the pixel at (x, y); both coordinates wrap around the edges.
    pub fn get_pixel(&self, x: usize, y: usize) -> (b: bool)
        requires
            self.wf(),
        ensures
            b == self@[pixel_index(x as int, y as int)],
    {
        self.cells[x % 64 + 64 * (y % 32)]
    }

    /// Write the pixel at (x, y), wrapping both coordinates, and report the
    /// value the cell held before.
    pub fn set_pixel(&mut self, x: usize, y: usize, val: bool) -> (was: bool)
        requires
            old(self).wf(),
        ensures
            final(self).wf(),
            final(self)@ == old(self)@.update(pixel_index(x as int, y as int), val),
            was == old(self)@[pixel_index(x as int, y as int)],
    {
        let idx = x % 64 + 64 * (y % 32);
        let was = self.cells[idx];
        self.cells.set(idx, val);
        was
    }

    /// XOR-draw the sprite `rows` (8 pixels wide, one byte per row, most
    /// significant bit leftmost) anchored at (x, y), wrapping every pixel's
    /// coordinates around the screen edges.  Reports whether any lit pixel
    /// was turned off.
    pub fn blit_sprite(&mut self, x: u8, y: u8, rows: &Vec<u8>) -> (collided: bool)
        requires
            old(self).wf(),
            rows@.len() <= 32,
        ensures
            final(self).wf(),
            final(self)@ == blit(old(self)@, x, y, rows@),
            collided == blit_collides(old(self)@, x, y, rows@),
    {
        let ghost px0 = self@;
        proof {
            lemma_blit_start(px0, x, y, rows@);
        }
        let mut collided = false;
        let n = rows.len();
        let mut r: usize = 0;
        while r < n
            invariant
                r <= n,
                n == rows@.len(),
                rows@.len() <= 32,
                px0.len() == NUM_PIXELS,
                self@ == blit_partial(px0, x, y, rows@, r as int, 0),
                collided == collides_partial(px0, x, y, rows@, r as int, 0),
            decreases n - r,
        {
            let row = rows[r];
            let mut c: usize = 0;
            while c < 8
                invariant
                    c <= 8,
                    r < n,
                    n == rows@.len(),
                    rows@.len() <= 32,
                    px0.len() == NUM_PIXELS,
                    row == rows@[r as int],
                    self@ == blit_partial(px0, x, y, rows@, r as int, c as int),
                    collided == collides_partial(px0, x, y, rows@, r as int, c as int),
                decreases 8 - c,
            {
                proof {
                    lemma_hit_step(x, y, rows@, r as int, c as int);
                    lemma_collides_step(px0, x, y, rows@, r as int, c as int);
                }
                let bit = row_bit_exec(row, c);
                let tx = (x as usize + c) % 64;
                let ty = (y as usize + r) % 32;
                let idx = tx + 64 * ty;
                if bit {
                    let prev = self.cells[idx];
                    if prev {
                        collided = true;
                    }
                    self.cells.set(idx, !prev);
                }
                proof {
                    assert(self@ =~= blit_partial(px0, x, y, rows@, r as int, c as int + 1));
                }
                c += 1;
            }
            proof {
                assert forall|idx: int| 0 <= idx < NUM_PIXELS implies sprite_bit_before(
                    x,
                    y,
                    rows@,
                    idx,
                    r as int,
                    8,
                ) == sprite_bit_before(x, y, rows@, idx, r as int + 1, 0) by {
                    lemma_row_advance(x, y, rows@, r as int, idx);
                }
                assert(blit_partial(px0, x, y, rows@, r as int, 8) =~= blit_partial(
                    px0,
                    x,
                    y,
                    rows@,
                    r as int + 1,
                    0,
                ));
                lemma_collides_row(px0, x, y, rows@, r as int);
            }
            r += 1;
        }
        proof {
            lemma_blit_finish(px0, x, y, rows@);
        }
        collided
    }

    /// The whole framebuffer, row-major, for the host to render.
    pub fn iter_screen(&self) -> (px: &[bool])
        ensures
            px@ == self@,
    {
        self.cells.as_slice()
    }
}

} // verus!
