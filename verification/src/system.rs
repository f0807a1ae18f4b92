//! The byte-addressable address space, the monochrome display buffer, and
//! the keypad state, with bounds-checked access.

use vstd::prelude::*;

verus! {

/// Size of the address space in bytes.
pub const SIZE_MEM: usize = 4096;

/// Number of display pixels (64 columns by 32 rows).
pub const SIZE_GFX: usize = 2048;

/// Number of keypad keys.
pub const SIZE_KEYS: usize = 16;

/// Mathematical view of a [`System`]: the memory bytes, the display pixels
/// in row-major order, and the key states.
pub ghost struct SysModel {
    pub mem: Seq<u8>,
    pub gfx: Seq<bool>,
    pub keys: Seq<bool>,
}

impl SysModel {
    /// The fixed sizes of the three state arrays.
    pub open spec fn inv(self) -> bool {
        &&& self.mem.len() == SIZE_MEM
        &&& self.gfx.len() == SIZE_GFX
        &&& self.keys.len() == SIZE_KEYS
    }
}

/// Whether bit `c` (counting the most significant bit as column 0) of a
/// sprite row byte is set.
pub open spec fn sprite_bit(b: u8, c: int) -> bool {
    (b >> ((7 - c) as u8)) & 1 == 1
}

/// One sprite cell and the pixel it lands on: row `rr`, column `cc` of the
/// sprite whose rows start at memory address `base`, drawn at origin
/// `(x0, y0)`, is a set bit, stays on screen, and covers pixel `p`.
pub open spec fn hits_pair(
    mem: Seq<u8>,
    base: int,
    x0: int,
    y0: int,
    rr: int,
    cc: int,
    p: int,
) -> bool {
    &&& 0 <= rr
    &&& 0 <= cc < 8
    &&& x0 + cc < 64
    &&& y0 + rr < 32
    &&& sprite_bit(mem[base + rr], cc)
    &&& p == (y0 + rr) * 64 + (x0 + cc)
}

/// Lexicographic order on (row, column) sprite cells.
pub open spec fn lex_lt(rr: int, cc: int, r: int, c: int) -> bool {
    rr < r || (rr == r && cc < c)
}

/// Whether some set, on-screen cell of the `n`-row sprite covers pixel `p`.
pub open spec fn sprite_hits(mem: Seq<u8>, base: int, x0: int, y0: int, n: int, p: int) -> bool {
    exists|rr: int, cc: int| hits_pair(mem, base, x0, y0, rr, cc, p) && rr < n
}

/// `sprite_hits` restricted to the cells strictly before `(r, c)` in
/// drawing order.
pub open spec fn hits_upto(
    mem: Seq<u8>,
    base: int,
    x0: int,
    y0: int,
    r: int,
    c: int,
    p: int,
) -> bool {
    exists|rr: int, cc: int| hits_pair(mem, base, x0, y0, rr, cc, p) && lex_lt(rr, cc, r, c)
}

/// Whether the cells strictly before `(r, c)` flip some pixel that is on in
/// the display state `g`.
pub open spec fn col_upto(
    g: Seq<bool>,
    mem: Seq<u8>,
    base: int,
    x0: int,
    y0: int,
    r: int,
    c: int,
) -> bool {
    exists|p: int| 0 <= p < SIZE_GFX && hits_upto(mem, base, x0, y0, r, c, p) && g[p]
}

/// Whether drawing the sprite over display state `g` turns some set pixel
/// off: the collision that `VF` reports.
pub open spec fn draw_collides(
    g: Seq<bool>,
    mem: Seq<u8>,
    base: int,
    x0: int,
    y0: int,
    n: int,
) -> bool {
    exists|p: int| 0 <= p < SIZE_GFX && sprite_hits(mem, base, x0, y0, n, p) && g[p]
}

/// Distinct on-screen sprite cells land on distinct pixels.
proof fn lemma_pix_inj(x0: int, y0: int, r1: int, c1: int, r2: int, c2: int)
    requires
        0 <= x0,
        0 <= y0,
        0 <= r1,
        0 <= r2,
        0 <= c1 < 8,
        0 <= c2 < 8,
        x0 + c1 < 64,
        x0 + c2 < 64,
        y0 + r1 < 32,
        y0 + r2 < 32,
        (y0 + r1) * 64 + (x0 + c1) == (y0 + r2) * 64 + (x0 + c2),
    ensures
        r1 == r2,
        c1 == c2,
{
}

/// Equal cut points cover the same pixels, so they collide with the same
/// display states.
proof fn lemma_col_upto_congr(
    g: Seq<bool>,
    mem: Seq<u8>,
    base: int,
    x0: int,
    y0: int,
    r1: int,
    c1: int,
    r2: int,
    c2: int,
)
    requires
        forall|q: int|
            hits_upto(mem, base, x0, y0, r1, c1, q) == hits_upto(mem, base, x0, y0, r2, c2, q),
    ensures
        col_upto(g, mem, base, x0, y0, r1, c1) == col_upto(g, mem, base, x0, y0, r2, c2),
{
    if col_upto(g, mem, base, x0, y0, r1, c1) {
        let q = choose|q: int|
            0 <= q < SIZE_GFX && hits_upto(mem, base, x0, y0, r1, c1, q) && g[q];
        assert(hits_upto(mem, base, x0, y0, r2, c2, q));
        assert(col_upto(g, mem, base, x0, y0, r2, c2));
    }
    if col_upto(g, mem, base, x0, y0, r2, c2) {
        let q = choose|q: int|
            0 <= q < SIZE_GFX && hits_upto(mem, base, x0, y0, r2, c2, q) && g[q];
        assert(hits_upto(mem, base, x0, y0, r1, c1, q));
        assert(col_upto(g, mem, base, x0, y0, r1, c1));
    }
}

/// Stepping over the set, on-screen cell `(r, c)`, which covers pixel `p`:
/// the covered set grows by exactly `p`, and the collision account by
/// whether `p` was on.
proof fn lemma_hits_plot_step(
    g: Seq<bool>,
    mem: Seq<u8>,
    base: int,
    x0: int,
    y0: int,
    r: int,
    c: int,
    p: int,
)
    requires
        0 <= x0,
        0 <= y0,
        hits_pair(mem, base, x0, y0, r, c, p),
    ensures
        !hits_upto(mem, base, x0, y0, r, c, p),
        0 <= p < SIZE_GFX,
        forall|q: int|
            hits_upto(mem, base, x0, y0, r, c + 1, q) == (hits_upto(mem, base, x0, y0, r, c, q)
                || q == p),
        col_upto(g, mem, base, x0, y0, r, c + 1) == (col_upto(g, mem, base, x0, y0, r, c)
            || g[p]),
{
    if hits_upto(mem, base, x0, y0, r, c, p) {
        let (rr, cc) = choose|rr: int, cc: int|
            hits_pair(mem, base, x0, y0, rr, cc, p) && lex_lt(rr, cc, r, c);
        lemma_pix_inj(x0, y0, rr, cc, r, c);
        assert(false);
    }
    assert forall|q: int|
        hits_upto(mem, base, x0, y0, r, c + 1, q) == (hits_upto(mem, base, x0, y0, r, c, q)
            || q == p) by {
        if hits_upto(mem, base, x0, y0, r, c + 1, q) {
            let (rr, cc) = choose|rr: int, cc: int|
                hits_pair(mem, base, x0, y0, rr, cc, q) && lex_lt(rr, cc, r, c + 1);
            if lex_lt(rr, cc, r, c) {
                assert(hits_upto(mem, base, x0, y0, r, c, q));
            } else {
                assert(rr == r && cc == c);
                assert(q == p);
            }
        }
        if hits_upto(mem, base, x0, y0, r, c, q) {
            let (rr, cc) = choose|rr: int, cc: int|
                hits_pair(mem, base, x0, y0, rr, cc, q) && lex_lt(rr, cc, r, c);
            assert(lex_lt(rr, cc, r, c + 1));
            assert(hits_upto(mem, base, x0, y0, r, c + 1, q));
        }
        if q == p {
            assert(lex_lt(r, c, r, c + 1));
            assert(hits_upto(mem, base, x0, y0, r, c + 1, q));
        }
    }
    if col_upto(g, mem, base, x0, y0, r, c) {
        let q = choose|q: int| 0 <= q < SIZE_GFX && hits_upto(mem, base, x0, y0, r, c, q) && g[q];
        assert(hits_upto(mem, base, x0, y0, r, c + 1, q));
        assert(col_upto(g, mem, base, x0, y0, r, c + 1));
    }
    if g[p] {
        assert(hits_upto(mem, base, x0, y0, r, c + 1, p));
        assert(col_upto(g, mem, base, x0, y0, r, c + 1));
    }
    if col_upto(g, mem, base, x0, y0, r, c + 1) && !col_upto(g, mem, base, x0, y0, r, c) && !g[p] {
        let q = choose|q: int|
            0 <= q < SIZE_GFX && hits_upto(mem, base, x0, y0, r, c + 1, q) && g[q];
        assert(hits_upto(mem, base, x0, y0, r, c, q) || q == p);
        assert(false);
    }
}

/// Stepping over a cell that plots nothing (bit clear, or clipped off the
/// screen edge) changes neither the covered set nor the collision account.
proof fn lemma_hits_skip_step(
    g: Seq<bool>,
    mem: Seq<u8>,
    base: int,
    x0: int,
    y0: int,
    r: int,
    c: int,
)
    requires
        0 <= c,
        !(sprite_bit(mem[base + r], c) && x0 + c < 64 && y0 + r < 32),
    ensures
        forall|q: int|
            hits_upto(mem, base, x0, y0, r, c + 1, q) == hits_upto(mem, base, x0, y0, r, c, q),
        col_upto(g, mem, base, x0, y0, r, c + 1) == col_upto(g, mem, base, x0, y0, r, c),
{
    assert forall|q: int|
        hits_upto(mem, base, x0, y0, r, c + 1, q) == hits_upto(mem, base, x0, y0, r, c, q) by {
        if hits_upto(mem, base, x0, y0, r, c + 1, q) {
            let (rr, cc) = choose|rr: int, cc: int|
                hits_pair(mem, base, x0, y0, rr, cc, q) && lex_lt(rr, cc, r, c + 1);
            assert(!(rr == r && cc == c));
            assert(lex_lt(rr, cc, r, c));
            assert(hits_upto(mem, base, x0, y0, r, c, q));
        }
        if hits_upto(mem, base, x0, y0, r, c, q) {
            let (rr, cc) = choose|rr: int, cc: int|
                hits_pair(mem, base, x0, y0, rr, cc, q) && lex_lt(rr, cc, r, c);
            assert(lex_lt(rr, cc, r, c + 1));
            assert(hits_upto(mem, base, x0, y0, r, c + 1, q));
        }
    }
    lemma_col_upto_congr(g, mem, base, x0, y0, r, c + 1, r, c);
}

/// Finishing a row: the cells before `(r, 8)` are the cells before
/// `(r + 1, 0)`.
proof fn lemma_hits_row_roll(g: Seq<bool>, mem: Seq<u8>, base: int, x0: int, y0: int, r: int)
    ensures
        forall|q: int|
            hits_upto(mem, base, x0, y0, r + 1, 0, q) == hits_upto(mem, base, x0, y0, r, 8, q),
        col_upto(g, mem, base, x0, y0, r + 1, 0) == col_upto(g, mem, base, x0, y0, r, 8),
{
    assert forall|q: int|
        hits_upto(mem, base, x0, y0, r + 1, 0, q) == hits_upto(mem, base, x0, y0, r, 8, q) by {
        if hits_upto(mem, base, x0, y0, r + 1, 0, q) {
            let (rr, cc) = choose|rr: int, cc: int|
                hits_pair(mem, base, x0, y0, rr, cc, q) && lex_lt(rr, cc, r + 1, 0);
            assert(lex_lt(rr, cc, r, 8));
            assert(hits_upto(mem, base, x0, y0, r, 8, q));
        }
        if hits_upto(mem, base, x0, y0, r, 8, q) {
            let (rr, cc) = choose|rr: int, cc: int|
                hits_pair(mem, base, x0, y0, rr, cc, q) && lex_lt(rr, cc, r, 8);
            assert(lex_lt(rr, cc, r + 1, 0));
            assert(hits_upto(mem, base, x0, y0, r + 1, 0, q));
        }
    }
    lemma_col_upto_congr(g, mem, base, x0, y0, r + 1, 0, r, 8);
}

/// The cells before `(n, 0)` are exactly the cells of the whole `n`-row
/// sprite.
proof fn lemma_hits_upto_full(g: Seq<bool>, mem: Seq<u8>, base: int, x0: int, y0: int, n: int)
    ensures
        forall|q: int|
            hits_upto(mem, base, x0, y0, n, 0, q) == sprite_hits(mem, base, x0, y0, n, q),
        col_upto(g, mem, base, x0, y0, n, 0) == draw_collides(g, mem, base, x0, y0, n),
{
    assert forall|q: int|
        hits_upto(mem, base, x0, y0, n, 0, q) == sprite_hits(mem, base, x0, y0, n, q) by {
        if hits_upto(mem, base, x0, y0, n, 0, q) {
            let (rr, cc) = choose|rr: int, cc: int|
                hits_pair(mem, base, x0, y0, rr, cc, q) && lex_lt(rr, cc, n, 0);
            assert(rr < n);
            assert(sprite_hits(mem, base, x0, y0, n, q));
        }
        if sprite_hits(mem, base, x0, y0, n, q) {
            let (rr, cc) = choose|rr: int, cc: int|
                hits_pair(mem, base, x0, y0, rr, cc, q) && rr < n;
            assert(lex_lt(rr, cc, n, 0));
            assert(hits_upto(mem, base, x0, y0, n, 0, q));
        }
    }
    if col_upto(g, mem, base, x0, y0, n, 0) {
        let q = choose|q: int| 0 <= q < SIZE_GFX && hits_upto(mem, base, x0, y0, n, 0, q) && g[q];
        assert(sprite_hits(mem, base, x0, y0, n, q));
        assert(draw_collides(g, mem, base, x0, y0, n));
    }
    if draw_collides(g, mem, base, x0, y0, n) {
        let q = choose|q: int| 0 <= q < SIZE_GFX && sprite_hits(mem, base, x0, y0, n, q) && g[q];
        assert(hits_upto(mem, base, x0, y0, n, 0, q));
        assert(col_upto(g, mem, base, x0, y0, n, 0));
    }
}

/// Memory image, display buffer and keypad state of one emulated machine.
pub struct System {
    memory: Vec<u8>,
    gfx: Vec<bool>,
    keys: Vec<bool>,
}

impl View for System {
    type V = SysModel;

    closed spec fn view(&self) -> SysModel {
        SysModel { mem: self.memory@, gfx: self.gfx@, keys: self.keys@ }
    }
}

impl System {
    /// The state arrays have their fixed sizes.
    pub open spec fn wf(&self) -> bool {
        self@.inv()
    }

    /// A fresh system: memory all zero, display clear, no key pressed.
    pub fn new() -> (s: System)
        ensures
            s.wf(),
            forall|i: int| 0 <= i < SIZE_MEM ==> s@.mem[i] == 0u8,
            forall|i: int| 0 <= i < SIZE_GFX ==> !s@.gfx[i],
            forall|i: int| 0 <= i < SIZE_KEYS ==> !s@.keys[i],
    {
        System {
            memory: vec![0u8; SIZE_MEM],
            gfx: vec![false; SIZE_GFX],
            keys: vec![false; SIZE_KEYS],
        }
    }

    /// Reads the byte at address `i`.
    pub fn get_mem(&self, i: usize) -> (b: u8)
        requires
            self.wf(),
            i < SIZE_MEM,
        ensures
            b == self@.mem[i as int],
    {
        self.memory[i]
    }

    /// Writes the byte at address `i`.
    pub fn set_mem(&mut self, i: usize, b: u8)
        requires
            old(self).wf(),
            i < SIZE_MEM,
        ensures
            final(self).wf(),
            final(self)@ == (SysModel { mem: old(self)@.mem.update(i as int, b), ..old(self)@ }),
    {
        self.memory[i] = b;
    }

    /// Reads the pixel at row-major position `p`.
    pub fn get_pixel(&self, p: usize) -> (on: bool)
        requires
            self.wf(),
            p < SIZE_GFX,
        ensures
            on == self@.gfx[p as int],
    {
        self.gfx[p]
    }

    /// Writes the pixel at row-major position `p`.
    pub fn set_pixel(&mut self, p: usize, on: bool)
        requires
            old(self).wf(),
            p < SIZE_GFX,
        ensures
            final(self).wf(),
            final(self)@ == (SysModel { gfx: old(self)@.gfx.update(p as int, on), ..old(self)@ }),
    {
        self.gfx[p] = on;
    }

    /// Turns every display pixel off.
    pub fn clear_gfx(&mut self)
        requires
            old(self).wf(),
        ensures
            final(self).wf(),
            final(self)@.mem == old(self)@.mem,
            final(self)@.keys == old(self)@.keys,
            forall|i: int| 0 <= i < SIZE_GFX ==> !final(self)@.gfx[i],
    {
        let mut p: usize = 0;
        while p < SIZE_GFX
            invariant
                self.wf(),
                p <= SIZE_GFX,
                self@.mem == old(self)@.mem,
                self@.keys == old(self)@.keys,
                forall|i: int| 0 <= i < p ==> !self@.gfx[i],
            decreases SIZE_GFX - p,
        {
            self.gfx[p] = false;
            p += 1;
        }
    }

    /// Whether the key with index `k` is currently pressed.
    pub fn key_pressed(&self, k: u8) -> (on: bool)
        requires
            self.wf(),
            k < SIZE_KEYS,
        ensures
            on == self@.keys[k as int],
    {
        self.keys[k as usize]
    }

    /// Sets the pressed state of the key with index `k`; the keypad
    /// collaborator drives this.
    pub fn set_key(&mut self, k: u8, pressed: bool)
        requires
            old(self).wf(),
            k < SIZE_KEYS,
        ensures
            final(self).wf(),
            final(self)@ == (SysModel { keys: old(self)@.keys.update(k as int, pressed), ..old(self)@ }),
    {
        self.keys[k as usize] = pressed;
    }

    /// XOR-plots an `n`-row sprite read from memory at `base` onto the
    /// display at origin `(x0, y0)`; rows and columns that run off the
    /// screen edge are clipped. Returns whether any previously-set pixel
    /// was turned off (a collision).
    pub(crate) fn draw_sprite(&mut self, base: usize, x0: usize, y0: usize, n: usize) -> (col: bool)
        requires
            old(self).wf(),
            x0 < 64,
            y0 < 32,
            n <= 15,
            base + n <= SIZE_MEM,
        ensures
            final(self).wf(),
            final(self)@.mem == old(self)@.mem,
            final(self)@.keys == old(self)@.keys,
            final(self)@.gfx == Seq::new(
                SIZE_GFX as nat,
                |p: int|
                    old(self)@.gfx[p] != sprite_hits(
                        old(self)@.mem,
                        base as int,
                        x0 as int,
                        y0 as int,
                        n as int,
                        p,
                    ),
            ),
            col == draw_collides(
                old(self)@.gfx,
                old(self)@.mem,
                base as int,
                x0 as int,
                y0 as int,
                n as int,
            ),
    {
        let ghost g0 = self@.gfx;
        let ghost mem0 = self@.mem;
        let ghost bi = base as int;
        let ghost xi = x0 as int;
        let ghost yi = y0 as int;
        let mut col = false;
        let mut r: usize = 0;
        while r < n
            invariant
                self.wf(),
                r <= n,
                x0 < 64,
                y0 < 32,
                n <= 15,
                base + n <= SIZE_MEM,
                bi == base as int,
                xi == x0 as int,
                yi == y0 as int,
                self@.mem == mem0,
                self@.keys == old(self)@.keys,
                g0.len() == SIZE_GFX,
                forall|p: int|
                    0 <= p < SIZE_GFX ==> self@.gfx[p] == (g0[p] != hits_upto(
                        mem0,
                        bi,
                        xi,
                        yi,
                        r as int,
                        0,
                        p,
                    )),
                col == col_upto(g0, mem0, bi, xi, yi, r as int, 0),
            decreases n - r,
        {
            let row = self.get_mem(base + r);
            let mut c: usize = 0;
            while c < 8
                invariant
                    self.wf(),
                    r < n,
                    c <= 8,
                    x0 < 64,
                    y0 < 32,
                    n <= 15,
                    base + n <= SIZE_MEM,
                    bi == base as int,
                    xi == x0 as int,
                    yi == y0 as int,
                    self@.mem == mem0,
                    self@.keys == old(self)@.keys,
                    g0.len() == SIZE_GFX,
                    row == mem0[base + r],
                    forall|p: int|
                        0 <= p < SIZE_GFX ==> self@.gfx[p] == (g0[p] != hits_upto(
                            mem0,
                            bi,
                            xi,
                            yi,
                            r as int,
                            c as int,
                            p,
                        )),
                    col == col_upto(g0, mem0, bi, xi, yi, r as int, c as int),
                decreases 8 - c,
            {
                let bit_set = (row >> ((7 - c) as u8)) & 1 == 1;
                if bit_set && x0 + c < 64 && y0 + r < 32 {
                    let p = (y0 + r) * 64 + (x0 + c);
                    proof {
                        assert(sprite_bit(mem0[bi + r as int], c as int));
                        assert(hits_pair(mem0, bi, xi, yi, r as int, c as int, p as int));
                        lemma_hits_plot_step(g0, mem0, bi, xi, yi, r as int, c as int, p as int);
                    }
                    let old_pix = self.get_pixel(p);
                    self.set_pixel(p, !old_pix);
                    if old_pix {
                        col = true;
                    }
                    proof {
                        assert(old_pix == g0[p as int]);
                        assert forall|q: int| 0 <= q < SIZE_GFX implies self@.gfx[q] == (g0[q]
                            != hits_upto(mem0, bi, xi, yi, r as int, c as int + 1, q)) by {
                            assert(hits_upto(mem0, bi, xi, yi, r as int, c as int + 1, q) == (
                            hits_upto(mem0, bi, xi, yi, r as int, c as int, q) || q == p as int));
                        }
                    }
                } else {
                    proof {
                        lemma_hits_skip_step(g0, mem0, bi, xi, yi, r as int, c as int);
                    }
                }
                c += 1;
            }
            proof {
                lemma_hits_row_roll(g0, mem0, bi, xi, yi, r as int);
            }
            r += 1;
        }
        proof {
            lemma_hits_upto_full(g0, mem0, bi, xi, yi, n as int);
            assert(self@.gfx =~= Seq::new(
                SIZE_GFX as nat,
                |p: int| g0[p] != sprite_hits(mem0, bi, xi, yi, n as int, p),
            ));
        }
        col
    }

    /// The lowest-indexed key that is currently pressed, if any.
    pub fn first_pressed_key(&self) -> (r: Option<u8>)
        requires
            self.wf(),
        ensures
            match r {
                Some(k) => k < SIZE_KEYS && self@.keys[k as int] && forall|j: int|
                    0 <= j < k ==> !self@.keys[j],
                None => forall|j: int| 0 <= j < SIZE_KEYS ==> !self@.keys[j],
            },
    {
        let mut k: usize = 0;
        while k < SIZE_KEYS
            invariant
                self.wf(),
                k <= SIZE_KEYS,
                forall|j: int| 0 <= j < k ==> !self@.keys[j],
            decreases SIZE_KEYS - k,
        {
            if self.keys[k] {
                return Some(k as u8);
            }
            k += 1;
        }
        None
    }
}

} // verus!
