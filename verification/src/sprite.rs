//! Drawing sprites: the loop over rows and pixels, and the proof that it
//! computes the XOR of the display with the wrapped sprite.

use vstd::prelude::*;
use crate::machine::Chip8;
use crate::state::{
    draw_collides, drawn_display, sprite_bit, sprite_covers, MachineState, RAM_SIZE, SCREEN_HEIGHT,
    SCREEN_WIDTH,
};

verus! {

/// A sprite being drawn: the state before the draw, which holds the sprite's
/// bytes, its origin and its height.
pub(crate) struct Draft {
    pub before: MachineState,
    pub vx: u8,
    pub vy: u8,
    pub n: u8,
}

impl Draft {
    /// Cell (`r`, `c`) is under a set pixel of the sprite.
    pub(crate) open spec fn covers(self, r: int, c: int) -> bool {
        sprite_covers(self.before.memory, self.before.index, self.vx, self.vy, self.n, r, c)
    }

    /// Cell (`r`, `c`) is under a set pixel that is drawn before pixel `k` of
    /// row `j`: one in a row above `j`, or in row `j` left of `k`.
    #[verifier::opaque]
    pub(crate) open spec fn covers_before(self, r: int, c: int, j: int, k: int) -> bool {
        let rj = (r - self.vy) % (SCREEN_HEIGHT as int);
        let ck = (c - self.vx) % (SCREEN_WIDTH as int);
        self.covers(r, c) && (rj < j || (rj == j && ck < k))
    }

    /// `display` is the display before the draw with the pixels drawn before
    /// pixel `k` of row `j` XORed in.
    pub(crate) open spec fn shows(self, display: Seq<Seq<bool>>, j: int, k: int) -> bool {
        forall|r: int, c: int|
            0 <= r < SCREEN_HEIGHT && 0 <= c < SCREEN_WIDTH ==> display[r][c] == (
            #[trigger] self.before.display[r][c] != self.covers_before(r, c, j, k))
    }

    /// A pixel drawn before pixel `k` of row `j` landed on a lit cell.
    pub(crate) open spec fn collided(self, j: int, k: int) -> bool {
        exists|r: int, c: int|
            0 <= r < SCREEN_HEIGHT && 0 <= c < SCREEN_WIDTH && self.before.display[r][c]
                && #[trigger] self.covers_before(r, c, j, k)
    }

    /// Row `r` lies `j` rows below the origin, wrapping, exactly when it is
    /// row `(vy + j) % 32`; likewise for columns, modulo 64.
    proof fn lemma_wrapped(vx: int, vy: int, r: int, c: int, j: int, k: int)
        requires
            0 <= vx < 256,
            0 <= vy < 256,
            0 <= r < 32,
            0 <= c < 64,
            0 <= j < 32,
            0 <= k < 64,
        ensures
            ((r - vy) % 32 == j) == (r == (vy + j) % 32),
            ((c - vx) % 64 == k) == (c == (vx + k) % 64),
    {
    }

    /// Drawing pixel `k` of row `j` adds at most the one cell that it lands
    /// on, and that cell was not drawn on before.
    proof fn lemma_next_pixel(self, r: int, c: int, j: int, k: int)
        requires
            0 <= r < SCREEN_HEIGHT,
            0 <= c < SCREEN_WIDTH,
            0 <= j < self.n < 16,
            0 <= k < 8,
        ensures
            self.covers_before(r, c, j, k + 1) == (self.covers_before(r, c, j, k) || (r == (self.vy
                + j) % (SCREEN_HEIGHT as int) && c == (self.vx + k) % (SCREEN_WIDTH as int)
                && sprite_bit(self.before.memory[self.before.index + j], k as u8))),
            r == (self.vy + j) % (SCREEN_HEIGHT as int) && c == (self.vx + k) % (
            SCREEN_WIDTH as int) ==> !self.covers_before(r, c, j, k),
    {
        reveal(Draft::covers_before);
        Self::lemma_wrapped(self.vx as int, self.vy as int, r, c, j, k);
    }

    /// A finished row hands over to the start of the next; nothing is drawn
    /// before the first pixel, and after the last row the whole sprite is.
    proof fn lemma_rows(self, r: int, c: int, j: int)
        ensures
            self.covers_before(r, c, j, 8) == self.covers_before(r, c, j + 1, 0),
            !self.covers_before(r, c, 0, 0),
            self.covers_before(r, c, self.n as int, 0) == self.covers(r, c),
    {
        reveal(Draft::covers_before);
    }

    /// Drawing pixel `k` of row `j`, lit or not, keeps the display and the
    /// collision flag in step with the sprite.
    proof fn lemma_pixel_drawn(
        self,
        mid: Seq<Seq<bool>>,
        now: Seq<Seq<bool>>,
        j: int,
        k: int,
        was: bool,
    )
        requires
            0 <= j < self.n < 16,
            0 <= k < 8,
            self.before.shaped(),
            mid.len() == SCREEN_HEIGHT,
            forall|r: int| 0 <= r < SCREEN_HEIGHT ==> (#[trigger] mid[r]).len() == SCREEN_WIDTH,
            self.shows(mid, j, k),
            was == self.collided(j, k),
            now == if sprite_bit(self.before.memory[self.before.index + j], k as u8) {
                mid.update(
                    (self.vy + j) % 32,
                    mid[(self.vy + j) % 32].update(
                        (self.vx + k) % 64,
                        !mid[(self.vy + j) % 32][(self.vx + k) % 64],
                    ),
                )
            } else {
                mid
            },
        ensures
            self.shows(now, j, k + 1),
            self.collided(j, k + 1) == (was || (sprite_bit(
                self.before.memory[self.before.index + j],
                k as u8,
            ) && mid[(self.vy + j) % 32][(self.vx + k) % 64])),
    {
        let row = (self.vy + j) % 32;
        let col = (self.vx + k) % 64;
        let set = sprite_bit(self.before.memory[self.before.index + j], k as u8);
        assert forall|r: int, c: int| 0 <= r < SCREEN_HEIGHT && 0 <= c < SCREEN_WIDTH implies now[r][c]
            == (#[trigger] self.before.display[r][c] != self.covers_before(r, c, j, k + 1)) by {
            self.lemma_next_pixel(r, c, j, k);
            assert(mid[r][c] == (self.before.display[r][c] != self.covers_before(r, c, j, k)));
        }
        self.lemma_next_pixel(row, col, j, k);
        assert(mid[row][col] == (self.before.display[row][col] != self.covers_before(row, col, j, k)));
        if was {
            let (r, c) = choose|r: int, c: int|
                0 <= r < SCREEN_HEIGHT && 0 <= c < SCREEN_WIDTH && self.before.display[r][c]
                    && #[trigger] self.covers_before(r, c, j, k);
            self.lemma_next_pixel(r, c, j, k);
            assert(self.covers_before(r, c, j, k + 1));
        } else if set && mid[row][col] {
            assert(self.covers_before(row, col, j, k + 1));
        } else {
            assert forall|r: int, c: int|
                0 <= r < SCREEN_HEIGHT && 0 <= c < SCREEN_WIDTH
                    && self.before.display[r][c] implies !#[trigger] self.covers_before(
                r,
                c,
                j,
                k + 1,
            ) by {
                self.lemma_next_pixel(r, c, j, k);
                assert(!self.covers_before(r, c, j, k));
            }
        }
    }

    /// Moving from the end of row `j` to the start of row `j + 1` changes
    /// neither what is shown nor what has collided.
    proof fn lemma_row_drawn(self, display: Seq<Seq<bool>>, j: int)
        requires
            self.shows(display, j, 8),
        ensures
            self.shows(display, j + 1, 0),
            self.collided(j + 1, 0) == self.collided(j, 8),
    {
        assert forall|r: int, c: int|
            self.covers_before(r, c, j, 8) == #[trigger] self.covers_before(r, c, j + 1, 0) by {
            self.lemma_rows(r, c, j);
        }
        if self.collided(j, 8) {
            let (r, c) = choose|r: int, c: int|
                0 <= r < SCREEN_HEIGHT && 0 <= c < SCREEN_WIDTH && self.before.display[r][c]
                    && #[trigger] self.covers_before(r, c, j, 8);
            assert(self.covers_before(r, c, j + 1, 0));
        }
    }

    /// Before the first pixel the display is untouched; after the last row
    /// it is the drawn display, and the collisions are those of the whole sprite.
    proof fn lemma_whole_sprite(self, display: Seq<Seq<bool>>)
        requires
            self.before.shaped(),
            display.len() == SCREEN_HEIGHT,
            forall|r: int| 0 <= r < SCREEN_HEIGHT ==> (#[trigger] display[r]).len() == SCREEN_WIDTH,
        ensures
            self.shows(self.before.display, 0, 0),
            !self.collided(0, 0),
            self.shows(display, self.n as int, 0) ==> display == drawn_display(
                self.before,
                self.vx,
                self.vy,
                self.n,
            ),
            self.collided(self.n as int, 0) == draw_collides(self.before, self.vx, self.vy, self.n),
    {
        assert forall|r: int, c: int| !#[trigger] self.covers_before(r, c, 0, 0) by {
            self.lemma_rows(r, c, 0);
        }
        assert forall|r: int, c: int| #[trigger]
            self.covers_before(r, c, self.n as int, 0) == self.covers(r, c) by {
            self.lemma_rows(r, c, 0);
        }
        if self.shows(display, self.n as int, 0) {
            assert(display =~~= drawn_display(self.before, self.vx, self.vy, self.n));
        }
        if self.collided(self.n as int, 0) {
            let (r, c) = choose|r: int, c: int|
                0 <= r < SCREEN_HEIGHT && 0 <= c < SCREEN_WIDTH && self.before.display[r][c]
                    && #[trigger] self.covers_before(r, c, self.n as int, 0);
            assert(self.covers(r, c));
        }
        if draw_collides(self.before, self.vx, self.vy, self.n) {
            let (r, c) = choose|r: int, c: int|
                0 <= r < SCREEN_HEIGHT && 0 <= c < SCREEN_WIDTH && self.before.display[r][c]
                    && #[trigger] sprite_covers(
                    self.before.memory,
                    self.before.index,
                    self.vx,
                    self.vy,
                    self.n,
                    r,
                    c,
                );
            assert(self.covers_before(r, c, self.n as int, 0));
        }
    }
}

impl Chip8 {
    /// XORs row `j` of a sprite onto the display: pixel `k` of `pixels`
    /// lands on column `(vx + k) % 64` of row `(vy + j) % 32`.
    fn draw_row(&mut self, pixels: u8, vx: u8, vy: u8, j: u8, flipped_before: bool, Ghost(draft): Ghost<Draft>) -> (flipped: bool)
        requires
            j < draft.n < 16,
            draft.vx == vx,
            draft.vy == vy,
            draft.before.shaped(),
            pixels == draft.before.memory[draft.before.index + j],
            old(self)@ == (MachineState { display: old(self)@.display, ..draft.before }),
            old(self)@.shaped(),
            draft.shows(old(self)@.display, j as int, 0),
            flipped_before == draft.collided(j as int, 0),
        ensures
            final(self)@ == (MachineState { display: final(self)@.display, ..draft.before }),
            final(self)@.shaped(),
            draft.shows(final(self)@.display, j + 1, 0),
            flipped == draft.collided(j + 1, 0),
    {
        let row: usize = (vy as usize + j as usize) % SCREEN_HEIGHT;
        let mut flipped = flipped_before;
        let mut k: u8 = 0;
        while k < 8
            invariant
                k <= 8,
                j < draft.n < 16,
                draft.vx == vx,
                draft.vy == vy,
                draft.before.shaped(),
                pixels == draft.before.memory[draft.before.index + j],
                row == (vy + j) % 32,
                self@ == (MachineState { display: self@.display, ..draft.before }),
                self@.shaped(),
                draft.shows(self@.display, j as int, k as int),
                flipped == draft.collided(j as int, k as int),
            decreases 8 - k,
        {
            let col: usize = (vx as usize + k as usize) % SCREEN_WIDTH;
            let ghost was = flipped;
            let ghost mid = self@.display;
            if (pixels & (0x80u8 >> k)) != 0 {
                let lit = self.flip_pixel(row, col);
                flipped = flipped || lit;
            }
            proof {
                draft.lemma_pixel_drawn(mid, self@.display, j as int, k as int, was);
            }
            k += 1;
        }
        proof {
            draft.lemma_row_drawn(self@.display, j as int);
        }
        flipped
    }

    /// XORs the `n`-row sprite at the index register onto the display with
    /// its origin at column `vx`, row `vy`, and tells whether a lit pixel
    /// went out.
    pub(crate) fn draw_sprite(&mut self, vx: u8, vy: u8, n: u8) -> (flipped: bool)
        requires
            n < 16,
            old(self)@.shaped(),
            n > 0 ==> old(self)@.index + n <= RAM_SIZE,
        ensures
            final(self)@ == (MachineState {
                display: drawn_display(old(self)@, vx, vy, n),
                ..old(self)@
            }),
            flipped == draw_collides(old(self)@, vx, vy, n),
    {
        let ghost draft = Draft { before: self@, vx, vy, n };
        let base: usize = self.index_register() as usize;
        let mut flipped = false;
        let mut j: u8 = 0;
        proof {
            draft.lemma_whole_sprite(self@.display);
            assert(self@ =~~= MachineState { display: self@.display, ..draft.before });
        }
        while j < n
            invariant
                j <= n < 16,
                n > 0 ==> base + n <= RAM_SIZE,
                draft == (Draft { before: old(self)@, vx, vy, n }),
                draft.before.shaped(),
                base == draft.before.index,
                self@ == (MachineState { display: self@.display, ..draft.before }),
                self@.shaped(),
                draft.shows(self@.display, j as int, 0),
                flipped == draft.collided(j as int, 0),
            decreases n - j,
        {
            let pixels: u8 = self.byte_at(base + j as usize);
            flipped = self.draw_row(pixels, vx, vy, j, flipped, Ghost(draft));
            j += 1;
        }
        proof {
            draft.lemma_whole_sprite(self@.display);
        }
        flipped
    }
}

} // verus!
