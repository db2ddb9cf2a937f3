//! The 64x32 monochrome framebuffer and its XOR sprite-draw rule.
use vstd::prelude::*;

verus! {

pub const FB_WIDTH: usize = 64;

pub const FB_HEIGHT: usize = 32;

pub const FB_CELLS: usize = 2048;

/// The cell a sprite row/column lands on: coordinates wrap toroidally.
pub open spec fn fb_index(sx: int, sy: int, row: int, col: int) -> int {
    (col + sx) % 64 + ((row + sy) % 32) * 64
}

/// The sprite bytes a draw reads: `memory[i..i+n]`, and nothing at all for
/// a zero-height sprite.
pub open spec fn sprite_of(mem: Seq<u8>, i: int, n: int) -> Seq<u8> {
    if n <= 0 {
        Seq::empty()
    } else {
        mem.subrange(i, i + n)
    }
}

/// Whether the sprite byte for `row` has the bit for `col` set
/// (most-significant bit first).
pub open spec fn sprite_bit(sprite: Seq<u8>, row: int, col: int) -> bool {
    sprite[row] & (0x80u8 >> col) > 0
}

/// The cells a sprite draw touches, restricted to rows before `row_done`,
/// plus the columns before `col_done` on row `row_done` itself.
pub open spec fn touched_before(
    sprite: Seq<u8>,
    sx: int,
    sy: int,
    row_done: int,
    col_done: int,
    c: int,
) -> bool {
    exists|r: int, j: int|
        {
            &&& 0 <= r
            &&& 0 <= j < 8
            &&& (r < row_done || (r == row_done && j < col_done))
            &&& #[trigger] sprite_bit(sprite, r, j)
            &&& c == fb_index(sx, sy, r, j)
        }
}

/// The cells the complete sprite draw touches.
pub open spec fn cell_touched(sprite: Seq<u8>, sx: int, sy: int, c: int) -> bool {
    touched_before(sprite, sx, sy, sprite.len() as int, 0, c)
}

/// Collision over the same prefix of the sprite: some touched cell was
/// already set before the draw.
pub open spec fn collision_before(
    fb: Seq<u8>,
    sprite: Seq<u8>,
    sx: int,
    sy: int,
    row_done: int,
    col_done: int,
) -> bool {
    exists|r: int, j: int|
        {
            &&& 0 <= r
            &&& 0 <= j < 8
            &&& (r < row_done || (r == row_done && j < col_done))
            &&& #[trigger] sprite_bit(sprite, r, j)
            &&& fb[fb_index(sx, sy, r, j)] != 0
        }
}

/// Whether the complete draw collides with a previously set cell.
pub open spec fn draw_collision(fb: Seq<u8>, sprite: Seq<u8>, sx: int, sy: int) -> bool {
    collision_before(fb, sprite, sx, sy, sprite.len() as int, 0)
}

/// The framebuffer after the draw: every touched cell is XORed with 1, every
/// other cell keeps its value.
pub open spec fn draw_fb_spec(fb: Seq<u8>, sprite: Seq<u8>, sx: int, sy: int) -> Seq<u8> {
    Seq::new(
        2048,
        |c: int|
            if cell_touched(sprite, sx, sy, c) {
                fb[c] ^ 1
            } else {
                fb[c]
            },
    )
}

/// XOR with 1 flips a binary cell.
pub proof fn lemma_xor_bit()
    ensures
        0u8 ^ 1 == 1u8,
        1u8 ^ 1 == 0u8,
{
    assert(0u8 ^ 1 == 1u8 && 1u8 ^ 1 == 0u8) by (bit_vector);
}

/// A touched cell always lies inside the grid.
pub proof fn lemma_fb_index_bounds(sx: int, sy: int, row: int, col: int)
    requires
        0 <= sx,
        0 <= sy,
        0 <= row,
        0 <= col,
    ensures
        0 <= fb_index(sx, sy, row, col) < 2048,
{
}

/// Two distinct sprite positions land on distinct cells, as long as the
/// sprite spans fewer rows than the grid is high.
proof fn lemma_fb_index_injective(sx: int, sy: int, a: int, b: int, r: int, j: int)
    requires
        0 <= sx,
        0 <= sy,
        0 <= a < 32,
        0 <= r < 32,
        0 <= b < 8,
        0 <= j < 8,
        fb_index(sx, sy, a, b) == fb_index(sx, sy, r, j),
    ensures
        a == r,
        b == j,
{
    let ca = (b + sx) % 64;
    let ra = (a + sy) % 32;
    let cb = (j + sx) % 64;
    let rb = (r + sy) % 32;
    assert(0 <= ca < 64 && 0 <= cb < 64 && 0 <= ra < 32 && 0 <= rb < 32);
    assert(ca == cb && ra == rb);
    assert((b + sx) - ca == 64 * ((b + sx) / 64) && (j + sx) - cb == 64 * ((j + sx) / 64));
    assert(b == j);
    assert((a + sy) - ra == 32 * ((a + sy) / 32) && (r + sy) - rb == 32 * ((r + sy) / 32));
    assert(a == r);
}

/// Drawing a non-empty sprite twice at the same coordinates, onto a grid
/// whose touched cells start clear, reports no collision the first time and a
/// collision the second time, and leaves every cell as it began: the XOR
/// draw is its own inverse.
pub proof fn lemma_draw_twice_clears(fb: Seq<u8>, sprite: Seq<u8>, sx: int, sy: int)
    requires
        fb.len() == 2048,
        forall|c: int| 0 <= c < 2048 ==> fb[c] <= 1,
        0 <= sx,
        0 <= sy,
        forall|c: int| 0 <= c < 2048 && cell_touched(sprite, sx, sy, c) ==> fb[c] == 0,
        exists|r: int, j: int|
            0 <= r < sprite.len() && 0 <= j < 8 && #[trigger] sprite_bit(sprite, r, j),
    ensures
        !draw_collision(fb, sprite, sx, sy),
        draw_collision(draw_fb_spec(fb, sprite, sx, sy), sprite, sx, sy),
        draw_fb_spec(draw_fb_spec(fb, sprite, sx, sy), sprite, sx, sy) == fb,
{
    let fb1 = draw_fb_spec(fb, sprite, sx, sy);
    lemma_xor_bit();
    // No cell the draw touches is set beforehand, so no collision.
    if draw_collision(fb, sprite, sx, sy) {
        let (r, j) = choose|r: int, j: int|
            {
                &&& 0 <= r
                &&& 0 <= j < 8
                &&& (r < sprite.len() as int || (r == sprite.len() as int && j < 0))
                &&& #[trigger] sprite_bit(sprite, r, j)
                &&& fb[fb_index(sx, sy, r, j)] != 0
            };
        lemma_fb_index_bounds(sx, sy, r, j);
        assert(cell_touched(sprite, sx, sy, fb_index(sx, sy, r, j)));
        assert(false);
    }
    // The first draw sets some touched cell, so the second draw collides.
    let (r0, j0) = choose|r: int, j: int|
        0 <= r < sprite.len() && 0 <= j < 8 && #[trigger] sprite_bit(sprite, r, j);
    let c0 = fb_index(sx, sy, r0, j0);
    lemma_fb_index_bounds(sx, sy, r0, j0);
    assert(cell_touched(sprite, sx, sy, c0));
    assert(fb1[c0] == 1);
    assert(collision_before(fb1, sprite, sx, sy, sprite.len() as int, 0));
    // Each touched cell flips twice, every other cell never changes.
    assert(draw_fb_spec(fb1, sprite, sx, sy) =~= fb);
}

/// The 2048-cell binary pixel grid a renderer blits.
#[derive(Debug)]
pub struct Framebuffer {
    pub cells: [u8; 2048],
}

impl View for Framebuffer {
    type V = Seq<u8>;

    open spec fn view(&self) -> Seq<u8> {
        self.cells@
    }
}

impl Framebuffer {
    /// Every cell holds 0 or 1.
    pub open spec fn wf(&self) -> bool {
        forall|c: int| 0 <= c < 2048 ==> self@[c] <= 1
    }

    pub fn new() -> (r: Self)
        ensures
            r@ == Seq::new(2048, |c: int| 0u8),
            r.wf(),
    {
        let r = Framebuffer { cells: [0; 2048] };
        proof {
            assert(r@ =~= Seq::new(2048, |c: int| 0u8));
        }
        r
    }

    /// The clear-screen instruction: every cell back to 0.
    pub fn clear(&mut self)
        ensures
            final(self)@ == Seq::new(2048, |c: int| 0u8),
            final(self).wf(),
    {
        self.cells = [0; 2048];
        proof {
            assert(self@ =~= Seq::new(2048, |c: int| 0u8));
        }
    }

    /// Draws the `n`-byte sprite at `memory[i..i+n]` with its top-left corner
    /// at `(sx, sy)`, XORing each set bit into the grid, and reports whether
    /// any touched cell was already set (the collision flag).
    pub fn draw(&mut self, mem: &[u8; 4096], i: usize, n: usize, sx: u8, sy: u8) -> (vf: u8)
        requires
            old(self).wf(),
            n == 0 || i + n <= 4096,
            n <= 15,
        ensures
            final(self)@ == draw_fb_spec(
                old(self)@,
                sprite_of(mem@, i as int, n as int),
                sx as int,
                sy as int,
            ),
            vf == if draw_collision(
                old(self)@,
                sprite_of(mem@, i as int, n as int),
                sx as int,
                sy as int,
            ) {
                1u8
            } else {
                0u8
            },
            final(self).wf(),
    {
        let ghost fb0 = self@;
        let ghost sprite = sprite_of(mem@, i as int, n as int);
        let ghost sxi = sx as int;
        let ghost syi = sy as int;
        let mut vf: u8 = 0;
        let mut r: usize = 0;
        while r < n
            invariant
                old(self).wf(),
                n == 0 || i + n <= 4096,
                n <= 15,
                r <= n,
                fb0 == old(self)@,
                sprite == sprite_of(mem@, i as int, n as int),
                sxi == sx as int,
                syi == sy as int,
                self@.len() == 2048,
                forall|c: int|
                    0 <= c < 2048 ==> self@[c] == (if touched_before(
                        sprite,
                        sxi,
                        syi,
                        r as int,
                        0,
                        c,
                    ) {
                        fb0[c] ^ 1
                    } else {
                        fb0[c]
                    }),
                vf == if collision_before(fb0, sprite, sxi, syi, r as int, 0) {
                    1u8
                } else {
                    0u8
                },
            decreases n - r,
        {
            let byte = mem[i + r];
            proof {
                assert(byte == sprite[r as int]);
            }
            let mut j: usize = 0;
            while j < 8
                invariant
                    old(self).wf(),
                    i + n <= 4096,
                    n <= 15,
                    r < n,
                    j <= 8,
                    fb0 == old(self)@,
                    sprite == sprite_of(mem@, i as int, n as int),
                    sxi == sx as int,
                    syi == sy as int,
                    byte == sprite[r as int],
                    self@.len() == 2048,
                    forall|c: int|
                        0 <= c < 2048 ==> self@[c] == (if touched_before(
                            sprite,
                            sxi,
                            syi,
                            r as int,
                            j as int,
                            c,
                        ) {
                            fb0[c] ^ 1
                        } else {
                            fb0[c]
                        }),
                    vf == if collision_before(fb0, sprite, sxi, syi, r as int, j as int) {
                        1u8
                    } else {
                        0u8
                    },
                decreases 8 - j,
            {
                if byte & (0x80u8 >> j) > 0 {
                    proof {
                        assert(sprite_bit(sprite, r as int, j as int));
                    }
                    let idx = (j + sx as usize) % 64 + ((r + sy as usize) % 32) * 64;
                    let ghost c0 = fb_index(sxi, syi, r as int, j as int);
                    proof {
                        assert(idx == c0);
                        lemma_fb_index_bounds(sxi, syi, r as int, j as int);
                        // The cell has not been touched earlier in this draw.
                        if touched_before(sprite, sxi, syi, r as int, j as int, c0) {
                            let (a, b) = choose|a: int, b: int|
                                {
                                    &&& 0 <= a
                                    &&& 0 <= b < 8
                                    &&& (a < r as int || (a == r as int && b < j as int))
                                    &&& #[trigger] sprite_bit(sprite, a, b)
                                    &&& c0 == fb_index(sxi, syi, a, b)
                                };
                            lemma_fb_index_injective(sxi, syi, a, b, r as int, j as int);
                            assert(false);
                        }
                        assert(self@[c0] == fb0[c0]);
                    }
                    if self.cells[idx] > 0 {
                        vf = 1;
                    }
                    self.cells[idx] = self.cells[idx] ^ 1;
                    proof {
                        assert forall|c: int| 0 <= c < 2048 implies self@[c] == (if touched_before(
                            sprite,
                            sxi,
                            syi,
                            r as int,
                            j as int + 1,
                            c,
                        ) {
                            fb0[c] ^ 1
                        } else {
                            fb0[c]
                        }) by {
                            if c == c0 {
                                assert(sprite_bit(sprite, r as int, j as int));
                                assert(touched_before(sprite, sxi, syi, r as int, j as int + 1, c));
                            } else {
                                if touched_before(sprite, sxi, syi, r as int, j as int + 1, c) {
                                    let (a, b) = choose|a: int, b: int|
                                        {
                                            &&& 0 <= a
                                            &&& 0 <= b < 8
                                            &&& (a < r as int || (a == r as int && b < j as int
                                                + 1))
                                            &&& #[trigger] sprite_bit(sprite, a, b)
                                            &&& c == fb_index(sxi, syi, a, b)
                                        };
                                    assert(!(a == r as int && b == j as int));
                                    assert(touched_before(sprite, sxi, syi, r as int, j as int, c));
                                }
                            }
                        }
                        assert(collision_before(fb0, sprite, sxi, syi, r as int, j as int + 1)
                            == (collision_before(fb0, sprite, sxi, syi, r as int, j as int) || fb0[c0]
                            != 0)) by {
                            if collision_before(fb0, sprite, sxi, syi, r as int, j as int + 1) {
                                let (a, b) = choose|a: int, b: int|
                                    {
                                        &&& 0 <= a
                                        &&& 0 <= b < 8
                                        &&& (a < r as int || (a == r as int && b < j as int + 1))
                                        &&& #[trigger] sprite_bit(sprite, a, b)
                                        &&& fb0[fb_index(sxi, syi, a, b)] != 0
                                    };
                                if a == r as int && b == j as int {
                                    assert(fb0[c0] != 0);
                                } else {
                                    assert(collision_before(
                                        fb0,
                                        sprite,
                                        sxi,
                                        syi,
                                        r as int,
                                        j as int,
                                    ));
                                }
                            }
                            if fb0[c0] != 0 {
                                assert(sprite_bit(sprite, r as int, j as int));
                                assert(collision_before(
                                    fb0,
                                    sprite,
                                    sxi,
                                    syi,
                                    r as int,
                                    j as int + 1,
                                ));
                            }
                        }
                    }
                } else {
                    proof {
                        assert forall|c: int| 0 <= c < 2048 implies (touched_before(
                            sprite,
                            sxi,
                            syi,
                            r as int,
                            j as int + 1,
                            c,
                        ) == touched_before(sprite, sxi, syi, r as int, j as int, c)) by {
                            if touched_before(sprite, sxi, syi, r as int, j as int + 1, c) {
                                let (a, b) = choose|a: int, b: int|
                                    {
                                        &&& 0 <= a
                                        &&& 0 <= b < 8
                                        &&& (a < r as int || (a == r as int && b < j as int + 1))
                                        &&& #[trigger] sprite_bit(sprite, a, b)
                                        &&& c == fb_index(sxi, syi, a, b)
                                    };
                                assert(!(a == r as int && b == j as int));
                                assert(touched_before(sprite, sxi, syi, r as int, j as int, c));
                            }
                        }
                        assert(collision_before(fb0, sprite, sxi, syi, r as int, j as int + 1)
                            == collision_before(fb0, sprite, sxi, syi, r as int, j as int)) by {
                            if collision_before(fb0, sprite, sxi, syi, r as int, j as int + 1) {
                                let (a, b) = choose|a: int, b: int|
                                    {
                                        &&& 0 <= a
                                        &&& 0 <= b < 8
                                        &&& (a < r as int || (a == r as int && b < j as int + 1))
                                        &&& #[trigger] sprite_bit(sprite, a, b)
                                        &&& fb0[fb_index(sxi, syi, a, b)] != 0
                                    };
                                assert(!(a == r as int && b == j as int));
                                assert(collision_before(fb0, sprite, sxi, syi, r as int, j as int));
                            }
                        }
                    }
                }
                j = j + 1;
            }
            proof {
                assert forall|c: int| 0 <= c < 2048 implies (touched_before(
                    sprite,
                    sxi,
                    syi,
                    r as int + 1,
                    0,
                    c,
                ) == touched_before(sprite, sxi, syi, r as int, 8, c)) by {
                    if touched_before(sprite, sxi, syi, r as int + 1, 0, c) {
                        let (a, b) = choose|a: int, b: int|
                            {
                                &&& 0 <= a
                                &&& 0 <= b < 8
                                &&& (a < r as int + 1 || (a == r as int + 1 && b < 0))
                                &&& #[trigger] sprite_bit(sprite, a, b)
                                &&& c == fb_index(sxi, syi, a, b)
                            };
                        assert(touched_before(sprite, sxi, syi, r as int, 8, c));
                    }
                    if touched_before(sprite, sxi, syi, r as int, 8, c) {
                        let (a, b) = choose|a: int, b: int|
                            {
                                &&& 0 <= a
                                &&& 0 <= b < 8
                                &&& (a < r as int || (a == r as int && b < 8))
                                &&& #[trigger] sprite_bit(sprite, a, b)
                                &&& c == fb_index(sxi, syi, a, b)
                            };
                        assert(touched_before(sprite, sxi, syi, r as int + 1, 0, c));
                    }
                }
                assert(collision_before(fb0, sprite, sxi, syi, r as int + 1, 0) == collision_before(
                    fb0,
                    sprite,
                    sxi,
                    syi,
                    r as int,
                    8,
                )) by {
                    if collision_before(fb0, sprite, sxi, syi, r as int + 1, 0) {
                        let (a, b) = choose|a: int, b: int|
                            {
                                &&& 0 <= a
                                &&& 0 <= b < 8
                                &&& (a < r as int + 1 || (a == r as int + 1 && b < 0))
                                &&& #[trigger] sprite_bit(sprite, a, b)
                                &&& fb0[fb_index(sxi, syi, a, b)] != 0
                            };
                        assert(collision_before(fb0, sprite, sxi, syi, r as int, 8));
                    }
                    if collision_before(fb0, sprite, sxi, syi, r as int, 8) {
                        let (a, b) = choose|a: int, b: int|
                            {
                                &&& 0 <= a
                                &&& 0 <= b < 8
                                &&& (a < r as int || (a == r as int && b < 8))
                                &&& #[trigger] sprite_bit(sprite, a, b)
                                &&& fb0[fb_index(sxi, syi, a, b)] != 0
                            };
                        assert(collision_before(fb0, sprite, sxi, syi, r as int + 1, 0));
                    }
                }
            }
            r = r + 1;
        }
        proof {
            assert(self@ =~= draw_fb_spec(fb0, sprite, sxi, syi)) by {
                assert forall|c: int| 0 <= c < 2048 implies (cell_touched(sprite, sxi, syi, c)
                    == touched_before(sprite, sxi, syi, n as int, 0, c)) by {}
            }
            assert(draw_collision(fb0, sprite, sxi, syi) == collision_before(
                fb0,
                sprite,
                sxi,
                syi,
                n as int,
                0,
            ));
            assert forall|c: int| 0 <= c < 2048 implies self@[c] <= 1 by {
                lemma_xor_bit();
                assert(fb0[c] <= 1);
            }
        }
        vf
    }
}

} // verus!
