//! The framebuffer geometry and the sprite blit: XOR compositing with
//! wrap-around at the screen edges and collision detection.
use vstd::prelude::*;

verus! {

/// Width of the screen in pixels.
pub const SCREEN_WIDTH: usize = 64;

/// Height of the screen in pixels.
pub const SCREEN_HEIGHT: usize = 32;

/// Number of pixels in the framebuffer, stored row-major (`y * 64 + x`).
pub const SCREEN_PIXELS: usize = 2048;

/// Whether column `col` (0 = leftmost) of a sprite row byte is set.
pub open spec fn row_bit(row: u8, col: u8) -> bool {
    row & (0x80u8 >> col) != 0
}

/// The sprite row that lands on screen line `y` when drawn from `vy`.
pub open spec fn sprite_row(vy: u8, y: int) -> int {
    (y - vy) % 32
}

/// The sprite column that lands on screen column `x` when drawn from `vx`.
pub open spec fn sprite_col(vx: u8, x: int) -> int {
    (x - vx) % 64
}

/// Whether the sprite `rows`, drawn at `(vx, vy)`, has a set bit on pixel `p`.
/// A pixel is reached by at most one sprite bit, as a sprite is at most
/// 15 rows high and 8 columns wide.
pub open spec fn covers(rows: Seq<u8>, vx: u8, vy: u8, p: int) -> bool {
    let r = sprite_row(vy, p / 64);
    let c = sprite_col(vx, p % 64);
    r < rows.len() && c < 8 && row_bit(rows[r], c as u8)
}

/// The framebuffer after XOR-drawing `rows` at `(vx, vy)`.
pub open spec fn drawn(gfx: Seq<u8>, rows: Seq<u8>, vx: u8, vy: u8) -> Seq<u8> {
    Seq::new(gfx.len(), |p: int| if covers(rows, vx, vy, p) { gfx[p] ^ 1 } else { gfx[p] })
}

/// Whether drawing `rows` at `(vx, vy)` turns off some lit pixel.
pub open spec fn collides(gfx: Seq<u8>, rows: Seq<u8>, vx: u8, vy: u8) -> bool {
    exists|p: int| 0 <= p < gfx.len() && covers(rows, vx, vy, p) && gfx[p] == 1
}

/// Every pixel is 0 or 1.
pub open spec fn is_bitmap(gfx: Seq<u8>) -> bool {
    forall|p: int| 0 <= p < gfx.len() ==> #[trigger] gfx[p] <= 1
}

/// Drawing keeps every pixel 0 or 1.
pub proof fn lemma_drawn_bitmap(gfx: Seq<u8>, rows: Seq<u8>, vx: u8, vy: u8)
    requires
        is_bitmap(gfx),
    ensures
        is_bitmap(drawn(gfx, rows, vx, vy)),
{
    assert forall|p: int| 0 <= p < gfx.len() implies #[trigger] drawn(gfx, rows, vx, vy)[p] <= 1 by {
        let g = gfx[p];
        assert(g <= 1 ==> g ^ 1 <= 1) by (bit_vector);
    };
}

/// The framebuffer index that sprite row `r`, column `c` lands on.
pub open spec fn pixel_of(vx: u8, vy: u8, r: int, c: int) -> int {
    ((vy + r) % 32) * 64 + (vx + c) % 64
}

/// Sprite bit `(r, c)` lands on a pixel whose row and column are `r` and `c`.
proof fn lemma_pixel_of(vx: u8, vy: u8, r: int, c: int)
    requires
        0 <= r < 32,
        0 <= c < 64,
    ensures
        0 <= pixel_of(vx, vy, r, c) < 2048,
        sprite_row(vy, pixel_of(vx, vy, r, c) / 64) == r,
        sprite_col(vx, pixel_of(vx, vy, r, c) % 64) == c,
{
    let y = (vy + r) % 32;
    let x = (vx + c) % 64;
    let p = y * 64 + x;
    assert(p / 64 == y && p % 64 == x) by (nonlinear_arith)
        requires
            p == y * 64 + x,
            0 <= x < 64,
            0 <= y < 32,
    ;
}

/// Every pixel is where its own sprite row and column land.
proof fn lemma_pixel_back(vx: u8, vy: u8, p: int)
    requires
        0 <= p < 2048,
    ensures
        p == pixel_of(vx, vy, sprite_row(vy, p / 64), sprite_col(vx, p % 64)),
{
    let y = p / 64;
    let x = p % 64;
    assert(p == y * 64 + x && 0 <= y < 32 && 0 <= x < 64) by (nonlinear_arith)
        requires
            0 <= p < 2048,
            y == p / 64,
            x == p % 64,
    ;
}

/// What the blit has drawn once rows before `row`, and columns before `col`
/// of row `row`, are done.
spec fn covered_before(rows: Seq<u8>, vx: u8, vy: u8, p: int, row: int, col: int) -> bool {
    let r = sprite_row(vy, p / 64);
    covers(rows, vx, vy, p) && (r < row || (r == row && sprite_col(vx, p % 64) < col))
}

/// XOR-draws the `n` sprite rows stored at `memory[start..start + n]` at
/// `(vx, vy)`, wrapping at the screen edges; returns whether a lit pixel was
/// turned off.
pub fn blit(gfx: &mut Vec<u8>, memory: &Vec<u8>, start: usize, n: usize, vx: u8, vy: u8) -> (collision: bool)
    requires
        old(gfx)@.len() == SCREEN_PIXELS,
        is_bitmap(old(gfx)@),
        start + n <= memory@.len(),
        memory@.len() <= 4096,
        n < 16,
    ensures
        final(gfx)@ == drawn(old(gfx)@, memory@.subrange(start as int, start + n), vx, vy),
        collision == collides(old(gfx)@, memory@.subrange(start as int, start + n), vx, vy),
        is_bitmap(final(gfx)@),
{
    let ghost orig = gfx@;
    let ghost rows = memory@.subrange(start as int, start + n);
    let mut collision = false;
    let mut row: usize = 0;
    while row < n
        invariant
            orig == old(gfx)@,
            rows == memory@.subrange(start as int, start + n),
            start + n <= memory@.len(),
            memory@.len() <= 4096,
            n < 16,
            row <= n,
            orig.len() == SCREEN_PIXELS,
            gfx@.len() == SCREEN_PIXELS,
            forall|p: int|
                0 <= p < 2048 ==> #[trigger] gfx@[p] == if covered_before(rows, vx, vy, p, row as int, 0) {
                    orig[p] ^ 1
                } else {
                    orig[p]
                },
            collision <==> exists|p: int|
                0 <= p < 2048 && #[trigger] covered_before(rows, vx, vy, p, row as int, 0) && orig[p] == 1,
        decreases n - row,
    {
        let byte = memory[start + row];
        let ghost before_row = gfx@;
        let mut col: u8 = 0;
        while col < 8
            invariant
                orig == old(gfx)@,
                rows == memory@.subrange(start as int, start + n),
                start + n <= memory@.len(),
                memory@.len() <= 4096,
                n < 16,
                row < n,
                col <= 8,
                byte == rows[row as int],
                orig.len() == SCREEN_PIXELS,
                gfx@.len() == SCREEN_PIXELS,
                forall|p: int|
                    0 <= p < 2048 ==> #[trigger] gfx@[p] == if covered_before(rows, vx, vy, p, row as int, col as int) {
                        orig[p] ^ 1
                    } else {
                        orig[p]
                    },
                collision <==> exists|p: int|
                    0 <= p < 2048 && #[trigger] covered_before(rows, vx, vy, p, row as int, col as int) && orig[p] == 1,
            decreases 8 - col,
        {
            let idx = ((vy as usize + row) % SCREEN_HEIGHT) * SCREEN_WIDTH + (vx as usize + col as usize) % SCREEN_WIDTH;
            proof {
                lemma_pixel_of(vx, vy, row as int, col as int);
                assert(idx == pixel_of(vx, vy, row as int, col as int));
                assert forall|p: int| 0 <= p < 2048 implies
                    #[trigger] covered_before(rows, vx, vy, p, row as int, col + 1)
                    == (covered_before(rows, vx, vy, p, row as int, col as int)
                        || (p == idx && row_bit(byte, col))) by {
                    lemma_pixel_back(vx, vy, p);
                };
            }
            let ghost had_collision = collision;
            proof {
                assert(!covered_before(rows, vx, vy, idx as int, row as int, col as int));
                assert(gfx@[idx as int] == orig[idx as int]);
            }
            if byte & (0x80u8 >> col) != 0 {
                let old_pixel = gfx[idx];
                if old_pixel == 1 {
                    collision = true;
                }
                gfx.set(idx, old_pixel ^ 1);
            }
            proof {
                if had_collision {
                    let q = choose|q: int|
                        0 <= q < 2048 && #[trigger] covered_before(rows, vx, vy, q, row as int, col as int)
                            && orig[q] == 1;
                    assert(covered_before(rows, vx, vy, q, row as int, col + 1));
                } else if collision {
                    assert(covered_before(rows, vx, vy, idx as int, row as int, col + 1));
                } else {
                    assert forall|q: int| 0 <= q < 2048 && orig[q] == 1 implies
                        !#[trigger] covered_before(rows, vx, vy, q, row as int, col + 1) by {
                        assert(!covered_before(rows, vx, vy, q, row as int, col as int));
                    };
                }
            }
            col = col + 1;
        }
        proof {
            assert forall|q: int| 0 <= q < 2048 implies
                #[trigger] covered_before(rows, vx, vy, q, row + 1, 0)
                == covered_before(rows, vx, vy, q, row as int, 8) by {};
            if collision {
                let q = choose|q: int|
                    0 <= q < 2048 && #[trigger] covered_before(rows, vx, vy, q, row as int, 8)
                        && orig[q] == 1;
                assert(covered_before(rows, vx, vy, q, row + 1, 0));
            }
        }
        row = row + 1;
    }
    proof {
        assert forall|p: int| 0 <= p < 2048 implies
            #[trigger] covered_before(rows, vx, vy, p, n as int, 0) == covers(rows, vx, vy, p) by {
        };
        assert(gfx@ =~= drawn(orig, rows, vx, vy));
        if collision {
            let q = choose|q: int|
                0 <= q < 2048 && #[trigger] covered_before(rows, vx, vy, q, n as int, 0) && orig[q] == 1;
            assert(covers(rows, vx, vy, q));
        } else {
            assert forall|q: int| 0 <= q < 2048 && orig[q] == 1 implies !covers(rows, vx, vy, q) by {
                assert(!covered_before(rows, vx, vy, q, n as int, 0));
            };
        }
        lemma_drawn_bitmap(orig, rows, vx, vy);
    }
    collision
}

} // verus!
