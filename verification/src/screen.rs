//! Sprite drawing on the monochrome 64x32 display: sprites are XOR-ed onto the
//! pixel buffer, clipped at the right and bottom edges.
use vstd::prelude::*;

verus! {

/// Bit `col` of a sprite row, counted from the most significant bit (the leftmost pixel).
pub open spec fn sprite_bit(byte: u8, col: int) -> bool {
    ((byte >> ((7 - col) as u8)) & 1u8) == 1u8
}

/// Pixel `p` of the display is covered by a set bit of the `n`-row sprite read from
/// `mem[start..start + n]` and drawn with its top-left corner at `(x0, y0)`.
pub open spec fn sprite_covers(mem: Seq<u8>, start: int, x0: int, y0: int, n: int, p: int) -> bool {
    let dx = p % 64 - x0;
    let dy = p / 64 - y0;
    &&& 0 <= p < 2048
    &&& 0 <= dx < 8
    &&& 0 <= dy < n
    &&& sprite_bit(mem[start + dy], dx)
}

/// The display after the sprite is drawn: every covered pixel is flipped.
pub open spec fn drawn(buf: Seq<bool>, mem: Seq<u8>, start: int, x0: int, y0: int, n: int) -> Seq<bool> {
    Seq::new(buf.len(), |p: int| buf[p] != sprite_covers(mem, start, x0, y0, n, p))
}

/// Drawing the sprite turns off at least one lit pixel.
pub open spec fn collides(buf: Seq<bool>, mem: Seq<u8>, start: int, x0: int, y0: int, n: int) -> bool {
    exists|p: int| #[trigger] sprite_covers(mem, start, x0, y0, n, p) && buf[p]
}

/// Covered pixels whose sprite position comes before row `r`, column `c`.
pub open spec fn covered_before(mem: Seq<u8>, start: int, x0: int, y0: int, n: int, r: int, c: int, p: int) -> bool {
    let dx = p % 64 - x0;
    let dy = p / 64 - y0;
    sprite_covers(mem, start, x0, y0, n, p) && (dy < r || (dy == r && dx < c))
}

/// Position `(x, y)` of the display is pixel `y * 64 + x`.
pub proof fn lemma_pixel_index(x: int, y: int)
    requires
        0 <= x < 64,
        0 <= y < 32,
    ensures
        0 <= y * 64 + x < 2048,
        (y * 64 + x) % 64 == x,
        (y * 64 + x) / 64 == y,
{
    assert(0 <= y * 64 + x < 2048) by (nonlinear_arith)
        requires 0 <= x < 64, 0 <= y < 32;
    assert((y * 64 + x) % 64 == x && (y * 64 + x) / 64 == y) by (nonlinear_arith)
        requires 0 <= x < 64, 0 <= y < 32;
}

/// Every pixel index decomposes into a column below 64 and a row below 32.
pub proof fn lemma_pixel_coords(p: int)
    requires
        0 <= p < 2048,
    ensures
        0 <= p % 64 < 64,
        0 <= p / 64 < 32,
        p == (p / 64) * 64 + p % 64,
{
    assert(0 <= p % 64 < 64 && 0 <= p / 64 < 32 && p == (p / 64) * 64 + p % 64) by (nonlinear_arith)
        requires 0 <= p < 2048;
}

/// Flips the pixel at `(x, y)` and returns its new value.
pub fn flip_pixel(buf: &mut [bool; 2048], x: usize, y: usize) -> (lit: bool)
    requires
        x < 64,
        y < 32,
    ensures
        final(buf)@ == old(buf)@.update(y * 64 + x, !old(buf)@[y * 64 + x]),
        lit == !old(buf)@[y * 64 + x],
{
    proof {
        lemma_pixel_index(x as int, y as int);
    }
    let i = (y * 64) + x;
    buf[i] = !buf[i];
    buf[i]
}

/// XORs the `n`-row sprite stored at `memory[start..start + n]` onto the display with its
/// top-left corner at `(x0, y0)`; pixels beyond the right or bottom edge are dropped.
/// Returns whether a lit pixel was turned off.
pub fn draw_sprite(buf: &mut [bool; 2048], memory: &[u8; 0x1000], start: u16, x0: usize, y0: usize, n: u8) -> (collision: bool)
    requires
        x0 < 64,
        y0 < 32,
        n == 0 || start + n <= 0x1000,
    ensures
        final(buf)@ == drawn(old(buf)@, memory@, start as int, x0 as int, y0 as int, n as int),
        collision == collides(old(buf)@, memory@, start as int, x0 as int, y0 as int, n as int),
{
    let ghost old_buf = buf@;
    let ghost mem = memory@;
    let ghost (s, xi, yi, ni) = (start as int, x0 as int, y0 as int, n as int);
    let mut collision = false;
    let mut row: usize = 0;
    while row < n as usize
        invariant
            x0 < 64,
            y0 < 32,
            n == 0 || start + n <= 0x1000,
            old_buf == old(buf)@,
            mem == memory@,
            s == start as int && xi == x0 as int && yi == y0 as int && ni == n as int,
            row <= n,
            buf@.len() == 2048,
            forall|p: int| 0 <= p < 2048 ==> #[trigger] buf@[p] == (old_buf[p] != covered_before(mem, s, xi, yi, ni, row as int, 0, p)),
            collision == exists|p: int| #[trigger] covered_before(mem, s, xi, yi, ni, row as int, 0, p) && old_buf[p],
        decreases n - row,
    {
        let byte = memory[start as usize + row];
        let mut col: usize = 0;
        while col < 8
            invariant
                x0 < 64,
                y0 < 32,
                row < n,
                n == 0 || start + n <= 0x1000,
                old_buf == old(buf)@,
                mem == memory@,
                s == start as int && xi == x0 as int && yi == y0 as int && ni == n as int,
                byte == mem[s + row],
                col <= 8,
                buf@.len() == 2048,
                forall|p: int| 0 <= p < 2048 ==> #[trigger] buf@[p] == (old_buf[p] != covered_before(mem, s, xi, yi, ni, row as int, col as int, p)),
                collision == exists|p: int| #[trigger] covered_before(mem, s, xi, yi, ni, row as int, col as int, p) && old_buf[p],
            decreases 8 - col,
        {
            let ax = x0 + col;
            let ay = y0 + row;
            let ghost prev_collision = collision;
            if ax < 64 && ay < 32 {
                let bit = (byte >> ((7 - col) as u8)) & 1;
                proof {
                    lemma_pixel_index(ax as int, ay as int);
                }
                let ghost q = ay * 64 + ax;
                proof {
                    assert(buf@[q] == (old_buf[q] != covered_before(mem, s, xi, yi, ni, row as int, col as int, q)));
                    assert(!covered_before(mem, s, xi, yi, ni, row as int, col as int, q));
                }
                if bit == 1 {
                    let lit = flip_pixel(buf, ax, ay);
                    if !lit {
                        collision = true;
                    }
                }
                proof {
                    assert(collision == (prev_collision || (bit == 1 && old_buf[q])));
                    assert forall|p: int| 0 <= p < 2048 implies
                        covered_before(mem, s, xi, yi, ni, row as int, col + 1, p)
                            == (covered_before(mem, s, xi, yi, ni, row as int, col as int, p)
                                || (p == q && bit == 1)) by {
                        lemma_pixel_coords(p);
                        if p % 64 == ax && p / 64 == ay {
                            assert(p == q);
                        }
                    }
                    assert(covered_before(mem, s, xi, yi, ni, row as int, col + 1, q) == (bit == 1));
                    assert forall|p: int| 0 <= p < 2048 implies #[trigger] buf@[p] == (old_buf[p] != covered_before(mem, s, xi, yi, ni, row as int, col + 1, p)) by {
                        lemma_pixel_coords(p);
                    }
                    if collision {
                        if prev_collision {
                            let w = choose|p: int| #[trigger] covered_before(mem, s, xi, yi, ni, row as int, col as int, p) && old_buf[p];
                            lemma_pixel_coords(w);
                            assert(covered_before(mem, s, xi, yi, ni, row as int, col + 1, w) && old_buf[w]);
                        } else {
                            assert(covered_before(mem, s, xi, yi, ni, row as int, col + 1, q) && old_buf[q]);
                        }
                    } else {
                        assert forall|p: int| !(#[trigger] covered_before(mem, s, xi, yi, ni, row as int, col + 1, p) && old_buf[p]) by {
                            if 0 <= p < 2048 {
                                lemma_pixel_coords(p);
                                if covered_before(mem, s, xi, yi, ni, row as int, col as int, p) {
                                    assert(!(covered_before(mem, s, xi, yi, ni, row as int, col as int, p) && old_buf[p]));
                                }
                            }
                        }
                    }
                }
            } else {
                proof {
                    assert forall|p: int| #[trigger] covered_before(mem, s, xi, yi, ni, row as int, col + 1, p)
                        == covered_before(mem, s, xi, yi, ni, row as int, col as int, p) by {
                        if 0 <= p < 2048 {
                            lemma_pixel_coords(p);
                        }
                    }
                    if collision {
                        let w = choose|p: int| #[trigger] covered_before(mem, s, xi, yi, ni, row as int, col as int, p) && old_buf[p];
                        assert(covered_before(mem, s, xi, yi, ni, row as int, col + 1, w) && old_buf[w]);
                    } else {
                        assert forall|p: int| !(#[trigger] covered_before(mem, s, xi, yi, ni, row as int, col + 1, p) && old_buf[p]) by {
                            assert(covered_before(mem, s, xi, yi, ni, row as int, col + 1, p) == covered_before(mem, s, xi, yi, ni, row as int, col as int, p));
                        }
                    }
                }
            }
            col = col + 1;
        }
        proof {
            assert forall|p: int| #[trigger] covered_before(mem, s, xi, yi, ni, row + 1, 0, p)
                == covered_before(mem, s, xi, yi, ni, row as int, 8, p) by {}
            if collision {
                let w = choose|p: int| #[trigger] covered_before(mem, s, xi, yi, ni, row as int, 8, p) && old_buf[p];
                assert(covered_before(mem, s, xi, yi, ni, row + 1, 0, w) && old_buf[w]);
            } else {
                assert forall|p: int| !(#[trigger] covered_before(mem, s, xi, yi, ni, row + 1, 0, p) && old_buf[p]) by {
                    assert(covered_before(mem, s, xi, yi, ni, row + 1, 0, p) == covered_before(mem, s, xi, yi, ni, row as int, 8, p));
                }
            }
        }
        row = row + 1;
    }
    proof {
        assert forall|p: int| #[trigger] covered_before(mem, s, xi, yi, ni, ni, 0, p)
            == sprite_covers(mem, s, xi, yi, ni, p) by {}
        assert(buf@ =~= drawn(old_buf, mem, s, xi, yi, ni));
        if collision {
            let w = choose|p: int| #[trigger] covered_before(mem, s, xi, yi, ni, ni, 0, p) && old_buf[p];
            assert(sprite_covers(mem, s, xi, yi, ni, w) && old_buf[w]);
        } else {
            assert forall|p: int| !(#[trigger] sprite_covers(mem, s, xi, yi, ni, p) && old_buf[p]) by {
                assert(covered_before(mem, s, xi, yi, ni, ni, 0, p) == sprite_covers(mem, s, xi, yi, ni, p));
            }
        }
    }
    collision
}

/// The display as a grayscale image: 255 for a lit pixel, 0 for a dark one.
pub fn convert(buf: &[bool; 2048]) -> (gray: [u8; 2048])
    ensures
        forall|p: int| 0 <= p < 2048 ==> #[trigger] gray@[p] == if buf@[p] { 255u8 } else { 0u8 },
{
    let mut res: [u8; 2048] = [0; 2048];
    let mut i: usize = 0;
    while i < 2048
        invariant
            i <= 2048,
            forall|p: int| 0 <= p < i ==> #[trigger] res@[p] == if buf@[p] { 255u8 } else { 0u8 },
        decreases 2048 - i,
    {
        if buf[i] {
            res[i] = 255;
        } else {
            res[i] = 0;
        }
        i += 1;
    }
    res
}

} // verus!
