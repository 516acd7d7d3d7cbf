//! The 64 x 32 monochrome screen: one `u64` per row, the leftmost pixel in
//! the most significant bit.
use vstd::prelude::*;

verus! {

pub const WIDTH: usize = 64;

pub const HEIGHT: usize = 32;

/// Whether the pixel at column `col` of row word `w` is lit.
pub open spec fn lit(w: u64, col: int) -> bool {
    (w >> (63 - col) as u64) & 1u64 == 1u64
}

/// Whether the pixel at (`col`, `row`) of `screen` is lit.
pub open spec fn pixel(screen: Seq<u64>, col: int, row: int) -> bool {
    lit(screen[row], col)
}

/// Whether bit `j` of a sprite byte is set, bit 0 being the leftmost.
pub open spec fn sprite_bit(b: u8, j: int) -> bool {
    (b >> (7 - j) as u8) & 1u8 == 1u8
}

/// A sprite byte placed on a row word with its leftmost bit at column `x0`;
/// bits that would fall past the right edge are dropped.
pub open spec fn placed(b: u8, x0: u64) -> u64 {
    ((b as u64) << 56u64) >> x0
}

/// The sprite row that lands on screen row `row`, placed at column `x0`,
/// when a sprite of `n` rows read from `sprite` starts at row `y0`.
pub open spec fn sprite_row(sprite: Seq<u8>, x0: u64, y0: int, n: int, row: int) -> u64 {
    if y0 <= row < y0 + n {
        placed(sprite[row - y0], x0)
    } else {
        0
    }
}

/// The screen after drawing: each row XOR-ed with the sprite row that lands
/// on it.
pub open spec fn drawn(screen: Seq<u64>, sprite: Seq<u8>, x0: u64, y0: int, n: int) -> Seq<u64> {
    Seq::new(HEIGHT as nat, |row: int| screen[row] ^ sprite_row(sprite, x0, y0, n, row))
}

/// Whether the sprite overlaps a pixel that is already lit.
pub open spec fn collides(screen: Seq<u64>, sprite: Seq<u8>, x0: u64, y0: int, n: int) -> bool {
    exists|row: int| 0 <= row < HEIGHT && #[trigger] (screen[row] & sprite_row(sprite, x0, y0, n, row)) != 0
}

/// Whether the sprite covers the pixel at (`col`, `row`) with a set bit.
pub open spec fn covers(sprite: Seq<u8>, x0: int, y0: int, n: int, col: int, row: int) -> bool {
    &&& y0 <= row < y0 + n
    &&& x0 <= col < x0 + 8
    &&& sprite_bit(sprite[row - y0], col - x0)
}

/// Draws the first `n` bytes of `sprite` with its top-left corner at
/// (`x0`, `y0`), flipping each pixel under a set sprite bit. Rows past the
/// bottom edge and columns past the right edge are dropped, not wrapped.
/// Returns whether a lit pixel was turned off.
pub fn draw_sprite(screen: &mut Vec<u64>, sprite: &Vec<u8>, x0: u64, y0: u64) -> (hit: bool)
    requires
        old(screen)@.len() == HEIGHT,
        x0 < WIDTH,
        y0 < HEIGHT,
    ensures
        final(screen)@ == drawn(old(screen)@, sprite@, x0, y0 as int, sprite@.len() as int),
        hit == collides(old(screen)@, sprite@, x0, y0 as int, sprite@.len() as int),
{
    let ghost before = screen@;
    let ghost n = sprite@.len() as int;
    let mut hit = false;
    let mut i: usize = 0;
    while i < sprite.len() && y0 as usize + i < HEIGHT
        invariant
            0 <= i <= n,
            x0 < WIDTH,
            y0 < HEIGHT,
            before.len() == HEIGHT,
            y0 + i <= HEIGHT,
            n == sprite@.len(),
            screen@.len() == HEIGHT,
            forall|row: int| 0 <= row < HEIGHT ==> #[trigger] screen@[row] == if y0 <= row < y0 + i {
                before[row] ^ sprite_row(sprite@, x0, y0 as int, n, row)
            } else {
                before[row]
            },
            hit == exists|row: int| y0 <= row < y0 + i && #[trigger] (before[row] & sprite_row(sprite@, x0, y0 as int, n, row)) != 0,
        decreases n - i,
    {
        let row = y0 as usize + i;
        let mask = ((sprite[i] as u64) << 56u64) >> x0;
        let old_row = screen[row];
        assert(mask == sprite_row(sprite@, x0, y0 as int, n, row as int));
        if old_row & mask != 0 {
            hit = true;
        }
        screen.set(row, old_row ^ mask);
        i = i + 1;
    }
    proof {
        assert forall|row: int| 0 <= row < HEIGHT implies #[trigger] screen@[row] == before[row] ^ sprite_row(sprite@, x0, y0 as int, n, row) by {
            if !(y0 <= row < y0 + i) {
                let z = sprite_row(sprite@, x0, y0 as int, n, row);
                let b = before[row];
                assert(z == 0);
                assert(b ^ z == b) by (bit_vector) requires z == 0;
            }
        }
        assert(screen@ =~= drawn(before, sprite@, x0, y0 as int, n));
        if collides(before, sprite@, x0, y0 as int, n) {
            let row = choose|row: int| 0 <= row < HEIGHT && #[trigger] (before[row] & sprite_row(sprite@, x0, y0 as int, n, row)) != 0;
            if !(y0 <= row < y0 + i) {
                let z = sprite_row(sprite@, x0, y0 as int, n, row);
                let b = before[row];
                assert(z == 0);
                assert(b & z == 0) by (bit_vector) requires z == 0;
            }
        }
    }
    hit
}

/// Turns every pixel off.
pub fn clear(screen: &mut Vec<u64>)
    requires
        old(screen)@.len() == HEIGHT,
    ensures
        final(screen)@ == Seq::new(HEIGHT as nat, |row: int| 0u64),
{
    let mut i: usize = 0;
    while i < HEIGHT
        invariant
            0 <= i <= HEIGHT,
            screen@.len() == HEIGHT,
            forall|row: int| 0 <= row < i ==> #[trigger] screen@[row] == 0u64,
        decreases HEIGHT - i,
    {
        screen.set(i, 0);
        i = i + 1;
    }
    assert(screen@ =~= Seq::new(HEIGHT as nat, |row: int| 0u64));
}

} // verus!

verus! {

proof fn lemma_placed_bit(b: u8, x0: u64, c: u64)
    by (bit_vector)
    requires
        x0 < 64,
        c < 64,
    ensures
        ((((b as u64) << 56u64) >> x0) >> (63 - c) as u64) & 1u64 == 1u64 <==> (x0 <= c && c < x0 + 8
            && (b >> (7 - (c - x0)) as u8) & 1u8 == 1u8),
{
}

proof fn lemma_xor_bit(a: u64, m: u64, p: u64)
    by (bit_vector)
    requires
        p < 64,
    ensures
        ((a ^ m) >> p) & 1u64 == 1u64 <==> (((a >> p) & 1u64 == 1u64) != ((m >> p) & 1u64 == 1u64)),
{
}

proof fn lemma_and_bit(a: u64, m: u64, p: u64)
    by (bit_vector)
    requires
        p < 64,
    ensures
        ((a & m) >> p) & 1u64 == 1u64 <==> ((a >> p) & 1u64 == 1u64 && (m >> p) & 1u64 == 1u64),
        ((a >> p) & 1u64 == 1u64 && (m >> p) & 1u64 == 1u64) ==> a & m != 0,
{
}

proof fn lemma_next_bit(x: u64, p: u64)
    by (bit_vector)
    requires
        p < 64,
        x >> p != 0,
    ensures
        (x >> p) & 1u64 == 1u64 || (p < 63 && x >> (p + 1) as u64 != 0),
{
}

/// A non-zero word has a set bit at or above position `p` when its bits
/// from `p` up are not all clear.
proof fn lemma_set_bit_from(a: u64, m: u64, p: u64)
    requires
        p < 64,
        (a & m) >> p != 0,
    ensures
        exists|c: int| 0 <= c < 64 && lit(a, c) && lit(m, c),
    decreases 64 - p,
{
    lemma_next_bit(a & m, p);
    if ((a & m) >> p) & 1u64 == 1u64 {
        lemma_and_bit(a, m, p);
        let c = 63 - p;
        assert(lit(a, c) && lit(m, c));
    } else {
        lemma_set_bit_from(a, m, (p + 1) as u64);
    }
}

/// Two words share a lit pixel exactly when their AND is not zero.
proof fn lemma_and_nonzero(a: u64, m: u64)
    ensures
        (a & m != 0) <==> exists|c: int| 0 <= c < 64 && lit(a, c) && lit(m, c),
{
    if a & m != 0 {
        let x = a & m;
        assert(x >> 0u64 == x) by (bit_vector);
        lemma_set_bit_from(a, m, 0);
    }
    if exists|c: int| 0 <= c < 64 && lit(a, c) && lit(m, c) {
        let c = choose|c: int| 0 <= c < 64 && lit(a, c) && lit(m, c);
        lemma_and_bit(a, m, (63 - c) as u64);
    }
}

/// The pixel at (`col`, `row`) of a sprite row is lit exactly when the
/// sprite covers it.
proof fn lemma_sprite_row_pixel(sprite: Seq<u8>, x0: u64, y0: int, n: int, col: int, row: int)
    requires
        x0 < WIDTH,
        0 <= n <= sprite.len(),
        0 <= y0,
        0 <= col < WIDTH,
        0 <= row < HEIGHT,
    ensures
        lit(sprite_row(sprite, x0, y0, n, row), col) == covers(sprite, x0 as int, y0, n, col, row),
{
    if y0 <= row < y0 + n {
        lemma_placed_bit(sprite[row - y0], x0, col as u64);
    } else {
        let z = sprite_row(sprite, x0, y0, n, row);
        let p = (63 - col) as u64;
        assert(z == 0);
        assert((z >> p) & 1u64 != 1u64) by (bit_vector) requires z == 0;
    }
}

/// Drawing flips exactly the pixels that a set sprite bit covers and leaves
/// every other pixel as it was. A covered pixel lies at or right of the
/// sprite's column, below or at its row, and inside the grid: what falls past
/// an edge is dropped, never wrapped to the other side.
pub proof fn lemma_draw_pixels(screen: Seq<u64>, sprite: Seq<u8>, x0: u64, y0: int, n: int, col: int, row: int)
    requires
        screen.len() == HEIGHT,
        x0 < WIDTH,
        0 <= y0 < HEIGHT,
        0 <= n <= sprite.len(),
        0 <= col < WIDTH,
        0 <= row < HEIGHT,
    ensures
        drawn(screen, sprite, x0, y0, n).len() == HEIGHT,
        pixel(drawn(screen, sprite, x0, y0, n), col, row) == (pixel(screen, col, row) != covers(sprite, x0 as int, y0, n, col, row)),
        !covers(sprite, x0 as int, y0, n, col, row) ==> pixel(drawn(screen, sprite, x0, y0, n), col, row) == pixel(screen, col, row),
        covers(sprite, x0 as int, y0, n, col, row) ==> x0 <= col < x0 + 8 && y0 <= row < y0 + n,
{
    lemma_sprite_row_pixel(sprite, x0, y0, n, col, row);
    lemma_xor_bit(screen[row], sprite_row(sprite, x0, y0, n, row), (63 - col) as u64);
}

/// The collision flag of a draw is raised exactly when some set sprite bit
/// lands on a pixel that was already lit.
pub proof fn lemma_draw_collision(screen: Seq<u64>, sprite: Seq<u8>, x0: u64, y0: int, n: int)
    requires
        screen.len() == HEIGHT,
        x0 < WIDTH,
        0 <= y0 < HEIGHT,
        0 <= n <= sprite.len(),
    ensures
        collides(screen, sprite, x0, y0, n) <==> exists|col: int, row: int|
            0 <= col < WIDTH && 0 <= row < HEIGHT && #[trigger] covers(sprite, x0 as int, y0, n, col, row)
                && #[trigger] pixel(screen, col, row),
{
    if collides(screen, sprite, x0, y0, n) {
        let row = choose|row: int| 0 <= row < HEIGHT && #[trigger] (screen[row] & sprite_row(sprite, x0, y0, n, row)) != 0;
        let m = sprite_row(sprite, x0, y0, n, row);
        lemma_and_nonzero(screen[row], m);
        let col = choose|c: int| 0 <= c < 64 && lit(screen[row], c) && lit(m, c);
        lemma_sprite_row_pixel(sprite, x0, y0, n, col, row);
        assert(covers(sprite, x0 as int, y0, n, col, row) && pixel(screen, col, row));
    }
    if exists|col: int, row: int| 0 <= col < WIDTH && 0 <= row < HEIGHT && #[trigger] covers(sprite, x0 as int, y0, n, col, row)
        && #[trigger] pixel(screen, col, row) {
        let (col, row) = choose|col: int, row: int| 0 <= col < WIDTH && 0 <= row < HEIGHT && #[trigger] covers(sprite, x0 as int, y0, n, col, row)
            && #[trigger] pixel(screen, col, row);
        let m = sprite_row(sprite, x0, y0, n, row);
        lemma_sprite_row_pixel(sprite, x0, y0, n, col, row);
        lemma_and_nonzero(screen[row], m);
        assert((screen[row] & m) != 0);
    }
}

} // verus!
