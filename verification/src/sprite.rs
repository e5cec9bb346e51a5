use vstd::prelude::*;
use crate::constants::{RAM_SIZE, SCREEN_HEIGHT, SCREEN_SIZE, SCREEN_WIDTH};

verus! {

/// Whether bit `b` of a sprite row is set. Bit 0 is the most significant
/// one: it is the leftmost pixel of the row.
pub open spec fn sprite_bit(row: u8, b: usize) -> bool {
    row & (0x80u8 >> b) != 0
}

/// The place in the screen buffer of the pixel in column `x` and line `y`,
/// each wrapped around its own edge of the screen.
pub open spec fn pixel_index(x: int, y: int) -> int {
    x % 64 + 64 * (y % 32)
}

/// Whether one of the first `bits` bits of `row`, drawn from column `x` on,
/// is set and falls on column `col`.
pub open spec fn row_covers(row: u8, x: int, col: int, bits: int) -> bool {
    let b = (col - x) % 64;
    b < bits && sprite_bit(row, b as usize)
}

/// The screen after the first `bits` bits of `row` were drawn on line `y`
/// from column `x` on: every pixel that a set bit falls on is flipped.
pub open spec fn draw_row(screen: Seq<bool>, x: int, y: int, row: u8, bits: int) -> Seq<bool> {
    Seq::new(
        screen.len(),
        |p: int| screen[p] != (p / 64 == y % 32 && row_covers(row, x, p % 64, bits)),
    )
}

/// Whether one of the first `bits` bits of `row`, drawn on line `y` from
/// column `x` on, is set and falls on a pixel that is lit.
pub open spec fn row_collides(screen: Seq<bool>, x: int, y: int, row: u8, bits: int) -> bool {
    exists|b: int| 0 <= b < bits && sprite_bit(row, b as usize) && #[trigger] screen[pixel_index(x + b, y)]
}

/// The screen after a sprite was drawn with its top left corner at column
/// `x` and line `y`, and whether a lit pixel was flipped on the way. The
/// rows are drawn from the first to the last, each one line below the one
/// before it.
pub open spec fn draw_sprite(screen: Seq<bool>, x: int, y: int, rows: Seq<u8>) -> (Seq<bool>, bool)
    decreases rows.len(),
{
    if rows.len() == 0 {
        (screen, false)
    } else {
        let before = draw_sprite(screen, x, y, rows.drop_last());
        let line = y + rows.len() - 1;
        (
            draw_row(before.0, x, line, rows.last(), 8),
            before.1 || row_collides(before.0, x, line, rows.last(), 8),
        )
    }
}

/// Draws the `count` bytes of `ram` from `start` on as a sprite at column
/// `x` and line `y`, and says whether a lit pixel was flipped.
pub fn draw_sprite_on(
    screen: &mut [bool; SCREEN_SIZE],
    x: u8,
    y: u8,
    ram: &[u8; RAM_SIZE],
    start: usize,
    count: usize,
) -> (collided: bool)
    requires
        start + count <= RAM_SIZE,
    ensures
        (final(screen)@, collided) == draw_sprite(
            old(screen)@,
            x as int,
            y as int,
            ram@.subrange(start as int, start + count),
        ),
    no_unwind
{
    let x_cord: usize = x as usize;
    let y_cord: usize = y as usize;
    let ghost rows = ram@.subrange(start as int, start + count);
    let mut any_flipped = false;
    let mut y_line: usize = 0;
    while y_line < count
        invariant
            y_line <= count,
            start + count <= RAM_SIZE,
            x_cord == x,
            y_cord == y,
            rows == ram@.subrange(start as int, start + count),
            (screen@, any_flipped) == draw_sprite(
                old(screen)@,
                x as int,
                y as int,
                rows.take(y_line as int),
            ),
        decreases count - y_line,
    {
        let pixels: u8 = ram[start + y_line];
        let ghost row_start = screen@;
        let ghost flipped_before = any_flipped;
        let mut x_line: usize = 0;
        while x_line < 8
            invariant
                x_line <= 8,
                y_line < count,
                count <= RAM_SIZE,
                x_cord == x,
                y_cord == y,
                row_start.len() == SCREEN_SIZE,
                screen@ == draw_row(row_start, x as int, y + y_line, pixels, x_line as int),
                any_flipped == (flipped_before || row_collides(
                    row_start,
                    x as int,
                    y + y_line,
                    pixels,
                    x_line as int,
                )),
            decreases 8 - x_line,
        {
            let ghost shown = screen@;
            let ghost hit_before = row_collides(
                row_start,
                x as int,
                y + y_line,
                pixels,
                x_line as int,
            );
            let mask: u8 = 0x80u8 >> x_line;
            let set: bool = pixels & mask != 0;
            let idx: usize = (x_cord + x_line) % SCREEN_WIDTH + SCREEN_WIDTH * ((y_cord + y_line)
                % SCREEN_HEIGHT);
            if set {
                any_flipped = any_flipped || screen[idx];
                let lit: bool = screen[idx];
                screen[idx] = !lit;
            }
            proof {
                let line = y + y_line;
                let bits = x_line as int;
                assert(idx == pixel_index(x + bits, line));
                assert(set == sprite_bit(pixels, x_line));
                assert(shown[idx as int] == row_start[idx as int]);
                assert(row_collides(row_start, x as int, line, pixels, bits + 1) == (hit_before
                    || (set && row_start[idx as int]))) by {
                    if row_collides(row_start, x as int, line, pixels, bits + 1) {
                        let b = choose|b: int|
                            0 <= b < bits + 1 && sprite_bit(pixels, b as usize)
                                && #[trigger] row_start[pixel_index(x + b, line)];
                        if b < bits {
                            assert(row_start[pixel_index(x + b, line)]);
                        }
                    }
                    if hit_before {
                        let b = choose|b: int|
                            0 <= b < bits && sprite_bit(pixels, b as usize)
                                && #[trigger] row_start[pixel_index(x + b, line)];
                        assert(row_start[pixel_index(x + b, line)]);
                    }
                    if set && row_start[idx as int] {
                        assert(row_start[pixel_index(x + bits, line)]);
                    }
                }
                assert(screen@ =~= draw_row(row_start, x as int, line, pixels, bits + 1)) by {
                    assert forall|p: int| 0 <= p < SCREEN_SIZE implies screen@[p] == draw_row(
                        row_start,
                        x as int,
                        line,
                        pixels,
                        bits + 1,
                    )[p] by {
                        let b = (p % 64 - x) % 64;
                        assert((p / 64 == line % 32 && b == bits) <==> p == idx);
                    }
                }
            }
            x_line += 1;
        }
        proof {
            let upto = rows.take(y_line as int + 1);
            assert(upto.drop_last() =~= rows.take(y_line as int));
            assert(upto.last() == pixels);
        }
        y_line += 1;
    }
    proof {
        assert(rows.take(count as int) =~= rows);
    }
    any_flipped
}

/// Whether the sprite flips pixel `p` an odd number of times, which is
/// whether the pixel is another after the sprite was drawn.
pub open spec fn flips(x: int, y: int, rows: Seq<u8>, p: int) -> bool
    decreases rows.len(),
{
    if rows.len() == 0 {
        false
    } else {
        flips(x, y, rows.drop_last(), p) != (p / 64 == (y + rows.len() - 1) % 32 && row_covers(
            rows.last(),
            x,
            p % 64,
            8,
        ))
    }
}

/// Drawing a sprite keeps the size of the screen and changes exactly the
/// pixels that the sprite flips an odd number of times.
pub proof fn lemma_draw_flips(screen: Seq<bool>, x: int, y: int, rows: Seq<u8>)
    ensures
        draw_sprite(screen, x, y, rows).0.len() == screen.len(),
        forall|p: int|
            0 <= p < screen.len() ==> #[trigger] draw_sprite(screen, x, y, rows).0[p] == (screen[p]
                != flips(x, y, rows, p)),
    decreases rows.len(),
{
    if rows.len() > 0 {
        lemma_draw_flips(screen, x, y, rows.drop_last());
    }
}

/// Drawing the same sprite twice at the same place gives back the screen
/// as it was.
pub proof fn lemma_draw_twice_restores(screen: Seq<bool>, x: int, y: int, rows: Seq<u8>)
    ensures
        draw_sprite(draw_sprite(screen, x, y, rows).0, x, y, rows).0 == screen,
{
    let once = draw_sprite(screen, x, y, rows).0;
    let twice = draw_sprite(once, x, y, rows).0;
    lemma_draw_flips(screen, x, y, rows);
    lemma_draw_flips(once, x, y, rows);
    assert(twice =~= screen);
}

/// A sprite of at most 32 rows flips no pixel on a line below its last
/// row, as long as the lines have not wrapped around to its first row.
proof fn lemma_no_flip_below(x: int, y: int, rows: Seq<u8>, k: int, p: int)
    requires
        rows.len() <= k < 32,
        p / 64 == (y + k) % 32,
    ensures
        !flips(x, y, rows, p),
    decreases rows.len(),
{
    if rows.len() > 0 {
        lemma_no_flip_below(x, y, rows.drop_last(), k, p);
        let j = rows.len() - 1;
        assert((y + j) % 32 != (y + k) % 32);
    }
}

/// A row collides exactly if it covers a lit pixel of its line.
proof fn lemma_row_collides(screen: Seq<bool>, x: int, line: int, row: u8)
    requires
        screen.len() == 2048,
    ensures
        row_collides(screen, x, line, row, 8) <==> exists|p: int|
            0 <= p < 2048 && #[trigger] screen[p] && p / 64 == line % 32 && row_covers(
                row,
                x,
                p % 64,
                8,
            ),
{
    if row_collides(screen, x, line, row, 8) {
        let b = choose|b: int|
            0 <= b < 8 && sprite_bit(row, b as usize) && #[trigger] screen[pixel_index(
                x + b,
                line,
            )];
        let p = pixel_index(x + b, line);
        assert((p % 64 - x) % 64 == b);
        assert(0 <= p < 2048 && screen[p] && p / 64 == line % 32 && row_covers(row, x, p % 64, 8));
    }
    if exists|p: int|
        0 <= p < 2048 && #[trigger] screen[p] && p / 64 == line % 32 && row_covers(
            row,
            x,
            p % 64,
            8,
        ) {
        let p = choose|p: int|
            0 <= p < 2048 && #[trigger] screen[p] && p / 64 == line % 32 && row_covers(
                row,
                x,
                p % 64,
                8,
            );
        let b = (p % 64 - x) % 64;
        assert(pixel_index(x + b, line) == p);
        assert(0 <= b < 8 && sprite_bit(row, b as usize) && screen[pixel_index(x + b, line)]);
    }
}

/// A sprite of at most 32 rows, which is every sprite that an instruction
/// word can ask for, touches no pixel twice. Drawing it reports a collision
/// exactly if it flips a pixel that was lit before the drawing began.
pub proof fn lemma_draw_collision(screen: Seq<bool>, x: int, y: int, rows: Seq<u8>)
    requires
        screen.len() == 2048,
        rows.len() <= 32,
    ensures
        draw_sprite(screen, x, y, rows).1 <==> exists|p: int|
            0 <= p < 2048 && #[trigger] screen[p] && flips(x, y, rows, p),
    decreases rows.len(),
{
    if rows.len() > 0 {
        let head = rows.drop_last();
        let k = rows.len() - 1;
        let line = y + k;
        let before = draw_sprite(screen, x, y, head);
        lemma_draw_collision(screen, x, y, head);
        lemma_draw_flips(screen, x, y, head);
        lemma_row_collides(before.0, x, line, rows.last());
        assert forall|p: int| 0 <= p < 2048 && p / 64 == line % 32 implies !flips(
            x,
            y,
            head,
            p,
        ) && before.0[p] == screen[p] by {
            lemma_no_flip_below(x, y, head, k, p);
        }
        if draw_sprite(screen, x, y, rows).1 {
            if before.1 {
                let p = choose|p: int| 0 <= p < 2048 && #[trigger] screen[p] && flips(x, y, head, p);
                assert(screen[p] && flips(x, y, rows, p));
            } else {
                let p = choose|p: int|
                    0 <= p < 2048 && #[trigger] before.0[p] && p / 64 == line % 32 && row_covers(
                        rows.last(),
                        x,
                        p % 64,
                        8,
                    );
                assert(screen[p] && flips(x, y, rows, p));
            }
        }
        if exists|p: int| 0 <= p < 2048 && #[trigger] screen[p] && flips(x, y, rows, p) {
            let p = choose|p: int| 0 <= p < 2048 && #[trigger] screen[p] && flips(x, y, rows, p);
            if p / 64 == line % 32 {
                assert(before.0[p] && row_covers(rows.last(), x, p % 64, 8));
            } else {
                assert(screen[p] && flips(x, y, head, p));
            }
        }
    }
}

/// Drawing wraps around the edges of the screen, pixel by pixel: a row
/// drawn from column `x` on covers column `col` exactly if one of its set
/// bits, `b` places from the left, has `x + b` on that column once the
/// width of the screen is taken off as often as it fits.
pub proof fn lemma_row_wraps(row: u8, x: int, col: int)
    requires
        0 <= col < 64,
    ensures
        row_covers(row, x, col, 8) <==> exists|b: int|
            0 <= b < 8 && #[trigger] sprite_bit(row, b as usize) && (x + b) % 64 == col,
{
    if row_covers(row, x, col, 8) {
        let b = (col - x) % 64;
        assert(0 <= b < 8 && sprite_bit(row, b as usize) && (x + b) % 64 == col);
    }
    if exists|b: int| 0 <= b < 8 && #[trigger] sprite_bit(row, b as usize) && (x + b) % 64 == col {
        let b = choose|b: int|
            0 <= b < 8 && #[trigger] sprite_bit(row, b as usize) && (x + b) % 64 == col;
        assert((col - x) % 64 == b);
    }
}

/// Drawing a sprite of at most 32 rows a second time at the same place
/// reports a collision as soon as the first drawing has lit a pixel: that
/// is, if the sprite flips a pixel that was not lit before.
pub proof fn lemma_draw_twice_collides(screen: Seq<bool>, x: int, y: int, rows: Seq<u8>)
    requires
        screen.len() == 2048,
        rows.len() <= 32,
        exists|p: int| 0 <= p < 2048 && !screen[p] && #[trigger] flips(x, y, rows, p),
    ensures
        draw_sprite(draw_sprite(screen, x, y, rows).0, x, y, rows).1,
{
    let once = draw_sprite(screen, x, y, rows).0;
    let p = choose|p: int| 0 <= p < 2048 && !screen[p] && #[trigger] flips(x, y, rows, p);
    lemma_draw_flips(screen, x, y, rows);
    lemma_draw_collision(once, x, y, rows);
    assert(once[p] && flips(x, y, rows, p));
}

} // verus!
