use vstd::prelude::*;
use crate::constants::{SCREEN_HEIGHT, SCREEN_SIZE, SCREEN_WIDTH};

verus! {

/// The colour that shapes are drawn in: white.
pub const FOREGROUND: u32 = 0x00FFFFFF;

/// The thickness of a line, in pixels.
pub const LINE_SIZE: usize = 4;

/// The thickness of a border, in pixels.
pub const BORDER_WIDTH: usize = 2;

/// Draws shapes into a window buffer, which holds the pixels of a window
/// row by row.
pub struct ShapeDrawer {
    width: usize,
}

/// The place in the buffer of the pixel in column `x` and row `y` of a
/// window that is `width` pixels wide.
pub open spec fn pixel_at(width: int, x: int, y: int) -> int {
    y * width + x
}

/// Whether the pixel in column `x` and row `y` belongs to the shape: to the
/// block of the columns from `from_x` up to `to_x` and the rows from
/// `from_y` up to `to_y`, or, with `frame`, to the border of that block.
pub open spec fn in_shape(
    frame: bool,
    from_x: int,
    to_x: int,
    from_y: int,
    to_y: int,
    x: int,
    y: int,
) -> bool {
    &&& from_x <= x < to_x
    &&& from_y <= y < to_y
    &&& frame ==> y < from_y + 2 || y >= to_y - 2 || x < from_x + 2 || x >= to_x - 2
}

/// Whether place `i` of the buffer holds a pixel of the shape that comes
/// before column `x_done` of row `y_done`, going through the rows from the
/// top and through each row from the left.
pub open spec fn shape_reaches(
    width: int,
    frame: bool,
    from_x: int,
    to_x: int,
    from_y: int,
    to_y: int,
    y_done: int,
    x_done: int,
    i: int,
) -> bool {
    exists|x: int, y: int|
        in_shape(frame, from_x, to_x, from_y, to_y, x, y) && (y < y_done || (y == y_done && x
            < x_done)) && #[trigger] pixel_at(width, x, y) == i
}

/// Whether place `i` of the buffer holds a pixel of the shape.
pub open spec fn shape_covers(
    width: int,
    frame: bool,
    from_x: int,
    to_x: int,
    from_y: int,
    to_y: int,
    i: int,
) -> bool {
    exists|x: int, y: int|
        in_shape(frame, from_x, to_x, from_y, to_y, x, y) && #[trigger] pixel_at(width, x, y) == i
}

/// Whether `after` is `before` with the shape painted: the places of the
/// shape's pixels hold the foreground colour, every other place is as it
/// was. Pixels of the shape that lie beyond the end of the buffer are left
/// out.
pub open spec fn painted(
    before: Seq<u32>,
    after: Seq<u32>,
    width: int,
    frame: bool,
    from_x: int,
    to_x: int,
    from_y: int,
    to_y: int,
) -> bool {
    &&& after.len() == before.len()
    &&& forall|i: int|
        0 <= i < before.len() ==> #[trigger] after[i] == if shape_covers(
            width,
            frame,
            from_x,
            to_x,
            from_y,
            to_y,
            i,
        ) {
            FOREGROUND
        } else {
            before[i]
        }
}

/// Whether place `i` of the buffer lies in the square that stands for one
/// of the first `count` pixels of `screen` that are lit, with the screen
/// shown `scale` times enlarged in the top left corner of the window.
pub open spec fn lit_square_covers(
    screen: Seq<bool>,
    count: int,
    width: int,
    scale: int,
    i: int,
) -> bool {
    exists|p: int|
        0 <= p < count && #[trigger] screen[p] && shape_covers(
            width,
            false,
            (p % 64) * scale,
            (p % 64) * scale + scale,
            (p / 64) * scale,
            (p / 64) * scale + scale,
            i,
        )
}

/// One more pixel: what the shape reaches up to the pixel after (`x`, `y`)
/// is what it reaches up to (`x`, `y`), and that pixel if it is of the
/// shape.
proof fn lemma_reach_next_pixel(
    width: int,
    frame: bool,
    from_x: int,
    to_x: int,
    from_y: int,
    to_y: int,
    y: int,
    x: int,
    i: int,
)
    ensures
        shape_reaches(width, frame, from_x, to_x, from_y, to_y, y, x + 1, i) <==> shape_reaches(
            width,
            frame,
            from_x,
            to_x,
            from_y,
            to_y,
            y,
            x,
            i,
        ) || (in_shape(frame, from_x, to_x, from_y, to_y, x, y) && pixel_at(width, x, y) == i),
{
    if shape_reaches(width, frame, from_x, to_x, from_y, to_y, y, x + 1, i) {
        let (px, py) = choose|px: int, py: int|
            in_shape(frame, from_x, to_x, from_y, to_y, px, py) && (py < y || (py == y && px < x
                + 1)) && #[trigger] pixel_at(width, px, py) == i;
        if !(py == y && px == x) {
            assert(pixel_at(width, px, py) == i);
        }
    }
    if shape_reaches(width, frame, from_x, to_x, from_y, to_y, y, x, i) {
        let (px, py) = choose|px: int, py: int|
            in_shape(frame, from_x, to_x, from_y, to_y, px, py) && (py < y || (py == y && px < x))
                && #[trigger] pixel_at(width, px, py) == i;
        assert(pixel_at(width, px, py) == i);
    }
    if in_shape(frame, from_x, to_x, from_y, to_y, x, y) && pixel_at(width, x, y) == i {
        assert(pixel_at(width, x, y) == i);
    }
}

/// One more row: with a row done up to the last column of the shape, the
/// shape is reached up to the start of the next row.
proof fn lemma_reach_next_row(
    width: int,
    frame: bool,
    from_x: int,
    to_x: int,
    from_y: int,
    to_y: int,
    y: int,
    x: int,
    i: int,
)
    requires
        x >= to_x,
    ensures
        shape_reaches(width, frame, from_x, to_x, from_y, to_y, y, x, i) <==> shape_reaches(
            width,
            frame,
            from_x,
            to_x,
            from_y,
            to_y,
            y + 1,
            from_x,
            i,
        ),
{
    if shape_reaches(width, frame, from_x, to_x, from_y, to_y, y, x, i) {
        let (px, py) = choose|px: int, py: int|
            in_shape(frame, from_x, to_x, from_y, to_y, px, py) && (py < y || (py == y && px < x))
                && #[trigger] pixel_at(width, px, py) == i;
        assert(pixel_at(width, px, py) == i);
    }
    if shape_reaches(width, frame, from_x, to_x, from_y, to_y, y + 1, from_x, i) {
        let (px, py) = choose|px: int, py: int|
            in_shape(frame, from_x, to_x, from_y, to_y, px, py) && (py < y + 1 || (py == y + 1
                && px < from_x)) && #[trigger] pixel_at(width, px, py) == i;
        assert(pixel_at(width, px, py) == i);
    }
}

/// With every row done, the whole shape is reached, and with none done,
/// nothing is.
proof fn lemma_reach_ends(
    width: int,
    frame: bool,
    from_x: int,
    to_x: int,
    from_y: int,
    to_y: int,
    y: int,
    i: int,
)
    ensures
        y >= to_y ==> (shape_reaches(width, frame, from_x, to_x, from_y, to_y, y, from_x, i)
            <==> shape_covers(width, frame, from_x, to_x, from_y, to_y, i)),
        y <= from_y ==> !shape_reaches(width, frame, from_x, to_x, from_y, to_y, y, from_x, i),
        from_x >= to_x ==> !shape_covers(width, frame, from_x, to_x, from_y, to_y, i),
{
    if shape_reaches(width, frame, from_x, to_x, from_y, to_y, y, from_x, i) {
        let (px, py) = choose|px: int, py: int|
            in_shape(frame, from_x, to_x, from_y, to_y, px, py) && (py < y || (py == y && px
                < from_x)) && #[trigger] pixel_at(width, px, py) == i;
        assert(pixel_at(width, px, py) == i);
    }
    if shape_covers(width, frame, from_x, to_x, from_y, to_y, i) {
        let (px, py) = choose|px: int, py: int|
            in_shape(frame, from_x, to_x, from_y, to_y, px, py) && #[trigger] pixel_at(
                width,
                px,
                py,
            ) == i;
        assert(pixel_at(width, px, py) == i);
    }
}

/// The place of a pixel of a block is at most the place of the block's
/// last pixel.
proof fn lemma_pixel_in_block(width: int, to_x: int, to_y: int, x: int, y: int)
    requires
        0 <= width,
        0 <= x < to_x,
        0 <= y < to_y,
    ensures
        0 <= pixel_at(width, x, y) <= pixel_at(width, to_x - 1, to_y - 1),
{
    assert(0 <= y * width <= (to_y - 1) * width) by (nonlinear_arith)
        requires
            0 <= width,
            0 <= y <= to_y - 1,
    ;
}

impl ShapeDrawer {
    /// The width of the window, in pixels.
    pub closed spec fn window_width(&self) -> usize {
        self.width
    }

    /// A drawer for a window that is `width` pixels wide.
    pub fn new(width: usize) -> (drawer: ShapeDrawer)
        ensures
            drawer.window_width() == width,
    {
        ShapeDrawer { width }
    }

    /// The width of the window, in pixels.
    pub fn width(&self) -> (width: usize)
        ensures
            width == self.window_width(),
    {
        self.width
    }

    /// Paints the block of the columns from `from_x` up to `to_x` and the
    /// rows from `from_y` up to `to_y`, or, with `frame`, its border. A
    /// pixel beyond the end of the buffer is left out.
    fn paint(
        &self,
        window_buffer: &mut [u32],
        frame: bool,
        from_x: usize,
        to_x: usize,
        from_y: usize,
        to_y: usize,
    )
        requires
            from_x < to_x && from_y < to_y ==> pixel_at(
                self.window_width() as int,
                to_x - 1,
                to_y - 1,
            ) <= usize::MAX,
        ensures
            painted(
                old(window_buffer)@,
                final(window_buffer)@,
                self.window_width() as int,
                frame,
                from_x as int,
                to_x as int,
                from_y as int,
                to_y as int,
            ),
    {
        let ghost w = self.width as int;
        let ghost before = window_buffer@;
        let ghost fx = from_x as int;
        let ghost tx = to_x as int;
        let ghost fy = from_y as int;
        let ghost ty = to_y as int;
        if from_x >= to_x {
            proof {
                assert forall|i: int| 0 <= i < before.len() implies !shape_covers(
                    w,
                    frame,
                    fx,
                    tx,
                    fy,
                    ty,
                    i,
                ) by {
                    lemma_reach_ends(w, frame, fx, tx, fy, ty, 0, i);
                }
            }
            return ;
        }
        let mut y: usize = from_y;
        proof {
            assert forall|i: int| 0 <= i < before.len() implies !shape_reaches(
                w,
                frame,
                fx,
                tx,
                fy,
                ty,
                y as int,
                fx,
                i,
            ) by {
                lemma_reach_ends(w, frame, fx, tx, fy, ty, y as int, i);
            }
        }
        while y < to_y
            invariant
                from_y <= y,
                from_x < to_x,
                w == self.width,
                fx == from_x,
                tx == to_x,
                fy == from_y,
                ty == to_y,
                before == old(window_buffer)@,
                y < to_y ==> pixel_at(w, to_x - 1, to_y - 1) <= usize::MAX,
                window_buffer@.len() == before.len(),
                forall|i: int|
                    0 <= i < before.len() ==> #[trigger] window_buffer@[i] == if shape_reaches(
                        w,
                        frame,
                        fx,
                        tx,
                        fy,
                        ty,
                        y as int,
                        fx,
                        i,
                    ) {
                        FOREGROUND
                    } else {
                        before[i]
                    },
            decreases to_y - y,
        {
            let mut x: usize = from_x;
            while x < to_x
                invariant
                    from_x <= x <= to_x,
                    from_y <= y < to_y,
                    w == self.width,
                    fx == from_x,
                    tx == to_x,
                    fy == from_y,
                    ty == to_y,
                    pixel_at(w, to_x - 1, to_y - 1) <= usize::MAX,
                    window_buffer@.len() == before.len(),
                    forall|i: int|
                        0 <= i < before.len() ==> #[trigger] window_buffer@[i] == if shape_reaches(
                            w,
                            frame,
                            fx,
                            tx,
                            fy,
                            ty,
                            y as int,
                            x as int,
                            i,
                        ) {
                            FOREGROUND
                        } else {
                            before[i]
                        },
                decreases to_x - x,
            {
                let is_top: bool = y - from_y < BORDER_WIDTH;
                let is_bottom: bool = to_y - y <= BORDER_WIDTH;
                let is_left: bool = x - from_x < BORDER_WIDTH;
                let is_right: bool = to_x - x <= BORDER_WIDTH;

                if !frame || is_top || is_bottom || is_left || is_right {
                    proof {
                        lemma_pixel_in_block(w, tx, ty, x as int, y as int);
                        assert(0 <= y * self.width) by (nonlinear_arith);
                        assert(pixel_at(w, x as int, y as int) == y * self.width + x);
                    }
                    let idx: usize = y * self.width + x;
                    if idx < window_buffer.len() {
                        window_buffer[idx] = FOREGROUND;
                    }
                }
                proof {
                    assert forall|i: int| 0 <= i < before.len() implies #[trigger] window_buffer@[i]
                        == if shape_reaches(w, frame, fx, tx, fy, ty, y as int, x + 1, i) {
                        FOREGROUND
                    } else {
                        before[i]
                    } by {
                        lemma_reach_next_pixel(w, frame, fx, tx, fy, ty, y as int, x as int, i);
                    }
                }
                x += 1;
            }
            proof {
                assert forall|i: int| 0 <= i < before.len() implies #[trigger] window_buffer@[i]
                    == if shape_reaches(w, frame, fx, tx, fy, ty, y + 1, fx, i) {
                    FOREGROUND
                } else {
                    before[i]
                } by {
                    lemma_reach_next_row(w, frame, fx, tx, fy, ty, y as int, x as int, i);
                }
            }
            y += 1;
        }
        proof {
            assert forall|i: int| 0 <= i < before.len() implies #[trigger] window_buffer@[i]
                == if shape_covers(w, frame, fx, tx, fy, ty, i) {
                FOREGROUND
            } else {
                before[i]
            } by {
                lemma_reach_ends(w, frame, fx, tx, fy, ty, y as int, i);
            }
        }
    }

    /// Paints the square of side `scale` that stands for the pixel in column
    /// `x` and row `y` of a picture that is shown `scale` times enlarged.
    /// The square has to lie within the buffer.
    pub fn rect(&self, window_buffer: &mut [u32], x: usize, y: usize, scale: usize)
        requires
            x * scale + scale <= usize::MAX,
            y * scale + scale <= usize::MAX,
            scale > 0 ==> pixel_at(
                self.window_width() as int,
                x * scale + scale - 1,
                y * scale + scale - 1,
            ) < old(window_buffer)@.len(),
        ensures
            painted(
                old(window_buffer)@,
                final(window_buffer)@,
                self.window_width() as int,
                false,
                x * scale,
                x * scale + scale,
                y * scale,
                y * scale + scale,
            ),
    {
        proof {
            assert(0 <= x * scale && 0 <= y * scale) by (nonlinear_arith);
            assert(window_buffer.len() <= usize::MAX);
        }
        let start_x: usize = x * scale;
        let start_y: usize = y * scale;
        self.paint(window_buffer, false, start_x, start_x + scale, start_y, start_y + scale);
    }

    /// Paints a vertical line in column `x`, from row `from_y` up to row
    /// `to_y`. The line has to lie within the buffer.
    pub fn vertical_line(&self, window_buffer: &mut [u32], x: usize, from_y: usize, to_y: usize)
        requires
            x + LINE_SIZE <= usize::MAX,
            from_y < to_y ==> pixel_at(self.window_width() as int, x + LINE_SIZE - 1, to_y - 1)
                < old(window_buffer)@.len(),
        ensures
            painted(
                old(window_buffer)@,
                final(window_buffer)@,
                self.window_width() as int,
                false,
                x as int,
                x + LINE_SIZE,
                from_y as int,
                to_y as int,
            ),
    {
        assert(window_buffer.len() <= usize::MAX);
        self.paint(window_buffer, false, x, x + LINE_SIZE, from_y, to_y);
    }

    /// Paints a horizontal line in row `y`, from column `columns.0` up to
    /// column `columns.1`. The line has to lie within the buffer.
    pub fn horizontal_line(&self, window_buffer: &mut [u32], columns: (usize, usize), y: usize)
        requires
            y + LINE_SIZE <= usize::MAX,
            columns.0 < columns.1 ==> pixel_at(
                self.window_width() as int,
                columns.1 - 1,
                y + LINE_SIZE - 1,
            ) < old(window_buffer)@.len(),
        ensures
            painted(
                old(window_buffer)@,
                final(window_buffer)@,
                self.window_width() as int,
                false,
                columns.0 as int,
                columns.1 as int,
                y as int,
                y + LINE_SIZE,
            ),
    {
        assert(window_buffer.len() <= usize::MAX);
        self.paint(window_buffer, false, columns.0, columns.1, y, y + LINE_SIZE);
    }

    /// Paints the border, two pixels thick, of the block of the columns
    /// from `from_x` up to `to_x` and the rows from `from_y` up to `to_y`.
    /// What of it lies beyond the end of the buffer is left out.
    pub fn border(
        &self,
        window_buffer: &mut [u32],
        from_x: usize,
        from_y: usize,
        to_x: usize,
        to_y: usize,
    )
        requires
            from_x < to_x && from_y < to_y ==> pixel_at(
                self.window_width() as int,
                to_x - 1,
                to_y - 1,
            ) <= usize::MAX,
        ensures
            painted(
                old(window_buffer)@,
                final(window_buffer)@,
                self.window_width() as int,
                true,
                from_x as int,
                to_x as int,
                from_y as int,
                to_y as int,
            ),
    {
        self.paint(window_buffer, true, from_x, to_x, from_y, to_y);
    }

    /// Paints the screen of the machine, `scale` times enlarged, into the
    /// top left corner of the window: a square for each pixel that is lit.
    /// The enlarged screen has to lie within the buffer.
    pub fn screen(&self, window_buffer: &mut [u32], screen: &[bool; SCREEN_SIZE], scale: usize)
        requires
            scale > 0 ==> pixel_at(
                self.window_width() as int,
                SCREEN_WIDTH * scale - 1,
                SCREEN_HEIGHT * scale - 1,
            ) < old(window_buffer)@.len(),
        ensures
            final(window_buffer)@.len() == old(window_buffer)@.len(),
            forall|i: int|
                0 <= i < old(window_buffer)@.len() ==> #[trigger] final(window_buffer)@[i]
                    == if lit_square_covers(
                    screen@,
                    SCREEN_SIZE as int,
                    self.window_width() as int,
                    scale as int,
                    i,
                ) {
                    FOREGROUND
                } else {
                    old(window_buffer)@[i]
                },
    {
        let ghost w = self.width as int;
        let ghost before = window_buffer@;
        if scale == 0 {
            proof {
                assert forall|i: int| 0 <= i < before.len() implies !lit_square_covers(
                    screen@,
                    SCREEN_SIZE as int,
                    w,
                    scale as int,
                    i,
                ) by {
                    if lit_square_covers(screen@, SCREEN_SIZE as int, w, scale as int, i) {
                        let p = choose|p: int|
                            0 <= p < SCREEN_SIZE && #[trigger] screen@[p] && shape_covers(
                                w,
                                false,
                                (p % 64) * scale,
                                (p % 64) * scale + scale,
                                (p / 64) * scale,
                                (p / 64) * scale + scale,
                                i,
                            );
                        lemma_reach_ends(
                            w,
                            false,
                            (p % 64) * scale,
                            (p % 64) * scale + scale,
                            (p / 64) * scale,
                            (p / 64) * scale + scale,
                            0,
                            i,
                        );
                    }
                }
            }
            return ;
        }
        proof {
            assert(window_buffer.len() <= usize::MAX);
            assert(0 <= (SCREEN_HEIGHT * scale - 1) * w) by (nonlinear_arith)
                requires
                    scale > 0,
                    w >= 0,
            ;
        }
        let mut p: usize = 0;
        while p < SCREEN_SIZE
            invariant
                p <= SCREEN_SIZE,
                scale > 0,
                w == self.width,
                SCREEN_WIDTH * scale - 1 <= usize::MAX,
                pixel_at(w, SCREEN_WIDTH * scale - 1, SCREEN_HEIGHT * scale - 1) < before.len(),
                window_buffer@.len() == before.len(),
                before.len() <= usize::MAX,
                forall|i: int|
                    0 <= i < before.len() ==> #[trigger] window_buffer@[i] == if lit_square_covers(
                        screen@,
                        p as int,
                        w,
                        scale as int,
                        i,
                    ) {
                        FOREGROUND
                    } else {
                        before[i]
                    },
            decreases SCREEN_SIZE - p,
        {
            let x: usize = p % SCREEN_WIDTH;
            let y: usize = p / SCREEN_WIDTH;
            if screen[p] {
                proof {
                    assert(x * scale + scale <= SCREEN_WIDTH * scale && y * scale + scale
                        <= SCREEN_HEIGHT * scale && 0 <= x * scale && 0 <= y * scale)
                        by (nonlinear_arith)
                        requires
                            0 <= x < SCREEN_WIDTH,
                            0 <= y < SCREEN_HEIGHT,
                            scale > 0,
                    ;
                    lemma_pixel_in_block(
                        w,
                        SCREEN_WIDTH * scale,
                        SCREEN_HEIGHT * scale,
                        x * scale + scale - 1,
                        y * scale + scale - 1,
                    );
                }
                self.rect(window_buffer, x, y, scale);
            }
            proof {
                assert forall|i: int| 0 <= i < before.len() implies #[trigger] window_buffer@[i]
                    == if lit_square_covers(screen@, p + 1, w, scale as int, i) {
                    FOREGROUND
                } else {
                    before[i]
                } by {
                    let here = shape_covers(
                        w,
                        false,
                        x * scale,
                        x * scale + scale,
                        y * scale,
                        y * scale + scale,
                        i,
                    );
                    if lit_square_covers(screen@, p + 1, w, scale as int, i) {
                        let q = choose|q: int|
                            0 <= q < p + 1 && #[trigger] screen@[q] && shape_covers(
                                w,
                                false,
                                (q % 64) * scale,
                                (q % 64) * scale + scale,
                                (q / 64) * scale,
                                (q / 64) * scale + scale,
                                i,
                            );
                        if q < p {
                            assert(screen@[q]);
                            assert(lit_square_covers(screen@, p as int, w, scale as int, i));
                        }
                    }
                    if lit_square_covers(screen@, p as int, w, scale as int, i) {
                        let q = choose|q: int|
                            0 <= q < p && #[trigger] screen@[q] && shape_covers(
                                w,
                                false,
                                (q % 64) * scale,
                                (q % 64) * scale + scale,
                                (q / 64) * scale,
                                (q / 64) * scale + scale,
                                i,
                            );
                        assert(screen@[q]);
                    }
                    if screen@[p as int] && here {
                        assert(screen@[p as int]);
                    }
                }
            }
            p += 1;
        }
    }
}

} // verus!
