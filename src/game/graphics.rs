use vstd::prelude::*;

use crate::game::{GameManager, BACKGROUND_COLOR};
use crate::utils::{Size, SGR};

verus! {

/// Board cells per side of a piece's cell.
pub const BLOCK_SCALE: usize = 2;

/// Where things go on a terminal of a given size.
#[derive(Clone, Copy, PartialEq, Eq, Debug, Structural)]
pub struct Layout {
    /// The whole terminal.
    pub term_size: Size,
    /// The box around the board and the preview panel.
    pub tetris_size: Size,
    /// The box's top-left corner.
    pub offset: Size,
    /// The board inside the box, left of the preview panel.
    pub inner_box_size: Size,
    pub scale: usize,
}

/// The terminal cannot hold the game.
#[derive(Clone, Copy, PartialEq, Eq, Debug, Structural)]
pub struct TooSmall;

/// Whether a terminal of `rows` by `cols` is large enough for the game.
pub open spec fn fits_game(rows: int, cols: int) -> bool {
    cols / 2 >= 50 && rows >= 32
}

/// The layout of a terminal of `size` that is large enough.
pub open spec fn layout_of(size: Size) -> Layout {
    let w = size.cols / 2;
    let h = size.rows - 2;
    Layout {
        term_size: size,
        tetris_size: Size { rows: h as u16, cols: w as u16 },
        offset: Size { rows: 1, cols: (size.cols / 4) as u16 },
        inner_box_size: Size { rows: (h - 2) as u16, cols: (w - w / 5 - 1) as u16 },
        scale: BLOCK_SCALE,
    }
}

impl Layout {
    /// The box lies on the terminal and the board can hold a new piece.
    pub open spec fn wf(&self) -> bool {
        &&& fits_game(self.term_size.rows as int, self.term_size.cols as int)
        &&& *self == layout_of(self.term_size)
    }

    /// Lays the game out on a terminal of `size`: a box half as wide as the
    /// terminal and two rows shorter, a quarter of the width from the left
    /// and one row from the top; its right fifth holds the previews.
    pub fn of_terminal(size: Size) -> (r: Result<Layout, TooSmall>)
        ensures
            r is Ok <==> fits_game(size.rows as int, size.cols as int),
            r is Ok ==> r->Ok_0 == layout_of(size) && r->Ok_0.wf(),
    {
        if size.cols / 2 < 50 || size.rows < 32 {
            return Err(TooSmall);
        }
        let w = size.cols / 2;
        let h = size.rows - 2;
        Ok(
            Layout {
                term_size: size,
                tetris_size: Size { rows: h, cols: w },
                offset: Size { rows: 1, cols: size.cols / 4 },
                inner_box_size: Size { rows: h - 2, cols: w - w / 5 - 1 },
                scale: BLOCK_SCALE,
            },
        )
    }
}


/// A layout of a large enough terminal has a board on which
/// `GameManager::init` can start a game.
pub proof fn lemma_layout_fits_board(l: Layout)
    requires
        l.wf(),
    ensures
        l.scale >= 1,
        4 * l.scale <= l.inner_box_size.cols,
        3 * l.scale + 1 < l.inner_box_size.rows,
{
}

/// The color of the box around the board.
pub const BOX_COLOR: SGR = SGR::YellowBG;

/// The column that parts the board from the preview panel.
pub open spec fn panel_border(l: Layout) -> int {
    l.offset.cols + l.tetris_size.cols - l.tetris_size.cols / 5
}

/// Whether row `y`, column `x` of the terminal lies on the box: its outline,
/// or the column that parts the board from the previews.
pub open spec fn on_box(l: Layout, y: int, x: int) -> bool {
    let (oy, ox) = (l.offset.rows as int, l.offset.cols as int);
    let (h, w) = (l.tetris_size.rows as int, l.tetris_size.cols as int);
    &&& oy <= y < oy + h
    &&& ox <= x < ox + w
    &&& (y == oy || y == oy + h - 1 || x == ox || x == ox + w - 1 || x == panel_border(l))
}

/// Sets one cell of `frame`; a position off the frame changes nothing.
fn put(frame: &mut Vec<Vec<SGR>>, y: usize, x: usize, c: SGR)
    ensures
        final(frame)@.len() == old(frame)@.len(),
        forall|r: int|
            0 <= r < old(frame)@.len() ==> (#[trigger] final(frame)@[r])@.len()
                == old(frame)@[r]@.len(),
        forall|r: int, q: int|
            0 <= r < old(frame)@.len() && 0 <= q < old(frame)@[r]@.len()
                ==> #[trigger] final(frame)@[r]@[q] == (if r == y && q == x {
                c
            } else {
                old(frame)@[r]@[q]
            }),
{
    if y < frame.len() && x < frame[y].len() {
        frame[y].set(x, c);
    }
}

/// A frame of `rows` rows and `cols` columns, all background.
fn blank_frame(rows: usize, cols: usize) -> (f: Vec<Vec<SGR>>)
    ensures
        f@.len() == rows,
        forall|r: int| 0 <= r < rows ==> (#[trigger] f@[r])@.len() == cols,
        forall|r: int, q: int|
            0 <= r < rows && 0 <= q < cols ==> #[trigger] f@[r]@[q] == BACKGROUND_COLOR,
{
    let mut f: Vec<Vec<SGR>> = Vec::with_capacity(rows);
    let mut y: usize = 0;
    while y < rows
        invariant
            0 <= y <= rows,
            f@.len() == y,
            forall|r: int| 0 <= r < y ==> (#[trigger] f@[r])@.len() == cols,
            forall|r: int, q: int|
                0 <= r < y && 0 <= q < cols ==> #[trigger] f@[r]@[q] == BACKGROUND_COLOR,
        decreases rows - y,
    {
        let mut row: Vec<SGR> = Vec::with_capacity(cols);
        let mut x: usize = 0;
        while x < cols
            invariant
                0 <= x <= cols,
                row@.len() == x,
                forall|q: int| 0 <= q < x ==> #[trigger] row@[q] == BACKGROUND_COLOR,
            decreases cols - x,
        {
            row.push(BACKGROUND_COLOR);
            x += 1;
        }
        f.push(row);
        y += 1;
    }
    f
}

/// The title's glyphs all lie left of the box.
proof fn lemma_title_left_of_box(cols: int)
    requires
        cols >= 100,
    ensures
        cols / 15 + cols / 12 + 4 <= cols / 4,
        cols / 15 + (cols / 12) / 2 + cols / 15 - 3 <= cols / 4,
{
    assert(cols / 15 + cols / 12 + 4 <= cols / 4) by (nonlinear_arith)
        requires
            cols >= 100,
    ;
    assert(cols / 15 + (cols / 12) / 2 + cols / 15 - 3 <= cols / 4) by (nonlinear_arith)
        requires
            cols >= 100,
    ;
}

/// `f` has the shape of `g` and the same cells from column `ox` on.
pub open spec fn kept_from(f: Seq<Vec<SGR>>, g: Seq<Vec<SGR>>, ox: int) -> bool {
    &&& f.len() == g.len()
    &&& forall|r: int| 0 <= r < g.len() ==> (#[trigger] f[r])@.len() == g[r]@.len()
    &&& forall|r: int, q: int|
        0 <= r < g.len() && ox <= q < g[r]@.len() ==> #[trigger] f[r]@[q] == g[r]@[q]
}

/// Sets one cell left of column `ox`.
fn put_left(frame: &mut Vec<Vec<SGR>>, y: usize, x: usize, c: SGR, ox: usize)
    requires
        x < ox,
    ensures
        kept_from(final(frame)@, old(frame)@, ox as int),
{
    put(frame, y, x, c);
}

/// Where the title goes: its left column, its width and the height of a
/// glyph, with the box's left column.
fn title_metrics(l: &Layout) -> (m: (usize, usize, usize, usize))
    requires
        l.wf(),
    ensures
        m.0 == l.term_size.cols / 15,
        m.1 == l.term_size.cols / 12,
        m.2 == (l.term_size.rows - 2) / 6,
        m.3 == l.offset.cols,
        m.0 >= 6 && m.1 >= 8 && m.2 >= 5,
        m.0 <= 4369 && m.1 <= 5462 && m.2 <= 10923,
        m.0 + m.1 + 4 <= m.3,
        m.0 + m.1 / 2 + m.0 - 3 <= m.3,
{
    proof {
        lemma_title_left_of_box(l.term_size.cols as int);
    }
    (
        (l.term_size.cols / 15) as usize,
        (l.term_size.cols / 12) as usize,
        ((l.term_size.rows - 2) / 6) as usize,
        l.offset.cols as usize,
    )
}

/// The first glyph, a bracket open to the left.
#[verifier::loop_isolation(false)]
fn draw_glyph_ko(frame: &mut Vec<Vec<SGR>>, l: &Layout)
    requires
        l.wf(),
    ensures
        kept_from(final(frame)@, old(frame)@, l.offset.cols as int),
{
    let (rt_ox, rt_w, rt_h, ox) = title_metrics(l);
    let ghost start = frame@;
    let rt_oy: usize = 1;
    let c1 = SGR::BlueBG;
    let mut x = rt_ox;
    while x < rt_w + rt_ox
        invariant
            kept_from(frame@, start, ox as int),
            rt_ox <= x <= rt_w + rt_ox,
        decreases rt_w + rt_ox - x,
    {
        put_left(frame, rt_oy, x, c1, ox);
        put_left(frame, rt_oy + rt_h - 1, x, c1, ox);
        x += 1;
    }
    let mut y = rt_oy;
    while y < rt_h + rt_oy
        invariant
            kept_from(frame@, start, ox as int),
            rt_oy <= y <= rt_h + rt_oy,
        decreases rt_h + rt_oy - y,
    {
        put_left(frame, y, rt_ox + rt_w, c1, ox);
        y += 1;
    }
}

/// The second glyph, a square.
#[verifier::loop_isolation(false)]
fn draw_glyph_ro(frame: &mut Vec<Vec<SGR>>, l: &Layout)
    requires
        l.wf(),
    ensures
        kept_from(final(frame)@, old(frame)@, l.offset.cols as int),
{
    let (rt_ox, rt_w, rt_h, ox) = title_metrics(l);
    let ghost start = frame@;
    let rt_oy: usize = 1;
    let c2 = SGR::CyanBG;
    let base_y = rt_oy + rt_h + 1;
    let mut x = rt_ox;
    while x < rt_w + rt_ox
        invariant
            kept_from(frame@, start, ox as int),
            rt_ox <= x <= rt_w + rt_ox,
        decreases rt_w + rt_ox - x,
    {
        put_left(frame, base_y, x, c2, ox);
        put_left(frame, base_y + rt_h - 2, x, c2, ox);
        x += 1;
    }
    let mut y = rt_oy + rt_h + 1;
    while y < base_y + rt_h
        invariant
            kept_from(frame@, start, ox as int),
            y <= base_y + rt_h,
        decreases base_y + rt_h - y,
    {
        put_left(frame, y, rt_ox, c2, ox);
        put_left(frame, y, rt_ox + rt_w, c2, ox);
        y += 1;
    }
}

/// The third glyph, a bar over a stroke, with two ticks.
#[verifier::loop_isolation(false)]
fn draw_glyph_de(frame: &mut Vec<Vec<SGR>>, l: &Layout)
    requires
        l.wf(),
    ensures
        kept_from(final(frame)@, old(frame)@, l.offset.cols as int),
{
    let (rt_ox, rt_w, rt_h, ox) = title_metrics(l);
    let ghost start = frame@;
    let rt_oy: usize = 1;
    let c3 = SGR::GreenBG;
    let base_y = rt_oy + rt_h * 2 + 2;
    put_left(frame, base_y, rt_ox + rt_w, c3, ox);
    put_left(frame, base_y + 1, rt_ox + rt_w + 1, c3, ox);
    put_left(frame, base_y, rt_ox + rt_w + 2, c3, ox);
    put_left(frame, base_y + 1, rt_ox + rt_w + 1 + 2, c3, ox);
    let mut x = rt_ox + 1;
    while x < rt_w + rt_ox - 1
        invariant
            kept_from(frame@, start, ox as int),
            x <= rt_w + rt_ox,
        decreases rt_w + rt_ox - x,
    {
        put_left(frame, base_y, x, c3, ox);
        x += 1;
    }
    let mut x = rt_ox;
    while x < rt_w + rt_ox
        invariant
            kept_from(frame@, start, ox as int),
            x <= rt_w + rt_ox,
        decreases rt_w + rt_ox - x,
    {
        put_left(frame, base_y + 2, x, c3, ox);
        x += 1;
    }
    let mut i: usize = 0;
    while i < 4
        invariant
            kept_from(frame@, start, ox as int),
            i <= 4,
        decreases 4 - i,
    {
        put_left(frame, base_y + 3 + i, rt_ox + rt_w / 2 - i, c3, ox);
        put_left(frame, base_y + 2 + i, rt_ox + rt_w / 2 - i, c3, ox);
        i += 1;
    }
    if rt_ox < rt_ox + rt_w / 2 - 4 {
        let mut x = rt_ox;
        while x <= rt_ox + rt_w / 2 - 4
            invariant
                kept_from(frame@, start, ox as int),
                x <= rt_ox + rt_w / 2 - 3,
            decreases rt_ox + rt_w / 2 - 3 - x,
        {
            put_left(frame, base_y + 3 + 3, x, c3, ox);
            x += 1;
        }
    }
}

/// The fourth glyph, a slanted stroke over a stem.
#[verifier::loop_isolation(false)]
fn draw_glyph_i(frame: &mut Vec<Vec<SGR>>, l: &Layout)
    requires
        l.wf(),
    ensures
        kept_from(final(frame)@, old(frame)@, l.offset.cols as int),
{
    let (rt_ox, rt_w, rt_h, ox) = title_metrics(l);
    let ghost start = frame@;
    let rt_oy: usize = 1;
    let c4 = SGR::MagentaBG;
    let base_y = rt_oy + rt_h * 2 + 9;
    let mut i: usize = 0;
    while i * 4 <= rt_w
        invariant
            kept_from(frame@, start, ox as int),
            i * 4 <= rt_w + 4,
        decreases rt_w + 4 - i * 4,
    {
        let mut j: usize = 0;
        while j < 4
            invariant
                kept_from(frame@, start, ox as int),
                j <= 4,
                i * 4 <= rt_w,
            decreases 4 - j,
        {
            put_left(frame, base_y + i, rt_ox + rt_w - i * 4 - j, c4, ox);
            j += 1;
        }
        i += 1;
    }
    let mut y = base_y + 1;
    while y < base_y + 1 + rt_h
        invariant
            kept_from(frame@, start, ox as int),
            y <= base_y + 1 + rt_h,
        decreases base_y + 1 + rt_h - y,
    {
        put_left(frame, y, rt_ox + rt_w / 2, c4, ox);
        put_left(frame, y, rt_ox + rt_w / 2 + 1, c4, ox);
        y += 1;
    }
}

/// The fifth glyph, a bar with a stroke down to the left and one down to
/// the right.
#[verifier::loop_isolation(false)]
fn draw_glyph_su(frame: &mut Vec<Vec<SGR>>, l: &Layout)
    requires
        l.wf(),
    ensures
        kept_from(final(frame)@, old(frame)@, l.offset.cols as int),
{
    let (rt_ox, rt_w, rt_h, ox) = title_metrics(l);
    let ghost start = frame@;
    let rt_oy: usize = 1;
    let c5 = SGR::RedBG;
    let base_y = rt_oy + rt_h * 3 + 11;
    let mut x = rt_ox;
    while x < rt_w + rt_ox
        invariant
            kept_from(frame@, start, ox as int),
            x <= rt_w + rt_ox,
        decreases rt_w + rt_ox - x,
    {
        put_left(frame, base_y, x, c5, ox);
        x += 1;
    }
    let mut i: usize = 0;
    let mut done = false;
    while !done && i * 2 <= rt_w
        invariant
            kept_from(frame@, start, ox as int),
            i * 2 <= rt_w + 2,
        decreases rt_w + 2 - i * 2,
    {
        let mut j: usize = 0;
        while !done && j < 2
            invariant
                kept_from(frame@, start, ox as int),
                j <= 2,
                i * 2 <= rt_w,
            decreases 2 - j,
        {
            if i * 2 + j + 1 >= rt_w {
                done = true;
            } else {
                put_left(frame, base_y + 1 + i, rt_ox + rt_w - i * 2 - j - 1, c5, ox);
            }
            j += 1;
        }
        i += 1;
    }
    let stop = rt_ox - 3;
    let mut i: usize = 0;
    let mut done = false;
    while !done && i * 2 <= rt_w
        invariant
            kept_from(frame@, start, ox as int),
            !done ==> i * 2 < stop,
            i * 2 <= rt_w + 2,
        decreases rt_w + 2 - i * 2,
    {
        let mut j: usize = 0;
        while !done && j < 2
            invariant
                kept_from(frame@, start, ox as int),
                !done ==> i * 2 + j < stop,
                j <= 2,
                i * 2 <= rt_w,
            decreases 2 - j,
        {
            if i * 2 + j + 1 == stop {
                done = true;
            } else {
                put_left(
                    frame,
                    base_y + 1 + i + rt_h / 2,
                    rt_ox + rt_w / 2 + i * 2 + j + 1,
                    c5,
                    ox,
                );
            }
            j += 1;
        }
        i += 1;
    }
}

/// Paints the title, five glyphs stacked on the left of the terminal, all
/// left of the box.
fn draw_title(frame: &mut Vec<Vec<SGR>>, l: &Layout)
    requires
        l.wf(),
    ensures
        kept_from(final(frame)@, old(frame)@, l.offset.cols as int),
{
    draw_glyph_ko(frame, l);
    draw_glyph_ro(frame, l);
    draw_glyph_de(frame, l);
    draw_glyph_i(frame, l);
    draw_glyph_su(frame, l);
}

impl GameManager {
    /// The terminal's frame: the title, wholly left of the box, and the box
    /// around the board and the preview panel. From the box's left column
    /// on, every cell off the box is background, so the board and the panel
    /// start empty. The box is painted last, so its cells keep its color.
    #[verifier::loop_isolation(false)]
    pub fn draw_tetris_box(l: &Layout) -> (frame: Vec<Vec<SGR>>)
        requires
            l.wf(),
        ensures
            frame@.len() == l.term_size.rows,
            forall|r: int| 0 <= r < l.term_size.rows ==> (#[trigger] frame@[r])@.len() == l.term_size.cols,
            forall|y: int, x: int| #[trigger] on_box(*l, y, x) ==> frame@[y]@[x] == BOX_COLOR,
            forall|y: int, x: int|
                0 <= y < l.term_size.rows && l.offset.cols <= x < l.term_size.cols && !on_box(
                    *l,
                    y,
                    x,
                ) ==> #[trigger] frame@[y]@[x] == BACKGROUND_COLOR,
    {
        let rows = l.term_size.rows as usize;
        let cols = l.term_size.cols as usize;
        let mut frame = blank_frame(rows, cols);
        let ghost blank = frame@;
        draw_title(&mut frame, l);
        let h = l.tetris_size.rows as usize;
        let w = l.tetris_size.cols as usize;
        let oy = l.offset.rows as usize;
        let ox = l.offset.cols as usize;
        let border_x = ox + w - (w / 5);
        assert(oy + h < rows && ox + w <= cols);
        assert forall|yy: int, xx: int|
            0 <= yy < rows && ox <= xx < cols && !on_box(*l, yy, xx) implies #[trigger] frame@[yy]@[xx]
                == BACKGROUND_COLOR by {
            assert(frame@[yy]@[xx] == blank[yy]@[xx]);
        }
        let mut y = oy;
        while y < h + oy
            invariant
                frame@.len() == rows,
                forall|r: int| 0 <= r < rows ==> (#[trigger] frame@[r])@.len() == cols,
                l.wf(),
                rows == l.term_size.rows,
                cols == l.term_size.cols,
                h == l.tetris_size.rows,
                w == l.tetris_size.cols,
                oy == l.offset.rows,
                ox == l.offset.cols,
                border_x == panel_border(*l),
                oy + h < rows,
                ox + w <= cols,
                w >= 50,
                oy <= y <= h + oy,
                forall|yy: int, xx: int|
                    yy < y && #[trigger] on_box(*l, yy, xx) ==> frame@[yy]@[xx] == BOX_COLOR,
                forall|yy: int, xx: int|
                    0 <= yy < rows && ox <= xx < cols && !on_box(*l, yy, xx)
                        ==> #[trigger] frame@[yy]@[xx] == BACKGROUND_COLOR,
            decreases h + oy - y,
        {
            if y == oy || y == h + oy - 1 {
                let mut x = ox;
                while x < w + ox
                    invariant
                        frame@.len() == rows,
                        forall|r: int| 0 <= r < rows ==> (#[trigger] frame@[r])@.len() == cols,
                        oy <= y < h + oy,
                        oy + h < rows,
                        ox + w <= cols,
                        ox <= x <= w + ox,
                        forall|xx: int| ox <= xx < x ==> #[trigger] frame@[y as int]@[xx] == BOX_COLOR,
                        forall|yy: int, xx: int|
                            yy < y && #[trigger] on_box(*l, yy, xx) ==> frame@[yy]@[xx] == BOX_COLOR,
                        forall|yy: int, xx: int|
                            0 <= yy < rows && ox <= xx < cols && !on_box(*l, yy, xx)
                                ==> #[trigger] frame@[yy]@[xx] == BACKGROUND_COLOR,
                    decreases w + ox - x,
                {
                    let ghost prev = frame@;
                    assert(on_box(*l, y as int, x as int));
                    put(&mut frame, y, x, BOX_COLOR);
                    assert forall|yy: int, xx: int|
                        yy < y && #[trigger] on_box(*l, yy, xx) implies frame@[yy]@[xx]
                            == BOX_COLOR by {
                        assert(prev[yy]@[xx] == BOX_COLOR);
                    }
                    assert forall|xx: int| ox <= xx < x + 1 implies #[trigger] frame@[y as int]@[xx]
                        == BOX_COLOR by {
                        if xx < x {
                            assert(prev[y as int]@[xx] == BOX_COLOR);
                        }
                    }
                    x += 1;
                }
            } else {
                let ghost prev = frame@;
                assert(on_box(*l, y as int, ox as int));
                put(&mut frame, y, ox, BOX_COLOR);
                let ghost mid = frame@;
                assert(on_box(*l, y as int, w + ox - 1));
                put(&mut frame, y, w + ox - 1, BOX_COLOR);
                assert forall|yy: int, xx: int|
                    yy < y && #[trigger] on_box(*l, yy, xx) implies frame@[yy]@[xx] == BOX_COLOR by {
                    assert(prev[yy]@[xx] == BOX_COLOR);
                    assert(mid[yy]@[xx] == BOX_COLOR);
                }
            }
            let ghost before = frame@;
            assert(on_box(*l, y as int, border_x as int));
            put(&mut frame, y, border_x, BOX_COLOR);
            assert forall|yy: int, xx: int|
                yy < y + 1 && #[trigger] on_box(*l, yy, xx) implies frame@[yy]@[xx] == BOX_COLOR by {
                assert(ox <= xx < ox + w);
                if yy < y {
                    assert(before[yy]@[xx] == BOX_COLOR);
                } else if xx != border_x {
                    if y == oy || y == h + oy - 1 {
                        assert(before[yy]@[xx] == BOX_COLOR);
                    } else {
                        assert(xx == ox || xx == ox + w - 1);
                        assert(before[yy]@[xx] == BOX_COLOR);
                    }
                }
            }
            y += 1;
        }
        frame
    }
}

} // verus!
