pub mod escape;
pub mod graphics;
pub mod types;

use nanorand::WyRand;
use vstd::prelude::*;

use crate::utils::{Size, Uvec2, SGR};
use types::{
    moved, on_board, points, rotated, rotation_fits, shape_cells, shift_fits, Tetrominoe,
};

verus! {

/// The color of an empty board cell.
pub const BACKGROUND_COLOR: SGR = SGR::BlackBG;

/// Whether the `s` by `s` block of some cell covers row `r`, column `c`.
pub open spec fn covered(cells: Seq<(int, int)>, s: int, r: int, c: int) -> bool {
    exists|i: int|
        0 <= i < cells.len() && #[trigger] cells[i].0 <= c < cells[i].0 + s && cells[i].1 <= r
            < cells[i].1 + s
}

/// `g` with every cell covered by the blocks of `cells` set to `color`.
pub open spec fn painted(g: Seq<Seq<SGR>>, cells: Seq<(int, int)>, s: int, color: SGR) -> Seq<
    Seq<SGR>,
> {
    Seq::new(
        g.len(),
        |r: int|
            Seq::new(
                g[r].len(),
                |c: int|
                    if covered(cells, s, r, c) {
                        color
                    } else {
                        g[r][c]
                    },
            ),
    )
}

/// A row all of whose cells are painted.
pub open spec fn row_full(row: Seq<SGR>) -> bool {
    forall|c: int| 0 <= c < row.len() ==> #[trigger] row[c] != BACKGROUND_COLOR
}

/// `g` with every full row turned back to the background.
pub open spec fn rows_cleared(g: Seq<Seq<SGR>>) -> Seq<Seq<SGR>> {
    g.map_values(
        |row: Seq<SGR>|
            if row_full(row) {
                Seq::new(row.len(), |c: int| BACKGROUND_COLOR)
            } else {
                row
            },
    )
}

/// Whether the bottom of some cell's block reaches the recorded height of
/// the cell's column.
pub open spec fn collides(cells: Seq<(int, int)>, s: int, heights: Seq<usize>) -> bool {
    exists|i: int|
        0 <= i < cells.len() && #[trigger] cells[i].1 + s - 1 >= heights[cells[i].0] as int
}

/// Height `h` of column `c` once `cells` have landed: the smallest of `h`
/// and the rows of the cells that lie in column `c`.
pub open spec fn lowered(h: int, cells: Seq<(int, int)>, c: int) -> int
    decreases cells.len(),
{
    if cells.len() == 0 {
        h
    } else {
        let rest = lowered(h, cells.drop_last(), c);
        let p = cells.last();
        if p.0 == c && p.1 < rest {
            p.1
        } else {
            rest
        }
    }
}

/// Landing only ever raises the stack: a recorded height never grows.
pub proof fn lemma_lowered_never_grows(h: int, cells: Seq<(int, int)>, c: int)
    ensures
        lowered(h, cells, c) <= h,
    decreases cells.len(),
{
    if cells.len() > 0 {
        lemma_lowered_never_grows(h, cells.drop_last(), c);
    }
}

/// After a landing, column `c` is at least as high as each landed cell of it.
pub proof fn lemma_lowered_reaches_cells(h: int, cells: Seq<(int, int)>, c: int, i: int)
    requires
        0 <= i < cells.len(),
        cells[i].0 == c,
    ensures
        lowered(h, cells, c) <= cells[i].1,
    decreases cells.len(),
{
    let rest = cells.drop_last();
    if i < cells.len() - 1 {
        assert(rest[i] == cells[i]);
        lemma_lowered_reaches_cells(h, rest, c, i);
    }
}

/// How many rows of `g` are full.
pub open spec fn full_rows(g: Seq<Seq<SGR>>) -> nat
    decreases g.len(),
{
    if g.len() == 0 {
        0
    } else {
        full_rows(g.drop_last()) + if row_full(g.last()) {
            1nat
        } else {
            0nat
        }
    }
}

/// The first painted row of column `c` from row `y` down, or the floor row
/// `g.len() - 1` where there is none.
pub open spec fn top_from(g: Seq<Seq<SGR>>, c: int, y: int) -> int
    decreases g.len() - y,
{
    if y < 0 || y >= g.len() {
        g.len() - 1
    } else if g[y][c] != BACKGROUND_COLOR {
        y
    } else {
        top_from(g, c, y + 1)
    }
}

/// The top painted row of column `c`, or the floor row where there is none.
pub open spec fn column_top(g: Seq<Seq<SGR>>, c: int) -> int {
    top_from(g, c, 0)
}

/// A landing whose cells in column `c` all lie at or below its height `h`
/// leaves the height as it was.
pub proof fn lemma_lower_landing_keeps_height(h: int, cells: Seq<(int, int)>, c: int)
    requires
        forall|i: int| 0 <= i < cells.len() && #[trigger] cells[i].0 == c ==> cells[i].1 >= h,
    ensures
        lowered(h, cells, c) == h,
    decreases cells.len(),
{
    if cells.len() > 0 {
        let rest = cells.drop_last();
        assert forall|i: int| 0 <= i < rest.len() && #[trigger] rest[i].0 == c implies rest[i].1
            >= h by {
            assert(rest[i] == cells[i]);
        }
        lemma_lower_landing_keeps_height(h, rest, c);
        assert(cells.last() == cells[cells.len() - 1]);
    }
}

/// Two landings in a row: when the first piece has a cell in column `c` and
/// every cell of the second in that column lies below every cell of the
/// first there, the second landing leaves the column's height as the first
/// one left it.
pub proof fn lemma_commit_below_keeps_height(h: int, a: Seq<(int, int)>, b: Seq<(int, int)>, c: int)
    requires
        exists|i: int| 0 <= i < a.len() && #[trigger] a[i].0 == c,
        forall|i: int, j: int|
            0 <= i < a.len() && 0 <= j < b.len() && #[trigger] a[i].0 == c && #[trigger] b[j].0
                == c ==> b[j].1 > a[i].1,
    ensures
        lowered(lowered(h, a, c), b, c) == lowered(h, a, c),
{
    let i = choose|i: int| 0 <= i < a.len() && #[trigger] a[i].0 == c;
    lemma_lowered_reaches_cells(h, a, c, i);
    let h1 = lowered(h, a, c);
    assert forall|j: int| 0 <= j < b.len() && #[trigger] b[j].0 == c implies b[j].1 >= h1 by {
        assert(b[j].1 > a[i].1);
    }
    lemma_lower_landing_keeps_height(h1, b, c);
}

/// A board without full rows is left as it is by clearing.
pub proof fn lemma_no_full_rows(g: Seq<Seq<SGR>>)
    ensures
        full_rows(g) == 0 ==> rows_cleared(g) == g,
    decreases g.len(),
{
    if full_rows(g) == 0 && g.len() > 0 {
        let rest = g.drop_last();
        lemma_no_full_rows(rest);
        assert forall|r: int| 0 <= r < g.len() implies #[trigger] rows_cleared(g)[r] == g[r] by {
            if r < g.len() - 1 {
                assert(rest[r] == g[r]);
                assert(rows_cleared(rest)[r] == rest[r]);
            }
        }
        assert(rows_cleared(g) =~= g);
    }
}

/// The piece had no cell to land.
#[derive(Clone, Copy, PartialEq, Eq, Debug, Structural)]
pub struct NoLandingCells;

/// The state of a game: the board, the skyline of landed cells, the falling
/// piece and the queue of the next three.
pub struct GameManager {
    /// The board, row by row.
    pub cells: Vec<Vec<SGR>>,
    /// For each column, the top row reached by landed cells.
    pub cols_borders: Vec<usize>,
    pub tetrominoe: Tetrominoe,
    pub next_tetrominoes: Vec<Tetrominoe>,
    pub pause: bool,
    /// Board cells per side of a piece's cell.
    pub scale: usize,
    /// The board's extent.
    pub inner_box_size: Size,
    pub rng: WyRand,
}

impl GameManager {
    pub open spec fn grid(&self) -> Seq<Seq<SGR>> {
        self.cells@.map_values(|row: Vec<SGR>| row@)
    }

    pub open spec fn heights(&self) -> Seq<usize> {
        self.cols_borders@
    }

    pub open spec fn rows(&self) -> int {
        self.inner_box_size.rows as int
    }

    pub open spec fn cols(&self) -> int {
        self.inner_box_size.cols as int
    }

    /// The board has its extent, the skyline one height per column, and the
    /// falling piece lies on the board.
    pub open spec fn board_wf(&self) -> bool {
        &&& self.scale >= 1
        &&& 4 * self.scale <= self.cols()
        &&& self.cells@.len() == self.rows()
        &&& forall|r: int| 0 <= r < self.rows() ==> (#[trigger] self.cells@[r])@.len() == self.cols()
        &&& self.cols_borders@.len() == self.cols()
        &&& forall|c: int| 0 <= c < self.cols() ==> #[trigger] self.cols_borders@[c] < self.rows()
        &&& self.tetrominoe.wf()
        &&& self.tetrominoe.scale == self.scale
        &&& self.tetrominoe.inner_box_size == self.inner_box_size
        &&& on_board(self.tetrominoe.cells(), self.inner_box_size)
    }

    /// Whether the falling piece has reached the stack or the floor.
    pub fn is_collision(&self) -> (r: bool)
        requires
            self.board_wf(),
        ensures
            r == collides(self.tetrominoe.cells(), self.scale as int, self.heights()),
    {
        let gapscale = self.scale - 1;
        let mut i: usize = 0;
        while i < self.tetrominoe.vertices_pos.len()
            invariant
                self.board_wf(),
                gapscale == self.scale - 1,
                0 <= i <= 4,
                forall|j: int|
                    0 <= j < i ==> !(#[trigger] self.tetrominoe.cells()[j].1 + self.scale - 1
                        >= self.heights()[self.tetrominoe.cells()[j].0] as int),
            decreases 4 - i,
        {
            let vp = self.tetrominoe.vertices_pos[i];
            assert(self.tetrominoe.cells()[i as int] == (vp.x as int, vp.y as int));
            assert(self.tetrominoe.cells()[i as int].0 < self.cols());
            let ny = vp.y + gapscale;
            if ny >= self.cols_borders[vp.x] {
                return true;
            }
            i += 1;
        }
        false
    }

    /// Records the landing of the falling piece: the piece's cells are grouped
    /// by column, and each column that holds some gets as its height the
    /// smaller of its height and the top row among them. Fails, changing
    /// nothing, when the piece has no cell.
    pub fn log_new_border(&mut self) -> (r: Result<(), NoLandingCells>)
        requires
            old(self).cols_borders@.len() == old(self).cols(),
            old(self).scale >= 1,
        ensures
            r is Err <==> old(self).tetrominoe.vertices_pos@.len() == 0,
            final(self).cols_borders@.len() == old(self).cols_borders@.len(),
            forall|c: int|
                0 <= c < old(self).cols() ==> #[trigger] final(self).cols_borders@[c] == lowered(
                    old(self).cols_borders@[c] as int,
                    old(self).tetrominoe.cells(),
                    c,
                ),
            forall|c: int|
                0 <= c < old(self).cols() ==> #[trigger] final(self).cols_borders@[c]
                    <= old(self).cols_borders@[c],
            final(self).cells == old(self).cells,
            final(self).tetrominoe == old(self).tetrominoe,
            final(self).next_tetrominoes == old(self).next_tetrominoes,
            final(self).pause == old(self).pause,
            final(self).scale == old(self).scale,
            final(self).inner_box_size == old(self).inner_box_size,
    {
        let n = self.tetrominoe.vertices_pos.len();
        if n == 0 {
            return Err(NoLandingCells);
        }
        let ghost cells = self.tetrominoe.cells();
        let ghost start = self.cols_borders@;
        let cols = self.cols_borders.len();
        let mut i: usize = 0;
        while i < n
            invariant
                n == self.tetrominoe.vertices_pos@.len(),
                cells == self.tetrominoe.cells(),
                cols == self.cols_borders@.len(),
                cols == start.len(),
                0 <= i <= n,
                forall|c: int|
                    0 <= c < cols ==> #[trigger] self.cols_borders@[c] == lowered(
                        start[c] as int,
                        cells.take(i as int),
                        c,
                    ),
                self.cells == old(self).cells,
                self.tetrominoe == old(self).tetrominoe,
                self.next_tetrominoes == old(self).next_tetrominoes,
                self.pause == old(self).pause,
                self.scale == old(self).scale,
                self.inner_box_size == old(self).inner_box_size,
                start == old(self).cols_borders@,
            decreases n - i,
        {
            let vp = self.tetrominoe.vertices_pos[i];
            proof {
                assert(cells.take(i + 1).drop_last() =~= cells.take(i as int));
                assert(cells.take(i + 1).last() == (vp.x as int, vp.y as int));
            }
            if vp.x < cols && self.cols_borders[vp.x] > vp.y {
                self.cols_borders.set(vp.x, vp.y);
            }
            i += 1;
        }
        assert(cells.take(n as int) =~= cells);
        proof {
            assert forall|c: int| 0 <= c < cols implies #[trigger] self.cols_borders@[c]
                <= start[c] by {
                lemma_lowered_never_grows(start[c] as int, cells, c);
            }
        }
        Ok(())
    }

    /// Turns every full row of the board back to the background, leaves the
    /// other rows as they were, and, where it cleared some, measures every
    /// column's height again from the board. Returns how many rows it
    /// cleared. A skyline that matched the board still matches it.
    pub fn check_row_clear(&mut self) -> (cleared: usize)
        requires
            old(self).board_wf(),
        ensures
            final(self).board_wf(),
            cleared == full_rows(old(self).grid()),
            final(self).grid() == rows_cleared(old(self).grid()),
            cleared == 0 ==> final(self).cols_borders == old(self).cols_borders,
            cleared > 0 ==> forall|c: int|
                0 <= c < old(self).cols() ==> #[trigger] final(self).heights()[c] == column_top(
                    final(self).grid(),
                    c,
                ),
            (forall|c: int|
                0 <= c < old(self).cols() ==> #[trigger] old(self).heights()[c] == column_top(
                    old(self).grid(),
                    c,
                )) ==> forall|c: int|
                0 <= c < old(self).cols() ==> #[trigger] final(self).heights()[c] == column_top(
                    final(self).grid(),
                    c,
                ),
            final(self).cells@.len() == old(self).cells@.len(),
            final(self).tetrominoe == old(self).tetrominoe,
            final(self).next_tetrominoes == old(self).next_tetrominoes,
            final(self).pause == old(self).pause,
            final(self).scale == old(self).scale,
            final(self).inner_box_size == old(self).inner_box_size,
    {
        let cleared = self.blank_full_rows();
        if cleared > 0 {
            self.rebuild_borders();
        } else {
            proof {
                lemma_no_full_rows(old(self).grid());
                assert(self.grid() =~= old(self).grid());
                assert(self.heights() == old(self).heights());
            }
        }
        cleared
    }

    fn blank_full_rows(&mut self) -> (cleared: usize)
        ensures
            cleared == full_rows(old(self).grid()),
            final(self).grid() == rows_cleared(old(self).grid()),
            final(self).cells@.len() == old(self).cells@.len(),
            forall|r: int|
                0 <= r < old(self).cells@.len() ==> (#[trigger] final(self).cells@[r])@.len()
                    == old(self).cells@[r]@.len(),
            final(self).cols_borders == old(self).cols_borders,
            final(self).tetrominoe == old(self).tetrominoe,
            final(self).next_tetrominoes == old(self).next_tetrominoes,
            final(self).pause == old(self).pause,
            final(self).scale == old(self).scale,
            final(self).inner_box_size == old(self).inner_box_size,
    {
        let ghost g = self.grid();
        let n = self.cells.len();
        let mut cleared: usize = 0;
        let mut r: usize = 0;
        while r < n
            invariant
                n == self.cells@.len(),
                g.len() == n,
                g == old(self).grid(),
                cleared == full_rows(g.take(r as int)),
                cleared <= r,
                0 <= r <= n,
                forall|k: int|
                    0 <= k < n ==> #[trigger] self.grid()[k] == (if k < r {
                        rows_cleared(g)[k]
                    } else {
                        g[k]
                    }),
                self.cols_borders == old(self).cols_borders,
                self.tetrominoe == old(self).tetrominoe,
                self.next_tetrominoes == old(self).next_tetrominoes,
                self.pause == old(self).pause,
                self.scale == old(self).scale,
                self.inner_box_size == old(self).inner_box_size,
            decreases n - r,
        {
            assert(self.grid()[r as int] == self.cells@[r as int]@);
            let len = self.cells[r].len();
            let mut full = true;
            let mut c: usize = 0;
            while c < len
                invariant
                    len == self.cells@[r as int]@.len(),
                    0 <= r < n == self.cells@.len(),
                    0 <= c <= len,
                    full == forall|k: int|
                        0 <= k < c ==> #[trigger] self.cells@[r as int]@[k] != BACKGROUND_COLOR,
                decreases len - c,
            {
                if self.cells[r][c] == BACKGROUND_COLOR {
                    full = false;
                }
                c += 1;
            }
            let ghost prev = self.cells@;
            let ghost prevg = self.grid();
            proof {
                assert(g.take(r + 1).drop_last() =~= g.take(r as int));
                assert(g.take(r + 1).last() == g[r as int]);
                assert(full == row_full(g[r as int]));
            }
            if full {
                cleared = cleared + 1;
                let mut blank: Vec<SGR> = Vec::with_capacity(len);
                let mut k: usize = 0;
                while k < len
                    invariant
                        0 <= k <= len,
                        blank@.len() == k,
                        forall|q: int| 0 <= q < k ==> #[trigger] blank@[q] == BACKGROUND_COLOR,
                    decreases len - k,
                {
                    blank.push(BACKGROUND_COLOR);
                    k += 1;
                }
                self.cells.set(r, blank);
                assert(self.grid()[r as int] =~= rows_cleared(g)[r as int]);
            } else {
                assert(self.grid()[r as int] == rows_cleared(g)[r as int]);
            }
            assert forall|k: int| 0 <= k < n && k != r implies #[trigger] self.grid()[k] == (if k
                < r + 1 {
                rows_cleared(g)[k]
            } else {
                g[k]
            }) by {
                assert(self.cells@[k] == prev[k]);
                assert(prevg[k] == prev[k]@);
                assert(self.grid()[k] == self.cells@[k]@);
            }
            r += 1;
        }
        assert(self.grid() =~= rows_cleared(g));
        assert forall|r: int| 0 <= r < n implies (#[trigger] self.cells@[r])@.len()
            == old(self).cells@[r]@.len() by {
            assert(self.grid()[r] == self.cells@[r]@);
            assert(g[r] == old(self).cells@[r]@);
        }
        assert(g.take(n as int) =~= g);
        cleared
    }

    /// Sets each column's height to the top row of its painted cells, or to
    /// the floor `rows - 1` where the column has none.
    pub fn rebuild_borders(&mut self)
        requires
            old(self).board_wf(),
        ensures
            final(self).board_wf(),
            final(self).cols_borders@.len() == old(self).cols_borders@.len(),
            forall|c: int|
                0 <= c < old(self).cols() ==> #[trigger] final(self).heights()[c] == column_top(
                    old(self).grid(),
                    c,
                ),
            forall|c: int|
                0 <= c < old(self).cols() ==> #[trigger] final(self).heights()[c] < old(
                    self,
                ).rows(),
            final(self).cells == old(self).cells,
            final(self).tetrominoe == old(self).tetrominoe,
            final(self).next_tetrominoes == old(self).next_tetrominoes,
            final(self).pause == old(self).pause,
            final(self).scale == old(self).scale,
            final(self).inner_box_size == old(self).inner_box_size,
    {
        let ghost g = self.grid();
        let rows = self.cells.len();
        let cols = self.cols_borders.len();
        let mut c: usize = 0;
        while c < cols
            invariant
                self.board_wf(),
                g == self.grid(),
                rows == self.rows(),
                rows == g.len(),
                cols == self.cols(),
                0 <= c <= cols,
                forall|k: int| 0 <= k < c ==> #[trigger] self.cols_borders@[k] == column_top(g, k),
                self.cells == old(self).cells,
                self.tetrominoe == old(self).tetrominoe,
                self.next_tetrominoes == old(self).next_tetrominoes,
                self.pause == old(self).pause,
                self.scale == old(self).scale,
                self.inner_box_size == old(self).inner_box_size,
            decreases cols - c,
        {
            assert(self.cols_borders@[c as int] < rows);
            let mut top: usize = rows - 1;
            let mut done = false;
            let mut y: usize = 0;
            while y < rows
                invariant
                    self.board_wf(),
                    g == self.grid(),
                    rows == g.len(),
                    rows == self.rows(),
                    cols == self.cols(),
                    0 <= c < cols,
                    0 <= y <= rows,
                    top < rows,
                    forall|k: int| 0 <= k < c ==> #[trigger] self.cols_borders@[k] == column_top(g, k),
                    done ==> top == column_top(g, c as int) && y == rows,
                    !done ==> top == rows - 1 && column_top(g, c as int) == top_from(
                        g,
                        c as int,
                        y as int,
                    ),
                decreases rows - y,
            {
                assert(g[y as int] == self.cells@[y as int]@);
                assert(g[y as int][c as int] == self.cells@[y as int]@[c as int]);
                if self.cells[y][c] != BACKGROUND_COLOR {
                    assert(top_from(g, c as int, y as int) == y);
                    top = y;
                    done = true;
                    y = rows;
                } else {
                    y += 1;
                }
            }
            assert(top_from(g, c as int, rows as int) == rows - 1);
            assert(top == column_top(g, c as int));
            let ghost prev = self.cols_borders@;
            self.cols_borders.set(c, top);
            assert forall|k: int| 0 <= k < c + 1 implies #[trigger] self.cols_borders@[k] == column_top(
                g,
                k,
            ) by {
                if k < c {
                    assert(prev[k] == column_top(g, k));
                }
            }
            c += 1;
        }
    }
}


/// Whether the block of some cell of `cells` covers row `r`, column `c`.
fn covers(cells: &Vec<Uvec2>, s: usize, r: usize, c: usize) -> (b: bool)
    ensures
        b == covered(points(cells@), s as int, r as int, c as int),
{
    let mut i: usize = 0;
    while i < cells.len()
        invariant
            0 <= i <= cells@.len(),
            forall|j: int|
                0 <= j < i ==> !(#[trigger] points(cells@)[j].0 <= c < points(cells@)[j].0 + s
                    && points(cells@)[j].1 <= r < points(cells@)[j].1 + s),
        decreases cells@.len() - i,
    {
        let p = cells[i];
        assert(points(cells@)[i as int] == (p.x as int, p.y as int));
        if p.x <= c && c - p.x < s && p.y <= r && r - p.y < s {
            assert(points(cells@)[i as int].0 <= c);
            return true;
        }
        i += 1;
    }
    false
}

/// Where the preview of rank `rank` in the queue has its pivot.
pub open spec fn preview_pos(cols: int, rank: int) -> (int, int) {
    (cols + cols / 9, 1 + 5 * rank)
}

impl GameManager {
    /// Paints the blocks of the falling piece in `color`, leaving every other
    /// cell of the board as it was.
    pub fn draw_tetrominoe(&mut self, color: SGR)
        ensures
            final(self).grid() == painted(
                old(self).grid(),
                old(self).tetrominoe.cells(),
                old(self).scale as int,
                color,
            ),
            final(self).cells@.len() == old(self).cells@.len(),
            forall|r: int|
                0 <= r < old(self).cells@.len() ==> (#[trigger] final(self).cells@[r])@.len()
                    == old(self).cells@[r]@.len(),
            final(self).cols_borders == old(self).cols_borders,
            final(self).tetrominoe == old(self).tetrominoe,
            final(self).next_tetrominoes == old(self).next_tetrominoes,
            final(self).pause == old(self).pause,
            final(self).scale == old(self).scale,
            final(self).inner_box_size == old(self).inner_box_size,
    {
        let ghost g = self.grid();
        let ghost target = painted(g, self.tetrominoe.cells(), self.scale as int, color);
        let n = self.cells.len();
        let mut r: usize = 0;
        while r < n
            invariant
                n == self.cells@.len(),
                g.len() == n,
                g == old(self).grid(),
                target == painted(g, self.tetrominoe.cells(), self.scale as int, color),
                0 <= r <= n,
                forall|k: int|
                    0 <= k < n ==> #[trigger] self.grid()[k] == (if k < r {
                        target[k]
                    } else {
                        g[k]
                    }),
                self.cols_borders == old(self).cols_borders,
                self.tetrominoe == old(self).tetrominoe,
                self.next_tetrominoes == old(self).next_tetrominoes,
                self.pause == old(self).pause,
                self.scale == old(self).scale,
                self.inner_box_size == old(self).inner_box_size,
            decreases n - r,
        {
            assert(self.grid()[r as int] == self.cells@[r as int]@);
            let len = self.cells[r].len();
            let mut row: Vec<SGR> = Vec::with_capacity(len);
            let mut c: usize = 0;
            while c < len
                invariant
                    len == self.cells@[r as int]@.len(),
                    0 <= r < n == self.cells@.len(),
                    self.grid()[r as int] == g[r as int],
                    g.len() == n,
                    target == painted(g, self.tetrominoe.cells(), self.scale as int, color),
                    0 <= c <= len,
                    row@.len() == c,
                    forall|q: int| 0 <= q < c ==> #[trigger] row@[q] == target[r as int][q],
                decreases len - c,
            {
                let v = if covers(&self.tetrominoe.vertices_pos, self.scale, r, c) {
                    color
                } else {
                    self.cells[r][c]
                };
                row.push(v);
                c += 1;
            }
            let ghost prev = self.cells@;
            let ghost prevg = self.grid();
            self.cells.set(r, row);
            assert(self.grid()[r as int] =~= target[r as int]);
            assert forall|k: int| 0 <= k < n && k != r implies #[trigger] self.grid()[k] == (if k
                < r + 1 {
                target[k]
            } else {
                g[k]
            }) by {
                assert(self.cells@[k] == prev[k]);
                assert(prevg[k] == prev[k]@);
                assert(self.grid()[k] == self.cells@[k]@);
            }
            r += 1;
        }
        assert(self.grid() =~= target);
        assert forall|r: int| 0 <= r < n implies (#[trigger] self.cells@[r])@.len()
            == old(self).cells@[r]@.len() by {
            assert(self.grid()[r] == self.cells@[r]@);
            assert(g[r] == old(self).cells@[r]@);
        }
    }

    /// Paints the blocks of the falling piece back to the background.
    pub fn clear_tetrominoe(&mut self)
        ensures
            final(self).grid() == painted(
                old(self).grid(),
                old(self).tetrominoe.cells(),
                old(self).scale as int,
                BACKGROUND_COLOR,
            ),
            final(self).cells@.len() == old(self).cells@.len(),
            forall|r: int|
                0 <= r < old(self).cells@.len() ==> (#[trigger] final(self).cells@[r])@.len()
                    == old(self).cells@[r]@.len(),
            final(self).cols_borders == old(self).cols_borders,
            final(self).tetrominoe == old(self).tetrominoe,
            final(self).next_tetrominoes == old(self).next_tetrominoes,
            final(self).pause == old(self).pause,
            final(self).scale == old(self).scale,
            final(self).inner_box_size == old(self).inner_box_size,
    {
        self.draw_tetrominoe(BACKGROUND_COLOR)
    }
}


impl GameManager {
    /// The queue holds three previews of scale 1 for this board.
    pub open spec fn queue_wf(&self) -> bool {
        &&& self.next_tetrominoes@.len() == 3
        &&& forall|i: int|
            0 <= i < 3 ==> {
                let t = #[trigger] self.next_tetrominoes@[i];
                &&& t.wf()
                &&& t.scale == 1
                &&& t.inner_box_size == self.inner_box_size
            }
    }

    /// The whole state is consistent, and a new piece fits on the board.
    pub open spec fn wf(&self) -> bool {
        &&& self.board_wf()
        &&& self.queue_wf()
        &&& 3 * self.scale + 1 < self.rows()
    }

    /// A fresh game on a board of `inner_box_size`: the board empty, every
    /// column at the floor `rows - 1`, a random falling piece on row 1 and
    /// three random previews.
    pub fn init(inner_box_size: Size, scale: usize, rng: WyRand, now: u64) -> (r: Self)
        requires
            scale >= 1,
            4 * scale <= inner_box_size.cols,
            3 * scale + 1 < inner_box_size.rows,
        ensures
            r.wf(),
            r.inner_box_size == inner_box_size,
            r.scale == scale,
            !r.pause,
            forall|y: int, x: int|
                0 <= y < inner_box_size.rows && 0 <= x < inner_box_size.cols
                    ==> #[trigger] r.grid()[y][x] == BACKGROUND_COLOR,
            forall|c: int|
                0 <= c < inner_box_size.cols ==> #[trigger] r.heights()[c] == inner_box_size.rows
                    - 1,
            exists|x: int|
                r.tetrominoe.cells() == shape_cells(r.tetrominoe.ttype, x, 1, scale as int),
            forall|i: int|
                0 <= i < 3 ==> (#[trigger] r.next_tetrominoes@[i]).cells() == shape_cells(
                    r.next_tetrominoes@[i].ttype,
                    preview_pos(inner_box_size.cols as int, i).0,
                    preview_pos(inner_box_size.cols as int, i).1,
                    1,
                ),
    {
        let mut rng = rng;
        let rows = inner_box_size.rows as usize;
        let cols = inner_box_size.cols as usize;
        let mut cells: Vec<Vec<SGR>> = Vec::with_capacity(rows);
        let mut y: usize = 0;
        while y < rows
            invariant
                0 <= y <= rows,
                cells@.len() == y,
                forall|k: int|
                    0 <= k < y ==> (#[trigger] cells@[k])@.len() == cols && forall|x: int|
                        0 <= x < cols ==> #[trigger] cells@[k]@[x] == BACKGROUND_COLOR,
            decreases rows - y,
        {
            let mut row: Vec<SGR> = Vec::with_capacity(cols);
            let mut x: usize = 0;
            while x < cols
                invariant
                    0 <= x <= cols,
                    row@.len() == x,
                    forall|q: int| 0 <= q < x ==> #[trigger] row@[q] == BACKGROUND_COLOR,
                decreases cols - x,
            {
                row.push(BACKGROUND_COLOR);
                x += 1;
            }
            cells.push(row);
            y += 1;
        }
        let mut cols_borders: Vec<usize> = Vec::with_capacity(cols);
        let mut x: usize = 0;
        while x < cols
            invariant
                0 <= x <= cols,
                rows >= 1,
                cols_borders@.len() == x,
                forall|q: int| 0 <= q < x ==> #[trigger] cols_borders@[q] == rows - 1,
            decreases cols - x,
        {
            cols_borders.push(rows - 1);
            x += 1;
        }
        let tetrominoe = Tetrominoe::new(&inner_box_size, scale, None, None, &mut rng, now);
        let mut next_tetrominoes: Vec<Tetrominoe> = Vec::with_capacity(3);
        let mut i: usize = 0;
        while i < 3
            invariant
                0 <= i <= 3,
                cols == inner_box_size.cols,
                1 <= cols <= u16::MAX,
                next_tetrominoes@.len() == i,
                forall|k: int|
                    0 <= k < i ==> {
                        let t = #[trigger] next_tetrominoes@[k];
                        &&& t.wf()
                        &&& t.scale == 1
                        &&& t.inner_box_size == inner_box_size
                        &&& t.cells() == shape_cells(
                            t.ttype,
                            preview_pos(cols as int, k).0,
                            preview_pos(cols as int, k).1,
                            1,
                        )
                    },
            decreases 3 - i,
        {
            let pos = Self::nt_pos_of(cols, i);
            let t = Tetrominoe::new(&inner_box_size, 1, None, Some(pos), &mut rng, now);
            next_tetrominoes.push(t);
            i += 1;
        }
        let r = Self {
            cells,
            cols_borders,
            tetrominoe,
            next_tetrominoes,
            pause: false,
            scale,
            inner_box_size,
            rng,
        };
        assert forall|y: int, x: int|
            0 <= y < inner_box_size.rows && 0 <= x < inner_box_size.cols
                implies #[trigger] r.grid()[y][x] == BACKGROUND_COLOR by {
            assert(r.grid()[y] == r.cells@[y]@);
        }
        r
    }

    fn nt_pos_of(cols: usize, rank: usize) -> (r: Uvec2)
        requires
            cols <= u16::MAX,
            rank <= 2,
        ensures
            (r.x as int, r.y as int) == preview_pos(cols as int, rank as int),
            cols >= 1 ==> r.x >= 1,
            r.x <= 2 * u16::MAX,
            r.y <= 11,
    {
        let x = cols + cols / 9;
        Uvec2::new(x, 1 + 5 * rank)
    }

    /// Where the preview of rank `rank` (0 to 2) has its pivot: beside the
    /// board, five rows apart.
    pub fn nt_pos(&self, rank: usize) -> (r: Uvec2)
        requires
            rank <= 2,
        ensures
            (r.x as int, r.y as int) == preview_pos(self.cols(), rank as int),
    {
        Self::nt_pos_of(self.inner_box_size.cols as usize, rank)
    }
}


impl GameManager {
    /// Promotes the head of the queue: it becomes the falling piece, at the
    /// board's scale on row 1 of a random column, keeping its shape and color;
    /// the two others move up one rank, and a random preview takes rank 2.
    pub fn pick_next_tetrominoe(&mut self, now: u64)
        requires
            old(self).wf(),
        ensures
            final(self).wf(),
            final(self).tetrominoe.ttype == old(self).next_tetrominoes@[0].ttype,
            final(self).tetrominoe.color == old(self).next_tetrominoes@[0].color,
            final(self).tetrominoe.now == now,
            final(self).tetrominoe.cells()[0].0 % old(self).scale as int == 0,
            exists|x: int|
                2 * old(self).scale <= x <= old(self).cols() - 2 * old(self).scale
                    && final(self).tetrominoe.cells() == shape_cells(
                    final(self).tetrominoe.ttype,
                    x,
                    1,
                    old(self).scale as int,
                ),
            final(self).next_tetrominoes@[0].ttype == old(self).next_tetrominoes@[1].ttype,
            final(self).next_tetrominoes@[0].color == old(self).next_tetrominoes@[1].color,
            final(self).next_tetrominoes@[1].ttype == old(self).next_tetrominoes@[2].ttype,
            final(self).next_tetrominoes@[1].color == old(self).next_tetrominoes@[2].color,
            forall|i: int|
                0 <= i < 3 ==> (#[trigger] final(self).next_tetrominoes@[i]).cells() == shape_cells(
                    final(self).next_tetrominoes@[i].ttype,
                    preview_pos(old(self).cols(), i).0,
                    preview_pos(old(self).cols(), i).1,
                    1,
                ),
            final(self).cells == old(self).cells,
            final(self).cols_borders == old(self).cols_borders,
            final(self).pause == old(self).pause,
            final(self).scale == old(self).scale,
            final(self).inner_box_size == old(self).inner_box_size,
    {
        let cols = self.inner_box_size.cols as usize;
        let head = self.next_tetrominoes.remove(0);
        self.tetrominoe = Tetrominoe::from_self(&head, Some(self.scale), None, &mut self.rng, now);
        let ghost shifted = self.next_tetrominoes@;
        let mut i: usize = 0;
        while i < 2
            invariant
                0 <= i <= 2,
                cols == self.inner_box_size.cols,
                4 <= cols <= u16::MAX,
                self.next_tetrominoes@.len() == 2,
                shifted.len() == 2,
                forall|k: int|
                    0 <= k < 2 ==> {
                        let t = #[trigger] self.next_tetrominoes@[k];
                        &&& t.wf()
                        &&& t.scale == 1
                        &&& t.inner_box_size == self.inner_box_size
                        &&& t.ttype == shifted[k].ttype
                        &&& t.color == shifted[k].color
                        &&& k < i ==> t.cells() == shape_cells(
                            t.ttype,
                            preview_pos(cols as int, k).0,
                            preview_pos(cols as int, k).1,
                            1,
                        )
                    },
                self.cells == old(self).cells,
                self.cols_borders == old(self).cols_borders,
                self.pause == old(self).pause,
                self.scale == old(self).scale,
                self.inner_box_size == old(self).inner_box_size,
                self.tetrominoe.ttype == old(self).next_tetrominoes@[0].ttype,
                self.tetrominoe.color == old(self).next_tetrominoes@[0].color,
                self.tetrominoe.now == now,
                self.tetrominoe.cells()[0].0 % old(self).scale as int == 0,
                self.tetrominoe.wf(),
                self.tetrominoe.scale == self.scale,
                self.tetrominoe.inner_box_size == self.inner_box_size,
                on_board(self.tetrominoe.cells(), self.inner_box_size),
                exists|x: int|
                    2 * old(self).scale <= x <= old(self).cols() - 2 * old(self).scale
                        && self.tetrominoe.cells() == shape_cells(
                        self.tetrominoe.ttype,
                        x,
                        1,
                        old(self).scale as int,
                    ),
            decreases 2 - i,
        {
            let pos = Self::nt_pos_of(cols, i);
            let t = Tetrominoe::from_self(
                &self.next_tetrominoes[i],
                None,
                Some(pos),
                &mut self.rng,
                now,
            );
            self.next_tetrominoes.set(i, t);
            i += 1;
        }
        let pos = Self::nt_pos_of(cols, 2);
        let fresh = Tetrominoe::new(&self.inner_box_size, 1, None, Some(pos), &mut self.rng, now);
        self.next_tetrominoes.push(fresh);
    }
}


/// Whether some cell lies on the spawn row.
pub open spec fn on_spawn_row(cells: Seq<(int, int)>) -> bool {
    exists|i: int| 0 <= i < cells.len() && #[trigger] cells[i].1 == 1
}

/// A piece that started with no cell above row 1 and has fallen at least one
/// row has left the spawn row: a collision after a fall is a landing, never
/// a game over.
pub proof fn lemma_fallen_piece_off_spawn_row(c: Seq<(int, int)>, k: int)
    requires
        forall|i: int| 0 <= i < c.len() ==> #[trigger] c[i].1 >= 1,
        k >= 1,
    ensures
        !on_spawn_row(moved(c, 0, k)),
{
    let m = moved(c, 0, k);
    assert forall|i: int| 0 <= i < m.len() implies #[trigger] m[i].1 != 1 by {
        assert(c[i].1 >= 1);
    }
}

impl GameManager {
    fn touches_spawn_row(&self) -> (r: bool)
        ensures
            r == on_spawn_row(self.tetrominoe.cells()),
    {
        let mut i: usize = 0;
        while i < self.tetrominoe.vertices_pos.len()
            invariant
                0 <= i <= self.tetrominoe.vertices_pos@.len(),
                forall|j: int| 0 <= j < i ==> #[trigger] self.tetrominoe.cells()[j].1 != 1,
            decreases self.tetrominoe.vertices_pos@.len() - i,
        {
            assert(self.tetrominoe.cells()[i as int].1 == self.tetrominoe.vertices_pos@[i as int].y);
            if self.tetrominoe.vertices_pos[i].y == 1 {
                return true;
            }
            i += 1;
        }
        false
    }

    /// Advances the simulation to time `now` (milliseconds) and returns whether
    /// the game is over. Nothing happens before the piece has rested its time.
    /// Then the piece is taken off the board; if it has reached the stack
    /// while a cell is on the spawn row the game is over; if it has reached
    /// the stack elsewhere it lands (skyline lowered, piece painted, full rows
    /// cleared and, if there were any, the skyline measured again from the
    /// board) and the head of the queue takes its place; otherwise it falls
    /// one row. The falling piece is then painted again.
    pub fn compute_next_frame(&mut self, now: u64) -> (r: bool)
        requires
            old(self).wf(),
        ensures
            final(self).wf(),
            ({
                let o = *old(self);
                let f = *final(self);
                let cells = o.tetrominoe.cells();
                let s = o.scale as int;
                let due = now - o.tetrominoe.now >= o.tetrominoe.still_time;
                let hit = collides(cells, s, o.heights());
                let lifted = painted(o.grid(), cells, s, BACKGROUND_COLOR);
                &&& r == (due && hit && on_spawn_row(cells))
                &&& !due ==> f == o
                &&& r ==> f.grid() == lifted && f.cols_borders == o.cols_borders && f.tetrominoe
                    == o.tetrominoe && f.next_tetrominoes == o.next_tetrominoes
                &&& due && !hit ==> {
                    &&& f.tetrominoe.cells() == moved(cells, 0, 1)
                    &&& f.tetrominoe.now == now
                    &&& f.tetrominoe.ttype == o.tetrominoe.ttype
                    &&& f.tetrominoe.color == o.tetrominoe.color
                    &&& f.tetrominoe.still_time == o.tetrominoe.still_time
                    &&& f.cols_borders == o.cols_borders
                    &&& f.next_tetrominoes == o.next_tetrominoes
                    &&& f.grid() == painted(lifted, moved(cells, 0, 1), s, o.tetrominoe.color)
                }
                &&& due && hit && !r ==> {
                    let landed = painted(lifted, cells, s, o.tetrominoe.color);
                    &&& full_rows(landed) == 0 ==> forall|c: int|
                        0 <= c < o.cols() ==> #[trigger] f.heights()[c] == lowered(
                            o.heights()[c] as int,
                            cells,
                            c,
                        )
                    &&& full_rows(landed) > 0 ==> forall|c: int|
                        0 <= c < o.cols() ==> #[trigger] f.heights()[c] == column_top(
                            rows_cleared(landed),
                            c,
                        )
                    &&& f.tetrominoe.ttype == o.next_tetrominoes@[0].ttype
                    &&& exists|x: int|
                        2 * o.scale <= x <= o.cols() - 2 * o.scale && f.tetrominoe.cells()
                            == shape_cells(f.tetrominoe.ttype, x, 1, s)
                    &&& f.tetrominoe.cells()[0].0 % s == 0
                    &&& f.tetrominoe.color == o.next_tetrominoes@[0].color
                    &&& f.tetrominoe.now == now
                    &&& f.next_tetrominoes@[0].ttype == o.next_tetrominoes@[1].ttype
                    &&& f.next_tetrominoes@[1].ttype == o.next_tetrominoes@[2].ttype
                    &&& f.grid() == painted(
                        rows_cleared(painted(lifted, cells, s, o.tetrominoe.color)),
                        f.tetrominoe.cells(),
                        s,
                        f.tetrominoe.color,
                    )
                }
            }),
            final(self).pause == old(self).pause,
            final(self).scale == old(self).scale,
            final(self).inner_box_size == old(self).inner_box_size,
    {
        if !self.tetrominoe.tick(now) {
            return false;
        }
        self.clear_tetrominoe();
        if self.is_collision() {
            if self.touches_spawn_row() {
                return true;
            }
            let color = self.tetrominoe.color;
            let ghost lifted = self.grid();
            let ghost cells = self.tetrominoe.cells();
            match self.log_new_border() {
                Ok(()) => {
                    let ghost lowered_heights = self.heights();
                    self.draw_tetrominoe(color);
                    let ghost landed = self.grid();
                    assert(landed == painted(lifted, cells, self.scale as int, color));
                    if self.check_row_clear() > 0 {
                        assert(forall|c: int|
                            0 <= c < self.cols() ==> #[trigger] self.heights()[c] == column_top(
                                rows_cleared(landed),
                                c,
                            ));
                    } else {
                        assert(full_rows(landed) == 0);
                        assert(self.heights() == lowered_heights);
                    }
                },
                Err(_) => {},
            }
            let ghost settled = self.heights();
            self.pick_next_tetrominoe(now);
            assert(self.heights() == settled);
        } else {
            proof {
                let c = self.tetrominoe.cells();
                assert forall|i: int| 0 <= i < 4 implies #[trigger] c[i].1 + 1 < self.rows() by {
                    assert(!(c[i].1 + self.scale - 1 >= self.heights()[c[i].0] as int));
                    assert(c[i].0 < self.cols());
                    assert(self.cols_borders@[c[i].0] < self.rows());
                }
                assert forall|i: int|
                    0 <= i < 4 implies #[trigger] self.tetrominoe.vertices_pos@[i].y
                        < usize::MAX by {
                    assert(c[i].1 + 1 < self.rows());
                }
            }
            self.tetrominoe.fall();
            self.tetrominoe.now = now;
            proof {
                let c = self.tetrominoe.cells();
                let o = old(self).tetrominoe.cells();
                assert forall|i: int| 0 <= i < c.len() implies 0 <= #[trigger] c[i].0
                    < self.cols() && 0 <= c[i].1 < self.rows() by {
                    assert(c[i] == (o[i].0, o[i].1 + 1));
                    assert(!(o[i].1 + self.scale - 1 >= self.heights()[o[i].0] as int));
                    assert(o[i].0 < self.cols());
                    assert(self.cols_borders@[o[i].0] < self.rows());
                }
            }
        }
        let color = self.tetrominoe.color;
        self.draw_tetrominoe(color);
        false
    }
}


/// A key press, as far as the game tells keys apart.
#[derive(Clone, Copy, PartialEq, Eq, Debug, Structural)]
pub enum Input {
    Quit,
    RotateClockwise,
    RotateCounterClockwise,
    Left,
    Right,
    Pause,
    Other,
}

/// What the game loop does after a step.
#[derive(Clone, Copy, PartialEq, Eq, Debug, Structural)]
pub enum Flow {
    /// A frame was computed: render it.
    Running,
    /// Nothing was computed: keep polling.
    Paused,
    Quit,
    GameOver,
}

/// The cells after a quarter turn, or the same cells where it is refused.
pub open spec fn turned(c: Seq<(int, int)>, clockwise: bool, size: Size, s: int) -> Seq<
    (int, int),
> {
    if rotation_fits(rotated(c, clockwise), size, s) {
        rotated(c, clockwise)
    } else {
        c
    }
}

/// The cells after a shift of `d` columns, or the same cells where it is refused.
pub open spec fn shifted(c: Seq<(int, int)>, d: int, size: Size, s: int) -> Seq<(int, int)> {
    if shift_fits(moved(c, d, 0), size, s) {
        moved(c, d, 0)
    } else {
        c
    }
}

/// Whether `input` moves the piece while the game is not paused.
pub open spec fn moves_piece(input: Input) -> bool {
    input == Input::RotateClockwise || input == Input::RotateCounterClockwise || input
        == Input::Left || input == Input::Right
}

/// The piece's cells after `input`.
pub open spec fn cells_after(c: Seq<(int, int)>, input: Input, pause: bool, size: Size, s: int) -> Seq<
    (int, int),
> {
    if pause {
        c
    } else {
        match input {
            Input::RotateClockwise => turned(c, true, size, s),
            Input::RotateCounterClockwise => turned(c, false, size, s),
            Input::Left => shifted(c, -s, size, s),
            Input::Right => shifted(c, s, size, s),
            _ => c,
        }
    }
}

impl GameManager {
    /// Applies a key press: quit is reported and changes nothing, pause
    /// toggles, and while the game runs a turn or a shift moves the piece at
    /// once (where the board lets it) and repaints it.
    pub fn handle_input(&mut self, input: Input) -> (quit: bool)
        requires
            old(self).wf(),
        ensures
            final(self).wf(),
            quit == (input == Input::Quit),
            quit ==> *final(self) == *old(self),
            final(self).pause == (if input == Input::Pause {
                !old(self).pause
            } else {
                old(self).pause
            }),
            final(self).tetrominoe.cells() == cells_after(
                old(self).tetrominoe.cells(),
                input,
                old(self).pause,
                old(self).inner_box_size,
                old(self).scale as int,
            ),
            final(self).tetrominoe.ttype == old(self).tetrominoe.ttype,
            final(self).tetrominoe.color == old(self).tetrominoe.color,
            final(self).tetrominoe.now == old(self).tetrominoe.now,
            final(self).tetrominoe.still_time == old(self).tetrominoe.still_time,
            final(self).cols_borders == old(self).cols_borders,
            final(self).next_tetrominoes == old(self).next_tetrominoes,
            final(self).scale == old(self).scale,
            final(self).inner_box_size == old(self).inner_box_size,
            moves_piece(input) && !old(self).pause ==> final(self).grid() == painted(
                painted(
                    old(self).grid(),
                    old(self).tetrominoe.cells(),
                    old(self).scale as int,
                    BACKGROUND_COLOR,
                ),
                final(self).tetrominoe.cells(),
                old(self).scale as int,
                old(self).tetrominoe.color,
            ),
            !(moves_piece(input) && !old(self).pause) ==> final(self).cells == old(self).cells
                && final(self).tetrominoe == old(self).tetrominoe,
    {
        match input {
            Input::Quit => {
                return true;
            },
            Input::Pause => {
                self.pause = !self.pause;
                return false;
            },
            Input::Other => {
                return false;
            },
            _ => {},
        }
        if self.pause {
            return false;
        }
        self.clear_tetrominoe();
        let ghost c = self.tetrominoe.cells();
        match input {
            Input::RotateClockwise => self.tetrominoe.rotate(true),
            Input::RotateCounterClockwise => self.tetrominoe.rotate(false),
            Input::Left => self.tetrominoe.translate_left(),
            _ => self.tetrominoe.translate_right(),
        }
        proof {
            let n = self.tetrominoe.cells();
            let size = self.inner_box_size;
            let s = self.scale as int;
            assert(c.len() == 4);
            if n != c {
                if input == Input::RotateClockwise || input == Input::RotateCounterClockwise {
                    let cw = input == Input::RotateClockwise;
                    assert(n == rotated(c, cw));
                    assert(rotation_fits(n, size, s));
                    assert forall|i: int| 0 <= i < n.len() implies 0 <= #[trigger] n[i].0
                        < size.cols && 0 <= n[i].1 < size.rows by {
                        if i == 0 {
                            assert(n[0] == c[0]);
                            assert(c[0].0 < size.cols);
                        } else {
                            assert(1 <= i < n.len());
                        }
                    }
                } else {
                    let d = if input == Input::Left {
                        -s
                    } else {
                        s
                    };
                    assert(n == moved(c, d, 0));
                    assert(shift_fits(n, size, s));
                    assert forall|i: int| 0 <= i < n.len() implies 0 <= #[trigger] n[i].0
                        < size.cols && 0 <= n[i].1 < size.rows by {
                        assert(n[i].1 == c[i].1);
                        assert(c[i].0 < size.cols);
                    }
                }
            }
        }
        let color = self.tetrominoe.color;
        self.draw_tetrominoe(color);
        false
    }

    /// One pass of the game loop at time `now` (milliseconds), after an
    /// optional key press. A quit key ends the game and changes nothing.
    /// Otherwise the key is applied as `handle_input` does; while the game is
    /// paused nothing else happens; else the simulation advances as
    /// `compute_next_frame` does, from the state the key left: nothing before
    /// the piece's rest time is over, then a game over, a landing with the
    /// head of the queue taking the piece's place, or a fall of one row.
    pub fn step(&mut self, input: Option<Input>, now: u64) -> (r: Flow)
        requires
            old(self).wf(),
        ensures
            final(self).wf(),
            input == Some(Input::Quit) ==> r == Flow::Quit && *final(self) == *old(self),
            input != Some(Input::Quit) ==> ({
                let o = *old(self);
                let f = *final(self);
                let s = o.scale as int;
                let paused = if input == Some(Input::Pause) {
                    !o.pause
                } else {
                    o.pause
                };
                let c = piece_after_input(o, input);
                let g = grid_after_input(o, input);
                let due = now - o.tetrominoe.now >= o.tetrominoe.still_time;
                let hit = collides(c, s, o.heights());
                let lifted = painted(g, c, s, BACKGROUND_COLOR);
                let landed = painted(lifted, c, s, o.tetrominoe.color);
                &&& f.pause == paused
                &&& f.scale == o.scale
                &&& f.inner_box_size == o.inner_box_size
                &&& r != Flow::Quit
                &&& paused ==> {
                    &&& r == Flow::Paused
                    &&& f.cells == o.cells
                    &&& f.cols_borders == o.cols_borders
                    &&& f.tetrominoe == o.tetrominoe
                    &&& f.next_tetrominoes == o.next_tetrominoes
                }
                &&& !paused ==> (r == Flow::GameOver <==> due && hit && on_spawn_row(c))
                &&& !paused && r != Flow::GameOver ==> r == Flow::Running
                &&& !paused && !due ==> {
                    &&& f.tetrominoe.cells() == c
                    &&& f.tetrominoe.ttype == o.tetrominoe.ttype
                    &&& f.tetrominoe.color == o.tetrominoe.color
                    &&& f.tetrominoe.now == o.tetrominoe.now
                    &&& f.grid() == g
                    &&& f.cols_borders == o.cols_borders
                    &&& f.next_tetrominoes == o.next_tetrominoes
                }
                &&& !paused && due && !hit ==> {
                    &&& f.tetrominoe.cells() == moved(c, 0, 1)
                    &&& f.tetrominoe.ttype == o.tetrominoe.ttype
                    &&& f.tetrominoe.color == o.tetrominoe.color
                    &&& f.tetrominoe.now == now
                    &&& f.grid() == painted(lifted, moved(c, 0, 1), s, o.tetrominoe.color)
                    &&& f.cols_borders == o.cols_borders
                    &&& f.next_tetrominoes == o.next_tetrominoes
                }
                &&& r == Flow::GameOver ==> {
                    &&& f.tetrominoe.cells() == c
                    &&& f.grid() == lifted
                    &&& f.cols_borders == o.cols_borders
                    &&& f.next_tetrominoes == o.next_tetrominoes
                }
                &&& !paused && due && hit && !on_spawn_row(c) ==> {
                    &&& full_rows(landed) == 0 ==> forall|k: int|
                        0 <= k < o.cols() ==> #[trigger] f.heights()[k] == lowered(
                            o.heights()[k] as int,
                            c,
                            k,
                        )
                    &&& full_rows(landed) > 0 ==> forall|k: int|
                        0 <= k < o.cols() ==> #[trigger] f.heights()[k] == column_top(
                            rows_cleared(landed),
                            k,
                        )
                    &&& f.tetrominoe.ttype == o.next_tetrominoes@[0].ttype
                    &&& f.tetrominoe.color == o.next_tetrominoes@[0].color
                    &&& f.tetrominoe.now == now
                    &&& exists|x: int|
                        2 * o.scale <= x <= o.cols() - 2 * o.scale && f.tetrominoe.cells()
                            == shape_cells(f.tetrominoe.ttype, x, 1, s)
                    &&& f.next_tetrominoes@[0].ttype == o.next_tetrominoes@[1].ttype
                    &&& f.next_tetrominoes@[1].ttype == o.next_tetrominoes@[2].ttype
                    &&& f.grid() == painted(
                        rows_cleared(landed),
                        f.tetrominoe.cells(),
                        s,
                        f.tetrominoe.color,
                    )
                }
            }),
    {
        if let Some(key) = input {
            if self.handle_input(key) {
                return Flow::Quit;
            }
        }
        if self.pause {
            return Flow::Paused;
        }
        if self.compute_next_frame(now) {
            Flow::GameOver
        } else {
            Flow::Running
        }
    }
}

/// The piece's cells once `input`, if any, has been applied.
pub open spec fn piece_after_input(o: GameManager, input: Option<Input>) -> Seq<(int, int)> {
    if input is Some {
        cells_after(o.tetrominoe.cells(), input->0, o.pause, o.inner_box_size, o.scale as int)
    } else {
        o.tetrominoe.cells()
    }
}

/// The board once `input`, if any, has been applied: a key that moves the
/// running piece takes it off and paints it at its new place.
pub open spec fn grid_after_input(o: GameManager, input: Option<Input>) -> Seq<Seq<SGR>> {
    if input is Some && moves_piece(input->0) && !o.pause {
        painted(
            painted(o.grid(), o.tetrominoe.cells(), o.scale as int, BACKGROUND_COLOR),
            piece_after_input(o, input),
            o.scale as int,
            o.tetrominoe.color,
        )
    } else {
        o.grid()
    }
}

} // verus!
