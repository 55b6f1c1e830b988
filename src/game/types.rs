use nanorand::WyRand;
use vstd::prelude::*;

use crate::rng::draw_below;
use crate::utils::{Size, Uvec2, SGR};

verus! {

/// The seven classic silhouettes.
#[derive(Clone, Copy, PartialEq, Eq, Debug, Structural)]
pub enum TetrominoeType {
    Bar,
    Square,
    Pyramid,
    LLeft,
    LRight,
    SnakeLeft,
    SnakeRight,
}

/// The shape numbered `id` in declaration order.
pub open spec fn type_of_id(id: int) -> TetrominoeType {
    if id == 0 {
        TetrominoeType::Bar
    } else if id == 1 {
        TetrominoeType::Square
    } else if id == 2 {
        TetrominoeType::Pyramid
    } else if id == 3 {
        TetrominoeType::LLeft
    } else if id == 4 {
        TetrominoeType::LRight
    } else if id == 5 {
        TetrominoeType::SnakeLeft
    } else {
        TetrominoeType::SnakeRight
    }
}

impl TetrominoeType {
    /// The shape numbered `id` (0 to 6) in declaration order.
    pub fn from_id(id: u8) -> (r: Self)
        requires
            id <= 6,
        ensures
            r == type_of_id(id as int),
    {
        match id {
            0 => TetrominoeType::Bar,
            1 => TetrominoeType::Square,
            2 => TetrominoeType::Pyramid,
            3 => TetrominoeType::LLeft,
            4 => TetrominoeType::LRight,
            5 => TetrominoeType::SnakeLeft,
            _ => TetrominoeType::SnakeRight,
        }
    }

    /// A shape drawn from `rng`, each of the seven being possible.
    pub fn random(rng: &mut WyRand) -> (r: Self)
        ensures
            exists|id: int| 0 <= id <= 6 && r == type_of_id(id),
    {
        let id = draw_below(rng, 0, 7);
        Self::from_id(id as u8)
    }
}

/// The four cells of shape `t` whose pivot is `(x, y)`, each logical cell
/// being `s` board cells apart; the pivot comes first.
pub open spec fn shape_cells(t: TetrominoeType, x: int, y: int, s: int) -> Seq<(int, int)> {
    match t {
        TetrominoeType::Bar => seq![(x, y), (x, y + s), (x, y + 2 * s), (x, y + 3 * s)],
        TetrominoeType::Square => seq![(x, y), (x + s, y), (x, y + s), (x + s, y + s)],
        TetrominoeType::Pyramid => seq![(x, y), (x - s, y), (x + s, y), (x, y + s)],
        TetrominoeType::LLeft => seq![(x, y), (x, y + s), (x, y + 2 * s), (x - s, y + 2 * s)],
        TetrominoeType::LRight => seq![(x, y), (x, y + s), (x, y + 2 * s), (x + s, y + 2 * s)],
        TetrominoeType::SnakeLeft => seq![(x, y), (x - s, y), (x, y + s), (x + s, y + s)],
        TetrominoeType::SnakeRight => seq![(x, y), (x + s, y), (x, y + s), (x - s, y + s)],
    }
}

/// Cells as pairs of mathematical integers.
pub open spec fn points(v: Seq<Uvec2>) -> Seq<(int, int)> {
    v.map_values(|c: Uvec2| (c.x as int, c.y as int))
}

/// Every cell moved by `(dx, dy)`.
pub open spec fn moved(c: Seq<(int, int)>, dx: int, dy: int) -> Seq<(int, int)> {
    c.map_values(|p: (int, int)| (p.0 + dx, p.1 + dy))
}

/// `p` turned a quarter around `pivot`; `clockwise` as seen on a screen whose
/// rows grow downwards.
pub open spec fn rotate_point(pivot: (int, int), p: (int, int), clockwise: bool) -> (int, int) {
    let dx = p.0 - pivot.0;
    let dy = p.1 - pivot.1;
    if clockwise {
        (pivot.0 - dy, pivot.1 + dx)
    } else {
        (pivot.0 + dy, pivot.1 - dx)
    }
}

/// Every cell turned a quarter around the first one.
pub open spec fn rotated(c: Seq<(int, int)>, clockwise: bool) -> Seq<(int, int)> {
    c.map_values(|p: (int, int)| rotate_point(c[0], p, clockwise))
}

/// Where a rotated cell other than the pivot may land.
pub open spec fn rotation_fits(c: Seq<(int, int)>, size: Size, s: int) -> bool {
    forall|i: int|
        1 <= i < c.len() ==> 2 * s <= #[trigger] c[i].0 <= size.cols - 2 * s && 1 <= c[i].1
            <= size.rows - 2 * s
}

/// Where a shifted cell may land.
pub open spec fn shift_fits(c: Seq<(int, int)>, size: Size, s: int) -> bool {
    forall|i: int| 0 <= i < c.len() ==> s <= #[trigger] c[i].0 <= size.cols - s
}

/// Every cell lies on a board of `size`.
pub open spec fn on_board(c: Seq<(int, int)>, size: Size) -> bool {
    forall|i: int|
        0 <= i < c.len() ==> 0 <= #[trigger] c[i].0 < size.cols && 0 <= c[i].1 < size.rows
}

/// Whether shape `t` has a cell left of its pivot.
pub open spec fn reaches_left(t: TetrominoeType) -> bool {
    t == TetrominoeType::Pyramid || t == TetrominoeType::LLeft || t == TetrominoeType::SnakeLeft
        || t == TetrominoeType::SnakeRight
}

/// Colors a piece may have.
pub open spec fn is_piece_color(c: SGR) -> bool {
    c == SGR::BlueBG || c == SGR::CyanBG || c == SGR::GreenBG || c == SGR::MagentaBG || c
        == SGR::RedBG
}

/// The piece's rest time between two falls, in milliseconds.
pub const STILL_TIME_MS: u64 = 50;

/// A piece: its shape, its four cells (the pivot first), and its timing.
pub struct Tetrominoe {
    pub ttype: TetrominoeType,
    pub vertices_pos: Vec<Uvec2>,
    /// Milliseconds that the piece rests before it falls one row.
    pub still_time: u64,
    /// When the piece last fell or appeared, in milliseconds.
    pub now: u64,
    pub color: SGR,
    pub scale: usize,
    pub inner_box_size: Size,
}

impl Tetrominoe {
    pub open spec fn wf(&self) -> bool {
        &&& self.vertices_pos@.len() == 4
        &&& self.scale >= 1
    }

    pub open spec fn cells(&self) -> Seq<(int, int)> {
        points(self.vertices_pos@)
    }

    /// A piece of shape `ttype` with its pivot at `origin`.
    pub fn placed(
        inner_box_size: &Size,
        scale: usize,
        ttype: TetrominoeType,
        origin: Uvec2,
        color: SGR,
        now: u64,
    ) -> (r: Self)
        requires
            scale >= 1,
            reaches_left(ttype) ==> origin.x >= scale,
            origin.x + scale <= usize::MAX,
            origin.y + 3 * scale <= usize::MAX,
        ensures
            r.wf(),
            r.cells() == shape_cells(ttype, origin.x as int, origin.y as int, scale as int),
            r.ttype == ttype,
            r.color == color,
            r.now == now,
            r.still_time == STILL_TIME_MS,
            r.scale == scale,
            r.inner_box_size == *inner_box_size,
    {
        let x = origin.x;
        let y = origin.y;
        let mut v: Vec<Uvec2> = Vec::with_capacity(4);
        v.push(Uvec2::new(x, y));
        match ttype {
            TetrominoeType::Bar => {
                v.push(Uvec2::new(x, y + scale));
                v.push(Uvec2::new(x, y + 2 * scale));
                v.push(Uvec2::new(x, y + 3 * scale));
            },
            TetrominoeType::Square => {
                v.push(Uvec2::new(x + scale, y));
                v.push(Uvec2::new(x, y + scale));
                v.push(Uvec2::new(x + scale, y + scale));
            },
            TetrominoeType::Pyramid => {
                v.push(Uvec2::new(x - scale, y));
                v.push(Uvec2::new(x + scale, y));
                v.push(Uvec2::new(x, y + scale));
            },
            TetrominoeType::LLeft => {
                v.push(Uvec2::new(x, y + scale));
                v.push(Uvec2::new(x, y + 2 * scale));
                v.push(Uvec2::new(x - scale, y + 2 * scale));
            },
            TetrominoeType::LRight => {
                v.push(Uvec2::new(x, y + scale));
                v.push(Uvec2::new(x, y + 2 * scale));
                v.push(Uvec2::new(x + scale, y + 2 * scale));
            },
            TetrominoeType::SnakeLeft => {
                v.push(Uvec2::new(x - scale, y));
                v.push(Uvec2::new(x, y + scale));
                v.push(Uvec2::new(x + scale, y + scale));
            },
            TetrominoeType::SnakeRight => {
                v.push(Uvec2::new(x + scale, y));
                v.push(Uvec2::new(x, y + scale));
                v.push(Uvec2::new(x - scale, y + scale));
            },
        }
        let r = Self {
            ttype,
            vertices_pos: v,
            still_time: STILL_TIME_MS,
            now,
            color,
            scale,
            inner_box_size: *inner_box_size,
        };
        assert(r.cells() =~= shape_cells(ttype, x as int, y as int, scale as int));
        r
    }
}


/// The piece color numbered `i` (0 to 4).
pub open spec fn palette(i: int) -> SGR {
    if i == 0 {
        SGR::BlueBG
    } else if i == 1 {
        SGR::CyanBG
    } else if i == 2 {
        SGR::GreenBG
    } else if i == 3 {
        SGR::MagentaBG
    } else {
        SGR::RedBG
    }
}

fn palette_color(i: usize) -> (r: SGR)
    requires
        i < 5,
    ensures
        r == palette(i as int),
{
    match i {
        0 => SGR::BlueBG,
        1 => SGR::CyanBG,
        2 => SGR::GreenBG,
        3 => SGR::MagentaBG,
        _ => SGR::RedBG,
    }
}

proof fn lemma_round_down_keeps_floor(x: int, s: int)
    requires
        s >= 1,
        x >= 2 * s,
    ensures
        2 * s <= x - x % s <= x,
        (x - x % s) % s == 0,
{
    vstd::arithmetic::div_mod::lemma_fundamental_div_mod(x, s);
    let q = x / s;
    vstd::arithmetic::div_mod::lemma_mod_multiples_basic(q, s);
    assert(x - x % s == q * s) by (nonlinear_arith)
        requires
            x == s * q + x % s,
    ;
    assert(0 <= x % s < s);
    assert(q >= 2) by (nonlinear_arith)
        requires
            x == s * q + x % s,
            x % s < s,
            x >= 2 * s,
            s >= 1,
    ;
    assert(s * q >= 2 * s) by (nonlinear_arith)
        requires
            q >= 2,
            s >= 1,
    ;
}

impl Tetrominoe {
    /// A new piece of shape `ttype`, or of a random shape when it is `None`,
    /// with a random color. Without `pos` the pivot lies on row 1, at a column
    /// of `[2 * scale, cols - 2 * scale]` rounded down to a multiple of `scale`,
    /// and the whole piece lies on the board.
    pub fn new(
        inner_box_size: &Size,
        scale: usize,
        ttype: Option<TetrominoeType>,
        pos: Option<Uvec2>,
        rng: &mut WyRand,
        now: u64,
    ) -> (r: Self)
        requires
            scale >= 1,
            pos is None ==> 4 * scale <= inner_box_size.cols && 3 * scale + 1
                < inner_box_size.rows,
            pos is Some && (ttype is None || reaches_left(ttype->0)) ==> pos->0.x >= scale,
            pos is Some ==> pos->0.x + scale <= usize::MAX && pos->0.y + 3 * scale <= usize::MAX,
        ensures
            r.wf(),
            ttype is Some ==> r.ttype == ttype->0,
            pos is Some ==> r.cells() == shape_cells(
                r.ttype,
                pos->0.x as int,
                pos->0.y as int,
                scale as int,
            ),
            pos is None ==> on_board(r.cells(), *inner_box_size),
            pos is None ==> r.cells()[0].0 % scale as int == 0,
            pos is None ==> exists|x: int|
                2 * scale <= x <= inner_box_size.cols - 2 * scale && r.cells() == shape_cells(
                    r.ttype,
                    x,
                    1,
                    scale as int,
                ),
            is_piece_color(r.color),
            r.now == now,
            r.still_time == STILL_TIME_MS,
            r.scale == scale,
            r.inner_box_size == *inner_box_size,
    {
        let ttype = match ttype {
            Some(t) => t,
            None => TetrominoeType::random(rng),
        };
        let origin = match pos {
            Some(v) => v,
            None => {
                let hi = inner_box_size.cols as usize - 2 * scale;
                let mut x = draw_below(rng, 2 * scale, hi + 1);
                proof {
                    lemma_round_down_keeps_floor(x as int, scale as int);
                }
                x = x - x % scale;
                Uvec2::new(x, 1)
            },
        };
        let color = palette_color(draw_below(rng, 0, 5));
        let r = Self::placed(inner_box_size, scale, ttype, origin, color, now);
        proof {
            if pos is None {
                lemma_spawn_on_board(ttype, origin.x as int, scale as int, *inner_box_size);
            }
        }
        r
    }

    /// A piece with `rhs`'s shape, rest time and color; at `pos`, or at a
    /// random column of row 1 when it is `None`.
    pub fn from_self(
        rhs: &Self,
        scale: Option<usize>,
        pos: Option<Uvec2>,
        rng: &mut WyRand,
        now: u64,
    ) -> (r: Self)
        requires
            scale is Some ==> scale->0 >= 1,
            scale is None ==> rhs.scale >= 1,
            ({
                let s = if scale is Some {
                    scale->0
                } else {
                    rhs.scale
                };
                &&& pos is None ==> 4 * s <= rhs.inner_box_size.cols && 3 * s + 1
                    < rhs.inner_box_size.rows
                &&& pos is Some && reaches_left(rhs.ttype) ==> pos->0.x >= s
                &&& pos is Some ==> pos->0.x + s <= usize::MAX && pos->0.y + 3 * s <= usize::MAX
            }),
        ensures
            r.wf(),
            r.ttype == rhs.ttype,
            r.color == rhs.color,
            r.still_time == rhs.still_time,
            r.now == now,
            r.scale == (if scale is Some {
                scale->0
            } else {
                rhs.scale
            }),
            r.inner_box_size == rhs.inner_box_size,
            pos is Some ==> r.cells() == shape_cells(
                r.ttype,
                pos->0.x as int,
                pos->0.y as int,
                r.scale as int,
            ),
            pos is None ==> on_board(r.cells(), rhs.inner_box_size),
            pos is None ==> r.cells()[0].0 % r.scale as int == 0,
            pos is None ==> exists|x: int|
                2 * r.scale <= x <= rhs.inner_box_size.cols - 2 * r.scale && r.cells()
                    == shape_cells(r.ttype, x, 1, r.scale as int),
    {
        let s = match scale {
            Some(s) => s,
            None => rhs.scale,
        };
        let mut t = Self::new(&rhs.inner_box_size, s, Some(rhs.ttype), pos, rng, now);
        let ghost placed_cells = t.cells();
        t.still_time = rhs.still_time;
        t.color = rhs.color;
        proof {
            if pos is None {
                let x = choose|x: int|
                    2 * s <= x <= rhs.inner_box_size.cols - 2 * s && placed_cells == shape_cells(
                        rhs.ttype,
                        x,
                        1,
                        s as int,
                    );
                assert(t.cells() == shape_cells(t.ttype, x, 1, t.scale as int));
            }
        }
        t
    }
}


impl Tetrominoe {
    /// Turns the piece a quarter around its pivot, clockwise or not, if every
    /// turned cell other than the pivot lands within
    /// `[2 * scale, cols - 2 * scale] x [1, rows - 2 * scale]`; otherwise the
    /// piece stays as it was.
    pub fn rotate(&mut self, clockwise: bool)
        requires
            old(self).wf(),
        ensures
            final(self).wf(),
            rotation_fits(
                rotated(old(self).cells(), clockwise),
                old(self).inner_box_size,
                old(self).scale as int,
            ) ==> final(self).cells() == rotated(old(self).cells(), clockwise),
            !rotation_fits(
                rotated(old(self).cells(), clockwise),
                old(self).inner_box_size,
                old(self).scale as int,
            ) ==> final(self).vertices_pos@ == old(self).vertices_pos@,
            final(self).ttype == old(self).ttype,
            final(self).color == old(self).color,
            final(self).now == old(self).now,
            final(self).still_time == old(self).still_time,
            final(self).scale == old(self).scale,
            final(self).inner_box_size == old(self).inner_box_size,
    {
        let ghost target = rotated(self.cells(), clockwise);
        let cp = self.vertices_pos[0];
        let px = cp.x as i128;
        let py = cp.y as i128;
        let two_s = 2 * (self.scale as i128);
        let hi_x = self.inner_box_size.cols as i128 - two_s;
        let hi_y = self.inner_box_size.rows as i128 - two_s;
        let mut rvp: Vec<Uvec2> = Vec::with_capacity(4);
        rvp.push(cp);
        let mut i: usize = 1;
        while i < 4
            invariant
                1 <= i <= 4,
                self.wf(),
                target == rotated(self.cells(), clockwise),
                cp == self.vertices_pos@[0],
                px == cp.x,
                py == cp.y,
                two_s == 2 * self.scale,
                hi_x == self.inner_box_size.cols - two_s,
                hi_y == self.inner_box_size.rows - two_s,
                rvp@.len() == i,
                forall|j: int| 0 <= j < i ==> points(rvp@)[j] == #[trigger] target[j],
                forall|j: int|
                    1 <= j < i ==> two_s <= #[trigger] target[j].0 <= hi_x && 1 <= target[j].1
                        <= hi_y,
            decreases 4 - i,
        {
            let vp = self.vertices_pos[i];
            let dx = vp.x as i128 - px;
            let dy = vp.y as i128 - py;
            let nx: i128;
            let ny: i128;
            if clockwise {
                nx = px - dy;
                ny = py + dx;
            } else {
                nx = px + dy;
                ny = py - dx;
            }
            assert(target[i as int] == (nx as int, ny as int));
            assert(target[i as int].0 == nx && target[i as int].1 == ny);
            assert(target.len() == 4);
            if nx >= two_s && nx <= hi_x && ny >= 1 && ny <= hi_y {
                rvp.push(Uvec2::new(nx as usize, ny as usize));
                assert(points(rvp@)[i as int] == target[i as int]);
            } else {
                assert(!rotation_fits(target, self.inner_box_size, self.scale as int));
                return ;
            }
            i += 1;
        }
        assert(points(rvp@) =~= target);
        assert(rotation_fits(target, self.inner_box_size, self.scale as int));
        self.vertices_pos = rvp;
    }

    /// Moves every cell one row down.
    pub fn fall(&mut self)
        requires
            old(self).wf(),
            forall|i: int|
                0 <= i < old(self).vertices_pos@.len() ==> #[trigger] old(self).vertices_pos@[i].y
                    < usize::MAX,
        ensures
            final(self).wf(),
            final(self).cells() == moved(old(self).cells(), 0, 1),
            final(self).ttype == old(self).ttype,
            final(self).color == old(self).color,
            final(self).now == old(self).now,
            final(self).still_time == old(self).still_time,
            final(self).scale == old(self).scale,
            final(self).inner_box_size == old(self).inner_box_size,
    {
        let mut i: usize = 0;
        while i < self.vertices_pos.len()
            invariant
                0 <= i <= 4,
                self.wf(),
                old(self).wf(),
                forall|j: int|
                    0 <= j < 4 ==> #[trigger] old(self).vertices_pos@[j].y < usize::MAX,
                self.ttype == old(self).ttype,
                self.color == old(self).color,
                self.now == old(self).now,
                self.still_time == old(self).still_time,
                self.scale == old(self).scale,
                self.inner_box_size == old(self).inner_box_size,
                forall|j: int|
                    0 <= j < 4 ==> #[trigger] self.vertices_pos@[j] == (if j < i {
                        Uvec2 { x: old(self).vertices_pos@[j].x, y: (old(self).vertices_pos@[j].y
                            + 1) as usize }
                    } else {
                        old(self).vertices_pos@[j]
                    }),
            decreases 4 - i,
        {
            let vp = self.vertices_pos[i];
            self.vertices_pos.set(i, Uvec2::new(vp.x, vp.y + 1));
            i += 1;
        }
        assert(self.cells() =~= moved(old(self).cells(), 0, 1));
    }

    /// Shifts the piece `scale` columns to the right if every cell then lies in
    /// `[scale, cols - scale]`; otherwise the piece stays as it was.
    pub fn translate_right(&mut self)
        requires
            old(self).wf(),
        ensures
            final(self).wf(),
            shift_fits(
                moved(old(self).cells(), old(self).scale as int, 0),
                old(self).inner_box_size,
                old(self).scale as int,
            ) ==> final(self).cells() == moved(old(self).cells(), old(self).scale as int, 0),
            !shift_fits(
                moved(old(self).cells(), old(self).scale as int, 0),
                old(self).inner_box_size,
                old(self).scale as int,
            ) ==> final(self).vertices_pos@ == old(self).vertices_pos@,
            final(self).ttype == old(self).ttype,
            final(self).color == old(self).color,
            final(self).now == old(self).now,
            final(self).still_time == old(self).still_time,
            final(self).scale == old(self).scale,
            final(self).inner_box_size == old(self).inner_box_size,
    {
        self.shift(true)
    }

    /// Shifts the piece `scale` columns to the left if every cell then lies in
    /// `[scale, cols - scale]`; otherwise the piece stays as it was.
    pub fn translate_left(&mut self)
        requires
            old(self).wf(),
        ensures
            final(self).wf(),
            shift_fits(
                moved(old(self).cells(), -old(self).scale, 0),
                old(self).inner_box_size,
                old(self).scale as int,
            ) ==> final(self).cells() == moved(old(self).cells(), -old(self).scale, 0),
            !shift_fits(
                moved(old(self).cells(), -old(self).scale, 0),
                old(self).inner_box_size,
                old(self).scale as int,
            ) ==> final(self).vertices_pos@ == old(self).vertices_pos@,
            final(self).ttype == old(self).ttype,
            final(self).color == old(self).color,
            final(self).now == old(self).now,
            final(self).still_time == old(self).still_time,
            final(self).scale == old(self).scale,
            final(self).inner_box_size == old(self).inner_box_size,
    {
        self.shift(false)
    }

    fn shift(&mut self, right: bool)
        requires
            old(self).wf(),
        ensures
            ({
                let s = old(self).scale as int;
                let d = if right {
                    s
                } else {
                    -s
                };
                &&& final(self).wf()
                &&& shift_fits(moved(old(self).cells(), d, 0), old(self).inner_box_size, s)
                    ==> final(self).cells() == moved(old(self).cells(), d, 0)
                &&& !shift_fits(moved(old(self).cells(), d, 0), old(self).inner_box_size, s)
                    ==> final(self).vertices_pos@ == old(self).vertices_pos@
            }),
            final(self).ttype == old(self).ttype,
            final(self).color == old(self).color,
            final(self).now == old(self).now,
            final(self).still_time == old(self).still_time,
            final(self).scale == old(self).scale,
            final(self).inner_box_size == old(self).inner_box_size,
    {
        let ghost d: int = if right {
            self.scale as int
        } else {
            -self.scale
        };
        let ghost target = moved(self.cells(), d, 0);
        let s = self.scale as i128;
        let lo = s;
        let hi = self.inner_box_size.cols as i128 - s;
        let mut i: usize = 0;
        while i < 4
            invariant
                0 <= i <= 4,
                self.wf(),
                target == moved(self.cells(), d, 0),
                s == self.scale,
                d == (if right {
                    s as int
                } else {
                    -s
                }),
                lo == s,
                hi == self.inner_box_size.cols - s,
                forall|j: int| 0 <= j < i ==> lo <= #[trigger] target[j].0 <= hi,
            decreases 4 - i,
        {
            let x = self.vertices_pos[i].x as i128;
            let nx = if right {
                x + s
            } else {
                x - s
            };
            assert(nx == target[i as int].0);
            if nx < lo || nx > hi {
                assert(!shift_fits(target, self.inner_box_size, s as int));
                return ;
            }
            i += 1;
        }
        let ghost before = self.vertices_pos@;
        let step = self.scale;
        let mut k: usize = 0;
        while k < 4
            invariant
                0 <= k <= 4,
                self.wf(),
                step == self.scale,
                self.ttype == old(self).ttype,
                self.color == old(self).color,
                self.now == old(self).now,
                self.still_time == old(self).still_time,
                self.scale == old(self).scale,
                self.inner_box_size == old(self).inner_box_size,
                before.len() == 4,
                d == (if right {
                    step as int
                } else {
                    -step
                }),
                target == moved(points(before), d, 0),
                forall|j: int| 0 <= j < 4 ==> 0 <= #[trigger] target[j].0 <= usize::MAX,
                forall|j: int|
                    0 <= j < 4 ==> #[trigger] self.vertices_pos@[j] == (if j < k {
                        Uvec2 { x: (before[j].x + d) as usize, y: before[j].y }
                    } else {
                        before[j]
                    }),
            decreases 4 - k,
        {
            let vp = self.vertices_pos[k];
            assert(target[k as int].0 == vp.x + d);
            let nx = if right {
                vp.x + step
            } else {
                vp.x - step
            };
            self.vertices_pos.set(k, Uvec2::new(nx, vp.y));
            k += 1;
        }
        assert forall|j: int| 0 <= j < 4 implies #[trigger] self.cells()[j] == target[j] by {
            assert(target[j].0 == before[j].x + d);
            assert(0 <= target[j].0 <= usize::MAX);
        }
        assert(self.cells() =~= target);
    }

    /// Whether the piece has rested its full time at `now` (milliseconds).
    pub fn tick(&self, now: u64) -> (r: bool)
        ensures
            r == (now - self.now >= self.still_time),
    {
        now >= self.now && now - self.now >= self.still_time
    }
}

/// A piece of any shape and any scale whose pivot lies on row 1, at a column
/// of `[2 * s, cols - 2 * s]`, lies wholly on a board with more than `3 * s + 1`
/// rows.
pub proof fn lemma_spawn_on_board(t: TetrominoeType, x: int, s: int, size: Size)
    requires
        s >= 1,
        2 * s <= x <= size.cols - 2 * s,
        3 * s + 1 < size.rows,
    ensures
        shape_cells(t, x, 1, s).len() == 4,
        on_board(shape_cells(t, x, 1, s), size),
{
    let c = shape_cells(t, x, 1, s);
    assert forall|i: int| 0 <= i < c.len() implies 0 <= #[trigger] c[i].0 < size.cols && 0
        <= c[i].1 < size.rows by {
        assert(c.len() == 4);
    }
}

/// Four quarter turns in the same direction bring every cell back.
pub proof fn lemma_four_turns_identity(c: Seq<(int, int)>, clockwise: bool)
    requires
        c.len() >= 1,
    ensures
        rotated(rotated(rotated(rotated(c, clockwise), clockwise), clockwise), clockwise) == c,
{
    let r1 = rotated(c, clockwise);
    let r2 = rotated(r1, clockwise);
    let r3 = rotated(r2, clockwise);
    let r4 = rotated(r3, clockwise);
    assert(r1[0] == c[0]);
    assert(r2[0] == c[0]);
    assert(r3[0] == c[0]);
    assert(r4 =~= c);
}

/// A piece turned clockwise four times, no turn being refused, has the cells
/// it started with.
pub proof fn lemma_rotate_four_times(
    a: Seq<Uvec2>,
    b: Seq<Uvec2>,
    c: Seq<Uvec2>,
    d: Seq<Uvec2>,
    e: Seq<Uvec2>,
)
    requires
        a.len() == 4,
        points(b) == rotated(points(a), true),
        points(c) == rotated(points(b), true),
        points(d) == rotated(points(c), true),
        points(e) == rotated(points(d), true),
    ensures
        e == a,
{
    lemma_four_turns_identity(points(a), true);
    lemma_points_injective(e, a);
}

/// Two cell lists with the same points are the same.
pub proof fn lemma_points_injective(a: Seq<Uvec2>, b: Seq<Uvec2>)
    requires
        points(a) == points(b),
    ensures
        a == b,
{
    assert(a.len() == points(a).len());
    assert(b.len() == points(b).len());
    assert forall|i: int| 0 <= i < a.len() implies a[i] == b[i] by {
        assert(points(a)[i] == points(b)[i]);
    }
    assert(a =~= b);
}

/// A shift left followed by a shift right, neither being refused, gives back
/// the cells of the start.
pub proof fn lemma_left_then_right(a: Seq<Uvec2>, b: Seq<Uvec2>, c: Seq<Uvec2>, s: int)
    requires
        points(b) == moved(points(a), -s, 0),
        points(c) == moved(points(b), s, 0),
    ensures
        c == a,
{
    assert(points(c) =~= points(a));
    lemma_points_injective(c, a);
}

} // verus!
