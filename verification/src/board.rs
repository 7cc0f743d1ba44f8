use vstd::prelude::*;

verus! {

/// One intersection's occupancy: no stone, or a stone of either colour.
#[derive(PartialEq, Eq, Structural, Clone, Copy, Debug, PartialOrd, Ord, Hash)]
pub enum Stone {
    Empty,
    Black,
    White,
}

impl Stone {
    pub fn is_empty(&self) -> (r: bool)
        ensures
            r == (*self == Stone::Empty),
    {
        matches!(self, Stone::Empty)
    }

    pub fn is_black(&self) -> (r: bool)
        ensures
            r == (*self == Stone::Black),
    {
        matches!(self, Stone::Black)
    }

    pub fn is_white(&self) -> (r: bool)
        ensures
            r == (*self == Stone::White),
    {
        matches!(self, Stone::White)
    }

    /// The other player's colour; `Empty` is left unchanged.
    pub fn opposite(&self) -> (r: Stone)
        ensures
            *self == Stone::Black ==> r == Stone::White,
            *self == Stone::White ==> r == Stone::Black,
            *self == Stone::Empty ==> r == Stone::Empty,
    {
        match self {
            Stone::Black => Stone::White,
            Stone::White => Stone::Black,
            Stone::Empty => Stone::Empty,
        }
    }
}

/// A board coordinate. `is_null` marks the sentinel value that stands for an
/// absent position (used to pad lines with border cells), so that no real
/// coordinate is overloaded with that meaning.
#[derive(PartialEq, Eq, Structural, Clone, Copy, Debug, PartialOrd, Ord, Hash)]
pub struct Point {
    pub x: u32,
    pub y: u32,
    pub is_null: bool,
}

impl Point {
    pub fn new(x: u32, y: u32) -> (r: Point)
        ensures
            r == (Point { x, y, is_null: false }),
    {
        Point { x, y, is_null: false }
    }

    /// The sentinel point: never equal to any real coordinate.
    pub fn null() -> (r: Point)
        ensures
            r == (Point { x: 0, y: 0, is_null: true }),
    {
        Point { x: 0, y: 0, is_null: true }
    }

    /// The point at a row-major index on a square board of width `width`.
    pub fn from_1d(idx: u32, width: u32) -> (r: Point)
        requires
            width >= 1,
        ensures
            r == (Point { x: idx % width, y: idx / width, is_null: false }),
    {
        Point { x: idx % width, y: idx / width, is_null: false }
    }
}

/// Board state: one stone value for every intersection of a `size` x `size`
/// grid, stored row by row. Every coordinate in range always has exactly one
/// stone value.
pub struct BoardArr {
    size: u32,
    cells: Vec<Stone>,
}

impl BoardArr {
    pub closed spec fn spec_size(&self) -> u32 {
        self.size
    }

    pub closed spec fn cells_seq(&self) -> Seq<Stone> {
        self.cells@
    }

    /// The board invariant: a supported size, and one cell per coordinate.
    pub open spec fn wf(&self) -> bool {
        &&& 1 <= self.spec_size() <= 19
        &&& self.cells_seq().len() == self.spec_size() * self.spec_size()
    }

    pub open spec fn stone_at(&self, x: int, y: int) -> Stone {
        self.cells_seq()[y * self.spec_size() + x]
    }

    pub open spec fn in_bounds(&self, p: Point) -> bool {
        !p.is_null && p.x < self.spec_size() && p.y < self.spec_size()
    }

    /// An empty board. Sizes above 19 are outside the supported game family.
    pub fn new(size: u32) -> (r: BoardArr)
        requires
            1 <= size <= 19,
        ensures
            r.wf(),
            r.spec_size() == size,
            forall|x: int, y: int|
                0 <= x < size && 0 <= y < size ==> r.stone_at(x, y) == Stone::Empty,
    {
        proof {
            assert(size * size <= 361) by (nonlinear_arith)
                requires
                    size <= 19,
            ;
        }
        let n = size * size;
        let mut cells: Vec<Stone> = Vec::new();
        let mut i: u32 = 0;
        while i < n
            invariant
                i <= n,
                n == size * size,
                size <= 19,
                cells@.len() == i,
                forall|j: int| 0 <= j < i ==> cells@[j] == Stone::Empty,
            decreases n - i,
        {
            cells.push(Stone::Empty);
            i = i + 1;
        }
        let r = BoardArr { size, cells };
        proof {
            assert forall|x: int, y: int|
                0 <= x < size && 0 <= y < size implies r.stone_at(x, y) == Stone::Empty by {
                lemma_row_major_index(size as int, x, y);
            }
        }
        r
    }

    pub fn size(&self) -> (r: u32)
        ensures
            r == self.spec_size(),
    {
        self.size
    }

    /// The stone on a coordinate that lies on the board.
    pub fn at(&self, p: Point) -> (r: Stone)
        requires
            self.wf(),
            self.in_bounds(p),
        ensures
            r == self.stone_at(p.x as int, p.y as int),
    {
        proof {
            lemma_row_major_index(self.spec_size() as int, p.x as int, p.y as int);
            assert(self.spec_size() * self.spec_size() <= 361) by (nonlinear_arith)
                requires
                    self.spec_size() <= 19,
            ;
        }
        self.cells[(p.y * self.size + p.x) as usize]
    }

    /// Replace the stone on a coordinate that lies on the board.
    pub fn set_point(&mut self, p: Point, stone: Stone)
        requires
            old(self).wf(),
            old(self).in_bounds(p),
        ensures
            final(self).wf(),
            final(self).spec_size() == old(self).spec_size(),
            final(self).cells_seq() == old(self).cells_seq().update(
                p.y * old(self).spec_size() + p.x,
                stone,
            ),
            final(self).stone_at(p.x as int, p.y as int) == stone,
            forall|x: int, y: int|
                0 <= x < old(self).spec_size() && 0 <= y < old(self).spec_size() && !(x == p.x
                    && y == p.y) ==> final(self).stone_at(x, y) == old(self).stone_at(x, y),
    {
        proof {
            lemma_row_major_index(self.spec_size() as int, p.x as int, p.y as int);
            assert(self.spec_size() * self.spec_size() <= 361) by (nonlinear_arith)
                requires
                    self.spec_size() <= 19,
            ;
        }
        let idx = (p.y * self.size + p.x) as usize;
        self.cells[idx] = stone;
        proof {
            let size = self.spec_size() as int;
            assert forall|x: int, y: int|
                0 <= x < size && 0 <= y < size && !(x == p.x && y == p.y) implies self.stone_at(
                x,
                y,
            ) == old(self).stone_at(x, y) by {
                lemma_row_major_index(size, x, y);
                lemma_row_major_distinct(size, x, y, p.x as int, p.y as int);
            }
        }
    }

    /// A full copy of the board, so that a hypothetical placement can be
    /// explored without touching the original position.
    pub fn duplicate(&self) -> (r: BoardArr)
        ensures
            r.spec_size() == self.spec_size(),
            r.cells_seq() == self.cells_seq(),
    {
        let mut cells: Vec<Stone> = Vec::new();
        let mut i: usize = 0;
        while i < self.cells.len()
            invariant
                i <= self.cells@.len(),
                cells@ == self.cells@.subrange(0, i as int),
            decreases self.cells@.len() - i,
        {
            cells.push(self.cells[i]);
            proof {
                assert(cells@ =~= self.cells@.subrange(0, i + 1));
            }
            i = i + 1;
        }
        proof {
            assert(cells@ =~= self.cells@);
        }
        BoardArr { size: self.size, cells }
    }

    /// How many intersections are still empty; the measure that shrinks with
    /// every hypothetical placement.
    pub open spec fn empty_count(&self) -> nat {
        count_empty(self.cells_seq())
    }
}

/// The board as contracts speak of it: a size and one stone per cell, row
/// by row.
pub struct GridModel {
    pub size: int,
    pub cells: Seq<Stone>,
}

impl GridModel {
    pub open spec fn wf(self) -> bool {
        &&& 1 <= self.size <= 19
        &&& self.cells.len() == self.size * self.size
    }

    pub open spec fn stone_at(self, x: int, y: int) -> Stone {
        self.cells[y * self.size + x]
    }

    pub open spec fn in_bounds(self, p: Point) -> bool {
        !p.is_null && p.x < self.size && p.y < self.size
    }

    /// The board after placing `s` on `p`.
    pub open spec fn place(self, p: Point, s: Stone) -> GridModel {
        GridModel { size: self.size, cells: self.cells.update(p.y * self.size + p.x, s) }
    }

    pub open spec fn empty_count(self) -> nat {
        count_empty(self.cells)
    }
}

impl View for BoardArr {
    type V = GridModel;

    open spec fn view(&self) -> GridModel {
        GridModel { size: self.spec_size() as int, cells: self.cells_seq() }
    }
}

/// Placing a stone on an empty in-bounds cell strictly lowers the number of
/// empty cells.
pub proof fn lemma_place_lowers_empty(g: GridModel, p: Point, s: Stone)
    requires
        g.wf(),
        g.in_bounds(p),
        g.stone_at(p.x as int, p.y as int) == Stone::Empty,
        s != Stone::Empty,
    ensures
        g.place(p, s).empty_count() < g.empty_count(),
{
    lemma_row_major_index(g.size, p.x as int, p.y as int);
    lemma_count_empty_update(g.cells, p.y * g.size + p.x, s);
}

pub open spec fn count_empty(cells: Seq<Stone>) -> nat
    decreases cells.len(),
{
    if cells.len() == 0 {
        0
    } else {
        count_empty(cells.drop_last()) + if cells.last() == Stone::Empty {
            1nat
        } else {
            0nat
        }
    }
}

/// Overwriting an empty cell with a stone strictly lowers the number of empty
/// cells.
pub proof fn lemma_count_empty_update(cells: Seq<Stone>, i: int, s: Stone)
    requires
        0 <= i < cells.len(),
        cells[i] == Stone::Empty,
        s != Stone::Empty,
    ensures
        count_empty(cells.update(i, s)) < count_empty(cells),
    decreases cells.len(),
{
    let upd = cells.update(i, s);
    if i == cells.len() - 1 {
        assert(upd.drop_last() =~= cells.drop_last());
    } else {
        assert(upd.drop_last() =~= cells.drop_last().update(i, s));
        lemma_count_empty_update(cells.drop_last(), i, s);
    }
}

pub proof fn lemma_row_major_index(size: int, x: int, y: int)
    requires
        0 <= x < size,
        0 <= y < size,
    ensures
        0 <= y * size + x < size * size,
    decreases size,
{
    assert(0 <= y * size + x < size * size) by (nonlinear_arith)
        requires
            0 <= x < size,
            0 <= y < size,
    ;
}

proof fn lemma_row_major_distinct(size: int, x1: int, y1: int, x2: int, y2: int)
    requires
        0 <= x1 < size,
        0 <= y1 < size,
        0 <= x2 < size,
        0 <= y2 < size,
        !(x1 == x2 && y1 == y2),
    ensures
        y1 * size + x1 != y2 * size + x2,
{
    assert(y1 * size + x1 != y2 * size + x2) by (nonlinear_arith)
        requires
            0 <= x1 < size,
            0 <= y1 < size,
            0 <= x2 < size,
            0 <= y2 < size,
            !(x1 == x2 && y1 == y2),
    ;
}

} // verus!
