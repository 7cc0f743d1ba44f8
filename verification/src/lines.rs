use vstd::prelude::*;

use crate::board::BoardArr;
use crate::board::Point;

verus! {

/// One of the four line families a board decomposes into.
#[derive(PartialEq, Eq, Structural, Clone, Copy, Debug, PartialOrd, Ord, Hash)]
pub enum Direction {
    /// A row, walked with `x` increasing.
    Horizontal,
    /// A column, walked with `y` increasing.
    Vertical,
    /// A diagonal; `bottom` chooses which of the two orientations: `true`
    /// walks with `y` decreasing, `false` with `y` increasing.
    Diagonal { bottom: bool },
}

impl Direction {
    /// The four directions, one per line family.
    pub fn directions() -> (r: [Direction; 4])
        ensures
            r@ == seq![
                Direction::Horizontal,
                Direction::Vertical,
                Direction::Diagonal { bottom: false },
                Direction::Diagonal { bottom: true },
            ],
    {
        let r = [
            Direction::Horizontal,
            Direction::Vertical,
            Direction::Diagonal { bottom: false },
            Direction::Diagonal { bottom: true },
        ];
        proof {
            assert(r@ =~= seq![
                Direction::Horizontal,
                Direction::Vertical,
                Direction::Diagonal { bottom: false },
                Direction::Diagonal { bottom: true },
            ]);
        }
        r
    }
}

/// The value that is constant along a line of the given family, and so
/// identifies the line a point lies on: the row, the column, the coordinate
/// sum, or the coordinate difference.
pub open spec fn line_id(dir: Direction, p: Point) -> int {
    match dir {
        Direction::Horizontal => p.y as int,
        Direction::Vertical => p.x as int,
        Direction::Diagonal { bottom: true } => p.x + p.y,
        Direction::Diagonal { bottom: false } => p.x - p.y,
    }
}

/// The full line of family `dir` with identifier `id`, ordered as the board
/// walks it: by `x` for rows and diagonals, by `y` for columns.
pub open spec fn line_seq(size: int, dir: Direction, id: int) -> Seq<Point> {
    match dir {
        Direction::Horizontal => Seq::new(
            size as nat,
            |k: int| Point { x: k as u32, y: id as u32, is_null: false },
        ),
        Direction::Vertical => Seq::new(
            size as nat,
            |k: int| Point { x: id as u32, y: k as u32, is_null: false },
        ),
        Direction::Diagonal { bottom: true } => {
            if 0 <= id <= 2 * size - 2 {
                let x0 = if id <= size - 1 {
                    0int
                } else {
                    id - (size - 1)
                };
                let y0 = if id <= size - 1 {
                    id
                } else {
                    size - 1
                };
                Seq::new(
                    (y0 - x0 + 1) as nat,
                    |k: int| Point { x: (x0 + k) as u32, y: (y0 - k) as u32, is_null: false },
                )
            } else {
                Seq::empty()
            }
        },
        Direction::Diagonal { bottom: false } => {
            if -(size - 1) <= id <= size - 1 {
                let x0 = if id >= 0 {
                    id
                } else {
                    0int
                };
                let y0 = if id >= 0 {
                    0int
                } else {
                    -id
                };
                Seq::new(
                    (size - x0 - y0) as nat,
                    |k: int| Point { x: (x0 + k) as u32, y: (y0 + k) as u32, is_null: false },
                )
            } else {
                Seq::empty()
            }
        },
    }
}

/// Every point of a line lies on the board and carries the line's id.
pub proof fn lemma_line_seq_points(size: int, dir: Direction, id: int)
    requires
        1 <= size <= 19,
    ensures
        forall|k: int|
            0 <= k < line_seq(size, dir, id).len() && line_in_family(size, dir, id) ==> {
                let p = #[trigger] line_seq(size, dir, id)[k];
                &&& !p.is_null
                &&& p.x < size
                &&& p.y < size
                &&& line_id(dir, p) == id
            },
        forall|k1: int, k2: int|
            0 <= k1 < line_seq(size, dir, id).len() && 0 <= k2 < line_seq(size, dir, id).len()
                && #[trigger] line_seq(size, dir, id)[k1] == #[trigger] line_seq(size, dir, id)[k2]
                ==> k1 == k2,
{
}

/// The identifiers that belong to a family on a board of the given size.
pub open spec fn line_in_family(size: int, dir: Direction, id: int) -> bool {
    match dir {
        Direction::Horizontal => 0 <= id < size,
        Direction::Vertical => 0 <= id < size,
        Direction::Diagonal { bottom: true } => 0 <= id <= 2 * size - 2,
        Direction::Diagonal { bottom: false } => -(size - 1) <= id <= size - 1,
    }
}

/// Line round-trip: two points on one line name the same line, so the full
/// line is the same ordered sequence no matter which of its points is asked
/// about.
pub proof fn lemma_line_round_trip(size: int, dir: Direction, p: Point, q: Point)
    requires
        1 <= size <= 19,
        line_seq(size, dir, line_id(dir, p)).contains(q),
        line_in_family(size, dir, line_id(dir, p)),
    ensures
        line_id(dir, q) == line_id(dir, p),
        line_seq(size, dir, line_id(dir, q)) == line_seq(size, dir, line_id(dir, p)),
{
    let id = line_id(dir, p);
    let s = line_seq(size, dir, id);
    let k = choose|k: int| 0 <= k < s.len() && s[k] == q;
    lemma_line_seq_points(size, dir, id);
}

/// Coverage without duplication: each board point lies on exactly one line
/// of each family, at exactly one index.
pub proof fn lemma_family_covers_once(size: int, dir: Direction, p: Point)
    requires
        1 <= size <= 19,
        !p.is_null,
        p.x < size,
        p.y < size,
    ensures
        line_in_family(size, dir, line_id(dir, p)),
        line_seq(size, dir, line_id(dir, p)).contains(p),
        forall|id: int|
            line_in_family(size, dir, id) && line_seq(size, dir, id).contains(p) ==> id == line_id(
                dir,
                p,
            ),
        forall|k1: int, k2: int|
            #![trigger line_seq(size, dir, line_id(dir, p))[k1], line_seq(size, dir, line_id(dir, p))[k2]]
            {
                let s = line_seq(size, dir, line_id(dir, p));
                0 <= k1 < s.len() && 0 <= k2 < s.len() && s[k1] == p && s[k2] == p ==> k1 == k2
            },
{
    let id = line_id(dir, p);
    let s = line_seq(size, dir, id);
    match dir {
        Direction::Horizontal => {
            assert(s[p.x as int] == p);
        },
        Direction::Vertical => {
            assert(s[p.y as int] == p);
        },
        Direction::Diagonal { bottom: true } => {
            let x0 = if id <= size - 1 {
                0int
            } else {
                id - (size - 1)
            };
            assert(s[p.x - x0] == p);
        },
        Direction::Diagonal { bottom: false } => {
            let x0 = if id >= 0 {
                id
            } else {
                0int
            };
            assert(s[p.x - x0] == p);
        },
    }
    assert forall|id2: int|
        line_in_family(size, dir, id2) && line_seq(size, dir, id2).contains(p) implies id2
        == id by {
        lemma_line_seq_points(size, dir, id2);
        let k = choose|k: int|
            0 <= k < line_seq(size, dir, id2).len() && line_seq(size, dir, id2)[k] == p;
    }
    lemma_line_seq_points(size, dir, id);
}

/// Lines as an executable value: each entry is a direction together with the
/// ordered points of one line.
pub open spec fn lines_match(
    v: Seq<(Direction, Vec<Point>)>,
    s: Seq<(Direction, Seq<Point>)>,
) -> bool {
    &&& v.len() == s.len()
    &&& forall|j: int|
        0 <= j < s.len() ==> (#[trigger] v[j]).0 == s[j].0 && v[j].1@ == s[j].1
}

/// Every line of every family, tagged with its direction: first the rows,
/// then the columns, then each diagonal family in ascending identifier
/// order.
pub open spec fn all_lines_spec(size: int) -> Seq<(Direction, Seq<Point>)> {
    Seq::new(size as nat, |j: int| (Direction::Horizontal, line_seq(size, Direction::Horizontal, j)))
        + Seq::new(size as nat, |j: int| (Direction::Vertical, line_seq(size, Direction::Vertical, j)))
        + Seq::new(
        (2 * size - 1) as nat,
        |j: int| (Direction::Diagonal { bottom: true }, line_seq(size, Direction::Diagonal { bottom: true }, j)),
    ) + Seq::new(
        (2 * size - 1) as nat,
        |j: int|
            (
                Direction::Diagonal { bottom: false },
                line_seq(size, Direction::Diagonal { bottom: false }, j - (size - 1)),
            ),
    )
}

impl BoardArr {
    /// The full line through `point` in `direction`, with the index `point`
    /// itself has in it. Whichever point of a line is asked about, the same
    /// ordered sequence comes back.
    pub fn get_line(&self, direction: Direction, point: &Point) -> (r: (usize, Vec<Point>))
        requires
            self.wf(),
            self.in_bounds(*point),
        ensures
            r.1@ == line_seq(self.spec_size() as int, direction, line_id(direction, *point)),
            r.0 < r.1@.len(),
            r.1@[r.0 as int] == *point,
    {
        let size = self.size();
        let ghost gsize = self.spec_size() as int;
        let ghost id = line_id(direction, *point);
        let mut line: Vec<Point> = Vec::new();
        let mut k: u32 = 0;
        let idx: u32;
        match direction {
            Direction::Horizontal => {
                idx = point.x;
                let y0 = point.y;
                while k < size
                    invariant
                        k <= size,
                        size <= 19,
                        line@.len() == k,
                        forall|j: int|
                            0 <= j < k ==> line@[j] == (Point {
                                x: j as u32,
                                y: y0,
                                is_null: false,
                            }),
                    decreases size - k,
                {
                    line.push(Point::new(k, y0));
                    k = k + 1;
                }
                proof {
                    assert(line@ =~= line_seq(gsize, direction, id));
                }
            },
            Direction::Vertical => {
                idx = point.y;
                let x0 = point.x;
                while k < size
                    invariant
                        k <= size,
                        size <= 19,
                        line@.len() == k,
                        forall|j: int|
                            0 <= j < k ==> line@[j] == (Point {
                                x: x0,
                                y: j as u32,
                                is_null: false,
                            }),
                    decreases size - k,
                {
                    line.push(Point::new(x0, k));
                    k = k + 1;
                }
                proof {
                    assert(line@ =~= line_seq(gsize, direction, id));
                }
            },
            Direction::Diagonal { bottom: true } => {
                let steps = if point.x < size - 1 - point.y {
                    point.x
                } else {
                    size - 1 - point.y
                };
                idx = steps;
                let x0 = point.x - steps;
                let y0 = point.y + steps;
                let len = y0 - x0 + 1;
                while k < len
                    invariant
                        k <= len,
                        len <= 19,
                        x0 + len <= 38,
                        y0 >= len - 1,
                        line@.len() == k,
                        forall|j: int|
                            0 <= j < k ==> line@[j] == (Point {
                                x: (x0 + j) as u32,
                                y: (y0 - j) as u32,
                                is_null: false,
                            }),
                    decreases len - k,
                {
                    line.push(Point::new(x0 + k, y0 - k));
                    k = k + 1;
                }
                proof {
                    assert(line@ =~= line_seq(gsize, direction, id));
                }
            },
            Direction::Diagonal { bottom: false } => {
                let steps = if point.x < point.y {
                    point.x
                } else {
                    point.y
                };
                idx = steps;
                let x0 = point.x - steps;
                let y0 = point.y - steps;
                let len = size - x0 - y0;
                while k < len
                    invariant
                        k <= len,
                        len <= 19,
                        x0 + len <= 38,
                        y0 + len <= 38,
                        line@.len() == k,
                        forall|j: int|
                            0 <= j < k ==> line@[j] == (Point {
                                x: (x0 + j) as u32,
                                y: (y0 + j) as u32,
                                is_null: false,
                            }),
                    decreases len - k,
                {
                    line.push(Point::new(x0 + k, y0 + k));
                    k = k + 1;
                }
                proof {
                    assert(line@ =~= line_seq(gsize, direction, id));
                }
            },
        }
        (idx as usize, line)
    }

    /// Every line of every family, each tagged with its direction; no line
    /// appears twice, and each board point lies on exactly one line per
    /// family.
    pub fn all_lines(&self) -> (r: Vec<(Direction, Vec<Point>)>)
        requires
            self.wf(),
        ensures
            lines_match(r@, all_lines_spec(self.spec_size() as int)),
    {
        let size = self.size();
        let ghost gsize = size as int;
        let ghost spec = all_lines_spec(gsize);
        let mut r: Vec<(Direction, Vec<Point>)> = Vec::new();
        let mut y: u32 = 0;
        while y < size
            invariant
                self.wf(),
                y <= size,
                size == self.spec_size(),
                r@.len() == y,
                forall|j: int|
                    0 <= j < y ==> (#[trigger] r@[j]).0 == all_lines_spec(size as int)[j].0
                        && r@[j].1@ == all_lines_spec(size as int)[j].1,
            decreases size - y,
        {
            let l = self.get_line(Direction::Horizontal, &Point::new(0, y));
            r.push((Direction::Horizontal, l.1));
            y = y + 1;
        }
        let mut x: u32 = 0;
        while x < size
            invariant
                self.wf(),
                x <= size,
                size == self.spec_size(),
                r@.len() == size + x,
                forall|j: int|
                    0 <= j < size + x ==> (#[trigger] r@[j]).0 == all_lines_spec(size as int)[j].0
                        && r@[j].1@ == all_lines_spec(size as int)[j].1,
            decreases size - x,
        {
            let l = self.get_line(Direction::Vertical, &Point::new(x, 0));
            r.push((Direction::Vertical, l.1));
            x = x + 1;
        }
        let mut j: u32 = 0;
        while j < 2 * size - 1
            invariant
                self.wf(),
                j <= 2 * size - 1,
                size == self.spec_size(),
                r@.len() == 2 * size + j,
                forall|jj: int|
                    0 <= jj < 2 * size + j ==> (#[trigger] r@[jj]).0 == all_lines_spec(
                        size as int,
                    )[jj].0 && r@[jj].1@ == all_lines_spec(size as int)[jj].1,
            decreases 2 * size - 1 - j,
        {
            let p = if j < size {
                Point::new(0, j)
            } else {
                Point::new(j - (size - 1), size - 1)
            };
            let l = self.get_line(Direction::Diagonal { bottom: true }, &p);
            r.push((Direction::Diagonal { bottom: true }, l.1));
            j = j + 1;
        }
        let mut j2: u32 = 0;
        while j2 < 2 * size - 1
            invariant
                self.wf(),
                j2 <= 2 * size - 1,
                size == self.spec_size(),
                r@.len() == 4 * size - 1 + j2,
                forall|jj: int|
                    0 <= jj < 4 * size - 1 + j2 ==> (#[trigger] r@[jj]).0 == all_lines_spec(
                        size as int,
                    )[jj].0 && r@[jj].1@ == all_lines_spec(size as int)[jj].1,
            decreases 2 * size - 1 - j2,
        {
            let p = if j2 < size - 1 {
                Point::new(0, (size - 1) - j2)
            } else {
                Point::new(j2 - (size - 1), 0)
            };
            let l = self.get_line(Direction::Diagonal { bottom: false }, &p);
            r.push((Direction::Diagonal { bottom: false }, l.1));
            j2 = j2 + 1;
        }
        r
    }
}

/// Every point of every line of `all_lines_spec` is a real board cell.
pub proof fn lemma_all_lines_points(size: int)
    requires
        1 <= size <= 19,
    ensures
        forall|j: int, k: int|
            0 <= j < all_lines_spec(size).len() && 0 <= k < all_lines_spec(size)[j].1.len() ==> {
                let p = #[trigger] all_lines_spec(size)[j].1[k];
                &&& !p.is_null
                &&& p.x < size
                &&& p.y < size
            },
{
    let s = all_lines_spec(size);
    assert forall|j: int, k: int|
        0 <= j < s.len() && 0 <= k < s[j].1.len() implies {
        let _trig = #[trigger] s[j].1[k];
        let p = s[j].1[k];
        &&& !p.is_null
        &&& p.x < size
        &&& p.y < size
    } by {
        if j < size {
            lemma_line_seq_points(size, Direction::Horizontal, j);
            assert(s[j].1 == line_seq(size, Direction::Horizontal, j));
        } else if j < 2 * size {
            lemma_line_seq_points(size, Direction::Vertical, j - size);
            assert(s[j].1 == line_seq(size, Direction::Vertical, j - size));
        } else if j < 4 * size - 1 {
            lemma_line_seq_points(size, Direction::Diagonal { bottom: true }, j - 2 * size);
            assert(s[j].1 == line_seq(size, Direction::Diagonal { bottom: true }, j - 2 * size));
        } else {
            lemma_line_seq_points(
                size,
                Direction::Diagonal { bottom: false },
                j - (4 * size - 1) - (size - 1),
            );
            assert(s[j].1 == line_seq(
                size,
                Direction::Diagonal { bottom: false },
                j - (4 * size - 1) - (size - 1),
            ));
        }
    }
}

/// Point `p` stands at index `k` of entry `j` of the full line list, and
/// that entry belongs to family `dir`.
pub open spec fn line_entry_at(size: int, dir: Direction, p: Point, j: int, k: int) -> bool {
    &&& 0 <= j < all_lines_spec(size).len()
    &&& all_lines_spec(size)[j].0 == dir
    &&& 0 <= k < all_lines_spec(size)[j].1.len()
    &&& all_lines_spec(size)[j].1[k] == p
}

/// The index of the line through `p` of family `dir` within the full list.
pub open spec fn line_entry_index(size: int, dir: Direction, p: Point) -> int {
    match dir {
        Direction::Horizontal => p.y as int,
        Direction::Vertical => size + p.x,
        Direction::Diagonal { bottom: true } => 2 * size + p.x + p.y,
        Direction::Diagonal { bottom: false } => 4 * size - 1 + (p.x - p.y) + (size - 1),
    }
}

/// Coverage without duplication over the full line list: each board point
/// stands in exactly one line of each direction family, at exactly one
/// index.
pub proof fn lemma_all_lines_cover_once(size: int, dir: Direction, p: Point)
    requires
        1 <= size <= 19,
        !p.is_null,
        p.x < size,
        p.y < size,
    ensures
        exists|j: int, k: int| line_entry_at(size, dir, p, j, k),
        forall|j1: int, k1: int, j2: int, k2: int|
            line_entry_at(size, dir, p, j1, k1) && line_entry_at(size, dir, p, j2, k2) ==> j1 == j2
                && k1 == k2,
{
    lemma_family_covers_once(size, dir, p);
    let id = line_id(dir, p);
    let j0 = line_entry_index(size, dir, p);
    let s = line_seq(size, dir, id);
    assert(all_lines_spec(size)[j0].0 == dir);
    assert(all_lines_spec(size)[j0].1 == s);
    let k0 = choose|k: int| 0 <= k < s.len() && s[k] == p;
    assert(line_entry_at(size, dir, p, j0, k0));
    assert forall|j1: int, k1: int, j2: int, k2: int|
        line_entry_at(size, dir, p, j1, k1) && line_entry_at(size, dir, p, j2, k2) implies j1 == j2
        && k1 == k2 by {
        lemma_entry_determined(size, dir, p, j1);
        lemma_entry_determined(size, dir, p, j2);
    }
}

/// An entry of family `dir` whose line holds `p` must be the entry of `p`'s
/// own line.
proof fn lemma_entry_determined(size: int, dir: Direction, p: Point, j: int)
    requires
        1 <= size <= 19,
        !p.is_null,
        p.x < size,
        p.y < size,
        0 <= j < all_lines_spec(size).len(),
        all_lines_spec(size)[j].0 == dir,
        all_lines_spec(size)[j].1.contains(p),
    ensures
        j == line_entry_index(size, dir, p),
{
    lemma_family_covers_once(size, dir, p);
    let e = all_lines_spec(size)[j];
    if j < size {
        assert(e.1 == line_seq(size, Direction::Horizontal, j));
        assert(line_in_family(size, Direction::Horizontal, j));
    } else if j < 2 * size {
        assert(e.1 == line_seq(size, Direction::Vertical, j - size));
        assert(line_in_family(size, Direction::Vertical, j - size));
    } else if j < 4 * size - 1 {
        assert(e.1 == line_seq(size, Direction::Diagonal { bottom: true }, j - 2 * size));
        assert(line_in_family(size, Direction::Diagonal { bottom: true }, j - 2 * size));
    } else {
        assert(e.1 == line_seq(
            size,
            Direction::Diagonal { bottom: false },
            j - (4 * size - 1) - (size - 1),
        ));
        assert(line_in_family(
            size,
            Direction::Diagonal { bottom: false },
            j - (4 * size - 1) - (size - 1),
        ));
    }
}

} // verus!



