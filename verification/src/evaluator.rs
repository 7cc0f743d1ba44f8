use vstd::prelude::*;

use crate::board::BoardArr;
use crate::board::GridModel;
use crate::board::Point;
use crate::board::Stone;
use crate::board::lemma_place_lowers_empty;
use crate::conditions::RenjuCondition;
use crate::conditions::RenjuConditions;
use crate::conditions::contains_cond;
use crate::conditions::contains_cp;
use crate::conditions::contains_pair;
use crate::conditions::contains_point;
use crate::conditions::contains_triple;
use crate::conditions::insert_cond;
use crate::conditions::insert_cp;
use crate::conditions::insert_pair;
use crate::conditions::insert_point;
use crate::conditions::insert_triple;
use crate::conditions::lemma_seq_count_push;
use crate::conditions::seq_count;
use crate::conditions::spec_insert;
use crate::lines::Direction;
use crate::lines::all_lines_spec;
use crate::lines::lemma_all_lines_points;
use crate::lines::lines_match;

verus! {

/// How one cell of a line reads for the queried colour.
#[derive(PartialEq, Eq, Structural, Clone, Copy, Debug)]
pub enum CellClass {
    /// A stone of the queried colour.
    Same,
    /// A stone of the other colour.
    NotSame,
    /// An empty intersection.
    Empty,
    /// A virtual cell beyond the board's edge.
    Border,
}

pub open spec fn null_point() -> Point {
    Point { x: 0, y: 0, is_null: true }
}

/// A line after classification: class and coordinate per cell, with two
/// border sentinels at each end.
pub open spec fn classify(stone: Stone, cell: Stone) -> CellClass {
    if cell == Stone::Empty {
        CellClass::Empty
    } else if cell == stone {
        CellClass::Same
    } else {
        CellClass::NotSame
    }
}

pub open spec fn classify_line(g: GridModel, stone: Stone, pts: Seq<Point>) -> Seq<
    (CellClass, Point),
> {
    seq![(CellClass::Border, null_point()), (CellClass::Border, null_point())] + pts.map_values(
        |p: Point| (classify(stone, g.stone_at(p.x as int, p.y as int)), p),
    ) + seq![(CellClass::Border, null_point()), (CellClass::Border, null_point())]
}

/// Every line of the board, classified for the queried colour.
pub open spec fn spec_lines(g: GridModel, stone: Stone) -> Seq<(Direction, Seq<(CellClass, Point)>)> {
    all_lines_spec(g.size).map_values(
        |dl: (Direction, Seq<Point>)| (dl.0, classify_line(g, stone, dl.1)),
    )
}

pub open spec fn cls(l: Seq<(CellClass, Point)>, i: int) -> CellClass {
    l[i].0
}

pub open spec fn pt(l: Seq<(CellClass, Point)>, i: int) -> Point {
    l[i].1
}

/// A cell classified `Empty` is a real, empty board cell.
pub proof fn lemma_classified_cell(g: GridModel, stone: Stone, pts: Seq<Point>, pos: int)
    requires
        0 <= pos < classify_line(g, stone, pts).len(),
        forall|k: int| 0 <= k < pts.len() ==> g.in_bounds(#[trigger] pts[k]),
    ensures
        cls(classify_line(g, stone, pts), pos) == CellClass::Empty ==> {
            let p = pt(classify_line(g, stone, pts), pos);
            &&& g.in_bounds(p)
            &&& g.stone_at(p.x as int, p.y as int) == Stone::Empty
        },
{
    let l = classify_line(g, stone, pts);
    if 2 <= pos < 2 + pts.len() {
        assert(l[pos] == (classify(stone, g.stone_at(pts[pos - 2].x as int, pts[pos - 2].y as int)),
        pts[pos - 2]));
    }
}

/// The number of sliding windows of width `w` a padded line admits.
pub open spec fn n_windows(l: Seq<(CellClass, Point)>, w: int) -> nat {
    if l.len() >= w {
        (l.len() - w + 1) as nat
    } else {
        0
    }
}

/// A window touches the restriction set, or there is no restriction. Only
/// windows that touch it are scanned for fours and threes; this is a pure
/// performance filter on the caller's side.
pub open spec fn window_touches(
    l: Seq<(CellClass, Point)>,
    i: int,
    w: int,
    restrict: Option<Seq<Point>>,
) -> bool {
    match restrict {
        None => true,
        Some(pts) => exists|k: int| i <= k < i + w && pts.contains(#[trigger] l[k].1),
    }
}

/// What one five-window contributes: a run of four with one completing empty
/// cell, skipped for Black when a stone beyond would really make an overline.
pub open spec fn five_window(
    l: Seq<(CellClass, Point)>,
    black: bool,
    dir: Direction,
    i: int,
    acc: (Seq<RenjuCondition>, Seq<Point>),
) -> (Seq<RenjuCondition>, Seq<Point>) {
    if cls(l, i + 1) == CellClass::Same && cls(l, i + 2) == CellClass::Same && cls(l, i + 3)
        == CellClass::Same && cls(l, i + 4) == CellClass::Same && cls(l, i + 5)
        == CellClass::Empty {
        if black && (cls(l, i + 6) == CellClass::Same || cls(l, i) == CellClass::Same) {
            acc
        } else {
            let c = RenjuCondition::Five {
                direction: dir,
                s0: pt(l, i + 1),
                s1: pt(l, i + 2),
                s2: pt(l, i + 3),
                s3: pt(l, i + 4),
                s4: pt(l, i + 5),
                place: pt(l, i + 5),
            };
            (spec_insert(acc.0, c), acc.1.push(pt(l, i + 5)))
        }
    } else if cls(l, i + 1) == CellClass::Empty && cls(l, i + 2) == CellClass::Same && cls(
        l,
        i + 3,
    ) == CellClass::Same && cls(l, i + 4) == CellClass::Same && cls(l, i + 5) == CellClass::Same {
        if black && (cls(l, i) == CellClass::Same || cls(l, i + 6) == CellClass::Same) {
            acc
        } else {
            let c = RenjuCondition::Five {
                direction: dir,
                s0: pt(l, i + 1),
                s1: pt(l, i + 2),
                s2: pt(l, i + 3),
                s3: pt(l, i + 4),
                s4: pt(l, i + 5),
                place: pt(l, i + 1),
            };
            (spec_insert(acc.0, c), acc.1.push(pt(l, i + 1)))
        }
    } else {
        acc
    }
}

pub open spec fn five_line(
    l: Seq<(CellClass, Point)>,
    black: bool,
    dir: Direction,
    acc: (Seq<RenjuCondition>, Seq<Point>),
    n: nat,
) -> (Seq<RenjuCondition>, Seq<Point>)
    decreases n,
{
    if n == 0 {
        acc
    } else {
        five_window(l, black, dir, n - 1, five_line(l, black, dir, acc, (n - 1) as nat))
    }
}

pub open spec fn five_lines(
    lines: Seq<(Direction, Seq<(CellClass, Point)>)>,
    black: bool,
    acc: (Seq<RenjuCondition>, Seq<Point>),
    m: nat,
) -> (Seq<RenjuCondition>, Seq<Point>)
    decreases m,
{
    if m == 0 {
        acc
    } else {
        let prev = five_lines(lines, black, acc, (m - 1) as nat);
        five_line(lines[m - 1].1, black, lines[m - 1].0, prev, n_windows(lines[m - 1].1, 7))
    }
}

/// The empty cell, if any, whose occupation would extend this six-cell
/// window to six in a row.
pub open spec fn overline_window(l: Seq<(CellClass, Point)>, i: int) -> Option<Point> {
    if cls(l, i) == CellClass::Empty && cls(l, i + 1) == CellClass::Same && cls(l, i + 2)
        == CellClass::Same && cls(l, i + 3) == CellClass::Same && cls(l, i + 4) == CellClass::Same
        && cls(l, i + 5) == CellClass::Same {
        Some(pt(l, i))
    } else if cls(l, i) == CellClass::Same && cls(l, i + 1) == CellClass::Empty && cls(l, i + 2)
        == CellClass::Same && cls(l, i + 3) == CellClass::Same && cls(l, i + 4) == CellClass::Same
        && cls(l, i + 5) == CellClass::Same {
        Some(pt(l, i + 1))
    } else if cls(l, i) == CellClass::Same && cls(l, i + 1) == CellClass::Same && cls(l, i + 2)
        == CellClass::Empty && cls(l, i + 3) == CellClass::Same && cls(l, i + 4) == CellClass::Same
        && cls(l, i + 5) == CellClass::Same {
        Some(pt(l, i + 2))
    } else if cls(l, i) == CellClass::Same && cls(l, i + 1) == CellClass::Same && cls(l, i + 2)
        == CellClass::Same && cls(l, i + 3) == CellClass::Empty && cls(l, i + 4) == CellClass::Same
        && cls(l, i + 5) == CellClass::Same {
        Some(pt(l, i + 3))
    } else if cls(l, i) == CellClass::Same && cls(l, i + 1) == CellClass::Same && cls(l, i + 2)
        == CellClass::Same && cls(l, i + 3) == CellClass::Same && cls(l, i + 4) == CellClass::Empty
        && cls(l, i + 5) == CellClass::Same {
        Some(pt(l, i + 4))
    } else if cls(l, i) == CellClass::Same && cls(l, i + 1) == CellClass::Same && cls(l, i + 2)
        == CellClass::Same && cls(l, i + 3) == CellClass::Same && cls(l, i + 4) == CellClass::Same
        && cls(l, i + 5) == CellClass::Empty {
        Some(pt(l, i + 5))
    } else {
        None
    }
}

pub open spec fn over_line(l: Seq<(CellClass, Point)>, acc: Seq<Point>, n: nat) -> Seq<Point>
    decreases n,
{
    if n == 0 {
        acc
    } else {
        let prev = over_line(l, acc, (n - 1) as nat);
        match overline_window(l, n - 1) {
            Some(p) => spec_insert(prev, p),
            None => prev,
        }
    }
}

pub open spec fn over_lines(
    lines: Seq<(Direction, Seq<(CellClass, Point)>)>,
    acc: Seq<Point>,
    m: nat,
) -> Seq<Point>
    decreases m,
{
    if m == 0 {
        acc
    } else {
        over_line(lines[m - 1].1, over_lines(lines, acc, (m - 1) as nat), n_windows(lines[m - 1].1, 6))
    }
}

/// What one seven-cell window contributes to the four-shapes, keyed by their
/// placement point. A shape whose placement point would be an overline is
/// dropped entirely.
pub open spec fn four_window(
    l: Seq<(CellClass, Point)>,
    dir: Direction,
    forb: Seq<Point>,
    restrict: Option<Seq<Point>>,
    i: int,
    acc: Seq<(Point, RenjuCondition)>,
) -> Seq<(Point, RenjuCondition)> {
    if !window_touches(l, i, 7, restrict) {
        acc
    } else if cls(l, i + 1) == CellClass::Empty && cls(l, i + 2) == CellClass::Empty && cls(
        l,
        i + 3,
    ) == CellClass::Same && cls(l, i + 4) == CellClass::Same && cls(l, i + 5) == CellClass::Same
        && cls(l, i + 6) != CellClass::Same {
        let acc1 = if !forb.contains(pt(l, i + 2)) {
            let c = if cls(l, i + 6) == CellClass::Empty {
                RenjuCondition::StraightFour {
                    direction: dir,
                    s0: pt(l, i + 2),
                    s1: pt(l, i + 3),
                    s2: pt(l, i + 4),
                    s3: pt(l, i + 5),
                    place: pt(l, i + 2),
                }
            } else {
                RenjuCondition::ClosedFour {
                    direction: dir,
                    s0: pt(l, i + 2),
                    s1: pt(l, i + 3),
                    s2: pt(l, i + 4),
                    s3: pt(l, i + 5),
                    place: pt(l, i + 2),
                }
            };
            spec_insert(acc, (pt(l, i + 2), c))
        } else {
            acc
        };
        if !forb.contains(pt(l, i + 1)) && cls(l, i) != CellClass::Same {
            spec_insert(
                acc1,
                (
                    pt(l, i + 1),
                    RenjuCondition::BrokenFour {
                        direction: dir,
                        s0: pt(l, i + 1),
                        s1: pt(l, i + 2),
                        s2: pt(l, i + 3),
                        s3: pt(l, i + 4),
                        s4: pt(l, i + 5),
                        place: pt(l, i + 1),
                    },
                ),
            )
        } else {
            acc1
        }
    } else if cls(l, i + 1) == CellClass::Same && cls(l, i + 2) == CellClass::Same && cls(l, i + 3)
        == CellClass::Same && cls(l, i + 4) == CellClass::Empty && cls(l, i + 5)
        == CellClass::Empty && cls(l, i) != CellClass::Same {
        let acc1 = if !forb.contains(pt(l, i + 4)) {
            let c = if cls(l, i) == CellClass::Empty {
                RenjuCondition::StraightFour {
                    direction: dir,
                    s0: pt(l, i + 1),
                    s1: pt(l, i + 2),
                    s2: pt(l, i + 3),
                    s3: pt(l, i + 4),
                    place: pt(l, i + 4),
                }
            } else {
                RenjuCondition::ClosedFour {
                    direction: dir,
                    s0: pt(l, i + 1),
                    s1: pt(l, i + 2),
                    s2: pt(l, i + 3),
                    s3: pt(l, i + 4),
                    place: pt(l, i + 4),
                }
            };
            spec_insert(acc, (pt(l, i + 4), c))
        } else {
            acc
        };
        if !forb.contains(pt(l, i + 5)) && cls(l, i + 6) != CellClass::Same {
            spec_insert(
                acc1,
                (
                    pt(l, i + 5),
                    RenjuCondition::BrokenFour {
                        direction: dir,
                        s0: pt(l, i + 1),
                        s1: pt(l, i + 2),
                        s2: pt(l, i + 3),
                        s3: pt(l, i + 4),
                        s4: pt(l, i + 5),
                        place: pt(l, i + 5),
                    },
                ),
            )
        } else {
            acc1
        }
    } else if cls(l, i + 1) == CellClass::Empty && cls(l, i + 2) == CellClass::Same && cls(
        l,
        i + 3,
    ) == CellClass::Empty && cls(l, i + 4) == CellClass::Same && cls(l, i + 5) == CellClass::Same
        && cls(l, i + 6) != CellClass::Same {
        let acc1 = if !forb.contains(pt(l, i + 3)) {
            let c = if cls(l, i + 6) == CellClass::Empty {
                RenjuCondition::StraightFour {
                    direction: dir,
                    s0: pt(l, i + 2),
                    s1: pt(l, i + 3),
                    s2: pt(l, i + 4),
                    s3: pt(l, i + 5),
                    place: pt(l, i + 3),
                }
            } else {
                RenjuCondition::ClosedFour {
                    direction: dir,
                    s0: pt(l, i + 2),
                    s1: pt(l, i + 3),
                    s2: pt(l, i + 4),
                    s3: pt(l, i + 5),
                    place: pt(l, i + 3),
                }
            };
            spec_insert(acc, (pt(l, i + 3), c))
        } else {
            acc
        };
        if !forb.contains(pt(l, i + 1)) && cls(l, i) != CellClass::Same {
            spec_insert(
                acc1,
                (
                    pt(l, i + 1),
                    RenjuCondition::BrokenFour {
                        direction: dir,
                        s0: pt(l, i + 1),
                        s1: pt(l, i + 2),
                        s2: pt(l, i + 3),
                        s3: pt(l, i + 4),
                        s4: pt(l, i + 5),
                        place: pt(l, i + 1),
                    },
                ),
            )
        } else {
            acc1
        }
    } else if cls(l, i + 1) == CellClass::Same && cls(l, i + 2) == CellClass::Same && cls(l, i + 3)
        == CellClass::Empty && cls(l, i + 4) == CellClass::Same && cls(l, i + 5)
        == CellClass::Empty && cls(l, i) != CellClass::Same {
        let acc1 = if !forb.contains(pt(l, i + 3)) {
            let c = if cls(l, i) == CellClass::Empty {
                RenjuCondition::StraightFour {
                    direction: dir,
                    s0: pt(l, i + 1),
                    s1: pt(l, i + 2),
                    s2: pt(l, i + 3),
                    s3: pt(l, i + 4),
                    place: pt(l, i + 3),
                }
            } else {
                RenjuCondition::ClosedFour {
                    direction: dir,
                    s0: pt(l, i + 1),
                    s1: pt(l, i + 2),
                    s2: pt(l, i + 3),
                    s3: pt(l, i + 4),
                    place: pt(l, i + 3),
                }
            };
            spec_insert(acc, (pt(l, i + 3), c))
        } else {
            acc
        };
        if !forb.contains(pt(l, i + 5)) && cls(l, i + 6) != CellClass::Same {
            spec_insert(
                acc1,
                (
                    pt(l, i + 5),
                    RenjuCondition::BrokenFour {
                        direction: dir,
                        s0: pt(l, i + 1),
                        s1: pt(l, i + 2),
                        s2: pt(l, i + 3),
                        s3: pt(l, i + 4),
                        s4: pt(l, i + 5),
                        place: pt(l, i + 5),
                    },
                ),
            )
        } else {
            acc1
        }
    } else {
        acc
    }
}

pub open spec fn four_line(
    l: Seq<(CellClass, Point)>,
    dir: Direction,
    forb: Seq<Point>,
    restrict: Option<Seq<Point>>,
    acc: Seq<(Point, RenjuCondition)>,
    n: nat,
) -> Seq<(Point, RenjuCondition)>
    decreases n,
{
    if n == 0 {
        acc
    } else {
        four_window(l, dir, forb, restrict, n - 1, four_line(l, dir, forb, restrict, acc, (n - 1) as nat))
    }
}

pub open spec fn four_lines(
    lines: Seq<(Direction, Seq<(CellClass, Point)>)>,
    forb: Seq<Point>,
    restrict: Option<Seq<Point>>,
    acc: Seq<(Point, RenjuCondition)>,
    m: nat,
) -> Seq<(Point, RenjuCondition)>
    decreases m,
{
    if m == 0 {
        acc
    } else {
        four_line(
            lines[m - 1].1,
            lines[m - 1].0,
            forb,
            restrict,
            four_lines(lines, forb, restrict, acc, (m - 1) as nat),
            n_windows(lines[m - 1].1, 7),
        )
    }
}

/// The first occurrences of the keys of a keyed sequence, in order.
pub open spec fn distinct_keys(pairs: Seq<(Point, RenjuCondition)>, n: nat) -> Seq<Point>
    decreases n,
{
    if n == 0 {
        Seq::empty()
    } else {
        spec_insert(distinct_keys(pairs, (n - 1) as nat), pairs[n - 1].0)
    }
}

/// The shapes recorded at one placement point, in order.
pub open spec fn conds_of(pairs: Seq<(Point, RenjuCondition)>, k: Point) -> Seq<RenjuCondition>
    decreases pairs.len(),
{
    if pairs.len() == 0 {
        Seq::empty()
    } else {
        let pre = conds_of(pairs.drop_last(), k);
        if pairs.last().0 == k {
            pre.push(pairs.last().1)
        } else {
            pre
        }
    }
}

pub open spec fn insert_all_conds(
    acc: Seq<RenjuCondition>,
    cs: Seq<RenjuCondition>,
    n: nat,
) -> Seq<RenjuCondition>
    decreases n,
{
    if n == 0 {
        acc
    } else {
        spec_insert(insert_all_conds(acc, cs, (n - 1) as nat), cs[n - 1])
    }
}

pub open spec fn insert_all_points(acc: Seq<Point>, ps: Seq<Point>, n: nat) -> Seq<Point>
    decreases n,
{
    if n == 0 {
        acc
    } else {
        spec_insert(insert_all_points(acc, ps, (n - 1) as nat), ps[n - 1])
    }
}

/// The double-four rule: for Black, a placement point that carries more than
/// one distinct four-shape becomes forbidden; every other point's shapes are
/// reported as playable conditions.
pub open spec fn fours_fold(
    pairs: Seq<(Point, RenjuCondition)>,
    black: bool,
    keys: Seq<Point>,
    n: nat,
    conds: Seq<RenjuCondition>,
    forb: Seq<Point>,
) -> (Seq<RenjuCondition>, Seq<Point>)
    decreases n,
{
    if n == 0 {
        (conds, forb)
    } else {
        let prev = fours_fold(pairs, black, keys, (n - 1) as nat, conds, forb);
        let k = keys[n - 1];
        let cs = conds_of(pairs, k);
        if black && cs.len() > 1 {
            (prev.0, spec_insert(prev.1, k))
        } else {
            (insert_all_conds(prev.0, cs, cs.len()), prev.1)
        }
    }
}

/// What one nine-cell window contributes to the threes: each entry is the
/// placement point, the three-shape created there, and the companion empty
/// cell that would extend the three to a straight four. A three whose cells
/// overlap a five's completing cell is a false three and is skipped, as is
/// one whose placement point is already forbidden.
pub open spec fn three_window(
    l: Seq<(CellClass, Point)>,
    black: bool,
    dir: Direction,
    forb: Seq<Point>,
    fives: Seq<Point>,
    restrict: Option<Seq<Point>>,
    i: int,
    acc: Seq<(Point, RenjuCondition, Point)>,
) -> Seq<(Point, RenjuCondition, Point)> {
    if !window_touches(l, i, 9, restrict) {
        acc
    } else if cls(l, i + 1) == CellClass::Empty && cls(l, i + 2) == CellClass::Empty && cls(
        l,
        i + 3,
    ) == CellClass::Empty && cls(l, i + 4) == CellClass::Same && cls(l, i + 5) == CellClass::Same
        && cls(l, i + 6) == CellClass::Empty {
        // two stones with three empties before and one after
        if cls(l, i + 7) == CellClass::Same {
            acc
        } else if cls(l, i) == CellClass::Same {
            if black && cls(l, i + 8) == CellClass::Same {
                acc
            } else {
                three_unbroken(l, dir, forb, fives, i + 3, i + 4, i + 5, i + 2, acc)
            }
        } else {
            let acc1 = if !forb.contains(pt(l, i + 2)) && !fives.contains(pt(l, i + 2))
                && !fives.contains(pt(l, i + 3)) {
                spec_insert(
                    acc,
                    (
                        pt(l, i + 2),
                        RenjuCondition::BrokenThree {
                            direction: dir,
                            s0: pt(l, i + 2),
                            s1: pt(l, i + 3),
                            s2: pt(l, i + 4),
                            s3: pt(l, i + 5),
                            place: pt(l, i + 2),
                        },
                        pt(l, i + 3),
                    ),
                )
            } else {
                acc
            };
            three_unbroken(l, dir, forb, fives, i + 3, i + 4, i + 5, i + 2, acc1)
        }
    } else if cls(l, i + 2) == CellClass::Empty && cls(l, i + 3) == CellClass::Same && cls(
        l,
        i + 4,
    ) == CellClass::Same && cls(l, i + 5) == CellClass::Empty && cls(l, i + 6) == CellClass::Empty
        && cls(l, i + 7) == CellClass::Empty {
        // the mirrored window: two stones with three empties after
        if cls(l, i + 1) == CellClass::Same {
            acc
        } else if cls(l, i + 8) == CellClass::Same {
            if black && cls(l, i) == CellClass::Same {
                acc
            } else {
                three_unbroken(l, dir, forb, fives, i + 5, i + 3, i + 4, i + 6, acc)
            }
        } else {
            let acc1 = if !forb.contains(pt(l, i + 6)) && !fives.contains(pt(l, i + 6))
                && !fives.contains(pt(l, i + 5)) {
                spec_insert(
                    acc,
                    (
                        pt(l, i + 6),
                        RenjuCondition::BrokenThree {
                            direction: dir,
                            s0: pt(l, i + 3),
                            s1: pt(l, i + 4),
                            s2: pt(l, i + 5),
                            s3: pt(l, i + 6),
                            place: pt(l, i + 6),
                        },
                        pt(l, i + 5),
                    ),
                )
            } else {
                acc
            };
            three_unbroken(l, dir, forb, fives, i + 5, i + 3, i + 4, i + 6, acc1)
        }
    } else if cls(l, i + 1) == CellClass::Empty && cls(l, i + 2) == CellClass::Empty && cls(
        l,
        i + 3,
    ) == CellClass::Same && cls(l, i + 4) == CellClass::Empty && cls(l, i + 5) == CellClass::Same
        && cls(l, i + 6) == CellClass::Empty {
        // a gapped pair, gap nearer the right stone
        if cls(l, i + 7) == CellClass::Same {
            acc
        } else if cls(l, i) == CellClass::Same {
            three_unbroken_mid(l, dir, forb, fives, i + 3, i + 4, i + 5, i + 2, acc)
        } else {
            let acc1 = if !forb.contains(pt(l, i + 2)) && !fives.contains(pt(l, i + 2))
                && !fives.contains(pt(l, i + 4)) {
                spec_insert(
                    acc,
                    (
                        pt(l, i + 2),
                        RenjuCondition::BrokenThree {
                            direction: dir,
                            s0: pt(l, i + 2),
                            s1: pt(l, i + 3),
                            s2: pt(l, i + 4),
                            s3: pt(l, i + 5),
                            place: pt(l, i + 2),
                        },
                        pt(l, i + 4),
                    ),
                )
            } else {
                acc
            };
            three_unbroken_mid(l, dir, forb, fives, i + 3, i + 4, i + 5, i + 2, acc1)
        }
    } else if cls(l, i + 1) == CellClass::Empty && cls(l, i + 2) == CellClass::Same && cls(
        l,
        i + 3,
    ) == CellClass::Empty && cls(l, i + 4) == CellClass::Same && cls(l, i + 5) == CellClass::Empty
        && cls(l, i + 6) == CellClass::Empty {
        // a gapped pair, gap nearer the left stone
        if cls(l, i) == CellClass::Same {
            acc
        } else if cls(l, i + 7) == CellClass::Same {
            three_unbroken_mid(l, dir, forb, fives, i + 2, i + 3, i + 4, i + 5, acc)
        } else {
            let acc1 = if !forb.contains(pt(l, i + 5)) && !fives.contains(pt(l, i + 5))
                && !fives.contains(pt(l, i + 4)) {
                spec_insert(
                    acc,
                    (
                        pt(l, i + 5),
                        RenjuCondition::BrokenThree {
                            direction: dir,
                            s0: pt(l, i + 2),
                            s1: pt(l, i + 3),
                            s2: pt(l, i + 4),
                            s3: pt(l, i + 5),
                            place: pt(l, i + 5),
                        },
                        pt(l, i + 4),
                    ),
                )
            } else {
                acc
            };
            three_unbroken_mid(l, dir, forb, fives, i + 2, i + 3, i + 4, i + 5, acc1)
        }
    } else if cls(l, i + 1) == CellClass::Empty && cls(l, i + 2) == CellClass::Same && cls(
        l,
        i + 3,
    ) == CellClass::Empty && cls(l, i + 4) == CellClass::Empty && cls(l, i + 5) == CellClass::Same
        && cls(l, i + 6) == CellClass::Empty && cls(l, i) != CellClass::Same && cls(l, i + 7)
        != CellClass::Same {
        // two stones around a double gap: either gap cell makes a broken three
        let acc1 = if !forb.contains(pt(l, i + 3)) && !fives.contains(pt(l, i + 3))
            && !fives.contains(pt(l, i + 4)) {
            spec_insert(
                acc,
                (
                    pt(l, i + 3),
                    RenjuCondition::BrokenThree {
                        direction: dir,
                        s0: pt(l, i + 2),
                        s1: pt(l, i + 3),
                        s2: pt(l, i + 4),
                        s3: pt(l, i + 5),
                        place: pt(l, i + 3),
                    },
                    pt(l, i + 4),
                ),
            )
        } else {
            acc
        };
        if !forb.contains(pt(l, i + 4)) && !fives.contains(pt(l, i + 4)) && !fives.contains(
            pt(l, i + 3),
        ) {
            spec_insert(
                acc1,
                (
                    pt(l, i + 4),
                    RenjuCondition::BrokenThree {
                        direction: dir,
                        s0: pt(l, i + 2),
                        s1: pt(l, i + 3),
                        s2: pt(l, i + 4),
                        s3: pt(l, i + 5),
                        place: pt(l, i + 4),
                    },
                    pt(l, i + 3),
                ),
            )
        } else {
            acc1
        }
    } else {
        acc
    }
}

/// An unbroken three whose placement cell `pl` sits beside the stone pair
/// `sa`, `sb`, with companion cell `co` on the far side.
pub open spec fn three_unbroken(
    l: Seq<(CellClass, Point)>,
    dir: Direction,
    forb: Seq<Point>,
    fives: Seq<Point>,
    pl: int,
    sa: int,
    sb: int,
    co: int,
    acc: Seq<(Point, RenjuCondition, Point)>,
) -> Seq<(Point, RenjuCondition, Point)> {
    if !forb.contains(pt(l, pl)) && !fives.contains(pt(l, pl)) && !fives.contains(pt(l, co)) {
        spec_insert(
            acc,
            (
                pt(l, pl),
                RenjuCondition::UnbrokenThree {
                    direction: dir,
                    s0: if pl < sa {
                        pt(l, pl)
                    } else {
                        pt(l, sa)
                    },
                    s1: if pl < sa {
                        pt(l, sa)
                    } else {
                        pt(l, sb)
                    },
                    s2: if pl < sa {
                        pt(l, sb)
                    } else {
                        pt(l, pl)
                    },
                    place: pt(l, pl),
                },
                pt(l, co),
            ),
        )
    } else {
        acc
    }
}

/// An unbroken three completed in the gap between its two stones.
pub open spec fn three_unbroken_mid(
    l: Seq<(CellClass, Point)>,
    dir: Direction,
    forb: Seq<Point>,
    fives: Seq<Point>,
    sa: int,
    pl: int,
    sb: int,
    co: int,
    acc: Seq<(Point, RenjuCondition, Point)>,
) -> Seq<(Point, RenjuCondition, Point)> {
    if !forb.contains(pt(l, pl)) && !fives.contains(pt(l, pl)) && !fives.contains(pt(l, co)) {
        spec_insert(
            acc,
            (
                pt(l, pl),
                RenjuCondition::UnbrokenThree {
                    direction: dir,
                    s0: pt(l, sa),
                    s1: pt(l, pl),
                    s2: pt(l, sb),
                    place: pt(l, pl),
                },
                pt(l, co),
            ),
        )
    } else {
        acc
    }
}

pub open spec fn three_line(
    l: Seq<(CellClass, Point)>,
    black: bool,
    dir: Direction,
    forb: Seq<Point>,
    fives: Seq<Point>,
    restrict: Option<Seq<Point>>,
    acc: Seq<(Point, RenjuCondition, Point)>,
    n: nat,
) -> Seq<(Point, RenjuCondition, Point)>
    decreases n,
{
    if n == 0 {
        acc
    } else {
        three_window(
            l,
            black,
            dir,
            forb,
            fives,
            restrict,
            n - 1,
            three_line(l, black, dir, forb, fives, restrict, acc, (n - 1) as nat),
        )
    }
}

pub open spec fn three_lines(
    lines: Seq<(Direction, Seq<(CellClass, Point)>)>,
    black: bool,
    forb: Seq<Point>,
    fives: Seq<Point>,
    restrict: Option<Seq<Point>>,
    acc: Seq<(Point, RenjuCondition, Point)>,
    m: nat,
) -> Seq<(Point, RenjuCondition, Point)>
    decreases m,
{
    if m == 0 {
        acc
    } else {
        three_line(
            lines[m - 1].1,
            black,
            lines[m - 1].0,
            forb,
            fives,
            restrict,
            three_lines(lines, black, forb, fives, restrict, acc, (m - 1) as nat),
            n_windows(lines[m - 1].1, 9),
        )
    }
}

pub open spec fn tkeys(triples: Seq<(Point, RenjuCondition, Point)>, n: nat) -> Seq<Point>
    decreases n,
{
    if n == 0 {
        Seq::empty()
    } else {
        spec_insert(tkeys(triples, (n - 1) as nat), triples[n - 1].0)
    }
}

pub open spec fn pairs_of(triples: Seq<(Point, RenjuCondition, Point)>, k: Point) -> Seq<
    (RenjuCondition, Point),
>
    decreases triples.len(),
{
    if triples.len() == 0 {
        Seq::empty()
    } else {
        let pre = pairs_of(triples.drop_last(), k);
        if triples.last().0 == k {
            pre.push((triples.last().1, triples.last().2))
        } else {
            pre
        }
    }
}

/// The distinct three-shapes among a point's entries, disregarding their
/// companion cells.
pub open spec fn rows_of(v: Seq<(RenjuCondition, Point)>, n: nat) -> Seq<RenjuCondition>
    decreases n,
{
    if n == 0 {
        Seq::empty()
    } else {
        spec_insert(rows_of(v, (n - 1) as nat), v[n - 1].0)
    }
}

/// Everything one evaluation reports, at the model level.
pub struct EvalModel {
    pub conditions: Seq<RenjuCondition>,
    pub forbidden: Seq<Point>,
    pub threes: Seq<(RenjuCondition, Point)>,
}

/// An extension cell not already forbidden: a way the three could become a
/// straight four without an overline or double-four.
pub open spec fn af_pred(forb: Seq<Point>) -> spec_fn((RenjuCondition, Point)) -> bool {
    |pr: (RenjuCondition, Point)| !forb.contains(pr.1)
}

/// A straight four on the hypothetical board that runs through the
/// candidate point itself and is playable there.
pub open spec fn sf_pred(k: Point, sub_forb: Seq<Point>) -> spec_fn(RenjuCondition) -> bool {
    |c: RenjuCondition|
        c matches RenjuCondition::StraightFour { .. } && c.spec_stones().contains(k)
            && !sub_forb.contains(c.spec_place())
}

/// How many of a double-three's extension cells fail: the placement is made
/// in the mind, the position re-evaluated, and an extension whose own cell
/// then turns out forbidden is not a legal way to a straight four, unless
/// more than one playable straight four through the placement already
/// settles that extension independently.
pub open spec fn three_fail_count(
    g: GridModel,
    stone: Stone,
    k: Point,
    v: Seq<(RenjuCondition, Point)>,
    m: nat,
) -> nat
    decreases g.empty_count(), 1nat, m,
    via three_fail_count_decreases
{
    if m == 0 {
        0
    } else {
        let pre = three_fail_count(g, stone, k, v, (m - 1) as nat);
        let pr = v[m - 1];
        if g.wf() && g.in_bounds(k) && g.stone_at(k.x as int, k.y as int) == Stone::Empty && stone
            != Stone::Empty {
            let sub = spec_renju(g.place(k, stone), stone, Some(seq![k, pr.1]));
            let sf = seq_count(sub.conditions, sf_pred(k, sub.forbidden));
            pre + if sf > 1 {
                0nat
            } else if sub.forbidden.contains(pr.1) {
                1nat
            } else {
                0nat
            }
        } else {
            pre
        }
    }
}

#[via_fn]
proof fn three_fail_count_decreases(
    g: GridModel,
    stone: Stone,
    k: Point,
    v: Seq<(RenjuCondition, Point)>,
    m: nat,
) {
    if m != 0 {
        if g.wf() && g.in_bounds(k) && g.stone_at(k.x as int, k.y as int) == Stone::Empty && stone
            != Stone::Empty {
            lemma_place_lowers_empty(g, k, stone);
        }
    }
}

/// The double-three rule, RIF 9.3: a point where more than one distinct
/// three meets is forbidden for Black unless at most one of the threes can
/// still legally become a straight four; deciding that re-evaluates the
/// position with the point played, recursively.
pub open spec fn three_resolution(
    g: GridModel,
    stone: Stone,
    forb_base: Seq<Point>,
    triples: Seq<(Point, RenjuCondition, Point)>,
    keys: Seq<Point>,
    n: nat,
    conds: Seq<RenjuCondition>,
    found: Seq<Point>,
) -> (Seq<RenjuCondition>, Seq<Point>)
    decreases g.empty_count(), 2nat, n,
{
    if n == 0 {
        (conds, found)
    } else {
        let prev = three_resolution(g, stone, forb_base, triples, keys, (n - 1) as nat, conds, found);
        let k = keys[n - 1];
        let v = pairs_of(triples, k);
        let rows = rows_of(v, v.len());
        if stone == Stone::Black && rows.len() > 1 {
            let allowed_fours = seq_count(v, af_pred(forb_base));
            if allowed_fours > 1 {
                let fails = three_fail_count(g, stone, k, v, v.len());
                if v.len() - fails > 1 {
                    (prev.0, spec_insert(prev.1, k))
                } else {
                    prev
                }
            } else {
                prev
            }
        } else {
            (insert_all_cp_conds(prev.0, v, v.len()), prev.1)
        }
    }
}

pub open spec fn insert_all_cp_conds(
    acc: Seq<RenjuCondition>,
    v: Seq<(RenjuCondition, Point)>,
    n: nat,
) -> Seq<RenjuCondition>
    decreases n,
{
    if n == 0 {
        acc
    } else {
        spec_insert(insert_all_cp_conds(acc, v, (n - 1) as nat), v[n - 1].0)
    }
}

pub open spec fn threes_result(
    triples: Seq<(Point, RenjuCondition, Point)>,
) -> Seq<(RenjuCondition, Point)> {
    triples.map_values(|t: (Point, RenjuCondition, Point)| (t.1, t.2))
}

/// One full evaluation: find the fives, mark the overlines, gather and
/// resolve the fours, gather the threes, and resolve double-threes by
/// hypothetical play. This is the reference the executable evaluator is
/// proved against, clause for clause in the order the rule gives them.
pub open spec fn spec_renju(g: GridModel, stone: Stone, restrict: Option<Seq<Point>>) -> EvalModel
    decreases g.empty_count(), 3nat, 0nat,
{
    let black = stone == Stone::Black;
    let lines = spec_lines(g, stone);
    let cf = five_lines(lines, black, (Seq::empty(), Seq::empty()), lines.len());
    let forb1 = if black {
        over_lines(lines, Seq::empty(), lines.len())
    } else {
        Seq::empty()
    };
    let pairs = four_lines(lines, forb1, restrict, Seq::empty(), lines.len());
    let keys = distinct_keys(pairs, pairs.len());
    let cf2 = fours_fold(pairs, black, keys, keys.len(), cf.0, forb1);
    let triples = three_lines(lines, black, cf2.1, cf.1, restrict, Seq::empty(), lines.len());
    let ks = tkeys(triples, triples.len());
    let rf = three_resolution(g, stone, cf2.1, triples, ks, ks.len(), cf2.0, Seq::empty());
    EvalModel {
        conditions: rf.0,
        forbidden: insert_all_points(cf2.1, rf.1, rf.1.len()),
        threes: threes_result(triples),
    }
}

/// Every key of a triple sequence is a real, empty cell of the board.
pub open spec fn keys_ok(g: GridModel, ts: Seq<(Point, RenjuCondition, Point)>) -> bool {
    forall|j: int|
        0 <= j < ts.len() ==> g.in_bounds((#[trigger] ts[j]).0) && g.stone_at(
            ts[j].0.x as int,
            ts[j].0.y as int,
        ) == Stone::Empty
}

pub open spec fn pts_ok(g: GridModel, pts: Seq<Point>) -> bool {
    forall|k: int| 0 <= k < pts.len() ==> g.in_bounds(#[trigger] pts[k])
}

proof fn lemma_three_window_keys(
    g: GridModel,
    stone: Stone,
    pts: Seq<Point>,
    black: bool,
    dir: Direction,
    forb: Seq<Point>,
    fives: Seq<Point>,
    restrict: Option<Seq<Point>>,
    i: int,
    acc: Seq<(Point, RenjuCondition, Point)>,
)
    requires
        keys_ok(g, acc),
        pts_ok(g, pts),
        0 <= i,
        i + 9 <= classify_line(g, stone, pts).len(),
    ensures
        keys_ok(g, three_window(classify_line(g, stone, pts), black, dir, forb, fives, restrict, i, acc)),
{
    lemma_classified_cell(g, stone, pts, i);
    lemma_classified_cell(g, stone, pts, i + 1);
    lemma_classified_cell(g, stone, pts, i + 2);
    lemma_classified_cell(g, stone, pts, i + 3);
    lemma_classified_cell(g, stone, pts, i + 4);
    lemma_classified_cell(g, stone, pts, i + 5);
    lemma_classified_cell(g, stone, pts, i + 6);
    lemma_classified_cell(g, stone, pts, i + 7);
    lemma_classified_cell(g, stone, pts, i + 8);
}

proof fn lemma_three_line_keys(
    g: GridModel,
    stone: Stone,
    pts: Seq<Point>,
    black: bool,
    dir: Direction,
    forb: Seq<Point>,
    fives: Seq<Point>,
    restrict: Option<Seq<Point>>,
    acc: Seq<(Point, RenjuCondition, Point)>,
    n: nat,
)
    requires
        keys_ok(g, acc),
        pts_ok(g, pts),
        n <= n_windows(classify_line(g, stone, pts), 9),
    ensures
        keys_ok(
            g,
            three_line(classify_line(g, stone, pts), black, dir, forb, fives, restrict, acc, n),
        ),
    decreases n,
{
    if n != 0 {
        lemma_three_line_keys(g, stone, pts, black, dir, forb, fives, restrict, acc, (n - 1) as nat);
        lemma_three_window_keys(
            g,
            stone,
            pts,
            black,
            dir,
            forb,
            fives,
            restrict,
            n - 1,
            three_line(
                classify_line(g, stone, pts),
                black,
                dir,
                forb,
                fives,
                restrict,
                acc,
                (n - 1) as nat,
            ),
        );
    }
}

proof fn lemma_three_lines_keys(
    g: GridModel,
    stone: Stone,
    black: bool,
    forb: Seq<Point>,
    fives: Seq<Point>,
    restrict: Option<Seq<Point>>,
    acc: Seq<(Point, RenjuCondition, Point)>,
    m: nat,
)
    requires
        g.wf(),
        keys_ok(g, acc),
        m <= spec_lines(g, stone).len(),
    ensures
        keys_ok(g, three_lines(spec_lines(g, stone), black, forb, fives, restrict, acc, m)),
    decreases m,
{
    if m != 0 {
        lemma_three_lines_keys(g, stone, black, forb, fives, restrict, acc, (m - 1) as nat);
        let lines = spec_lines(g, stone);
        let pts = all_lines_spec(g.size)[m - 1].1;
        lemma_all_lines_points(g.size);
        assert(pts_ok(g, pts));
        assert(lines[m - 1].1 == classify_line(g, stone, pts));
        assert(lines[m - 1].0 == all_lines_spec(g.size)[m - 1].0);
        lemma_three_line_keys(
            g,
            stone,
            pts,
            black,
            lines[m - 1].0,
            forb,
            fives,
            restrict,
            three_lines(lines, black, forb, fives, restrict, acc, (m - 1) as nat),
            n_windows(lines[m - 1].1, 9),
        );
    }
}

proof fn lemma_tkeys_ok(g: GridModel, ts: Seq<(Point, RenjuCondition, Point)>, n: nat)
    requires
        keys_ok(g, ts),
        n <= ts.len(),
    ensures
        forall|j: int|
            0 <= j < tkeys(ts, n).len() ==> g.in_bounds((#[trigger] tkeys(ts, n)[j]))
                && g.stone_at(tkeys(ts, n)[j].x as int, tkeys(ts, n)[j].y as int) == Stone::Empty,
    decreases n,
{
    if n != 0 {
        lemma_tkeys_ok(g, ts, (n - 1) as nat);
    }
}

/// The classified lines of the board, as the executable evaluator holds
/// them.
pub open spec fn clines_view(v: Seq<(Direction, Vec<(CellClass, Point)>)>) -> Seq<
    (Direction, Seq<(CellClass, Point)>),
> {
    v.map_values(|e: (Direction, Vec<(CellClass, Point)>)| (e.0, e.1@))
}

fn classify_lines_exec(b: &BoardArr, stone: Stone) -> (r: Vec<(Direction, Vec<(CellClass, Point)>)>)
    requires
        b.wf(),
    ensures
        clines_view(r@) == spec_lines(b@, stone),
{
    let lines_pts = b.all_lines();
    proof {
        lemma_all_lines_points(b@.size);
    }
    let mut r: Vec<(Direction, Vec<(CellClass, Point)>)> = Vec::new();
    let mut j: usize = 0;
    while j < lines_pts.len()
        invariant
            b.wf(),
            j <= lines_pts@.len(),
            lines_match(lines_pts@, all_lines_spec(b@.size)),
            r@.len() == j,
            forall|jj: int|
                0 <= jj < j ==> (#[trigger] r@[jj]).0 == spec_lines(b@, stone)[jj].0
                    && r@[jj].1@ == spec_lines(b@, stone)[jj].1,
        decreases lines_pts@.len() - j,
    {
        let dir = lines_pts[j].0;
        let mut cl: Vec<(CellClass, Point)> = Vec::new();
        cl.push((CellClass::Border, Point::null()));
        cl.push((CellClass::Border, Point::null()));
        let mut k: usize = 0;
        while k < lines_pts[j].1.len()
            invariant
                b.wf(),
                j < lines_pts@.len(),
                lines_match(lines_pts@, all_lines_spec(b@.size)),
                k <= lines_pts@[j as int].1@.len(),
                cl@.len() == 2 + k,
                cl@[0] == (CellClass::Border, null_point()),
                cl@[1] == (CellClass::Border, null_point()),
                forall|kk: int|
                    0 <= kk < lines_pts@[j as int].1@.len() ==> b@.in_bounds(
                        #[trigger] lines_pts@[j as int].1@[kk],
                    ),
                forall|kk: int|
                    0 <= kk < k ==> cl@[2 + kk] == (
                        classify(
                            stone,
                            b@.stone_at(
                                (#[trigger] lines_pts@[j as int].1@[kk]).x as int,
                                lines_pts@[j as int].1@[kk].y as int,
                            ),
                        ),
                        lines_pts@[j as int].1@[kk],
                    ),
            decreases lines_pts@[j as int].1@.len() - k,
        {
            let p = lines_pts[j].1[k];
            let s = b.at(p);
            let c = if matches!(s, Stone::Empty) {
                CellClass::Empty
            } else if s == stone {
                CellClass::Same
            } else {
                CellClass::NotSame
            };
            cl.push((c, p));
            k = k + 1;
        }
        cl.push((CellClass::Border, Point::null()));
        cl.push((CellClass::Border, Point::null()));
        proof {
            assert(cl@ =~= classify_line(b@, stone, lines_pts@[j as int].1@));
            assert(lines_pts@[j as int].1@ == all_lines_spec(b@.size)[j as int].1);
            assert(spec_lines(b@, stone)[j as int].1 == classify_line(
                b@,
                stone,
                all_lines_spec(b@.size)[j as int].1,
            ));
        }
        r.push((dir, cl));
        j = j + 1;
    }
    proof {
        assert(clines_view(r@) =~= spec_lines(b@, stone));
    }
    r
}

/// How the caller's restriction list reads at the model level.
pub open spec fn restrict_view(o: Option<&Vec<Point>>) -> Option<Seq<Point>> {
    match o {
        None => None,
        Some(v) => Some(v@),
    }
}

fn window_touch(
    l: &Vec<(CellClass, Point)>,
    i: usize,
    w: usize,
    only: Option<&Vec<Point>>,
) -> (r: bool)
    requires
        i + w <= l@.len(),
    ensures
        r == window_touches(l@, i as int, w as int, restrict_view(only)),
{
    match only {
        None => true,
        Some(pts) => {
            let n = l.len();
            proof {
                assert(l@.len() == n);
            }
            let stop = i + w;
            let mut k: usize = i;
            while k < stop
                invariant
                    i <= k <= stop,
                    stop == i + w,
                    stop <= l@.len(),
                    restrict_view(only) == Some(pts@),
                    forall|kk: int| i <= kk < k ==> !pts@.contains((#[trigger] l@[kk]).1),
                decreases stop - k,
            {
                if contains_point(pts, l[k].1) {
                    proof {
                        let kk = k as int;
                        assert(i <= kk < i + w);
                        assert(pts@.contains(l@[kk].1));
                        assert(window_touches(l@, i as int, w as int, restrict_view(only)));
                    }
                    return true;
                }
                k = k + 1;
            }
            false
        },
    }
}

fn pass_fives(
    lines: &Vec<(Direction, Vec<(CellClass, Point)>)>,
    black: bool,
    conditions: &mut Vec<RenjuCondition>,
    fives: &mut Vec<Point>,
)
    ensures
        (final(conditions)@, final(fives)@) == five_lines(
            clines_view(lines@),
            black,
            (old(conditions)@, old(fives)@),
            clines_view(lines@).len(),
        ),
{
    let ghost cl = clines_view(lines@);
    let ghost init = (old(conditions)@, old(fives)@);
    let mut j: usize = 0;
    while j < lines.len()
        invariant
            j <= lines@.len(),
            cl == clines_view(lines@),
            init == (old(conditions)@, old(fives)@),
            (conditions@, fives@) == five_lines(cl, black, init, j as nat),
        decreases lines@.len() - j,
    {
        let ghost acc_j = five_lines(cl, black, init, j as nat);
        let dir = lines[j].0;
        let l = &lines[j].1;
        proof {
            assert(cl[j as int] == (dir, l@));
        }
        let llen = l.len();
        let nw: usize = if llen >= 7 {
            llen - 6
        } else {
            0
        };
        proof {
            assert(nw == n_windows(l@, 7));
        }
        let mut i: usize = 0;
        while i < nw
            invariant
                i <= nw,
                llen == l@.len(),
                nw == n_windows(l@, 7),
                l@ == clines_view(lines@)[j as int].1,
                j < lines@.len(),
                dir == clines_view(lines@)[j as int].0,
                cl == clines_view(lines@),
                (conditions@, fives@) == five_line(l@, black, dir, acc_j, i as nat),
            decreases nw - i,
        {
            let c1 = l[i + 1].0;
            let c2 = l[i + 2].0;
            let c3 = l[i + 3].0;
            let c4 = l[i + 4].0;
            let c5 = l[i + 5].0;
            if c1 == CellClass::Same && c2 == CellClass::Same && c3 == CellClass::Same && c4
                == CellClass::Same && c5 == CellClass::Empty {
                if black && (l[i + 6].0 == CellClass::Same || l[i].0 == CellClass::Same) {
                } else {
                    let c = RenjuCondition::Five {
                        direction: dir,
                        s0: l[i + 1].1,
                        s1: l[i + 2].1,
                        s2: l[i + 3].1,
                        s3: l[i + 4].1,
                        s4: l[i + 5].1,
                        place: l[i + 5].1,
                    };
                    insert_cond(conditions, c);
                    fives.push(l[i + 5].1);
                }
            } else if c1 == CellClass::Empty && c2 == CellClass::Same && c3 == CellClass::Same && c4
                == CellClass::Same && c5 == CellClass::Same {
                if black && (l[i].0 == CellClass::Same || l[i + 6].0 == CellClass::Same) {
                } else {
                    let c = RenjuCondition::Five {
                        direction: dir,
                        s0: l[i + 1].1,
                        s1: l[i + 2].1,
                        s2: l[i + 3].1,
                        s3: l[i + 4].1,
                        s4: l[i + 5].1,
                        place: l[i + 1].1,
                    };
                    insert_cond(conditions, c);
                    fives.push(l[i + 1].1);
                }
            }
            proof {
                assert((conditions@, fives@) == five_window(
                    l@,
                    black,
                    dir,
                    i as int,
                    five_line(l@, black, dir, acc_j, i as nat),
                ));
            }
            i = i + 1;
        }
        proof {
            assert(five_lines(cl, black, init, (j + 1) as nat) == five_line(
                cl[j as int].1,
                black,
                cl[j as int].0,
                acc_j,
                n_windows(cl[j as int].1, 7),
            ));
        }
        j = j + 1;
    }
}

fn pass_overlines(
    lines: &Vec<(Direction, Vec<(CellClass, Point)>)>,
    forbidden: &mut Vec<Point>,
)
    ensures
        final(forbidden)@ == over_lines(clines_view(lines@), old(forbidden)@, clines_view(lines@).len()),
{
    let ghost cl = clines_view(lines@);
    let ghost init = old(forbidden)@;
    let mut j: usize = 0;
    while j < lines.len()
        invariant
            j <= lines@.len(),
            cl == clines_view(lines@),
            init == old(forbidden)@,
            forbidden@ == over_lines(cl, init, j as nat),
        decreases lines@.len() - j,
    {
        let ghost acc_j = over_lines(cl, init, j as nat);
        let l = &lines[j].1;
        proof {
            assert(cl[j as int].1 == l@);
        }
        let llen = l.len();
        let nw: usize = if llen >= 6 {
            llen - 5
        } else {
            0
        };
        proof {
            assert(nw == n_windows(l@, 6));
        }
        let mut i: usize = 0;
        while i < nw
            invariant
                i <= nw,
                llen == l@.len(),
                nw == n_windows(l@, 6),
                l@ == clines_view(lines@)[j as int].1,
                j < lines@.len(),
                cl == clines_view(lines@),
                forbidden@ == over_line(l@, acc_j, i as nat),
            decreases nw - i,
        {
            let c0 = l[i].0;
            let c1 = l[i + 1].0;
            let c2 = l[i + 2].0;
            let c3 = l[i + 3].0;
            let c4 = l[i + 4].0;
            let c5 = l[i + 5].0;
            if c0 == CellClass::Empty && c1 == CellClass::Same && c2 == CellClass::Same && c3
                == CellClass::Same && c4 == CellClass::Same && c5 == CellClass::Same {
                insert_point(forbidden, l[i].1);
            } else if c0 == CellClass::Same && c1 == CellClass::Empty && c2 == CellClass::Same && c3
                == CellClass::Same && c4 == CellClass::Same && c5 == CellClass::Same {
                insert_point(forbidden, l[i + 1].1);
            } else if c0 == CellClass::Same && c1 == CellClass::Same && c2 == CellClass::Empty && c3
                == CellClass::Same && c4 == CellClass::Same && c5 == CellClass::Same {
                insert_point(forbidden, l[i + 2].1);
            } else if c0 == CellClass::Same && c1 == CellClass::Same && c2 == CellClass::Same && c3
                == CellClass::Empty && c4 == CellClass::Same && c5 == CellClass::Same {
                insert_point(forbidden, l[i + 3].1);
            } else if c0 == CellClass::Same && c1 == CellClass::Same && c2 == CellClass::Same && c3
                == CellClass::Same && c4 == CellClass::Empty && c5 == CellClass::Same {
                insert_point(forbidden, l[i + 4].1);
            } else if c0 == CellClass::Same && c1 == CellClass::Same && c2 == CellClass::Same && c3
                == CellClass::Same && c4 == CellClass::Same && c5 == CellClass::Empty {
                insert_point(forbidden, l[i + 5].1);
            }
            proof {
                assert(over_line(l@, acc_j, (i + 1) as nat) == (match overline_window(l@, i as int) {
                    Some(p) => spec_insert(over_line(l@, acc_j, i as nat), p),
                    None => over_line(l@, acc_j, i as nat),
                }));
            }
            i = i + 1;
        }
        proof {
            assert(over_lines(cl, init, (j + 1) as nat) == over_line(
                cl[j as int].1,
                acc_j,
                n_windows(cl[j as int].1, 6),
            ));
        }
        j = j + 1;
    }
}

fn pass_fours(
    lines: &Vec<(Direction, Vec<(CellClass, Point)>)>,
    forbidden: &Vec<Point>,
    only: Option<&Vec<Point>>,
    pairs: &mut Vec<(Point, RenjuCondition)>,
)
    ensures
        final(pairs)@ == four_lines(
            clines_view(lines@),
            forbidden@,
            restrict_view(only),
            old(pairs)@,
            clines_view(lines@).len(),
        ),
{
    let ghost cl = clines_view(lines@);
    let ghost init = old(pairs)@;
    let ghost forb = forbidden@;
    let ghost restrict = restrict_view(only);
    let mut j: usize = 0;
    while j < lines.len()
        invariant
            j <= lines@.len(),
            cl == clines_view(lines@),
            init == old(pairs)@,
            forb == forbidden@,
            restrict == restrict_view(only),
            pairs@ == four_lines(cl, forb, restrict, init, j as nat),
        decreases lines@.len() - j,
    {
        let ghost acc_j = four_lines(cl, forb, restrict, init, j as nat);
        let dir = lines[j].0;
        let l = &lines[j].1;
        proof {
            assert(cl[j as int] == (dir, l@));
        }
        let llen = l.len();
        let nw: usize = if llen >= 7 {
            llen - 6
        } else {
            0
        };
        proof {
            assert(nw == n_windows(l@, 7));
        }
        let mut i: usize = 0;
        while i < nw
            invariant
                i <= nw,
                llen == l@.len(),
                nw == n_windows(l@, 7),
                l@ == clines_view(lines@)[j as int].1,
                j < lines@.len(),
                dir == clines_view(lines@)[j as int].0,
                cl == clines_view(lines@),
                forb == forbidden@,
                restrict == restrict_view(only),
                pairs@ == four_line(l@, dir, forb, restrict, acc_j, i as nat),
            decreases nw - i,
        {
            if window_touch(l, i, 7, only) {
                let c0 = l[i].0;
                let c1 = l[i + 1].0;
                let c2 = l[i + 2].0;
                let c3 = l[i + 3].0;
                let c4 = l[i + 4].0;
                let c5 = l[i + 5].0;
                let c6 = l[i + 6].0;
                if c1 == CellClass::Empty && c2 == CellClass::Empty && c3 == CellClass::Same && c4
                    == CellClass::Same && c5 == CellClass::Same && c6 != CellClass::Same {
                    if !contains_point(forbidden, l[i + 2].1) {
                        let c = if c6 == CellClass::Empty {
                            RenjuCondition::StraightFour {
                                direction: dir,
                                s0: l[i + 2].1,
                                s1: l[i + 3].1,
                                s2: l[i + 4].1,
                                s3: l[i + 5].1,
                                place: l[i + 2].1,
                            }
                        } else {
                            RenjuCondition::ClosedFour {
                                direction: dir,
                                s0: l[i + 2].1,
                                s1: l[i + 3].1,
                                s2: l[i + 4].1,
                                s3: l[i + 5].1,
                                place: l[i + 2].1,
                            }
                        };
                        insert_pair(pairs, (l[i + 2].1, c));
                    }
                    if !contains_point(forbidden, l[i + 1].1) && c0 != CellClass::Same {
                        insert_pair(
                            pairs,
                            (
                                l[i + 1].1,
                                RenjuCondition::BrokenFour {
                                    direction: dir,
                                    s0: l[i + 1].1,
                                    s1: l[i + 2].1,
                                    s2: l[i + 3].1,
                                    s3: l[i + 4].1,
                                    s4: l[i + 5].1,
                                    place: l[i + 1].1,
                                },
                            ),
                        );
                    }
                } else if c1 == CellClass::Same && c2 == CellClass::Same && c3 == CellClass::Same
                    && c4 == CellClass::Empty && c5 == CellClass::Empty && c0 != CellClass::Same {
                    if !contains_point(forbidden, l[i + 4].1) {
                        let c = if c0 == CellClass::Empty {
                            RenjuCondition::StraightFour {
                                direction: dir,
                                s0: l[i + 1].1,
                                s1: l[i + 2].1,
                                s2: l[i + 3].1,
                                s3: l[i + 4].1,
                                place: l[i + 4].1,
                            }
                        } else {
                            RenjuCondition::ClosedFour {
                                direction: dir,
                                s0: l[i + 1].1,
                                s1: l[i + 2].1,
                                s2: l[i + 3].1,
                                s3: l[i + 4].1,
                                place: l[i + 4].1,
                            }
                        };
                        insert_pair(pairs, (l[i + 4].1, c));
                    }
                    if !contains_point(forbidden, l[i + 5].1) && c6 != CellClass::Same {
                        insert_pair(
                            pairs,
                            (
                                l[i + 5].1,
                                RenjuCondition::BrokenFour {
                                    direction: dir,
                                    s0: l[i + 1].1,
                                    s1: l[i + 2].1,
                                    s2: l[i + 3].1,
                                    s3: l[i + 4].1,
                                    s4: l[i + 5].1,
                                    place: l[i + 5].1,
                                },
                            ),
                        );
                    }
                } else if c1 == CellClass::Empty && c2 == CellClass::Same && c3 == CellClass::Empty
                    && c4 == CellClass::Same && c5 == CellClass::Same && c6 != CellClass::Same {
                    if !contains_point(forbidden, l[i + 3].1) {
                        let c = if c6 == CellClass::Empty {
                            RenjuCondition::StraightFour {
                                direction: dir,
                                s0: l[i + 2].1,
                                s1: l[i + 3].1,
                                s2: l[i + 4].1,
                                s3: l[i + 5].1,
                                place: l[i + 3].1,
                            }
                        } else {
                            RenjuCondition::ClosedFour {
                                direction: dir,
                                s0: l[i + 2].1,
                                s1: l[i + 3].1,
                                s2: l[i + 4].1,
                                s3: l[i + 5].1,
                                place: l[i + 3].1,
                            }
                        };
                        insert_pair(pairs, (l[i + 3].1, c));
                    }
                    if !contains_point(forbidden, l[i + 1].1) && c0 != CellClass::Same {
                        insert_pair(
                            pairs,
                            (
                                l[i + 1].1,
                                RenjuCondition::BrokenFour {
                                    direction: dir,
                                    s0: l[i + 1].1,
                                    s1: l[i + 2].1,
                                    s2: l[i + 3].1,
                                    s3: l[i + 4].1,
                                    s4: l[i + 5].1,
                                    place: l[i + 1].1,
                                },
                            ),
                        );
                    }
                } else if c1 == CellClass::Same && c2 == CellClass::Same && c3 == CellClass::Empty
                    && c4 == CellClass::Same && c5 == CellClass::Empty && c0 != CellClass::Same {
                    if !contains_point(forbidden, l[i + 3].1) {
                        let c = if c0 == CellClass::Empty {
                            RenjuCondition::StraightFour {
                                direction: dir,
                                s0: l[i + 1].1,
                                s1: l[i + 2].1,
                                s2: l[i + 3].1,
                                s3: l[i + 4].1,
                                place: l[i + 3].1,
                            }
                        } else {
                            RenjuCondition::ClosedFour {
                                direction: dir,
                                s0: l[i + 1].1,
                                s1: l[i + 2].1,
                                s2: l[i + 3].1,
                                s3: l[i + 4].1,
                                place: l[i + 3].1,
                            }
                        };
                        insert_pair(pairs, (l[i + 3].1, c));
                    }
                    if !contains_point(forbidden, l[i + 5].1) && c6 != CellClass::Same {
                        insert_pair(
                            pairs,
                            (
                                l[i + 5].1,
                                RenjuCondition::BrokenFour {
                                    direction: dir,
                                    s0: l[i + 1].1,
                                    s1: l[i + 2].1,
                                    s2: l[i + 3].1,
                                    s3: l[i + 4].1,
                                    s4: l[i + 5].1,
                                    place: l[i + 5].1,
                                },
                            ),
                        );
                    }
                }
            }
            proof {
                assert(pairs@ == four_window(
                    l@,
                    dir,
                    forb,
                    restrict,
                    i as int,
                    four_line(l@, dir, forb, restrict, acc_j, i as nat),
                ));
            }
            i = i + 1;
        }
        proof {
            assert(four_lines(cl, forb, restrict, init, (j + 1) as nat) == four_line(
                cl[j as int].1,
                cl[j as int].0,
                forb,
                restrict,
                acc_j,
                n_windows(cl[j as int].1, 7),
            ));
        }
        j = j + 1;
    }
}

/// Insert the unbroken three at `pl` next to stones `sa`, `sb` with
/// companion `co`, under the false-three and forbidden-point guards.
fn push_unbroken(
    l: &Vec<(CellClass, Point)>,
    dir: Direction,
    forbidden: &Vec<Point>,
    fives: &Vec<Point>,
    pl: usize,
    sa: usize,
    sb: usize,
    co: usize,
    triples: &mut Vec<(Point, RenjuCondition, Point)>,
)
    requires
        pl < l@.len(),
        sa < l@.len(),
        sb < l@.len(),
        co < l@.len(),
    ensures
        final(triples)@ == three_unbroken(
            l@,
            dir,
            forbidden@,
            fives@,
            pl as int,
            sa as int,
            sb as int,
            co as int,
            old(triples)@,
        ),
{
    if !contains_point(forbidden, l[pl].1) && !contains_point(fives, l[pl].1) && !contains_point(
        fives,
        l[co].1,
    ) {
        let s0 = if pl < sa {
            l[pl].1
        } else {
            l[sa].1
        };
        let s1 = if pl < sa {
            l[sa].1
        } else {
            l[sb].1
        };
        let s2 = if pl < sa {
            l[sb].1
        } else {
            l[pl].1
        };
        insert_triple(
            triples,
            (
                l[pl].1,
                RenjuCondition::UnbrokenThree { direction: dir, s0, s1, s2, place: l[pl].1 },
                l[co].1,
            ),
        );
    }
}

/// Insert the gap-completed unbroken three at `pl` between `sa` and `sb`.
fn push_unbroken_mid(
    l: &Vec<(CellClass, Point)>,
    dir: Direction,
    forbidden: &Vec<Point>,
    fives: &Vec<Point>,
    sa: usize,
    pl: usize,
    sb: usize,
    co: usize,
    triples: &mut Vec<(Point, RenjuCondition, Point)>,
)
    requires
        pl < l@.len(),
        sa < l@.len(),
        sb < l@.len(),
        co < l@.len(),
    ensures
        final(triples)@ == three_unbroken_mid(
            l@,
            dir,
            forbidden@,
            fives@,
            sa as int,
            pl as int,
            sb as int,
            co as int,
            old(triples)@,
        ),
{
    if !contains_point(forbidden, l[pl].1) && !contains_point(fives, l[pl].1) && !contains_point(
        fives,
        l[co].1,
    ) {
        insert_triple(
            triples,
            (
                l[pl].1,
                RenjuCondition::UnbrokenThree {
                    direction: dir,
                    s0: l[sa].1,
                    s1: l[pl].1,
                    s2: l[sb].1,
                    place: l[pl].1,
                },
                l[co].1,
            ),
        );
    }
}

/// Insert the broken three whose cells are `s0..s3`, placed at `pl`, with
/// companion `co`, under the same guards.
fn push_broken(
    l: &Vec<(CellClass, Point)>,
    dir: Direction,
    forbidden: &Vec<Point>,
    fives: &Vec<Point>,
    s0: usize,
    s1: usize,
    s2: usize,
    s3: usize,
    pl: usize,
    co: usize,
    triples: &mut Vec<(Point, RenjuCondition, Point)>,
)
    requires
        s0 < l@.len(),
        s1 < l@.len(),
        s2 < l@.len(),
        s3 < l@.len(),
        pl < l@.len(),
        co < l@.len(),
    ensures
        final(triples)@ == (if !forbidden@.contains(pt(l@, pl as int)) && !fives@.contains(
            pt(l@, pl as int),
        ) && !fives@.contains(pt(l@, co as int)) {
            spec_insert(
                old(triples)@,
                (
                    pt(l@, pl as int),
                    RenjuCondition::BrokenThree {
                        direction: dir,
                        s0: pt(l@, s0 as int),
                        s1: pt(l@, s1 as int),
                        s2: pt(l@, s2 as int),
                        s3: pt(l@, s3 as int),
                        place: pt(l@, pl as int),
                    },
                    pt(l@, co as int),
                ),
            )
        } else {
            old(triples)@
        }),
{
    if !contains_point(forbidden, l[pl].1) && !contains_point(fives, l[pl].1) && !contains_point(
        fives,
        l[co].1,
    ) {
        insert_triple(
            triples,
            (
                l[pl].1,
                RenjuCondition::BrokenThree {
                    direction: dir,
                    s0: l[s0].1,
                    s1: l[s1].1,
                    s2: l[s2].1,
                    s3: l[s3].1,
                    place: l[pl].1,
                },
                l[co].1,
            ),
        );
    }
}

fn pass_threes(
    lines: &Vec<(Direction, Vec<(CellClass, Point)>)>,
    black: bool,
    forbidden: &Vec<Point>,
    fives: &Vec<Point>,
    only: Option<&Vec<Point>>,
    triples: &mut Vec<(Point, RenjuCondition, Point)>,
)
    ensures
        final(triples)@ == three_lines(
            clines_view(lines@),
            black,
            forbidden@,
            fives@,
            restrict_view(only),
            old(triples)@,
            clines_view(lines@).len(),
        ),
{
    let ghost cl = clines_view(lines@);
    let ghost init = old(triples)@;
    let ghost forb = forbidden@;
    let ghost fv = fives@;
    let ghost restrict = restrict_view(only);
    let mut j: usize = 0;
    while j < lines.len()
        invariant
            j <= lines@.len(),
            cl == clines_view(lines@),
            init == old(triples)@,
            forb == forbidden@,
            fv == fives@,
            restrict == restrict_view(only),
            triples@ == three_lines(cl, black, forb, fv, restrict, init, j as nat),
        decreases lines@.len() - j,
    {
        let ghost acc_j = three_lines(cl, black, forb, fv, restrict, init, j as nat);
        let dir = lines[j].0;
        let l = &lines[j].1;
        proof {
            assert(cl[j as int] == (dir, l@));
        }
        let llen = l.len();
        let nw: usize = if llen >= 9 {
            llen - 8
        } else {
            0
        };
        proof {
            assert(nw == n_windows(l@, 9));
        }
        let mut i: usize = 0;
        while i < nw
            invariant
                i <= nw,
                llen == l@.len(),
                nw == n_windows(l@, 9),
                l@ == clines_view(lines@)[j as int].1,
                j < lines@.len(),
                dir == clines_view(lines@)[j as int].0,
                cl == clines_view(lines@),
                forb == forbidden@,
                fv == fives@,
                restrict == restrict_view(only),
                triples@ == three_line(l@, black, dir, forb, fv, restrict, acc_j, i as nat),
            decreases nw - i,
        {
            if window_touch(l, i, 9, only) {
                let c0 = l[i].0;
                let c1 = l[i + 1].0;
                let c2 = l[i + 2].0;
                let c3 = l[i + 3].0;
                let c4 = l[i + 4].0;
                let c5 = l[i + 5].0;
                let c6 = l[i + 6].0;
                let c7 = l[i + 7].0;
                let c8 = l[i + 8].0;
                if c1 == CellClass::Empty && c2 == CellClass::Empty && c3 == CellClass::Empty && c4
                    == CellClass::Same && c5 == CellClass::Same && c6 == CellClass::Empty {
                    if c7 == CellClass::Same {
                    } else if c0 == CellClass::Same {
                        if black && c8 == CellClass::Same {
                        } else {
                            push_unbroken(
                                l,
                                dir,
                                forbidden,
                                fives,
                                i + 3,
                                i + 4,
                                i + 5,
                                i + 2,
                                triples,
                            );
                        }
                    } else {
                        push_broken(
                            l,
                            dir,
                            forbidden,
                            fives,
                            i + 2,
                            i + 3,
                            i + 4,
                            i + 5,
                            i + 2,
                            i + 3,
                            triples,
                        );
                        push_unbroken(l, dir, forbidden, fives, i + 3, i + 4, i + 5, i + 2, triples);
                    }
                } else if c2 == CellClass::Empty && c3 == CellClass::Same && c4 == CellClass::Same
                    && c5 == CellClass::Empty && c6 == CellClass::Empty && c7 == CellClass::Empty {
                    if c1 == CellClass::Same {
                    } else if c8 == CellClass::Same {
                        if black && c0 == CellClass::Same {
                        } else {
                            push_unbroken(
                                l,
                                dir,
                                forbidden,
                                fives,
                                i + 5,
                                i + 3,
                                i + 4,
                                i + 6,
                                triples,
                            );
                        }
                    } else {
                        push_broken(
                            l,
                            dir,
                            forbidden,
                            fives,
                            i + 3,
                            i + 4,
                            i + 5,
                            i + 6,
                            i + 6,
                            i + 5,
                            triples,
                        );
                        push_unbroken(l, dir, forbidden, fives, i + 5, i + 3, i + 4, i + 6, triples);
                    }
                } else if c1 == CellClass::Empty && c2 == CellClass::Empty && c3 == CellClass::Same
                    && c4 == CellClass::Empty && c5 == CellClass::Same && c6 == CellClass::Empty {
                    if c7 == CellClass::Same {
                    } else if c0 == CellClass::Same {
                        push_unbroken_mid(
                            l,
                            dir,
                            forbidden,
                            fives,
                            i + 3,
                            i + 4,
                            i + 5,
                            i + 2,
                            triples,
                        );
                    } else {
                        push_broken(
                            l,
                            dir,
                            forbidden,
                            fives,
                            i + 2,
                            i + 3,
                            i + 4,
                            i + 5,
                            i + 2,
                            i + 4,
                            triples,
                        );
                        push_unbroken_mid(
                            l,
                            dir,
                            forbidden,
                            fives,
                            i + 3,
                            i + 4,
                            i + 5,
                            i + 2,
                            triples,
                        );
                    }
                } else if c1 == CellClass::Empty && c2 == CellClass::Same && c3 == CellClass::Empty
                    && c4 == CellClass::Same && c5 == CellClass::Empty && c6 == CellClass::Empty {
                    if c0 == CellClass::Same {
                    } else if c7 == CellClass::Same {
                        push_unbroken_mid(
                            l,
                            dir,
                            forbidden,
                            fives,
                            i + 2,
                            i + 3,
                            i + 4,
                            i + 5,
                            triples,
                        );
                    } else {
                        push_broken(
                            l,
                            dir,
                            forbidden,
                            fives,
                            i + 2,
                            i + 3,
                            i + 4,
                            i + 5,
                            i + 5,
                            i + 4,
                            triples,
                        );
                        push_unbroken_mid(
                            l,
                            dir,
                            forbidden,
                            fives,
                            i + 2,
                            i + 3,
                            i + 4,
                            i + 5,
                            triples,
                        );
                    }
                } else if c1 == CellClass::Empty && c2 == CellClass::Same && c3 == CellClass::Empty
                    && c4 == CellClass::Empty && c5 == CellClass::Same && c6 == CellClass::Empty
                    && c0 != CellClass::Same && c7 != CellClass::Same {
                    push_broken(
                        l,
                        dir,
                        forbidden,
                        fives,
                        i + 2,
                        i + 3,
                        i + 4,
                        i + 5,
                        i + 3,
                        i + 4,
                        triples,
                    );
                    push_broken(
                        l,
                        dir,
                        forbidden,
                        fives,
                        i + 2,
                        i + 3,
                        i + 4,
                        i + 5,
                        i + 4,
                        i + 3,
                        triples,
                    );
                }
            }
            proof {
                assert(triples@ == three_window(
                    l@,
                    black,
                    dir,
                    forb,
                    fv,
                    restrict,
                    i as int,
                    three_line(l@, black, dir, forb, fv, restrict, acc_j, i as nat),
                ));
            }
            i = i + 1;
        }
        proof {
            assert(three_lines(cl, black, forb, fv, restrict, init, (j + 1) as nat) == three_line(
                cl[j as int].1,
                black,
                cl[j as int].0,
                forb,
                fv,
                restrict,
                acc_j,
                n_windows(cl[j as int].1, 9),
            ));
        }
        j = j + 1;
    }
}

fn build_pair_keys(pairs: &Vec<(Point, RenjuCondition)>) -> (r: Vec<Point>)
    ensures
        r@ == distinct_keys(pairs@, pairs@.len()),
{
    let mut r: Vec<Point> = Vec::new();
    let mut n: usize = 0;
    while n < pairs.len()
        invariant
            n <= pairs@.len(),
            r@ == distinct_keys(pairs@, n as nat),
        decreases pairs@.len() - n,
    {
        insert_point(&mut r, pairs[n].0);
        n = n + 1;
    }
    r
}

fn conds_of_exec(pairs: &Vec<(Point, RenjuCondition)>, k: Point) -> (r: Vec<RenjuCondition>)
    ensures
        r@ == conds_of(pairs@, k),
{
    let mut r: Vec<RenjuCondition> = Vec::new();
    let mut n: usize = 0;
    while n < pairs.len()
        invariant
            n <= pairs@.len(),
            r@ == conds_of(pairs@.take(n as int), k),
        decreases pairs@.len() - n,
    {
        proof {
            assert(pairs@.take(n + 1).drop_last() =~= pairs@.take(n as int));
            assert(pairs@.take(n + 1).last() == pairs@[n as int]);
        }
        if pairs[n].0 == k {
            r.push(pairs[n].1);
        }
        n = n + 1;
    }
    proof {
        assert(pairs@.take(pairs@.len() as int) =~= pairs@);
    }
    r
}

fn fours_fold_exec(
    pairs: &Vec<(Point, RenjuCondition)>,
    black: bool,
    keys: &Vec<Point>,
    conditions: &mut Vec<RenjuCondition>,
    forbidden: &mut Vec<Point>,
)
    ensures
        (final(conditions)@, final(forbidden)@) == fours_fold(
            pairs@,
            black,
            keys@,
            keys@.len(),
            old(conditions)@,
            old(forbidden)@,
        ),
{
    let ghost c0 = old(conditions)@;
    let ghost f0 = old(forbidden)@;
    let mut n: usize = 0;
    while n < keys.len()
        invariant
            n <= keys@.len(),
            c0 == old(conditions)@,
            f0 == old(forbidden)@,
            (conditions@, forbidden@) == fours_fold(pairs@, black, keys@, n as nat, c0, f0),
        decreases keys@.len() - n,
    {
        let ghost prev = fours_fold(pairs@, black, keys@, n as nat, c0, f0);
        let k = keys[n];
        let cs = conds_of_exec(pairs, k);
        if black && cs.len() > 1 {
            insert_point(forbidden, k);
        } else {
            let mut m: usize = 0;
            while m < cs.len()
                invariant
                    m <= cs@.len(),
                    cs@ == conds_of(pairs@, keys@[n as int]),
                    n < keys@.len(),
                    forbidden@ == prev.1,
                    conditions@ == insert_all_conds(prev.0, cs@, m as nat),
                decreases cs@.len() - m,
            {
                insert_cond(conditions, cs[m]);
                m = m + 1;
            }
        }
        n = n + 1;
    }
}

fn build_triple_keys(triples: &Vec<(Point, RenjuCondition, Point)>) -> (r: Vec<Point>)
    ensures
        r@ == tkeys(triples@, triples@.len()),
{
    let mut r: Vec<Point> = Vec::new();
    let mut n: usize = 0;
    while n < triples.len()
        invariant
            n <= triples@.len(),
            r@ == tkeys(triples@, n as nat),
        decreases triples@.len() - n,
    {
        insert_point(&mut r, triples[n].0);
        n = n + 1;
    }
    r
}

fn pairs_of_exec(triples: &Vec<(Point, RenjuCondition, Point)>, k: Point) -> (r: Vec<
    (RenjuCondition, Point),
>)
    ensures
        r@ == pairs_of(triples@, k),
{
    let mut r: Vec<(RenjuCondition, Point)> = Vec::new();
    let mut n: usize = 0;
    while n < triples.len()
        invariant
            n <= triples@.len(),
            r@ == pairs_of(triples@.take(n as int), k),
        decreases triples@.len() - n,
    {
        proof {
            assert(triples@.take(n + 1).drop_last() =~= triples@.take(n as int));
            assert(triples@.take(n + 1).last() == triples@[n as int]);
        }
        if triples[n].0 == k {
            r.push((triples[n].1, triples[n].2));
        }
        n = n + 1;
    }
    proof {
        assert(triples@.take(triples@.len() as int) =~= triples@);
    }
    r
}

fn rows_of_exec(v: &Vec<(RenjuCondition, Point)>) -> (r: Vec<RenjuCondition>)
    ensures
        r@ == rows_of(v@, v@.len()),
{
    let mut r: Vec<RenjuCondition> = Vec::new();
    let mut n: usize = 0;
    while n < v.len()
        invariant
            n <= v@.len(),
            r@ == rows_of(v@, n as nat),
        decreases v@.len() - n,
    {
        insert_cond(&mut r, v[n].0);
        n = n + 1;
    }
    r
}

impl BoardArr {
    /// Evaluate one position for one colour: every five, four and three
    /// threat a single placement could create, the points forbidden for
    /// Black under the overline, double-four and double-three rules, and
    /// each three with its companion extension cell. `only_including`, when
    /// given, restricts the four- and three-scans to windows touching the
    /// listed points; it is the performance filter the double-three
    /// recursion uses on its hypothetical boards.
    pub fn renju_conditions(&self, stone: Stone, only_including: Option<&Vec<Point>>) -> (r:
        RenjuConditions)
        requires
            self.wf(),
            stone != Stone::Empty,
        ensures
            ({
                let m = spec_renju(self@, stone, restrict_view(only_including));
                &&& r.conditions@ == m.conditions
                &&& r.forbidden@ == m.forbidden
                &&& r.threes@ == m.threes
            }),
            stone == Stone::White ==> r.forbidden@ == Seq::<Point>::empty(),
        decreases self@.empty_count(),
    {
        proof {
            if stone == Stone::White {
                crate::laws::lemma_white_no_forbidden(self@, restrict_view(only_including));
            }
        }
        let ghost g = self@;
        let ghost restrict = restrict_view(only_including);
        let black = stone.is_black();
        let ghost blackg = (stone == Stone::Black);
        let lines = classify_lines_exec(self, stone);
        let ghost cl = spec_lines(g, stone);
        let mut conditions: Vec<RenjuCondition> = Vec::new();
        let mut fives: Vec<Point> = Vec::new();
        pass_fives(&lines, black, &mut conditions, &mut fives);
        let ghost cf = five_lines(cl, blackg, (Seq::empty(), Seq::empty()), cl.len());
        proof {
            assert((conditions@, fives@) == cf);
        }
        let mut forbidden: Vec<Point> = Vec::new();
        if black {
            pass_overlines(&lines, &mut forbidden);
        }
        let ghost forb1 = if blackg {
            over_lines(cl, Seq::empty(), cl.len())
        } else {
            Seq::<Point>::empty()
        };
        proof {
            assert(forbidden@ == forb1);
        }
        let mut pairs: Vec<(Point, RenjuCondition)> = Vec::new();
        pass_fours(&lines, &forbidden, only_including, &mut pairs);
        let ghost pairsg = four_lines(cl, forb1, restrict, Seq::empty(), cl.len());
        proof {
            assert(pairs@ == pairsg);
        }
        let keys = build_pair_keys(&pairs);
        fours_fold_exec(&pairs, black, &keys, &mut conditions, &mut forbidden);
        let ghost cf2 = fours_fold(
            pairsg,
            blackg,
            distinct_keys(pairsg, pairsg.len()),
            distinct_keys(pairsg, pairsg.len()).len(),
            cf.0,
            forb1,
        );
        proof {
            assert((conditions@, forbidden@) == cf2);
        }
        let mut triples: Vec<(Point, RenjuCondition, Point)> = Vec::new();
        pass_threes(&lines, black, &forbidden, &fives, only_including, &mut triples);
        let ghost triplesg = three_lines(cl, blackg, cf2.1, cf.1, restrict, Seq::empty(), cl.len());
        proof {
            assert(triples@ == triplesg);
            lemma_three_lines_keys(g, stone, blackg, cf2.1, cf.1, restrict, Seq::empty(), cl.len());
            assert(keys_ok(g, triplesg));
            lemma_tkeys_ok(g, triplesg, triplesg.len());
        }
        let tks = build_triple_keys(&triples);
        let ghost tksg = tkeys(triplesg, triplesg.len());
        let ghost forb_base = forbidden@;
        let mut found: Vec<Point> = Vec::new();
        let mut n: usize = 0;
        while n < tks.len()
            invariant
                self.wf(),
                stone != Stone::Empty,
                g == self@,
                blackg == (stone == Stone::Black),
                black == blackg,
                n <= tks@.len(),
                tks@ == tksg,
                triples@ == triplesg,
                forbidden@ == forb_base,
                forb_base == cf2.1,
                forall|j: int|
                    0 <= j < tksg.len() ==> g.in_bounds(#[trigger] tksg[j]) && g.stone_at(
                        tksg[j].x as int,
                        tksg[j].y as int,
                    ) == Stone::Empty,
                (conditions@, found@) == three_resolution(
                    g,
                    stone,
                    forb_base,
                    triplesg,
                    tksg,
                    n as nat,
                    cf2.0,
                    Seq::empty(),
                ),
            decreases tks@.len() - n,
        {
            let ghost prev = three_resolution(
                g,
                stone,
                forb_base,
                triplesg,
                tksg,
                n as nat,
                cf2.0,
                Seq::empty(),
            );
            let k = tks[n];
            let v = pairs_of_exec(&triples, k);
            let rows = rows_of_exec(&v);
            if black && rows.len() > 1 {
                let mut af: usize = 0;
                let mut m: usize = 0;
                while m < v.len()
                    invariant
                        m <= v@.len(),
                        af <= m,
                        forbidden@ == forb_base,
                        af == seq_count(v@.take(m as int), af_pred(forb_base)),
                    decreases v@.len() - m,
                {
                    proof {
                        assert(v@.take(m + 1).drop_last() =~= v@.take(m as int));
                        assert(v@.take(m + 1).last() == v@[m as int]);
                    }
                    if !contains_point(&forbidden, v[m].1) {
                        af = af + 1;
                    }
                    m = m + 1;
                }
                proof {
                    assert(v@.take(v@.len() as int) =~= v@);
                }
                if af > 1 {
                    let mut newb = self.duplicate();
                    newb.set_point(k, stone);
                    proof {
                        assert(newb@.size == g.place(k, stone).size);
                        assert(newb@.cells =~= g.place(k, stone).cells);
                        assert(newb@ == g.place(k, stone));
                        lemma_place_lowers_empty(g, k, stone);
                    }
                    let mut fails: usize = 0;
                    let mut m2: usize = 0;
                    while m2 < v.len()
                        invariant
                            m2 <= v@.len(),
                            fails <= m2,
                            self.wf(),
                            stone != Stone::Empty,
                            g == self@,
                            newb.wf(),
                            newb@ == g.place(k, stone),
                            newb@.empty_count() < g.empty_count(),
                            g.wf(),
                            g.in_bounds(k),
                            g.stone_at(k.x as int, k.y as int) == Stone::Empty,
                            fails == three_fail_count(g, stone, k, v@, m2 as nat),
                        decreases v@.len() - m2,
                    {
                        let fp = v[m2].1;
                        let mut restrict2: Vec<Point> = Vec::new();
                        restrict2.push(k);
                        restrict2.push(fp);
                        proof {
                            assert(restrict2@ =~= seq![k, v@[m2 as int].1]);
                        }
                        let sub = newb.renju_conditions(stone, Some(&restrict2));
                        let ghost subg = spec_renju(
                            g.place(k, stone),
                            stone,
                            Some(seq![k, v@[m2 as int].1]),
                        );
                        proof {
                            assert(sub.conditions@ == subg.conditions);
                            assert(sub.forbidden@ == subg.forbidden);
                        }
                        let mut sf: usize = 0;
                        let mut q: usize = 0;
                        while q < sub.conditions.len()
                            invariant
                                q <= sub.conditions@.len(),
                                sf <= q,
                                sub.conditions@ == subg.conditions,
                                sub.forbidden@ == subg.forbidden,
                                sf == seq_count(
                                    sub.conditions@.take(q as int),
                                    sf_pred(k, subg.forbidden),
                                ),
                            decreases sub.conditions@.len() - q,
                        {
                            proof {
                                assert(sub.conditions@.take(q + 1).drop_last() =~= sub.conditions@.take(
                                    q as int,
                                ));
                                assert(sub.conditions@.take(q + 1).last() == sub.conditions@[q as int]);
                            }
                            let c = sub.conditions[q];
                            if matches!(c, RenjuCondition::StraightFour { .. }) {
                                let st = c.stones();
                                if contains_point(&st, k) && !contains_point(
                                    &sub.forbidden,
                                    c.place(),
                                ) {
                                    sf = sf + 1;
                                }
                            }
                            q = q + 1;
                        }
                        proof {
                            assert(sub.conditions@.take(sub.conditions@.len() as int)
                                =~= sub.conditions@);
                            assert(sf == seq_count(subg.conditions, sf_pred(k, subg.forbidden)));
                        }
                        if sf > 1 {
                        } else {
                            if contains_point(&sub.forbidden, fp) {
                                fails = fails + 1;
                            }
                        }
                        m2 = m2 + 1;
                    }
                    if v.len() - fails > 1 {
                        insert_point(&mut found, k);
                    }
                }
            } else {
                let mut m3: usize = 0;
                while m3 < v.len()
                    invariant
                        m3 <= v@.len(),
                        v@ == pairs_of(triplesg, tksg[n as int]),
                        n < tksg.len(),
                        found@ == prev.1,
                        conditions@ == insert_all_cp_conds(prev.0, v@, m3 as nat),
                    decreases v@.len() - m3,
                {
                    insert_cond(&mut conditions, v[m3].0);
                    m3 = m3 + 1;
                }
            }
            n = n + 1;
        }
        let ghost rf = three_resolution(
            g,
            stone,
            forb_base,
            triplesg,
            tksg,
            tksg.len(),
            cf2.0,
            Seq::empty(),
        );
        proof {
            assert((conditions@, found@) == rf);
        }
        let mut fi: usize = 0;
        while fi < found.len()
            invariant
                fi <= found@.len(),
                found@ == rf.1,
                forbidden@ == insert_all_points(cf2.1, rf.1, fi as nat),
            decreases found@.len() - fi,
        {
            insert_point(&mut forbidden, found[fi]);
            fi = fi + 1;
        }
        let mut threes: Vec<(RenjuCondition, Point)> = Vec::new();
        let mut ti: usize = 0;
        while ti < triples.len()
            invariant
                ti <= triples@.len(),
                triples@ == triplesg,
                threes@.len() == ti,
                forall|jj: int|
                    0 <= jj < ti ==> threes@[jj] == ((#[trigger] triplesg[jj]).1, triplesg[jj].2),
            decreases triples@.len() - ti,
        {
            threes.push((triples[ti].1, triples[ti].2));
            ti = ti + 1;
        }
        proof {
            assert(threes@ =~= threes_result(triplesg));
            let m = spec_renju(g, stone, restrict);
            assert(m.conditions == rf.0);
            assert(m.forbidden == insert_all_points(cf2.1, rf.1, rf.1.len()));
            assert(m.threes == threes_result(triplesg));
        }
        RenjuConditions { conditions, forbidden, threes }
    }
}

} // verus!

