use vstd::prelude::*;

use crate::board::Point;
use crate::lines::Direction;

verus! {

/// A threat shape on the board: the stones that form it, and the one empty
/// placement point whose occupation completes or extends it.
#[derive(PartialEq, Eq, Structural, Clone, Copy, Debug)]
pub enum RenjuCondition {
    /// Three stones in a row that one move turns into a straight four.
    UnbrokenThree { direction: Direction, s0: Point, s1: Point, s2: Point, place: Point },
    /// Three stones with one internal gap that one move turns into a
    /// straight four; the cells listed include the gap.
    BrokenThree { direction: Direction, s0: Point, s1: Point, s2: Point, s3: Point, place: Point },
    /// A placement that creates four in a row with both ends open.
    StraightFour { direction: Direction, s0: Point, s1: Point, s2: Point, s3: Point, place: Point },
    /// A placement that creates four in a row that only one move can extend
    /// to five.
    ClosedFour { direction: Direction, s0: Point, s1: Point, s2: Point, s3: Point, place: Point },
    /// A placement that creates four stones with an internal gap whose
    /// filling gives five.
    BrokenFour {
        direction: Direction,
        s0: Point,
        s1: Point,
        s2: Point,
        s3: Point,
        s4: Point,
        place: Point,
    },
    /// A placement that creates five in a row.
    Five {
        direction: Direction,
        s0: Point,
        s1: Point,
        s2: Point,
        s3: Point,
        s4: Point,
        place: Point,
    },
}

impl RenjuCondition {
    /// The cells of the shape, in line order.
    pub open spec fn spec_stones(&self) -> Seq<Point> {
        match *self {
            RenjuCondition::UnbrokenThree { s0, s1, s2, .. } => seq![s0, s1, s2],
            RenjuCondition::BrokenThree { s0, s1, s2, s3, .. } => seq![s0, s1, s2, s3],
            RenjuCondition::StraightFour { s0, s1, s2, s3, .. } => seq![s0, s1, s2, s3],
            RenjuCondition::ClosedFour { s0, s1, s2, s3, .. } => seq![s0, s1, s2, s3],
            RenjuCondition::BrokenFour { s0, s1, s2, s3, s4, .. } => seq![s0, s1, s2, s3, s4],
            RenjuCondition::Five { s0, s1, s2, s3, s4, .. } => seq![s0, s1, s2, s3, s4],
        }
    }

    pub fn stones(&self) -> (r: Vec<Point>)
        ensures
            r@ == self.spec_stones(),
    {
        let mut r: Vec<Point> = Vec::new();
        match *self {
            RenjuCondition::UnbrokenThree { s0, s1, s2, .. } => {
                r.push(s0);
                r.push(s1);
                r.push(s2);
            },
            RenjuCondition::BrokenThree { s0, s1, s2, s3, .. } => {
                r.push(s0);
                r.push(s1);
                r.push(s2);
                r.push(s3);
            },
            RenjuCondition::StraightFour { s0, s1, s2, s3, .. } => {
                r.push(s0);
                r.push(s1);
                r.push(s2);
                r.push(s3);
            },
            RenjuCondition::ClosedFour { s0, s1, s2, s3, .. } => {
                r.push(s0);
                r.push(s1);
                r.push(s2);
                r.push(s3);
            },
            RenjuCondition::BrokenFour { s0, s1, s2, s3, s4, .. } => {
                r.push(s0);
                r.push(s1);
                r.push(s2);
                r.push(s3);
                r.push(s4);
            },
            RenjuCondition::Five { s0, s1, s2, s3, s4, .. } => {
                r.push(s0);
                r.push(s1);
                r.push(s2);
                r.push(s3);
                r.push(s4);
            },
        }
        proof {
            assert(r@ =~= self.spec_stones());
        }
        r
    }

    /// The placement point of the shape.
    pub open spec fn spec_place(&self) -> Point {
        match *self {
            RenjuCondition::UnbrokenThree { place, .. } => place,
            RenjuCondition::BrokenThree { place, .. } => place,
            RenjuCondition::StraightFour { place, .. } => place,
            RenjuCondition::ClosedFour { place, .. } => place,
            RenjuCondition::BrokenFour { place, .. } => place,
            RenjuCondition::Five { place, .. } => place,
        }
    }

    pub fn place(&self) -> (r: Point)
        ensures
            r == self.spec_place(),
    {
        match *self {
            RenjuCondition::UnbrokenThree { place, .. } => place,
            RenjuCondition::BrokenThree { place, .. } => place,
            RenjuCondition::StraightFour { place, .. } => place,
            RenjuCondition::ClosedFour { place, .. } => place,
            RenjuCondition::BrokenFour { place, .. } => place,
            RenjuCondition::Five { place, .. } => place,
        }
    }
}

/// Everything one evaluation reports: the detected shapes, the points that
/// are forbidden for Black, and each three together with the companion empty
/// cell that would extend it to a straight four.
#[derive(Debug, Clone, PartialEq, Default)]
pub struct RenjuConditions {
    pub conditions: Vec<RenjuCondition>,
    pub forbidden: Vec<Point>,
    pub threes: Vec<(RenjuCondition, Point)>,
}

/// Insertion into a duplicate-free sequence: a no-op for a value already
/// present.
pub open spec fn spec_insert<T>(s: Seq<T>, x: T) -> Seq<T> {
    if s.contains(x) {
        s
    } else {
        s.push(x)
    }
}

/// How many elements of `s` satisfy `pred`.
pub open spec fn seq_count<T>(s: Seq<T>, pred: spec_fn(T) -> bool) -> nat
    decreases s.len(),
{
    if s.len() == 0 {
        0
    } else {
        seq_count(s.drop_last(), pred) + if pred(s.last()) {
            1nat
        } else {
            0nat
        }
    }
}

pub proof fn lemma_seq_count_push<T>(s: Seq<T>, pred: spec_fn(T) -> bool, x: T)
    ensures
        seq_count(s.push(x), pred) == seq_count(s, pred) + if pred(x) {
            1nat
        } else {
            0nat
        },
{
    assert(s.push(x).drop_last() =~= s);
}

pub fn contains_point(v: &Vec<Point>, p: Point) -> (r: bool)
    ensures
        r == v@.contains(p),
{
    let mut i: usize = 0;
    while i < v.len()
        invariant
            i <= v@.len(),
            forall|j: int| 0 <= j < i ==> v@[j] != p,
        decreases v@.len() - i,
    {
        if v[i] == p {
            return true;
        }
        i = i + 1;
    }
    false
}

pub fn insert_point(v: &mut Vec<Point>, p: Point)
    ensures
        final(v)@ == spec_insert(old(v)@, p),
{
    if !contains_point(v, p) {
        v.push(p);
    }
}

pub fn contains_cond(v: &Vec<RenjuCondition>, c: &RenjuCondition) -> (r: bool)
    ensures
        r == v@.contains(*c),
{
    let mut i: usize = 0;
    while i < v.len()
        invariant
            i <= v@.len(),
            forall|j: int| 0 <= j < i ==> v@[j] != *c,
        decreases v@.len() - i,
    {
        if v[i] == *c {
            return true;
        }
        i = i + 1;
    }
    false
}

pub fn insert_cond(v: &mut Vec<RenjuCondition>, c: RenjuCondition)
    ensures
        final(v)@ == spec_insert(old(v)@, c),
{
    if !contains_cond(v, &c) {
        v.push(c);
    }
}

pub fn contains_pair(v: &Vec<(Point, RenjuCondition)>, x: &(Point, RenjuCondition)) -> (r: bool)
    ensures
        r == v@.contains(*x),
{
    let mut i: usize = 0;
    while i < v.len()
        invariant
            i <= v@.len(),
            forall|j: int| 0 <= j < i ==> v@[j] != *x,
        decreases v@.len() - i,
    {
        if v[i].0 == x.0 && v[i].1 == x.1 {
            return true;
        }
        proof {
            assert(v@[i as int] != *x);
        }
        i = i + 1;
    }
    false
}

pub fn insert_pair(v: &mut Vec<(Point, RenjuCondition)>, x: (Point, RenjuCondition))
    ensures
        final(v)@ == spec_insert(old(v)@, x),
{
    if !contains_pair(v, &x) {
        v.push(x);
    }
}

pub fn contains_triple(
    v: &Vec<(Point, RenjuCondition, Point)>,
    x: &(Point, RenjuCondition, Point),
) -> (r: bool)
    ensures
        r == v@.contains(*x),
{
    let mut i: usize = 0;
    while i < v.len()
        invariant
            i <= v@.len(),
            forall|j: int| 0 <= j < i ==> v@[j] != *x,
        decreases v@.len() - i,
    {
        if v[i].0 == x.0 && v[i].1 == x.1 && v[i].2 == x.2 {
            return true;
        }
        proof {
            assert(v@[i as int] != *x);
        }
        i = i + 1;
    }
    false
}

pub fn insert_triple(v: &mut Vec<(Point, RenjuCondition, Point)>, x: (Point, RenjuCondition, Point))
    ensures
        final(v)@ == spec_insert(old(v)@, x),
{
    if !contains_triple(v, &x) {
        v.push(x);
    }
}

pub fn contains_cp(v: &Vec<(RenjuCondition, Point)>, x: &(RenjuCondition, Point)) -> (r: bool)
    ensures
        r == v@.contains(*x),
{
    let mut i: usize = 0;
    while i < v.len()
        invariant
            i <= v@.len(),
            forall|j: int| 0 <= j < i ==> v@[j] != *x,
        decreases v@.len() - i,
    {
        if v[i].0 == x.0 && v[i].1 == x.1 {
            return true;
        }
        proof {
            assert(v@[i as int] != *x);
        }
        i = i + 1;
    }
    false
}

pub fn insert_cp(v: &mut Vec<(RenjuCondition, Point)>, x: (RenjuCondition, Point))
    ensures
        final(v)@ == spec_insert(old(v)@, x),
{
    if !contains_cp(v, &x) {
        v.push(x);
    }
}

} // verus!
