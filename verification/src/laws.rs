use vstd::prelude::*;

use crate::board::GridModel;
use crate::board::Point;
use crate::board::Stone;
use crate::conditions::RenjuCondition;
use crate::conditions::RenjuConditions;
use crate::conditions::spec_insert;
use crate::evaluator::CellClass;
use crate::lines::Direction;
use crate::evaluator::conds_of;
use crate::evaluator::distinct_keys;
use crate::evaluator::five_lines;
use crate::evaluator::four_lines;
use crate::evaluator::fours_fold;
use crate::evaluator::insert_all_points;
use crate::evaluator::over_lines;
use crate::evaluator::restrict_view;
use crate::evaluator::spec_lines;
use crate::evaluator::spec_renju;
use crate::evaluator::three_resolution;

verus! {

/// Membership in a duplicate-free insertion.
pub proof fn lemma_spec_insert_contains<T>(s: Seq<T>, x: T, y: T)
    ensures
        spec_insert(s, x).contains(y) <==> (s.contains(y) || y == x),
{
    if s.contains(x) {
    } else {
        assert(spec_insert(s, x) == s.push(x));
        if s.contains(y) {
            let j = choose|j: int| 0 <= j < s.len() && s[j] == y;
            assert(s.push(x)[j] == y);
        }
        if y == x {
            assert(s.push(x)[s.len() as int] == y);
        }
        if s.push(x).contains(y) {
            let j = choose|j: int| 0 <= j < s.push(x).len() && s.push(x)[j] == y;
            if j < s.len() {
                assert(s[j] == y);
            }
        }
    }
}

proof fn lemma_insert_all_points_sup(acc: Seq<Point>, ps: Seq<Point>, n: nat, y: Point)
    requires
        acc.contains(y),
    ensures
        insert_all_points(acc, ps, n).contains(y),
    decreases n,
{
    if n != 0 {
        lemma_insert_all_points_sup(acc, ps, (n - 1) as nat, y);
        lemma_spec_insert_contains(insert_all_points(acc, ps, (n - 1) as nat), ps[n - 1], y);
    }
}

proof fn lemma_fours_fold_forb_sup(
    pairs: Seq<(Point, RenjuCondition)>,
    black: bool,
    keys: Seq<Point>,
    n: nat,
    conds: Seq<RenjuCondition>,
    forb: Seq<Point>,
    y: Point,
)
    requires
        forb.contains(y),
    ensures
        fours_fold(pairs, black, keys, n, conds, forb).1.contains(y),
    decreases n,
{
    if n != 0 {
        lemma_fours_fold_forb_sup(pairs, black, keys, (n - 1) as nat, conds, forb, y);
        let prev = fours_fold(pairs, black, keys, (n - 1) as nat, conds, forb);
        lemma_spec_insert_contains(prev.1, keys[n - 1], y);
    }
}

proof fn lemma_fours_fold_forb_white(
    pairs: Seq<(Point, RenjuCondition)>,
    keys: Seq<Point>,
    n: nat,
    conds: Seq<RenjuCondition>,
    forb: Seq<Point>,
)
    ensures
        fours_fold(pairs, false, keys, n, conds, forb).1 == forb,
    decreases n,
{
    if n != 0 {
        lemma_fours_fold_forb_white(pairs, keys, (n - 1) as nat, conds, forb);
    }
}

proof fn lemma_three_res_found_nonblack(
    g: GridModel,
    stone: Stone,
    forb_base: Seq<Point>,
    triples: Seq<(Point, RenjuCondition, Point)>,
    keys: Seq<Point>,
    n: nat,
    conds: Seq<RenjuCondition>,
    found: Seq<Point>,
)
    requires
        stone != Stone::Black,
    ensures
        three_resolution(g, stone, forb_base, triples, keys, n, conds, found).1 == found,
    decreases n,
{
    if n != 0 {
        lemma_three_res_found_nonblack(
            g,
            stone,
            forb_base,
            triples,
            keys,
            (n - 1) as nat,
            conds,
            found,
        );
    }
}

/// White has no forbidden points: whatever the position and restriction, an
/// evaluation for White reports an empty forbidden set.
pub proof fn lemma_white_no_forbidden(g: GridModel, restrict: Option<Seq<Point>>)
    ensures
        spec_renju(g, Stone::White, restrict).forbidden == Seq::<Point>::empty(),
{
    let stone = Stone::White;
    let lines = spec_lines(g, stone);
    let cf = five_lines(lines, false, (Seq::empty(), Seq::empty()), lines.len());
    let pairs = four_lines(lines, Seq::empty(), restrict, Seq::empty(), lines.len());
    let keys = distinct_keys(pairs, pairs.len());
    lemma_fours_fold_forb_white(pairs, keys, keys.len(), cf.0, Seq::empty());
    let cf2 = fours_fold(pairs, false, keys, keys.len(), cf.0, Seq::empty());
    let triples = crate::evaluator::three_lines(
        lines,
        false,
        cf2.1,
        cf.1,
        restrict,
        Seq::empty(),
        lines.len(),
    );
    let ks = crate::evaluator::tkeys(triples, triples.len());
    lemma_three_res_found_nonblack(
        g,
        stone,
        cf2.1,
        triples,
        ks,
        ks.len(),
        cf2.0,
        Seq::empty(),
    );
    assert(spec_renju(g, stone, restrict).forbidden == insert_all_points(
        Seq::<Point>::empty(),
        Seq::<Point>::empty(),
        0,
    ));
}

/// Idempotence: the evaluator's result is a pure function of the position,
/// the colour and the restriction, so any two result bundles that meet its
/// contract for the same inputs are identical.
pub proof fn lemma_eval_idempotent(
    r1: RenjuConditions,
    r2: RenjuConditions,
    g: GridModel,
    stone: Stone,
    restrict: Option<Seq<Point>>,
)
    requires
        r1.conditions@ == spec_renju(g, stone, restrict).conditions,
        r1.forbidden@ == spec_renju(g, stone, restrict).forbidden,
        r1.threes@ == spec_renju(g, stone, restrict).threes,
        r2.conditions@ == spec_renju(g, stone, restrict).conditions,
        r2.forbidden@ == spec_renju(g, stone, restrict).forbidden,
        r2.threes@ == spec_renju(g, stone, restrict).threes,
    ensures
        r1.conditions@ == r2.conditions@,
        r1.forbidden@ == r2.forbidden@,
        r1.threes@ == r2.threes@,
{
}

/// Membership in a pushed sequence.
pub broadcast proof fn lemma_push_contains<T>(s: Seq<T>, x: T, y: T)
    ensures
        #[trigger] s.push(x).contains(y) <==> (s.contains(y) || y == x),
{
    if s.contains(y) {
        let j = choose|j: int| 0 <= j < s.len() && s[j] == y;
        assert(s.push(x)[j] == y);
    }
    if y == x {
        assert(s.push(x)[s.len() as int] == y);
    }
    if s.push(x).contains(y) && y != x {
        let j = choose|j: int| 0 <= j < s.push(x).len() && s.push(x)[j] == y;
        assert(s[j] == y);
    }
}

/// Membership in a duplicate-free insertion, in broadcast form.
pub broadcast proof fn lemma_insert_contains<T>(s: Seq<T>, x: T, y: T)
    ensures
        #[trigger] spec_insert(s, x).contains(y) <==> (s.contains(y) || y == x),
{
    broadcast use lemma_push_contains;

    if s.contains(x) && y == x {
    }
}

/// Shape discriminators used by the laws.
pub open spec fn is_five(c: RenjuCondition) -> bool {
    c matches RenjuCondition::Five { .. }
}

pub open spec fn is_four(c: RenjuCondition) -> bool {
    ||| c matches RenjuCondition::StraightFour { .. }
    ||| c matches RenjuCondition::ClosedFour { .. }
    ||| c matches RenjuCondition::BrokenFour { .. }
}

pub open spec fn is_three(c: RenjuCondition) -> bool {
    ||| c matches RenjuCondition::UnbrokenThree { .. }
    ||| c matches RenjuCondition::BrokenThree { .. }
}

/// What the five-scan reports: only five-shapes, each with its placement
/// cell recorded in the five-place list.
pub open spec fn five_acc_ok(acc: (Seq<RenjuCondition>, Seq<Point>)) -> bool {
    forall|c: RenjuCondition| acc.0.contains(c) ==> is_five(c) && acc.1.contains(c.spec_place())
}

proof fn lemma_five_line_inv(
    l: Seq<(CellClass, Point)>,
    black: bool,
    dir: Direction,
    acc: (Seq<RenjuCondition>, Seq<Point>),
    n: nat,
)
    requires
        five_acc_ok(acc),
    ensures
        five_acc_ok(crate::evaluator::five_line(l, black, dir, acc, n)),
    decreases n,
{
    broadcast use lemma_insert_contains;
    broadcast use lemma_push_contains;

    if n != 0 {
        lemma_five_line_inv(l, black, dir, acc, (n - 1) as nat);
        let prev = crate::evaluator::five_line(l, black, dir, acc, (n - 1) as nat);
        let r = crate::evaluator::five_window(l, black, dir, n - 1, prev);
        assert forall|c: RenjuCondition| r.0.contains(c) implies is_five(c) && r.1.contains(
            c.spec_place(),
        ) by {
            assert(prev.0.contains(c) ==> is_five(c) && prev.1.contains(c.spec_place()));
        }
    }
}

proof fn lemma_five_lines_inv(
    lines: Seq<(Direction, Seq<(CellClass, Point)>)>,
    black: bool,
    acc: (Seq<RenjuCondition>, Seq<Point>),
    m: nat,
)
    requires
        five_acc_ok(acc),
    ensures
        five_acc_ok(five_lines(lines, black, acc, m)),
    decreases m,
{
    if m != 0 {
        lemma_five_lines_inv(lines, black, acc, (m - 1) as nat);
        lemma_five_line_inv(
            lines[m - 1].1,
            black,
            lines[m - 1].0,
            five_lines(lines, black, acc, (m - 1) as nat),
            crate::evaluator::n_windows(lines[m - 1].1, 7),
        );
    }
}

/// What the four-scan records: each entry a four-shape, keyed by its own
/// placement cell, which the scan's forbidden set does not hold.
pub open spec fn pairs_ok(forb: Seq<Point>, pairs: Seq<(Point, RenjuCondition)>) -> bool {
    forall|pr: (Point, RenjuCondition)|
        pairs.contains(pr) ==> is_four(pr.1) && pr.1.spec_place() == pr.0 && !forb.contains(pr.0)
}

proof fn lemma_four_line_pairs(
    l: Seq<(CellClass, Point)>,
    dir: Direction,
    forb: Seq<Point>,
    restrict: Option<Seq<Point>>,
    acc: Seq<(Point, RenjuCondition)>,
    n: nat,
)
    requires
        pairs_ok(forb, acc),
    ensures
        pairs_ok(forb, crate::evaluator::four_line(l, dir, forb, restrict, acc, n)),
    decreases n,
{
    broadcast use lemma_insert_contains;

    if n != 0 {
        lemma_four_line_pairs(l, dir, forb, restrict, acc, (n - 1) as nat);
    }
}

proof fn lemma_four_lines_pairs(
    lines: Seq<(Direction, Seq<(CellClass, Point)>)>,
    forb: Seq<Point>,
    restrict: Option<Seq<Point>>,
    acc: Seq<(Point, RenjuCondition)>,
    m: nat,
)
    requires
        pairs_ok(forb, acc),
    ensures
        pairs_ok(forb, four_lines(lines, forb, restrict, acc, m)),
    decreases m,
{
    if m != 0 {
        lemma_four_lines_pairs(lines, forb, restrict, acc, (m - 1) as nat);
        lemma_four_line_pairs(
            lines[m - 1].1,
            lines[m - 1].0,
            forb,
            restrict,
            four_lines(lines, forb, restrict, acc, (m - 1) as nat),
            crate::evaluator::n_windows(lines[m - 1].1, 7),
        );
    }
}

/// What the three-scan records: each entry a three-shape, keyed by its own
/// placement cell, which is not a five's completing cell.
pub open spec fn triples_ok(fives: Seq<Point>, ts: Seq<(Point, RenjuCondition, Point)>) -> bool {
    forall|t: (Point, RenjuCondition, Point)|
        ts.contains(t) ==> is_three(t.1) && t.1.spec_place() == t.0 && !fives.contains(t.0)
}

proof fn lemma_three_line_triples(
    l: Seq<(CellClass, Point)>,
    black: bool,
    dir: Direction,
    forb: Seq<Point>,
    fives: Seq<Point>,
    restrict: Option<Seq<Point>>,
    acc: Seq<(Point, RenjuCondition, Point)>,
    n: nat,
)
    requires
        triples_ok(fives, acc),
    ensures
        triples_ok(
            fives,
            crate::evaluator::three_line(l, black, dir, forb, fives, restrict, acc, n),
        ),
    decreases n,
{
    broadcast use lemma_insert_contains;

    if n != 0 {
        lemma_three_line_triples(l, black, dir, forb, fives, restrict, acc, (n - 1) as nat);
    }
}

proof fn lemma_three_lines_triples(
    lines: Seq<(Direction, Seq<(CellClass, Point)>)>,
    black: bool,
    forb: Seq<Point>,
    fives: Seq<Point>,
    restrict: Option<Seq<Point>>,
    acc: Seq<(Point, RenjuCondition, Point)>,
    m: nat,
)
    requires
        triples_ok(fives, acc),
    ensures
        triples_ok(fives, crate::evaluator::three_lines(lines, black, forb, fives, restrict, acc, m)),
    decreases m,
{
    if m != 0 {
        lemma_three_lines_triples(lines, black, forb, fives, restrict, acc, (m - 1) as nat);
        lemma_three_line_triples(
            lines[m - 1].1,
            black,
            lines[m - 1].0,
            forb,
            fives,
            restrict,
            crate::evaluator::three_lines(lines, black, forb, fives, restrict, acc, (m - 1) as nat),
            crate::evaluator::n_windows(lines[m - 1].1, 9),
        );
    }
}

proof fn lemma_conds_of_members(pairs: Seq<(Point, RenjuCondition)>, k: Point, c: RenjuCondition)
    requires
        conds_of(pairs, k).contains(c),
    ensures
        pairs.contains((k, c)),
    decreases pairs.len(),
{
    broadcast use lemma_push_contains;

    if pairs.len() != 0 {
        if conds_of(pairs.drop_last(), k).contains(c) {
            lemma_conds_of_members(pairs.drop_last(), k, c);
            let j = choose|j: int|
                0 <= j < pairs.drop_last().len() && pairs.drop_last()[j] == (k, c);
            assert(pairs[j] == (k, c));
        } else {
            assert(pairs.last() == (k, c));
            assert(pairs[pairs.len() - 1] == (k, c));
        }
    }
}

proof fn lemma_insert_all_conds_members(
    acc: Seq<RenjuCondition>,
    cs: Seq<RenjuCondition>,
    n: nat,
    c: RenjuCondition,
)
    requires
        crate::evaluator::insert_all_conds(acc, cs, n).contains(c),
        n <= cs.len(),
    ensures
        acc.contains(c) || cs.contains(c),
    decreases n,
{
    broadcast use lemma_insert_contains;

    if n != 0 {
        if crate::evaluator::insert_all_conds(acc, cs, (n - 1) as nat).contains(c) {
            lemma_insert_all_conds_members(acc, cs, (n - 1) as nat, c);
        } else {
            assert(cs[n - 1] == c);
        }
    }
}

/// Everything the fours-fold adds to the conditions comes from the keyed
/// pairs it folds over.
proof fn lemma_fours_fold_conds(
    pairs: Seq<(Point, RenjuCondition)>,
    black: bool,
    keys: Seq<Point>,
    n: nat,
    conds: Seq<RenjuCondition>,
    forb: Seq<Point>,
    c: RenjuCondition,
)
    requires
        fours_fold(pairs, black, keys, n, conds, forb).0.contains(c),
    ensures
        conds.contains(c) || (exists|j: int| 0 <= j < pairs.len() && (#[trigger] pairs[j]).1 == c),
    decreases n,
{
    if n != 0 {
        let prev = fours_fold(pairs, black, keys, (n - 1) as nat, conds, forb);
        let k = keys[n - 1];
        let cs = conds_of(pairs, k);
        if black && cs.len() > 1 {
            lemma_fours_fold_conds(pairs, black, keys, (n - 1) as nat, conds, forb, c);
        } else {
            lemma_insert_all_conds_members(prev.0, cs, cs.len(), c);
            if prev.0.contains(c) {
                lemma_fours_fold_conds(pairs, black, keys, (n - 1) as nat, conds, forb, c);
            } else {
                lemma_conds_of_members(pairs, k, c);
                let j = choose|j: int| 0 <= j < pairs.len() && pairs[j] == (k, c);
                assert(pairs[j].1 == c);
            }
        }
    }
}

proof fn lemma_pairs_of_members(
    triples: Seq<(Point, RenjuCondition, Point)>,
    k: Point,
    e: (RenjuCondition, Point),
)
    requires
        crate::evaluator::pairs_of(triples, k).contains(e),
    ensures
        triples.contains((k, e.0, e.1)),
    decreases triples.len(),
{
    broadcast use lemma_push_contains;

    if triples.len() != 0 {
        if crate::evaluator::pairs_of(triples.drop_last(), k).contains(e) {
            lemma_pairs_of_members(triples.drop_last(), k, e);
            let j = choose|j: int|
                0 <= j < triples.drop_last().len() && triples.drop_last()[j] == (k, e.0, e.1);
            assert(triples[j] == (k, e.0, e.1));
        } else {
            assert(triples[triples.len() - 1] == (k, e.0, e.1));
        }
    }
}

proof fn lemma_insert_all_cp_members(
    acc: Seq<RenjuCondition>,
    v: Seq<(RenjuCondition, Point)>,
    n: nat,
    c: RenjuCondition,
)
    requires
        crate::evaluator::insert_all_cp_conds(acc, v, n).contains(c),
        n <= v.len(),
    ensures
        acc.contains(c) || (exists|j: int| 0 <= j < v.len() && (#[trigger] v[j]).0 == c),
    decreases n,
{
    broadcast use lemma_insert_contains;

    if n != 0 {
        if crate::evaluator::insert_all_cp_conds(acc, v, (n - 1) as nat).contains(c) {
            lemma_insert_all_cp_members(acc, v, (n - 1) as nat, c);
        } else {
            assert(v[n - 1].0 == c);
        }
    }
}

/// Everything the double-three resolution adds to the conditions is a
/// three-shape taken from the triples.
proof fn lemma_three_res_conds(
    g: GridModel,
    stone: Stone,
    forb_base: Seq<Point>,
    triples: Seq<(Point, RenjuCondition, Point)>,
    keys: Seq<Point>,
    n: nat,
    conds: Seq<RenjuCondition>,
    found: Seq<Point>,
    c: RenjuCondition,
)
    requires
        three_resolution(g, stone, forb_base, triples, keys, n, conds, found).0.contains(c),
    ensures
        conds.contains(c) || (exists|j: int|
            0 <= j < triples.len() && (#[trigger] triples[j]).1 == c),
    decreases n,
{
    if n != 0 {
        let prev = three_resolution(g, stone, forb_base, triples, keys, (n - 1) as nat, conds, found);
        let k = keys[n - 1];
        let v = crate::evaluator::pairs_of(triples, k);
        let rows = crate::evaluator::rows_of(v, v.len());
        if stone == Stone::Black && rows.len() > 1 {
            lemma_three_res_conds(
                g,
                stone,
                forb_base,
                triples,
                keys,
                (n - 1) as nat,
                conds,
                found,
                c,
            );
        } else {
            lemma_insert_all_cp_members(prev.0, v, v.len(), c);
            if prev.0.contains(c) {
                lemma_three_res_conds(
                    g,
                    stone,
                    forb_base,
                    triples,
                    keys,
                    (n - 1) as nat,
                    conds,
                    found,
                    c,
                );
            } else {
                let j = choose|j: int| 0 <= j < v.len() && v[j].0 == c;
                assert(v.contains(v[j]));
                lemma_pairs_of_members(triples, k, v[j]);
                let jj = choose|jj: int|
                    0 <= jj < triples.len() && triples[jj] == (k, v[j].0, v[j].1);
                assert(triples[jj].1 == c);
            }
        }
    }
}

proof fn lemma_fours_fold_key(
    pairs: Seq<(Point, RenjuCondition)>,
    keys: Seq<Point>,
    n: nat,
    conds: Seq<RenjuCondition>,
    forb: Seq<Point>,
    k: Point,
)
    requires
        exists|j: int| 0 <= j < n && keys[j] == k,
        conds_of(pairs, k).len() > 1,
    ensures
        fours_fold(pairs, true, keys, n, conds, forb).1.contains(k),
    decreases n,
{
    broadcast use lemma_insert_contains;

    if n != 0 {
        let prev = fours_fold(pairs, true, keys, (n - 1) as nat, conds, forb);
        if keys[n - 1] == k {
        } else {
            let j = choose|j: int| 0 <= j < n && keys[j] == k;
            assert(0 <= j < n - 1);
            lemma_fours_fold_key(pairs, keys, (n - 1) as nat, conds, forb, k);
        }
    }
}

/// Double-four ban: a point at which the scan found two or more distinct
/// playable four-shapes is forbidden for Black.
pub proof fn lemma_double_four_ban(g: GridModel, restrict: Option<Seq<Point>>, k: Point)
    ensures
        ({
            let lines = spec_lines(g, Stone::Black);
            let forb1 = over_lines(lines, Seq::empty(), lines.len());
            let pairs = four_lines(lines, forb1, restrict, Seq::empty(), lines.len());
            (distinct_keys(pairs, pairs.len()).contains(k) && conds_of(pairs, k).len() > 1)
                ==> spec_renju(g, Stone::Black, restrict).forbidden.contains(k)
        }),
{
    let stone = Stone::Black;
    let lines = spec_lines(g, stone);
    let cf = five_lines(lines, true, (Seq::empty(), Seq::empty()), lines.len());
    let forb1 = over_lines(lines, Seq::empty(), lines.len());
    let pairs = four_lines(lines, forb1, restrict, Seq::empty(), lines.len());
    let keys = distinct_keys(pairs, pairs.len());
    if keys.contains(k) && conds_of(pairs, k).len() > 1 {
        let j = choose|j: int| 0 <= j < keys.len() && keys[j] == k;
        lemma_fours_fold_key(pairs, keys, keys.len(), cf.0, forb1, k);
        let cf2 = fours_fold(pairs, true, keys, keys.len(), cf.0, forb1);
        let triples = crate::evaluator::three_lines(
            lines,
            true,
            cf2.1,
            cf.1,
            restrict,
            Seq::empty(),
            lines.len(),
        );
        let ks = crate::evaluator::tkeys(triples, triples.len());
        let rf = three_resolution(g, stone, cf2.1, triples, ks, ks.len(), cf2.0, Seq::empty());
        lemma_insert_all_points_sup(cf2.1, rf.1, rf.1.len(), k);
    }
}

/// Overline dominance: a cell whose occupation would give Black six in a
/// row is forbidden, and no reported four-shape places a stone there.
pub proof fn lemma_overline_dominance(g: GridModel, restrict: Option<Seq<Point>>, q: Point)
    ensures
        ({
            let lines = spec_lines(g, Stone::Black);
            let over = over_lines(lines, Seq::empty(), lines.len());
            over.contains(q) ==> {
                let m = spec_renju(g, Stone::Black, restrict);
                &&& m.forbidden.contains(q)
                &&& forall|c: RenjuCondition|
                    m.conditions.contains(c) && is_four(c) ==> c.spec_place() != q
            }
        }),
{
    let stone = Stone::Black;
    let lines = spec_lines(g, stone);
    let over = over_lines(lines, Seq::empty(), lines.len());
    if over.contains(q) {
        let m = spec_renju(g, stone, restrict);
        let cf = five_lines(lines, true, (Seq::empty(), Seq::empty()), lines.len());
        let pairs = four_lines(lines, over, restrict, Seq::empty(), lines.len());
        let keys = distinct_keys(pairs, pairs.len());
        let cf2 = fours_fold(pairs, true, keys, keys.len(), cf.0, over);
        let triples = crate::evaluator::three_lines(
            lines,
            true,
            cf2.1,
            cf.1,
            restrict,
            Seq::empty(),
            lines.len(),
        );
        let ks = crate::evaluator::tkeys(triples, triples.len());
        let rf = three_resolution(g, stone, cf2.1, triples, ks, ks.len(), cf2.0, Seq::empty());
        lemma_fours_fold_forb_sup(pairs, true, keys, keys.len(), cf.0, over, q);
        lemma_insert_all_points_sup(cf2.1, rf.1, rf.1.len(), q);
        lemma_five_lines_inv(lines, true, (Seq::empty(), Seq::empty()), lines.len());
        lemma_four_lines_pairs(lines, over, restrict, Seq::empty(), lines.len());
        lemma_three_lines_triples(lines, true, cf2.1, cf.1, restrict, Seq::empty(), lines.len());
        assert forall|c: RenjuCondition|
            m.conditions.contains(c) && is_four(c) implies c.spec_place() != q by {
            lemma_three_res_conds(
                g,
                stone,
                cf2.1,
                triples,
                ks,
                ks.len(),
                cf2.0,
                Seq::empty(),
                c,
            );
            if cf2.0.contains(c) {
                lemma_fours_fold_conds(pairs, true, keys, keys.len(), cf.0, over, c);
                if cf.0.contains(c) {
                    assert(is_five(c));
                } else {
                    let j = choose|j: int| 0 <= j < pairs.len() && pairs[j].1 == c;
                    assert(pairs.contains(pairs[j]));
                }
            } else {
                let j = choose|j: int| 0 <= j < triples.len() && triples[j].1 == c;
                assert(triples.contains(triples[j]));
            }
        }
    }
}

/// A five's completing cell never doubles as a reported three's placement
/// cell: the scan drops such false threes. (A four's cells may still meet a
/// five's; the rule only suppresses threes.)
pub proof fn lemma_five_place_not_three(g: GridModel, stone: Stone, restrict: Option<Seq<Point>>)
    ensures
        ({
            let m = spec_renju(g, stone, restrict);
            forall|t: (RenjuCondition, Point), f: RenjuCondition|
                m.threes.contains(t) && m.conditions.contains(f) && is_five(f)
                    ==> (#[trigger] t.0.spec_place()) != (#[trigger] f.spec_place())
        }),
{
    let black = stone == Stone::Black;
    let m = spec_renju(g, stone, restrict);
    let lines = spec_lines(g, stone);
    let cf = five_lines(lines, black, (Seq::empty(), Seq::empty()), lines.len());
    let forb1 = if black {
        over_lines(lines, Seq::empty(), lines.len())
    } else {
        Seq::<Point>::empty()
    };
    let pairs = four_lines(lines, forb1, restrict, Seq::empty(), lines.len());
    let keys = distinct_keys(pairs, pairs.len());
    let cf2 = fours_fold(pairs, black, keys, keys.len(), cf.0, forb1);
    let triples = crate::evaluator::three_lines(
        lines,
        black,
        cf2.1,
        cf.1,
        restrict,
        Seq::empty(),
        lines.len(),
    );
    let ks = crate::evaluator::tkeys(triples, triples.len());
    lemma_five_lines_inv(lines, black, (Seq::empty(), Seq::empty()), lines.len());
    lemma_four_lines_pairs(lines, forb1, restrict, Seq::empty(), lines.len());
    lemma_three_lines_triples(lines, black, cf2.1, cf.1, restrict, Seq::empty(), lines.len());
    assert forall|t: (RenjuCondition, Point), f: RenjuCondition|
        m.threes.contains(t) && m.conditions.contains(f) && is_five(f) implies (
    #[trigger] t.0.spec_place()) != (#[trigger] f.spec_place()) by {
        let j = choose|j: int|
            0 <= j < crate::evaluator::threes_result(triples).len()
                && crate::evaluator::threes_result(triples)[j] == t;
        assert(t.0 == triples[j].1);
        assert(triples.contains(triples[j]));
        assert(is_three(triples[j].1) && triples[j].1.spec_place() == triples[j].0
            && !cf.1.contains(triples[j].0));
        lemma_three_res_conds(g, stone, cf2.1, triples, ks, ks.len(), cf2.0, Seq::empty(), f);
        if cf2.0.contains(f) {
            lemma_fours_fold_conds(pairs, black, keys, keys.len(), cf.0, forb1, f);
            if cf.0.contains(f) {
                assert(cf.1.contains(f.spec_place()));
            } else {
                let jj = choose|jj: int| 0 <= jj < pairs.len() && pairs[jj].1 == f;
                assert(pairs.contains(pairs[jj]));
                assert(is_four(f));
            }
        } else {
            let jj = choose|jj: int| 0 <= jj < triples.len() && triples[jj].1 == f;
            assert(triples.contains(triples[jj]));
            assert(is_three(f));
        }
    }
}

} // verus!
