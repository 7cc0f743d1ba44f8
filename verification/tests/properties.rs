use renju::BoardArr;
use renju::Command;
use renju::CommandVariant;
use renju::Point;
use renju::RenjuCondition;
use renju::Stone;

fn pt(col: char, row: u32) -> Point {
    Point::new(col as u32 - 'A' as u32, 15 - row)
}

#[test]
fn white_has_no_forbidden() {
    // The double-three position, with the very same stones given to White:
    // White is never restricted, so nothing is forbidden.
    let mut board = BoardArr::new(15);
    for pos in [pt('H', 8), pt('G', 8), pt('G', 9), pt('H', 10)] {
        board.set_point(pos, Stone::White);
    }
    let conditions = board.renju_conditions(Stone::White, None);
    assert!(conditions.forbidden.is_empty(), "forbidden was {:?}", conditions.forbidden);
}

#[test]
fn straight_four_not_two_closed_fours() {
    // A run of three with both flanking cells empty and one far end blocked:
    // the completion is one straight four, never a pair of closed fours.
    let mut board = BoardArr::new(15);
    board.set_point(pt('D', 8), Stone::White);
    for pos in [pt('F', 8), pt('G', 8), pt('H', 8)] {
        board.set_point(pos, Stone::Black);
    }
    let conditions = board.renju_conditions(Stone::Black, None);
    let straight = conditions
        .conditions
        .iter()
        .filter(|c| matches!(c, RenjuCondition::StraightFour { .. }))
        .count();
    let closed = conditions
        .conditions
        .iter()
        .filter(|c| matches!(c, RenjuCondition::ClosedFour { .. }))
        .count();
    assert_eq!(straight, 1, "conditions were {:?}", conditions.conditions);
    assert_eq!(closed, 0, "conditions were {:?}", conditions.conditions);
}

#[test]
fn evaluation_is_idempotent() {
    let mut board = BoardArr::new(15);
    for pos in [pt('H', 8), pt('G', 8), pt('G', 9), pt('H', 10), pt('C', 3)] {
        board.set_point(pos, Stone::Black);
    }
    board.set_point(pt('D', 4), Stone::White);
    let first = board.renju_conditions(Stone::Black, None);
    let second = board.renju_conditions(Stone::Black, None);
    assert_eq!(first, second);
}

#[test]
fn overline_point_is_forbidden_and_no_four_there() {
    // Black stones around one gap whose filling would give six in a row.
    let mut board = BoardArr::new(15);
    for pos in [pt('B', 8), pt('C', 8), pt('D', 8), pt('E', 8), pt('G', 8)] {
        board.set_point(pos, Stone::Black);
    }
    let conditions = board.renju_conditions(Stone::Black, None);
    let q = pt('F', 8);
    assert!(conditions.forbidden.contains(&q), "forbidden was {:?}", conditions.forbidden);
    for c in &conditions.conditions {
        let four = matches!(
            c,
            RenjuCondition::StraightFour { .. } | RenjuCondition::ClosedFour { .. }
                | RenjuCondition::BrokenFour { .. }
        );
        if four {
            assert_ne!(c.place(), q, "a four was reported at the overline point: {:?}", c);
        }
    }
}

#[test]
fn double_four_point_is_forbidden() {
    // A horizontal three and a vertical three whose straight-four
    // completions meet in one point: playing there is a double-four.
    let mut board = BoardArr::new(15);
    for pos in [pt('C', 8), pt('D', 8), pt('E', 8)] {
        board.set_point(pos, Stone::Black);
    }
    for pos in [pt('F', 11), pt('F', 10), pt('F', 9)] {
        board.set_point(pos, Stone::Black);
    }
    // Block the other ends so each three has exactly one completion at F8.
    board.set_point(pt('B', 8), Stone::White);
    board.set_point(pt('F', 12), Stone::White);
    let conditions = board.renju_conditions(Stone::Black, None);
    assert!(
        conditions.forbidden.contains(&pt('F', 8)),
        "forbidden was {:?}",
        conditions.forbidden
    );
}

#[test]
fn five_place_never_a_three_place() {
    // A four about to become five, and a separate two about to become a
    // three: the five's completing cell never doubles as a three.
    let mut board = BoardArr::new(15);
    for pos in [pt('B', 2), pt('C', 2), pt('D', 2), pt('E', 2)] {
        board.set_point(pos, Stone::Black);
    }
    for pos in [pt('H', 8), pt('H', 9)] {
        board.set_point(pos, Stone::Black);
    }
    let conditions = board.renju_conditions(Stone::Black, None);
    let five_places: Vec<Point> = conditions
        .conditions
        .iter()
        .filter(|c| matches!(c, RenjuCondition::Five { .. }))
        .map(|c| c.place())
        .collect();
    assert!(!five_places.is_empty());
    for (three, _companion) in &conditions.threes {
        assert!(
            !five_places.contains(&three.place()),
            "a three at a five's completing cell: {:?}",
            three
        );
    }
}

#[test]
fn condition_accessors() {
    let c = RenjuCondition::UnbrokenThree {
        direction: renju::Direction::Horizontal,
        s0: pt('F', 8),
        s1: pt('G', 8),
        s2: pt('H', 8),
        place: pt('F', 8),
    };
    assert_eq!(c.stones(), vec![pt('F', 8), pt('G', 8), pt('H', 8)]);
    assert_eq!(c.place(), pt('F', 8));
}

#[test]
fn directions_lists_all_four() {
    let dirs = renju::Direction::directions();
    assert_eq!(
        dirs,
        [
            renju::Direction::Horizontal,
            renju::Direction::Vertical,
            renju::Direction::Diagonal { bottom: false },
            renju::Direction::Diagonal { bottom: true },
        ]
    );
}

#[test]
fn command_flags() {
    assert_eq!(CommandVariant::Down.to_u8(), 0x80);
    assert_eq!(CommandVariant::Right.to_u8(), 0x40);
    assert_eq!(CommandVariant::OldComment.to_u8(), 0x20);
    assert_eq!(CommandVariant::Mark.to_u8(), 0x10);
    assert_eq!(CommandVariant::Comment.to_u8(), 0x08);
    assert_eq!(CommandVariant::Start.to_u8(), 0x04);
    assert_eq!(CommandVariant::NoMove.to_u8(), 0x02);
    assert_eq!(CommandVariant::Extension.to_u8(), 0x01);
    assert_eq!(CommandVariant::Mask.to_u8(), 63);

    let c = Command(0x80 | 0x40);
    assert!(c.is_down());
    assert!(c.is_right());
    assert!(!c.is_comment());
    assert!(!c.is_old_comment());
    assert!(!c.is_mark());
    assert!(!c.is_start());
    assert!(!c.is_no_move());
    assert!(!c.is_extension());
    assert!(!c.is_mask());
    assert!(!c.is_board_text());
    assert_eq!(c.get_all(), vec![CommandVariant::Down, CommandVariant::Right]);

    let c = Command(0x3f);
    assert!(c.is_mask());
    assert!(Command(0x100).is_board_text());
}

#[test]
fn stone_opposite() {
    assert_eq!(Stone::Black.opposite(), Stone::White);
    assert_eq!(Stone::White.opposite(), Stone::Black);
    assert!(Stone::Empty.is_empty());
    assert!(Stone::Black.is_black());
    assert!(Stone::White.is_white());
}

#[test]
fn point_from_1d() {
    assert_eq!(Point::from_1d(0, 15), Point::new(0, 0));
    assert_eq!(Point::from_1d(16, 15), Point::new(1, 1));
    assert_eq!(Point::from_1d(224, 15), Point::new(14, 14));
    assert!(Point::null().is_null);
}
