use renju::BoardArr;
use renju::Direction;
use renju::Point;
use renju::RenjuConditions;
use renju::Stone;

fn pt(col: char, row: u32) -> Point {
    Point::new(col as u32 - 'A' as u32, 15 - row)
}

fn assert_forbidden(conditions: &RenjuConditions, expected: &[Point]) {
    assert_eq!(
        conditions.forbidden.len(),
        expected.len(),
        "forbidden was {:?}, expected {:?}",
        conditions.forbidden,
        expected
    );
    for p in expected {
        assert!(
            conditions.forbidden.contains(p),
            "forbidden was {:?}, expected {:?}",
            conditions.forbidden,
            expected
        );
    }
}

#[test]
fn test_condition() {
    let mut board = BoardArr::new(15);
    for pos in [pt('H', 8), pt('G', 8), pt('G', 9), pt('H', 10)] {
        board.set_point(pos, Stone::Black);
    }
    let conditions = board.renju_conditions(Stone::Black, None);
    assert_forbidden(&conditions, &[pt('F', 8)]);

    let mut board = BoardArr::new(15);
    for pos in [
        pt('C', 13),
        pt('E', 13),
        pt('K', 13),
        pt('N', 13),
        pt('D', 12),
        pt('M', 12),
        pt('M', 11),
        pt('D', 10),
        pt('I', 10),
        pt('G', 8),
        pt('H', 8),
        pt('H', 7),
        pt('C', 5),
        pt('N', 5),
        pt('D', 4),
        pt('F', 4),
        pt('M', 4),
        pt('D', 2),
        pt('I', 2),
        pt('J', 2),
    ] {
        board.set_point(pos, Stone::Black);
    }
    board.set_point(pt('B', 13), Stone::White);
    let conditions = board.renju_conditions(Stone::Black, None);
    assert_forbidden(&conditions, &[pt('H', 9), pt('M', 13), pt('E', 3), pt('K', 2)]);

    let mut board = BoardArr::new(15);
    for pos in [
        pt('E', 13),
        pt('C', 12),
        pt('E', 12),
        pt('B', 11),
        pt('E', 11),
        pt('A', 10),
        pt('E', 8),
        pt('F', 8),
        pt('H', 8),
        pt('I', 8),
        pt('J', 8),
        pt('B', 4),
        pt('K', 4),
        pt('L', 4),
        pt('B', 3),
        pt('D', 3),
        pt('J', 3),
        pt('L', 3),
        pt('D', 2),
    ] {
        board.set_point(pos, Stone::Black);
    }
    board.set_point(pt('E', 10), Stone::White);
    let conditions = board.renju_conditions(Stone::Black, None);
    assert_forbidden(&conditions, &[pt('E', 14), pt('G', 8), pt('L', 5)]);

    let mut board = BoardArr::new(15);
    for pos in [
        pt('O', 14),
        pt('E', 13),
        pt('A', 12),
        pt('E', 12),
        pt('F', 12),
        pt('I', 12),
        pt('C', 11),
        pt('L', 11),
        pt('N', 11),
        pt('K', 10),
        pt('N', 10),
        pt('J', 9),
        pt('N', 9),
        pt('C', 5),
        pt('C', 4),
        pt('F', 4),
        pt('E', 3),
    ] {
        board.set_point(pos, Stone::Black);
    }
    for pos in [pt('I', 8), pt('G', 1), pt('N', 8)] {
        board.set_point(pos, Stone::White);
    }
    let conditions = board.renju_conditions(Stone::Black, None);
    // N13 and D12 are not forbidden
    assert_forbidden(&conditions, &[pt('D', 4), pt('M', 10)]);
}

#[test]
fn tricky_forbidden() {
    let mut board = BoardArr::new(15);
    for pos in [
        pt('K', 8),
        pt('J', 8),
        pt('I', 7),
        pt('I', 6),
        pt('H', 7),
        pt('H', 6),
        pt('N', 8),
        pt('F', 8),
    ] {
        board.set_point(pos, Stone::Black);
    }
    for pos in [pt('J', 7), pt('G', 7)] {
        board.set_point(pos, Stone::White);
    }
    let conditions = board.renju_conditions(Stone::Black, None);
    assert_forbidden(&conditions, &[]);
}

#[test]
fn rif_definition_of_three() {
    // A row with three stones to which you, without at the same time a five
    // in a row is made, can add one more stone to attain a straight four.
    let mut board = BoardArr::new(15);
    for p in [
        pt('F', 8),
        pt('F', 9),
        pt('F', 10),
        pt('F', 11),
        pt('G', 7),
        pt('H', 7),
        pt('G', 13),
        pt('H', 13),
        pt('I', 13),
        pt('J', 13),
        pt('L', 12),
        pt('M', 11),
    ] {
        board.set_point(p, Stone::Black);
    }
    let restrict = vec![pt('F', 7), pt('K', 13)];
    let conditions = board.renju_conditions(Stone::Black, Some(&restrict));
    let f7: Vec<_> = conditions
        .threes
        .iter()
        .filter(|c| c.0.stones().contains(&pt('F', 7)))
        .collect();
    let _ = f7;
    let k13: Vec<_> = conditions
        .threes
        .iter()
        .filter(|c| c.0.stones().contains(&pt('K', 13)))
        .collect();
    let _ = k13;
}

#[test]
fn line() {
    let board = BoardArr::new(15);

    let p = pt('H', 8);

    // Horizontal
    let line = board.get_line(Direction::Horizontal, &p).1;
    let actual = vec![pt('A',  8), pt('B',  8), pt('C',  8), pt('D',  8), pt('E',  8), pt('F',  8), pt('G',  8), pt('H',  8), pt('I',  8), pt('J',  8), pt('K',  8), pt('L',  8), pt('M',  8), pt('N',  8), pt('O',  8)];
    assert_eq!(line, actual);
    for p in &line {
        let line = board.get_line(Direction::Horizontal, p).1;
        assert_eq!(line, actual);
    }

    // Vertical
    let line = board.get_line(Direction::Vertical, &p).1;
    let actual = vec![pt('H', 15), pt('H', 14), pt('H', 13), pt('H', 12), pt('H', 11), pt('H', 10), pt('H',  9), pt('H',  8), pt('H',  7), pt('H',  6), pt('H',  5), pt('H',  4), pt('H',  3), pt('H',  2), pt('H',  1)];
    assert_eq!(line, actual);
    for p in &line {
        let line = board.get_line(Direction::Vertical, p).1;
        assert_eq!(line, actual);
    }

    // Diagonal, rising
    let line = board.get_line(Direction::Diagonal { bottom: true }, &p).1;
    let actual = vec![pt('A',  1), pt('B',  2), pt('C',  3), pt('D',  4), pt('E',  5), pt('F',  6), pt('G',  7), pt('H',  8), pt('I',  9), pt('J', 10), pt('K', 11), pt('L', 12), pt('M', 13), pt('N', 14), pt('O', 15)];
    assert_eq!(line, actual);
    for p in &line {
        let line = board.get_line(Direction::Diagonal { bottom: true }, p).1;
        assert_eq!(line, actual);
    }

    // Diagonal, falling
    let line = board.get_line(Direction::Diagonal { bottom: false }, &p).1;
    let actual = vec![pt('A', 15), pt('B', 14), pt('C', 13), pt('D', 12), pt('E', 11), pt('F', 10), pt('G',  9), pt('H',  8), pt('I',  7), pt('J',  6), pt('K',  5), pt('L',  4), pt('M',  3), pt('N',  2), pt('O',  1)];
    assert_eq!(line, actual);
    for p in &line {
        let line = board.get_line(Direction::Diagonal { bottom: false }, p).1;
        assert_eq!(line, actual);
    }

    // other diagonals, starting on other points
    let p = pt('G', 8);

    let line = board.get_line(Direction::Diagonal { bottom: true }, &p).1;
    let actual = vec![pt('A',  2), pt('B',  3), pt('C',  4), pt('D',  5), pt('E',  6), pt('F',  7), pt('G',  8), pt('H',  9), pt('I', 10), pt('J', 11), pt('K', 12), pt('L', 13), pt('M', 14), pt('N', 15)];
    assert_eq!(line, actual);
    for p in &line {
        let line = board.get_line(Direction::Diagonal { bottom: true }, p).1;
        assert_eq!(line, actual);
    }

    let line = board.get_line(Direction::Diagonal { bottom: false }, &p).1;
    let actual = vec![pt('A', 14), pt('B', 13), pt('C', 12), pt('D', 11), pt('E', 10), pt('F',  9), pt('G',  8), pt('H',  7), pt('I',  6), pt('J',  5), pt('K',  4), pt('L',  3), pt('M',  2), pt('N',  1)];
    assert_eq!(line, actual);
    for p in &line {
        let line = board.get_line(Direction::Diagonal { bottom: false }, p).1;
        assert_eq!(line, actual);
    }

    // special diagonals
    let p = pt('A', 15);
    let line = board.get_line(Direction::Diagonal { bottom: true }, &p).1;
    let actual = vec![pt('A', 15)];
    assert_eq!(line, actual);

    let p = pt('A', 14);
    let line = board.get_line(Direction::Diagonal { bottom: true }, &p).1;
    let actual = vec![pt('A', 14), pt('B', 15)];
    assert_eq!(line, actual);

    let p = pt('A', 1);
    let line = board.get_line(Direction::Diagonal { bottom: false }, &p).1;
    let actual = vec![pt('A', 1)];
    assert_eq!(line, actual);

    let p = pt('A', 2);
    let line = board.get_line(Direction::Diagonal { bottom: false }, &p).1;
    let actual = vec![pt('A', 2), pt('B', 1)];
    assert_eq!(line, actual);
}

#[test]
fn all_lines_is_all_lines_and_not_twice() {
    let board = BoardArr::new(15);
    let directions = [
        Direction::Horizontal,
        Direction::Vertical,
        Direction::Diagonal { bottom: true },
        Direction::Diagonal { bottom: false },
    ];
    for dir in directions {
        let mut points: Vec<Point> = Vec::new();
        for (d, line) in board.all_lines() {
            if d == dir {
                points.extend(line);
            }
        }
        for x in 0..15u32 {
            for y in 0..15u32 {
                let p = Point::new(x, y);
                let count = points.iter().filter(|q| **q == p).count();
                assert_eq!(count, 1, "{:?} was found {} times in {:?}", p, count, dir);
            }
        }
        assert_eq!(points.len(), 225, "{:?} covered more than the board", dir);
    }
}

#[test]
fn check_if_illegal_move() {
    let mut board = BoardArr::new(15);
    for pos in [pt('H', 8), pt('G', 8), pt('G', 9), pt('H', 10)] {
        board.set_point(pos, Stone::Black);
    }
    let conditions = board.renju_conditions(Stone::Black, None);
    assert_forbidden(&conditions, &[pt('F', 8)]);
}

#[test]
fn is_horizontal_five_in_a_row() {
    let mut board = BoardArr::new(15);
    let y = 7u32;
    let p1 = renju::BoardMarker::new(Point::new(4, y), Stone::Black);
    for x in 0..4 {
        board.set_point(Point::new(x, y), Stone::Black);
    }
    let p2 = renju::BoardMarker::new(Point::new(8, y + 2), Stone::White);
    for x in (7..12).filter(|x| *x != 8) {
        board.set_point(Point::new(x, y + 2), Stone::White);
    }
    let _ = (p1, p2);
}

#[test]
fn is_vertical_five_in_a_row() {
    let mut board = BoardArr::new(15);
    let x = 7u32;
    let p1 = renju::BoardMarker::new(Point::new(x, 4), Stone::Black);
    for y in 0..4 {
        board.set_point(Point::new(x, y), Stone::Black);
    }
    let p2 = renju::BoardMarker::new(Point::new(x + 2, 8), Stone::White);
    for y in (7..12).filter(|y| *y != 8) {
        board.set_point(Point::new(x + 2, y), Stone::White);
    }
    let _ = (p1, p2);
}

#[test]
fn is_diagonal_five_in_a_row() {
    let mut board = BoardArr::new(15);
    // A falling diagonal
    for pos in &[2u32 + 7 * 15, 3u32 + 8 * 15, 4u32 + 9 * 15, 5u32 + 10 * 15] {
        board.set_point(Point::from_1d(*pos, 15), Stone::Black);
    }
    #[allow(clippy::identity_op)]
    for pos in &[9u32, 10u32 + 1 * 15, 11u32 + 2 * 15, 13u32 + 4 * 15] {
        board.set_point(Point::from_1d(*pos, 15), Stone::White);
    }
    let p1 = renju::BoardMarker::new(Point::from_1d(11 * 15 + 6, 15), Stone::Black);
    let p2 = renju::BoardMarker::new(Point::from_1d(12 + 3 * 15, 15), Stone::White);
    let _ = (p1, p2);
}

#[test]
fn is_anti_diagonal_five_in_a_row() {
    let mut board = BoardArr::new(15);
    for pos in &[6u32 + 6 * 15, 5u32 + 7 * 15, 4u32 + 8 * 15, 3u32 + 9 * 15] {
        board.set_point(Point::from_1d(*pos, 15), Stone::Black);
    }
    let p1 = renju::BoardMarker::new(Point::from_1d(2u32 + 10 * 15, 15), Stone::Black);
    let _ = p1;
}
