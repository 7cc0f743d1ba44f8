use renju::BoardMarker;
use renju::Command;
use renju::ParseError;
use renju::Point;
use renju::Stone;
use renju::Version;
use renju::byte_to_point;
use renju::parse_board_text;
use renju::parse_comments;
use renju::parse_lib;
use renju::parse_old_comments;
use renju::parse_v3x;
use renju::read_text;
use renju::validate_lib;

fn pt(col: char, row: u32) -> Point {
    Point::new(col as u32 - 'A' as u32, 15 - row)
}

const DOWN: u32 = 0x80;
const RIGHT: u32 = 0x40;
const COMMENT: u32 = 0x08;
const NOMOVE: u32 = 0x02;
const EXTENSION: u32 = 0x01;
const BOARDTEXT: u32 = 0x100;

fn parse_v30(bytes: &[u8]) -> Result<Vec<BoardMarker>, ParseError> {
    parse_v3x(bytes, Version::V30, 0)
}

#[test]
fn start_move() {
    assert_eq!(
        parse_v30(&[0x78, 0x00]).unwrap(),
        [BoardMarker {
            point: pt('H', 8),
            color: Stone::Empty,
            oneline_comment: None,
            multiline_comment: None,
            board_text: None,
            command: Command(0),
            index_in_file: Some(0)
        },]
    );
}

#[test]
fn basic() {
    let basic = parse_v30(&[
        0x78, 0x00, 0x68, 0x80, 0x66, 0x00, 0x49, 0x00, 0x58, 0x00, 0x79, 0x00, 0x69, 0x00, 0x7A,
        0x00, 0x59, 0x00, 0x4A, 0x80, 0x5A, 0x40, 0x5A, 0x40, 0x69, 0xC0, 0x8A, 0x00, 0x69, 0x00,
        0x8B, 0x00, 0x68, 0x00, 0x7B, 0x00, 0x7A, 0x00, 0x6B, 0x00, 0x58, 0x40,
    ])
    .unwrap();
    let expected = [
        (pt('H', 8), 0u32, 0usize),
        (pt('H', 9), DOWN, 2),
        (pt('F', 9), 0, 4),
        (pt('I', 11), 0, 6),
        (pt('H', 10), 0, 8),
        (pt('I', 8), 0, 10),
        (pt('I', 9), 0, 12),
        (pt('J', 8), 0, 14),
        (pt('I', 10), 0, 16),
        (pt('J', 11), DOWN, 18),
        (pt('J', 10), RIGHT, 20),
        (pt('J', 10), RIGHT, 22),
        (pt('I', 9), DOWN | RIGHT, 24),
        (pt('J', 7), 0, 26),
        (pt('I', 9), 0, 28),
        (pt('K', 7), 0, 30),
        (pt('H', 9), 0, 32),
        (pt('K', 8), 0, 34),
        (pt('J', 8), 0, 36),
        (pt('K', 9), 0, 38),
        (pt('H', 10), RIGHT, 40),
    ];
    let expected: Vec<BoardMarker> = expected
        .iter()
        .map(|(point, cmd, idx)| BoardMarker {
            point: *point,
            command: Command(*cmd),
            index_in_file: Some(*idx),
            ..BoardMarker::null()
        })
        .collect();
    assert_eq!(basic, expected, "got {:#?}", basic);
}

#[test]
fn comment() {
    assert_eq!(
        parse_v30(&[
            0x78, 0x08, 0x08, 0x54, 0x68, 0x69, 0x73, 0x20, 0x63, 0x6F, 0x6D, 0x6D, 0x65, 0x6E,
            0x74, 0x20, 0x6F, 0x6E, 0x20, 0x37, 0x38, 0x00, 0x87, 0x48, 0x08, 0x49, 0x6D, 0x20,
            0x66, 0x72, 0x6F, 0x6D, 0x20, 0x38, 0x37, 0x00, 0x0A,
        ])
        .unwrap(),
        [
            BoardMarker {
                point: Point::from_byte(0x78).unwrap(),
                color: Stone::Empty,
                oneline_comment: None,
                multiline_comment: Some("This comment on 78".to_owned()),
                board_text: None,
                command: Command(COMMENT),
                index_in_file: Some(0),
            },
            BoardMarker {
                point: Point::from_byte(0x87).unwrap(),
                color: Stone::Empty,
                oneline_comment: None,
                multiline_comment: Some("Im from 87".to_owned()),
                board_text: None,
                command: Command(RIGHT | COMMENT),
                index_in_file: Some(22),
            }
        ]
    );
}

#[test]
fn simple() {
    assert_eq!(
        parse_v30(&[0x78, 0x00, 0x79, 0x40]).unwrap(),
        [
            BoardMarker {
                point: pt('H', 8),
                command: Command(0),
                index_in_file: Some(0),
                ..BoardMarker::null()
            },
            BoardMarker {
                point: pt('I', 8),
                command: Command(RIGHT),
                index_in_file: Some(2),
                ..BoardMarker::null()
            }
        ]
    );
}

#[test]
fn board_marker() {
    let board = parse_v30(&[
        0x78, 0x00, 0x68, 0xC3, 0x00, 0x01, 0x44, 0x00, 0x77, 0xC3, 0x00, 0x01, 0x42, 0x00, 0x79,
        0xC3, 0x00, 0x01, 0x41, 0x00, 0x88, 0x43, 0x00, 0x01, 0x43, 0x00,
    ])
    .unwrap();
    assert_eq!(
        board,
        [
            BoardMarker {
                point: pt('H', 8),
                command: Command(0),
                index_in_file: Some(0),
                ..BoardMarker::null()
            },
            BoardMarker {
                point: pt('H', 9),
                board_text: Some("D".to_owned()),
                command: Command(BOARDTEXT | DOWN | RIGHT | NOMOVE | EXTENSION),
                index_in_file: Some(2),
                ..BoardMarker::null()
            },
            BoardMarker {
                point: pt('G', 8),
                board_text: Some("B".to_owned()),
                command: Command(BOARDTEXT | DOWN | RIGHT | NOMOVE | EXTENSION),
                index_in_file: Some(8),
                ..BoardMarker::null()
            },
            BoardMarker {
                point: pt('I', 8),
                board_text: Some("A".to_owned()),
                command: Command(BOARDTEXT | DOWN | RIGHT | NOMOVE | EXTENSION),
                index_in_file: Some(14),
                ..BoardMarker::null()
            },
            BoardMarker {
                point: pt('H', 7),
                board_text: Some("C".to_owned()),
                command: Command(BOARDTEXT | RIGHT | NOMOVE | EXTENSION),
                index_in_file: Some(20),
                ..BoardMarker::null()
            }
        ],
        "got {:#?}",
        board
    );
}

#[test]
fn validate_lib_accepts_v30_and_v34() {
    let mut header = vec![0xff, 0x52, 0x65, 0x6e, 0x4c, 0x69, 0x62, 0xff, 3, 0];
    header.extend([0xff; 10]);
    assert_eq!(validate_lib(&header).unwrap(), Version::V30);
    header[9] = 4;
    assert_eq!(validate_lib(&header).unwrap(), Version::V34);
}

#[test]
fn validate_lib_rejects_bad_magic() {
    let header = [0u8; 20];
    assert_eq!(validate_lib(&header).unwrap_err(), ParseError::UnsupportedFormat);
    assert_eq!(validate_lib(&[0xff, 0x52]).unwrap_err(), ParseError::UnsupportedFormat);
}

#[test]
fn validate_lib_rejects_unknown_version() {
    let mut header = vec![0xff, 0x52, 0x65, 0x6e, 0x4c, 0x69, 0x62, 0xff, 3, 5];
    header.extend([0xff; 10]);
    assert_eq!(
        validate_lib(&header).unwrap_err(),
        ParseError::UnsupportedVersion { major: 3, minor: 5 }
    );
}

#[test]
fn byte_to_point_decodes_nibbles() {
    assert_eq!(byte_to_point(&0x78).unwrap(), Point::new(7, 7));
    assert_eq!(byte_to_point(&0x01).unwrap(), Point::new(0, 0));
    assert_eq!(byte_to_point(&0xf1).unwrap(), Point::new(0, 15));
    assert_eq!(byte_to_point(&0x00).unwrap_err(), ParseError::InvalidCoordinate);
}

#[test]
fn parse_lib_whole_file() {
    let mut file = vec![0xff, 0x52, 0x65, 0x6e, 0x4c, 0x69, 0x62, 0xff, 3, 0];
    file.extend([0xff; 10]);
    file.extend([0x78, 0x00, 0x79, 0x40]);
    let markers = parse_lib(file).unwrap();
    assert_eq!(markers.len(), 2);
    assert_eq!(markers[0].point, pt('H', 8));
    assert_eq!(markers[1].point, pt('I', 8));
    assert_eq!(markers[1].command, Command(RIGHT));
}

#[test]
fn parse_lib_rejects_short_file() {
    assert_eq!(parse_lib(vec![0xff, 0x52]).unwrap_err(), ParseError::UnsupportedFormat);
}

#[test]
fn parse_v3x_truncated_comment() {
    assert_eq!(
        parse_v30(&[0x78, 0x08, 0x41]).unwrap_err(),
        ParseError::TruncatedStream
    );
}

#[test]
fn parse_v3x_empty_text_run() {
    assert!(matches!(
        parse_v30(&[0x78, 0x08, 0x00, 0x00]).unwrap_err(),
        ParseError::Other(_)
    ));
}

#[test]
fn read_text_gathers_pairs() {
    let mut buf = Vec::new();
    let n = read_text(&[0x41, 0x42, 0x43, 0x00], 0, &mut buf).unwrap();
    assert_eq!(n, 4);
    assert_eq!(buf, vec![0x41, 0x42, 0x43, 0x00]);

    let mut buf = Vec::new();
    let n = read_text(&[0x41, 0x42, 0x00, 0x00], 0, &mut buf).unwrap();
    assert_eq!(n, 4);
    assert_eq!(buf, vec![0x41, 0x42, 0x00]);
}

#[test]
fn read_text_truncated() {
    let mut buf = Vec::new();
    assert_eq!(
        read_text(&[0x41, 0x42, 0x43], 0, &mut buf).unwrap_err(),
        ParseError::TruncatedStream
    );
}

#[test]
fn parse_comments_split() {
    let mut buf = Vec::new();
    let ((one, multi), n) =
        parse_comments(&[0x41, 0x42, 0x08, 0x43, 0x44, 0x00], 0, &mut buf).unwrap();
    assert_eq!(n, 6);
    assert_eq!(one, Some("AB".to_owned()));
    assert_eq!(multi, Some("CD".to_owned()));

    let mut buf = Vec::new();
    let ((one, multi), n) = parse_comments(&[0x41, 0x42, 0x00, 0x00], 0, &mut buf).unwrap();
    assert_eq!(n, 4);
    assert_eq!(one, Some("AB".to_owned()));
    assert_eq!(multi, None);
}

#[test]
fn parse_old_comments_remaps_punctuation() {
    let mut buf = Vec::new();
    let ((one, multi), n) = parse_old_comments(&[0x7b, 0x00], 0, &mut buf).unwrap();
    assert_eq!(n, 2);
    // 0x7b remaps to the non-UTF-8 byte 0xe4, which decodes lossily.
    assert_eq!(one, Some("\u{fffd}".to_owned()));
    assert_eq!(multi, None);
}

#[test]
fn parse_board_text_rejects_odd_terminator() {
    let mut buf = Vec::new();
    assert_eq!(
        parse_board_text(&[0x00, 0x42], 0, &mut buf).unwrap_err(),
        renju::ParseBoardTextError::Malformed
    );
}

#[test]
fn parse_comments_rejects_split_on_terminator() {
    let mut buf = Vec::new();
    assert_eq!(
        parse_comments(&[0x00, 0x08], 0, &mut buf).unwrap_err(),
        renju::ParseCommentError::Malformed
    );
}

#[test]
fn parse_board_text_drops_terminator() {
    let mut buf = Vec::new();
    let (text, n) = parse_board_text(&[0x44, 0x00], 0, &mut buf).unwrap();
    assert_eq!(n, 2);
    assert_eq!(text, "D".to_owned());
}
