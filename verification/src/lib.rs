//! A verified Renju board evaluator and game-library file reader.
//!
//! The evaluator classifies every threat a single placement could create on
//! a five-in-a-row board (fives, the four subtypes, the three subtypes) and
//! computes the points forbidden for Black under the Renju rules: overline,
//! double-four, and the recursively resolved double-three. Its executable
//! entry point, `BoardArr::renju_conditions`, is proved to return exactly
//! the value of the specification-level evaluation `spec_renju`, and the
//! rule-level laws (White is never restricted, overline dominance, the
//! double-four ban, idempotence, line round-trips and coverage) are proved
//! about that specification in `laws` and `lines`.
//!
//! The file reader decodes the flat byte format of a move-library file: a
//! fixed header, two-byte records widened by an extension flag, and
//! null-terminated, two-byte-aligned text blocks. Every reader function is
//! proved against a byte-level model of the format; only lossy UTF-8
//! decoding of text blocks is delegated to the standard library.

use vstd::prelude::*;

mod board;
mod conditions;
mod evaluator;
mod laws;
mod lines;
mod parser;
mod renlib;

pub use board::BoardArr;
pub use board::Point;
pub use board::Stone;
pub use conditions::RenjuCondition;
pub use conditions::RenjuConditions;
pub use evaluator::CellClass;
pub use laws::lemma_double_four_ban;
pub use laws::lemma_eval_idempotent;
pub use laws::lemma_five_place_not_three;
pub use laws::lemma_overline_dominance;
pub use laws::lemma_white_no_forbidden;
pub use lines::Direction;
pub use lines::lemma_all_lines_cover_once;
pub use lines::lemma_family_covers_once;
pub use lines::lemma_line_round_trip;
pub use parser::BoardMarker;
pub use parser::parse_board_text;
pub use parser::parse_comments;
pub use parser::parse_old_comments;
pub use parser::parse_v3x;
pub use parser::ParseBoardTextError;
pub use parser::ParseCommentError;
pub use parser::read_text;
pub use renlib::Command;
pub use renlib::CommandVariant;
pub use renlib::ParseError;
pub use renlib::Version;
pub use renlib::byte_to_point;
pub use renlib::parse_lib;
pub use renlib::validate_lib;

verus! {

} // verus!
