use vstd::prelude::*;

use crate::board::Point;
use crate::parser::BoardMarker;
use crate::parser::fault_error_ok;
use crate::parser::markers_match;
use crate::parser::spec_parse_v3x;
use vstd::slice::slice_subrange;

verus! {

/// The closed error taxonomy of the file reader. The evaluator itself never
/// fails; every recoverable fault lives here.
#[derive(Debug, Clone, PartialEq)]
pub enum ParseError {
    /// The stream does not begin with the expected library header.
    UnsupportedFormat,
    /// The header is well formed but names a version this reader does not know.
    UnsupportedVersion { major: u8, minor: u8 },
    /// The stream ended in the middle of a record or text block.
    TruncatedStream,
    /// A coordinate byte that cannot denote a board position.
    InvalidCoordinate,
    /// A malformed text block or similar residue.
    Other(String),
}

/// Library format versions this reader accepts.
#[derive(Debug, Clone, Copy, PartialEq, Eq, Structural)]
pub enum Version {
    V30,
    V34,
}

/// The flag bits a record's command byte can carry.
#[derive(Debug, Clone, Copy, PartialEq, Eq, Structural)]
pub enum CommandVariant {
    Down,
    Right,
    OldComment,
    Mark,
    Comment,
    Start,
    NoMove,
    Extension,
    Mask,
}

impl CommandVariant {
    /// The bit (or, for `Mask`, bit set) that encodes this flag.
    pub open spec fn spec_to_u8(&self) -> u8 {
        match *self {
            CommandVariant::Down => 0x80,
            CommandVariant::Right => 0x40,
            CommandVariant::OldComment => 0x20,
            CommandVariant::Mark => 0x10,
            CommandVariant::Comment => 0x08,
            CommandVariant::Start => 0x04,
            CommandVariant::NoMove => 0x02,
            CommandVariant::Extension => 0x01,
            CommandVariant::Mask => 63,
        }
    }

    pub fn to_u8(&self) -> (r: u8)
        ensures
            r == self.spec_to_u8(),
    {
        match *self {
            CommandVariant::Down => 0x80,
            CommandVariant::Right => 0x40,
            CommandVariant::OldComment => 0x20,
            CommandVariant::Mark => 0x10,
            CommandVariant::Comment => 0x08,
            CommandVariant::Start => 0x04,
            CommandVariant::NoMove => 0x02,
            CommandVariant::Extension => 0x01,
            CommandVariant::Mask => 63,
        }
    }
}

/// A record's command word. The low byte is the flag byte as stored; an
/// extension record widens it with two more bytes above.
#[derive(Debug, Clone, Copy, PartialEq, Eq, Structural)]
pub struct Command(pub u32);

/// The extra flag bit, beyond the `CommandVariant` byte, that marks a record
/// carrying board text; it only appears through the extension bytes.
pub open spec fn board_text_bit() -> u32 {
    0x100
}

/// The nine flags, in the order `get_all` reports them.
pub open spec fn all_variants() -> Seq<CommandVariant> {
    seq![
        CommandVariant::Down,
        CommandVariant::Right,
        CommandVariant::OldComment,
        CommandVariant::Mark,
        CommandVariant::Comment,
        CommandVariant::Start,
        CommandVariant::NoMove,
        CommandVariant::Extension,
        CommandVariant::Mask,
    ]
}

pub open spec fn flag_pred(c: Command) -> spec_fn(CommandVariant) -> bool {
    |v: CommandVariant| c.spec_flag(v)
}

fn all_variants_vec() -> (r: Vec<CommandVariant>)
    ensures
        r@ == all_variants(),
{
    let mut r: Vec<CommandVariant> = Vec::new();
    r.push(CommandVariant::Down);
    r.push(CommandVariant::Right);
    r.push(CommandVariant::OldComment);
    r.push(CommandVariant::Mark);
    r.push(CommandVariant::Comment);
    r.push(CommandVariant::Start);
    r.push(CommandVariant::NoMove);
    r.push(CommandVariant::Extension);
    r.push(CommandVariant::Mask);
    proof {
        assert(r@ =~= all_variants());
    }
    r
}

impl Command {
    /// Whether every bit of `command`'s encoding is set in this word.
    pub open spec fn spec_flag(&self, command: CommandVariant) -> bool {
        self.0 & (command.spec_to_u8() as u32) == (command.spec_to_u8() as u32)
    }

    fn flag(&self, command: &CommandVariant) -> (r: bool)
        ensures
            r == self.spec_flag(*command),
    {
        let check = command.to_u8() as u32;
        self.0 & check == check
    }

    /// Every flag this command word carries, in declaration order.
    pub open spec fn spec_get_all(&self) -> Seq<CommandVariant> {
        all_variants().filter(flag_pred(*self))
    }

    pub fn get_all(&self) -> (r: Vec<CommandVariant>)
        ensures
            r@ == self.spec_get_all(),
    {
        let variants = all_variants_vec();
        let mut r: Vec<CommandVariant> = Vec::new();
        let mut i: usize = 0;
        while i < variants.len()
            invariant
                i <= variants@.len(),
                variants@ == all_variants(),
                r@ == all_variants().take(i as int).filter(flag_pred(*self)),
            decreases variants@.len() - i,
        {
            proof {
                reveal_with_fuel(Seq::<_>::filter, 2);
                let pre = all_variants().take(i as int);
                let post = all_variants().take(i + 1);
                assert(post.drop_last() =~= pre);
                assert(post.last() == all_variants()[i as int]);
                assert(post.filter(flag_pred(*self)) == if flag_pred(*self)(post.last()) {
                    pre.filter(flag_pred(*self)).push(post.last())
                } else {
                    pre.filter(flag_pred(*self))
                });
            }
            if self.flag(&variants[i]) {
                r.push(variants[i]);
            }
            i = i + 1;
        }
        proof {
            assert(all_variants().take(all_variants().len() as int) =~= all_variants());
        }
        r
    }

    pub fn is_down(&self) -> (r: bool)
        ensures
            r == self.spec_flag(CommandVariant::Down),
    {
        self.flag(&CommandVariant::Down)
    }

    pub fn is_right(&self) -> (r: bool)
        ensures
            r == self.spec_flag(CommandVariant::Right),
    {
        self.flag(&CommandVariant::Right)
    }

    pub fn is_old_comment(&self) -> (r: bool)
        ensures
            r == self.spec_flag(CommandVariant::OldComment),
    {
        self.flag(&CommandVariant::OldComment)
    }

    pub fn is_mark(&self) -> (r: bool)
        ensures
            r == self.spec_flag(CommandVariant::Mark),
    {
        self.flag(&CommandVariant::Mark)
    }

    pub fn is_comment(&self) -> (r: bool)
        ensures
            r == self.spec_flag(CommandVariant::Comment),
    {
        self.flag(&CommandVariant::Comment)
    }

    pub fn is_start(&self) -> (r: bool)
        ensures
            r == self.spec_flag(CommandVariant::Start),
    {
        self.flag(&CommandVariant::Start)
    }

    pub fn is_no_move(&self) -> (r: bool)
        ensures
            r == self.spec_flag(CommandVariant::NoMove),
    {
        self.flag(&CommandVariant::NoMove)
    }

    pub fn is_extension(&self) -> (r: bool)
        ensures
            r == self.spec_flag(CommandVariant::Extension),
    {
        self.flag(&CommandVariant::Extension)
    }

    pub fn is_mask(&self) -> (r: bool)
        ensures
            r == self.spec_flag(CommandVariant::Mask),
    {
        self.flag(&CommandVariant::Mask)
    }

    /// Whether the record carries a board-text block (extension flag space).
    pub fn is_board_text(&self) -> (r: bool)
        ensures
            r == (self.0 & board_text_bit() == board_text_bit()),
    {
        self.0 & 0x100 == 0x100
    }
}

/// The point a nibble-packed coordinate byte denotes: the low nibble of
/// `byte - 1` is the column, the high nibble the row. Byte zero is reserved
/// for "no move" and is not a coordinate.
pub open spec fn spec_byte_point(byte: u8) -> Point {
    Point { x: (((byte - 1) as u8) % 16) as u32, y: (byte / 16) as u32, is_null: false }
}

pub fn byte_to_point(byte: &u8) -> (r: Result<Point, ParseError>)
    ensures
        *byte == 0 ==> (r matches Err(e) && e == ParseError::InvalidCoordinate),
        *byte != 0 ==> (r matches Ok(p) && p == spec_byte_point(*byte)),
{
    let b = *byte;
    if b == 0 {
        Err(ParseError::InvalidCoordinate)
    } else {
        proof {
            assert((b - 1) as u8 & 0x0f == (b - 1) as u8 % 16 && b >> 4 == b / 16)
                by (bit_vector);
        }
        Ok(Point::new(((b - 1) & 0x0f) as u32, (b >> 4) as u32))
    }
}

impl Point {
    /// The point encoded by a coordinate byte; errors on the reserved zero.
    pub fn from_byte(byte: u8) -> (r: Result<Point, ParseError>)
        ensures
            byte == 0 ==> (r matches Err(e) && e == ParseError::InvalidCoordinate),
            byte != 0 ==> (r matches Ok(p) && p == spec_byte_point(byte)),
    {
        byte_to_point(&byte)
    }
}

/// The 20-byte header an accepted library file begins with: magic bytes, a
/// major and minor version, and ten `0xff` filler bytes.
pub open spec fn spec_header_magic_ok(header: Seq<u8>) -> bool {
    &&& header.len() == 20
    &&& header[0] == 0xff
    &&& header[1] == 0x52
    &&& header[2] == 0x65
    &&& header[3] == 0x6e
    &&& header[4] == 0x4c
    &&& header[5] == 0x69
    &&& header[6] == 0x62
    &&& header[7] == 0xff
    &&& forall|i: int| 10 <= i < 20 ==> header[i] == 0xff
}

pub fn validate_lib(header: &[u8]) -> (r: Result<Version, ParseError>)
    ensures
        !spec_header_magic_ok(header@) ==> (r matches Err(e) && e == ParseError::UnsupportedFormat),
        spec_header_magic_ok(header@) && header@[8] == 3 && header@[9] == 0 ==> (r matches Ok(v)
            && v == Version::V30),
        spec_header_magic_ok(header@) && header@[8] == 3 && header@[9] == 4 ==> (r matches Ok(v)
            && v == Version::V34),
        spec_header_magic_ok(header@) && !(header@[8] == 3 && (header@[9] == 0 || header@[9] == 4))
            ==> (r matches Err(e) && e == (ParseError::UnsupportedVersion {
            major: header@[8],
            minor: header@[9],
        })),
{
    if header.len() != 20 {
        return Err(ParseError::UnsupportedFormat);
    }
    let magic_ok = header[0] == 0xff && header[1] == 0x52 && header[2] == 0x65 && header[3] == 0x6e
        && header[4] == 0x4c && header[5] == 0x69 && header[6] == 0x62 && header[7] == 0xff;
    if !magic_ok {
        return Err(ParseError::UnsupportedFormat);
    }
    let mut i: usize = 10;
    while i < 20
        invariant
            10 <= i <= 20,
            header@.len() == 20,
            forall|j: int| 10 <= j < i ==> header@[j] == 0xff,
        decreases 20 - i,
    {
        if header[i] != 0xff {
            return Err(ParseError::UnsupportedFormat);
        }
        i = i + 1;
    }
    let majv = header[8];
    let minv = header[9];
    if majv == 3 && minv == 0 {
        Ok(Version::V30)
    } else if majv == 3 && minv == 4 {
        Ok(Version::V34)
    } else {
        Err(ParseError::UnsupportedVersion { major: majv, minor: minv })
    }
}

/// Decode a whole library file: validate the 20-byte header, then parse the
/// record stream after it into the flat record list.
pub fn parse_lib(file_u8: Vec<u8>) -> (r: Result<Vec<BoardMarker>, ParseError>)
    ensures
        file_u8@.len() < 20 ==> (r matches Err(e) && e == ParseError::UnsupportedFormat),
        file_u8@.len() >= 20 && !spec_header_magic_ok(file_u8@.subrange(0, 20)) ==> (r matches
            Err(e) && e == ParseError::UnsupportedFormat),
        file_u8@.len() >= 20 && spec_header_magic_ok(file_u8@.subrange(0, 20)) && !(file_u8@[8]
            == 3 && (file_u8@[9] == 0 || file_u8@[9] == 4)) ==> (r matches Err(e) && e == (
        ParseError::UnsupportedVersion { major: file_u8@[8], minor: file_u8@[9] })),
        file_u8@.len() >= 20 && spec_header_magic_ok(file_u8@.subrange(0, 20)) && file_u8@[8] == 3
            && (file_u8@[9] == 0 || file_u8@[9] == 4) ==> ({
            let body = file_u8@.subrange(20, file_u8@.len() as int);
            &&& spec_parse_v3x(body, 0, 0) matches Ok(ms) ==> (r matches Ok(v) && markers_match(
                v@,
                ms,
            ))
            &&& spec_parse_v3x(body, 0, 0) matches Err(f) ==> (r matches Err(e) && fault_error_ok(
                f,
                e,
            ))
        }),
{
    if file_u8.len() < 20 {
        return Err(ParseError::UnsupportedFormat);
    }
    let header = slice_subrange(file_u8.as_slice(), 0, 20);
    let version = match validate_lib(header) {
        Ok(v) => v,
        Err(e) => {
            return Err(e);
        },
    };
    let body = slice_subrange(file_u8.as_slice(), 20, file_u8.len());
    parse_v3x_dispatch(body, version)
}

fn parse_v3x_dispatch(body: &[u8], version: Version) -> (r: Result<Vec<BoardMarker>, ParseError>)
    ensures
        spec_parse_v3x(body@, 0, 0) matches Ok(ms) ==> (r matches Ok(v) && markers_match(v@, ms)),
        spec_parse_v3x(body@, 0, 0) matches Err(f) ==> (r matches Err(e) && fault_error_ok(f, e)),
{
    let n = body.len();
    proof {
        assert(body@.len() == n);
    }
    match version {
        Version::V30 => crate::parser::parse_v3x(body, Version::V30, 0),
        Version::V34 => crate::parser::parse_v3x(body, Version::V34, 0),
    }
}

} // verus!

