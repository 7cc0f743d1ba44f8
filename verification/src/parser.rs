use vstd::prelude::*;

use crate::board::Point;
use crate::board::Stone;
use crate::renlib::Command;
use crate::renlib::ParseError;
use crate::renlib::Version;
use crate::renlib::spec_byte_point;
use vstd::slice::slice_subrange;

verus! {

/// One decoded record of a library file: a board position together with the
/// record's flags and any text blocks attached to it.
#[derive(Debug, Clone, PartialEq)]
pub struct BoardMarker {
    pub point: Point,
    pub color: Stone,
    pub oneline_comment: Option<String>,
    pub multiline_comment: Option<String>,
    pub board_text: Option<String>,
    pub command: Command,
    pub index_in_file: Option<usize>,
}

impl BoardMarker {
    pub fn new(point: Point, color: Stone) -> (r: BoardMarker)
        ensures
            r == (BoardMarker {
                point,
                color,
                oneline_comment: None::<String>,
                multiline_comment: None::<String>,
                board_text: None::<String>,
                command: Command(0),
                index_in_file: None::<usize>,
            }),
    {
        BoardMarker {
            point,
            color,
            oneline_comment: None,
            multiline_comment: None,
            board_text: None,
            command: Command(0),
            index_in_file: None,
        }
    }

    /// A marker with every field at its absent value.
    pub fn null() -> (r: BoardMarker)
        ensures
            r == (BoardMarker {
                point: Point { x: 0, y: 0, is_null: true },
                color: Stone::Empty,
                oneline_comment: None::<String>,
                multiline_comment: None::<String>,
                board_text: None::<String>,
                command: Command(0),
                index_in_file: None::<usize>,
            }),
    {
        BoardMarker {
            point: Point::null(),
            color: Stone::Empty,
            oneline_comment: None,
            multiline_comment: None,
            board_text: None,
            command: Command(0),
            index_in_file: None,
        }
    }
}

/// The character sequence that lossy UTF-8 decoding yields for a byte
/// sequence; a function of the bytes alone.
pub uninterp spec fn utf8_lossy(bytes: Seq<u8>) -> Seq<char>;

/// Relies on String::from_utf8_lossy: the decoding depends on the bytes
/// alone; an empty input gives an empty string.
#[verifier::external_body]
fn utf8_lossy_string(bytes: &[u8]) -> (r: String)
    ensures
        r@ == utf8_lossy(bytes@),
        bytes@.len() == 0 ==> r@.len() == 0,
{
    String::from_utf8_lossy(bytes).to_string()
}

/// What can go wrong while decoding a record stream, at the level contracts
/// speak of: the stream ended early, a text run was empty, or a text run was
/// shaped in a way the format does not allow.
#[derive(Debug, Clone, Copy, PartialEq, Eq, Structural)]
pub enum TextFault {
    Truncated,
    Empty,
    Malformed,
}

/// Whether a concrete reader error is the one a given fault calls for.
pub open spec fn fault_error_ok(f: TextFault, e: ParseError) -> bool {
    match f {
        TextFault::Truncated => e == ParseError::TruncatedStream,
        TextFault::Empty => e matches ParseError::Other(_),
        TextFault::Malformed => e matches ParseError::Other(_),
    }
}

/// The text run starting at `pos`: bytes are taken two at a time, a `[0, 0]`
/// pair contributes a single zero byte, and the run ends with the first pair
/// that contains a zero. Yields the bytes consumed and the text gathered.
pub open spec fn spec_read_text(bytes: Seq<u8>, pos: nat) -> Result<(nat, Seq<u8>), TextFault>
    decreases bytes.len() - pos,
{
    if pos + 2 > bytes.len() {
        Err(TextFault::Truncated)
    } else {
        let a = bytes[pos as int];
        let b = bytes[pos + 1int];
        let chunk = if a == 0 && b == 0 {
            seq![0u8]
        } else {
            seq![a, b]
        };
        if a == 0 || b == 0 {
            Ok((2, chunk))
        } else {
            match spec_read_text(bytes, (pos + 2) as nat) {
                Ok((n, rest)) => Ok(((n + 2) as nat, chunk + rest)),
                Err(f) => Err(f),
            }
        }
    }
}

/// A successful text run consumes at least two bytes, stays within the
/// stream, gathers at least one byte, and can only fail by truncation.
pub proof fn lemma_read_text_bounds(bytes: Seq<u8>, pos: nat)
    ensures
        spec_read_text(bytes, pos) matches Ok(nt) ==> 2 <= nt.0 && pos + nt.0 <= bytes.len()
            && 1 <= nt.1.len(),
        spec_read_text(bytes, pos) matches Err(f) ==> f == TextFault::Truncated,
    decreases bytes.len() - pos,
{
    if pos + 2 <= bytes.len() {
        let a = bytes[pos as int];
        let b = bytes[pos + 1int];
        if !(a == 0 || b == 0) {
            lemma_read_text_bounds(bytes, (pos + 2) as nat);
        }
    }
}

/// Read one text run into `buf`, returning how many stream bytes it took.
/// The run must gather at least two bytes counting what `buf` already held;
/// a lone zero run is rejected rather than reported as text.
pub fn read_text(bytes: &[u8], pos: usize, buf: &mut Vec<u8>) -> (r: Result<usize, ParseError>)
    ensures
        spec_read_text(bytes@, pos as nat) matches Err(f) ==> (r matches Err(e) && fault_error_ok(
            f,
            e,
        )),
        spec_read_text(bytes@, pos as nat) matches Ok(nt) ==> ({
            &&& old(buf)@.len() + nt.1.len() > 1 ==> (r matches Ok(n) && n == nt.0
                && final(buf)@ == old(buf)@ + nt.1)
            &&& old(buf)@.len() + nt.1.len() <= 1 ==> (r matches Err(e) && e matches
                ParseError::Other(_))
        }),
{
    let ghost buf0 = buf@;
    let mut cur: usize = pos;
    loop
        invariant
            pos <= cur,
            (cur - pos) % 2 == 0,
            buf0 == old(buf)@,
            buf@ == buf0 + acc_text(bytes@, pos as nat, cur as nat),
            spec_read_text_unfinished(bytes@, pos as nat, cur as nat),
        decreases bytes@.len() - cur,
    {
        if cur >= bytes.len() || bytes.len() - cur < 2 {
            proof {
                assert(spec_read_text(bytes@, cur as nat) == Err::<(nat, Seq<u8>), TextFault>(
                    TextFault::Truncated,
                ));
            }
            return Err(ParseError::TruncatedStream);
        }
        let a = bytes[cur];
        let b = bytes[cur + 1];
        if a == 0 || b == 0 {
            let ghost chunk: Seq<u8> = if a == 0 && b == 0 {
                seq![0u8]
            } else {
                seq![a, b]
            };
            if a == 0 && b == 0 {
                buf.push(0);
            } else {
                buf.push(a);
                buf.push(b);
            }
            proof {
                assert(spec_read_text(bytes@, cur as nat) == Ok::<(nat, Seq<u8>), TextFault>(
                    (2, chunk),
                ));
                let whole = acc_text(bytes@, pos as nat, cur as nat) + chunk;
                assert(buf@ =~= buf0 + whole);
            }
            if buf.len() <= 1 {
                return Err(ParseError::Other("empty text run".to_string()));
            }
            return Ok((cur + 2) - pos);
        } else {
            buf.push(a);
            buf.push(b);
            proof {
                lemma_acc_text_step(bytes@, pos as nat, cur as nat);
                lemma_unfinished_step(bytes@, pos as nat, cur as nat);
                assert(buf@ =~= buf0 + acc_text(bytes@, pos as nat, (cur + 2) as nat));
            }
            cur = cur + 2;
        }
    }
}

/// The text gathered from `pos` up to, and not including, the pair at `cur`,
/// assuming no pair before `cur` ended the run.
pub open spec fn acc_text(bytes: Seq<u8>, pos: nat, cur: nat) -> Seq<u8>
    decreases cur - pos,
{
    if cur < pos + 2 || pos + 2 > bytes.len() {
        Seq::empty()
    } else {
        seq![bytes[pos as int], bytes[pos + 1int]] + acc_text(bytes, (pos + 2) as nat, cur)
    }
}

/// The run from `pos` has not ended before `cur`: its outcome is what
/// remains from `cur`, with the text gathered so far in front.
pub open spec fn spec_read_text_unfinished(bytes: Seq<u8>, pos: nat, cur: nat) -> bool {
    spec_read_text(bytes, pos) == match spec_read_text(bytes, cur) {
        Ok((n, t)) => Ok::<(nat, Seq<u8>), TextFault>(
            (((cur - pos) + n) as nat, acc_text(bytes, pos, cur) + t),
        ),
        Err(f) => Err::<(nat, Seq<u8>), TextFault>(f),
    }
}

proof fn lemma_acc_text_step(bytes: Seq<u8>, pos: nat, cur: nat)
    requires
        pos <= cur,
        (cur - pos) % 2 == 0,
        cur + 2 <= bytes.len(),
    ensures
        acc_text(bytes, pos, (cur + 2) as nat) == acc_text(bytes, pos, cur) + seq![
            bytes[cur as int],
            bytes[cur + 1int],
        ],
    decreases cur - pos,
{
    if cur <= pos {
        assert(acc_text(bytes, pos, cur) == Seq::<u8>::empty());
        assert(acc_text(bytes, (pos + 2) as nat, (cur + 2) as nat) == Seq::<u8>::empty());
        assert(acc_text(bytes, pos, (cur + 2) as nat) =~= acc_text(bytes, pos, cur) + seq![
            bytes[cur as int],
            bytes[cur + 1int],
        ]);
    } else {
        lemma_acc_text_step(bytes, (pos + 2) as nat, cur);
        assert(acc_text(bytes, pos, (cur + 2) as nat) =~= acc_text(bytes, pos, cur) + seq![
            bytes[cur as int],
            bytes[cur + 1int],
        ]);
    }
}

proof fn lemma_unfinished_step(bytes: Seq<u8>, pos: nat, cur: nat)
    requires
        pos <= cur,
        (cur - pos) % 2 == 0,
        cur + 2 <= bytes.len(),
        bytes[cur as int] != 0,
        bytes[cur + 1int] != 0,
        spec_read_text_unfinished(bytes, pos, cur),
    ensures
        spec_read_text_unfinished(bytes, pos, (cur + 2) as nat),
{
    lemma_acc_text_step(bytes, pos, cur);
    let acc = acc_text(bytes, pos, cur);
    let chunk = seq![bytes[cur as int], bytes[cur + 1int]];
    match spec_read_text(bytes, (cur + 2) as nat) {
        Ok((n, t)) => {
            assert(spec_read_text(bytes, cur) == Ok::<(nat, Seq<u8>), TextFault>(
                ((n + 2) as nat, chunk + t),
            ));
            assert(acc + (chunk + t) =~= (acc + chunk) + t);
        },
        Err(f) => {
            assert(spec_read_text(bytes, cur) == Err::<(nat, Seq<u8>), TextFault>(f));
        },
    }
}

/// Reader faults for a comment block, mirroring the text-run faults.
#[derive(Debug, Clone, Copy, PartialEq, Eq, Structural)]
pub enum ParseCommentError {
    Truncated,
    Malformed,
}

/// Reader faults for a board-text block.
#[derive(Debug, Clone, Copy, PartialEq, Eq, Structural)]
pub enum ParseBoardTextError {
    Truncated,
    Malformed,
}

/// The first position at or after `i` holding the split byte `0x08`.
pub open spec fn spec_find8(t: Seq<u8>, i: nat) -> Option<nat>
    decreases t.len() - i,
{
    if i >= t.len() {
        None
    } else if t[i as int] == 8 {
        Some(i)
    } else {
        spec_find8(t, (i + 1) as nat)
    }
}

/// How a gathered text run splits into a one-line and a multi-line comment:
/// a leading `0x08` gives only a multi-line part, an inner `0x08` splits the
/// two, and no `0x08` gives only a one-line part. The final terminator byte
/// is dropped; a `0x08` sitting on the terminator itself has no room for a
/// multi-line part and is rejected.
pub open spec fn spec_split_comments(t: Seq<u8>) -> Result<
    (Option<Seq<u8>>, Option<Seq<u8>>),
    TextFault,
>
    recommends
        t.len() >= 2,
{
    if t.len() >= 1 && t[0] == 8 {
        Ok((None, Some(t.subrange(1, t.len() - 1))))
    } else {
        match spec_find8(t, 0) {
            Some(p) => if p + 1 < t.len() {
                Ok((Some(t.subrange(0, p as int)), Some(t.subrange(p + 1int, t.len() - 1))))
            } else {
                Err(TextFault::Malformed)
            },
            None => Ok((Some(t.subrange(0, t.len() - 1)), None)),
        }
    }
}

/// A string field carries exactly the lossy decoding of a modelled byte run,
/// and is absent exactly when the model has no run.
pub open spec fn opt_text_matches(s: Option<String>, b: Option<Seq<u8>>) -> bool {
    match b {
        Some(bs) => s matches Some(x) && x@ == utf8_lossy(bs),
        None => s is None,
    }
}

fn find_eight(buf: &Vec<u8>) -> (r: Option<usize>)
    ensures
        match spec_find8(buf@, 0) {
            Some(p) => r matches Some(q) && q == p && q < buf@.len(),
            None => r is None,
        },
{
    let mut i: usize = 0;
    while i < buf.len()
        invariant
            i <= buf@.len(),
            spec_find8(buf@, 0) == spec_find8(buf@, i as nat),
        decreases buf@.len() - i,
    {
        if buf[i] == 8 {
            return Some(i);
        }
        proof {
            assert(spec_find8(buf@, i as nat) == spec_find8(buf@, (i + 1) as nat));
        }
        i = i + 1;
    }
    None
}

/// Read one comment text run at `pos` and split it into the one-line and
/// multi-line parts, also reporting how many stream bytes the run took.
/// Counting any bytes already in `buf`, the run must be longer than one byte.
pub fn parse_comments(bytes: &[u8], pos: usize, buf: &mut Vec<u8>) -> (r: Result<
    ((Option<String>, Option<String>), usize),
    ParseCommentError,
>)
    ensures
        spec_read_text(bytes@, pos as nat) matches Err(f) ==> (r matches Err(e) && e
            == ParseCommentError::Truncated),
        spec_read_text(bytes@, pos as nat) matches Ok(nt) ==> ({
            let t = old(buf)@ + nt.1;
            &&& t.len() <= 1 ==> (r matches Err(e) && e == ParseCommentError::Malformed)
            &&& t.len() > 1 ==> match spec_split_comments(t) {
                Ok(om) => r matches Ok(x) && x.1 == nt.0 && opt_text_matches(x.0.0, om.0)
                    && opt_text_matches(x.0.1, om.1) && final(buf)@ == t,
                Err(f2) => r matches Err(e) && e == ParseCommentError::Malformed,
            }
        }),
{
    proof {
        lemma_read_text_bounds(bytes@, pos as nat);
    }
    let read = match read_text(bytes, pos, buf) {
        Ok(n) => n,
        Err(e) => {
            return Err(
                match e {
                    ParseError::TruncatedStream => ParseCommentError::Truncated,
                    _ => ParseCommentError::Malformed,
                },
            );
        },
    };
    let mut one: Option<String> = None;
    let mut multi: Option<String> = None;
    if buf[0] == 8 {
        multi = Some(utf8_lossy_string(slice_subrange(buf.as_slice(), 1, buf.len() - 1)));
    } else {
        match find_eight(buf) {
            Some(p) => {
                if p < buf.len() - 1 {
                    one = Some(utf8_lossy_string(slice_subrange(buf.as_slice(), 0, p)));
                    multi = Some(
                        utf8_lossy_string(slice_subrange(buf.as_slice(), p + 1, buf.len() - 1)),
                    );
                } else {
                    return Err(ParseCommentError::Malformed);
                }
            },
            None => {
                one = Some(utf8_lossy_string(slice_subrange(buf.as_slice(), 0, buf.len() - 1)));
            },
        }
    }
    Ok(((one, multi), read))
}

/// The byte remapping legacy comments need: a handful of punctuation bytes
/// stand for accented letters of an older code page.
pub open spec fn spec_remap(b: u8) -> u8 {
    if b == 0x7d {
        0xe5
    } else if b == 0x7b {
        0xe4
    } else if b == 0x7c {
        0xf6
    } else if b == 0x5d {
        0xc5
    } else if b == 0x5b {
        0xc4
    } else if b == 0x5c {
        0xd6
    } else {
        b
    }
}

fn remap_byte(b: u8) -> (r: u8)
    ensures
        r == spec_remap(b),
{
    if b == 0x7d {
        0xe5
    } else if b == 0x7b {
        0xe4
    } else if b == 0x7c {
        0xf6
    } else if b == 0x5d {
        0xc5
    } else if b == 0x5b {
        0xc4
    } else if b == 0x5c {
        0xd6
    } else {
        b
    }
}

/// Read one legacy comment text run at `pos`: like `parse_comments`, after
/// remapping each byte through `spec_remap`.
pub fn parse_old_comments(bytes: &[u8], pos: usize, buf: &mut Vec<u8>) -> (r: Result<
    ((Option<String>, Option<String>), usize),
    ParseCommentError,
>)
    ensures
        spec_read_text(bytes@, pos as nat) matches Err(f) ==> (r matches Err(e) && e
            == ParseCommentError::Truncated),
        spec_read_text(bytes@, pos as nat) matches Ok(nt) ==> ({
            let t = (old(buf)@ + nt.1).map_values(|b: u8| spec_remap(b));
            &&& t.len() <= 1 ==> (r matches Err(e) && e == ParseCommentError::Malformed)
            &&& t.len() > 1 ==> match spec_split_comments(t) {
                Ok(om) => r matches Ok(x) && x.1 == nt.0 && opt_text_matches(x.0.0, om.0)
                    && opt_text_matches(x.0.1, om.1),
                Err(f2) => r matches Err(e) && e == ParseCommentError::Malformed,
            }
        }),
{
    proof {
        lemma_read_text_bounds(bytes@, pos as nat);
    }
    let read = match read_text(bytes, pos, buf) {
        Ok(n) => n,
        Err(e) => {
            return Err(
                match e {
                    ParseError::TruncatedStream => ParseCommentError::Truncated,
                    _ => ParseCommentError::Malformed,
                },
            );
        },
    };
    let mut mapped: Vec<u8> = Vec::new();
    let mut i: usize = 0;
    while i < buf.len()
        invariant
            i <= buf@.len(),
            mapped@ == buf@.take(i as int).map_values(|b: u8| spec_remap(b)),
        decreases buf@.len() - i,
    {
        mapped.push(remap_byte(buf[i]));
        proof {
            assert(mapped@ =~= buf@.take(i + 1).map_values(|b: u8| spec_remap(b)));
        }
        i = i + 1;
    }
    proof {
        assert(buf@.take(buf@.len() as int) =~= buf@);
        assert(mapped@ == buf@.map_values(|b: u8| spec_remap(b)));
    }
    let mut one: Option<String> = None;
    let mut multi: Option<String> = None;
    if mapped[0] == 8 {
        multi = Some(utf8_lossy_string(slice_subrange(mapped.as_slice(), 1, mapped.len() - 1)));
    } else {
        match find_eight(&mapped) {
            Some(p) => {
                if p < mapped.len() - 1 {
                    one = Some(utf8_lossy_string(slice_subrange(mapped.as_slice(), 0, p)));
                    multi = Some(
                        utf8_lossy_string(
                            slice_subrange(mapped.as_slice(), p + 1, mapped.len() - 1),
                        ),
                    );
                } else {
                    return Err(ParseCommentError::Malformed);
                }
            },
            None => {
                one = Some(
                    utf8_lossy_string(slice_subrange(mapped.as_slice(), 0, mapped.len() - 1)),
                );
            },
        }
    }
    Ok(((one, multi), read))
}

/// Read one board-text run at `pos`: the run must end on its zero terminator,
/// which is dropped from the text handed back.
pub fn parse_board_text(bytes: &[u8], pos: usize, buf: &mut Vec<u8>) -> (r: Result<
    (String, usize),
    ParseBoardTextError,
>)
    ensures
        spec_read_text(bytes@, pos as nat) matches Err(f) ==> (r matches Err(e) && e
            == ParseBoardTextError::Truncated),
        spec_read_text(bytes@, pos as nat) matches Ok(nt) ==> ({
            let t = old(buf)@ + nt.1;
            &&& t.len() <= 1 ==> (r matches Err(e) && e == ParseBoardTextError::Malformed)
            &&& t.len() > 1 && t.last() != 0 ==> (r matches Err(e) && e
                == ParseBoardTextError::Malformed)
            &&& t.len() > 1 && t.last() == 0 ==> (r matches Ok(x) && x.0@ == utf8_lossy(
                t.subrange(0, t.len() - 1),
            ) && x.1 == nt.0 && final(buf)@ == t)
        }),
{
    proof {
        lemma_read_text_bounds(bytes@, pos as nat);
    }
    let read = match read_text(bytes, pos, buf) {
        Ok(n) => n,
        Err(e) => {
            return Err(
                match e {
                    ParseError::TruncatedStream => ParseBoardTextError::Truncated,
                    _ => ParseBoardTextError::Malformed,
                },
            );
        },
    };
    if buf[buf.len() - 1] != 0 {
        return Err(ParseBoardTextError::Malformed);
    }
    let text = utf8_lossy_string(slice_subrange(buf.as_slice(), 0, buf.len() - 1));
    Ok((text, read))
}

/// One record of the stream at the model level: the decoded point, the raw
/// byte runs of its text blocks, and the widened command word.
pub struct RecordModel {
    pub point: Point,
    pub oneline: Option<Seq<u8>>,
    pub multiline: Option<Seq<u8>>,
    pub board_text: Option<Seq<u8>>,
    pub command: u32,
}

/// A record together with the stream offset it started at.
pub struct MarkerModel {
    pub rec: RecordModel,
    pub index: nat,
}

/// A comment block at `pos`: the text run, rejected if trivial, then split.
/// Yields the two parts and the bytes consumed.
pub open spec fn spec_text_block(bytes: Seq<u8>, pos: nat) -> Result<
    ((Option<Seq<u8>>, Option<Seq<u8>>), nat),
    TextFault,
> {
    match spec_read_text(bytes, pos) {
        Err(f) => Err(f),
        Ok((n, t)) => if t.len() <= 1 {
            Err(TextFault::Empty)
        } else {
            match spec_split_comments(t) {
                Ok(om) => Ok((om, n)),
                Err(f) => Err(f),
            }
        },
    }
}

/// A legacy comment block: as `spec_text_block`, over the remapped bytes.
pub open spec fn spec_old_text_block(bytes: Seq<u8>, pos: nat) -> Result<
    ((Option<Seq<u8>>, Option<Seq<u8>>), nat),
    TextFault,
> {
    match spec_read_text(bytes, pos) {
        Err(f) => Err(f),
        Ok((n, t)) => if t.len() <= 1 {
            Err(TextFault::Empty)
        } else {
            match spec_split_comments(t.map_values(|b: u8| spec_remap(b))) {
                Ok(om) => Ok((om, n)),
                Err(f) => Err(f),
            }
        },
    }
}

/// A board-text block at `pos`: the run must end on its zero terminator.
pub open spec fn spec_board_text_block(bytes: Seq<u8>, pos: nat) -> Result<
    (Seq<u8>, nat),
    TextFault,
> {
    match spec_read_text(bytes, pos) {
        Err(f) => Err(f),
        Ok((n, t)) => if t.len() <= 1 {
            Err(TextFault::Empty)
        } else if t.last() != 0 {
            Err(TextFault::Malformed)
        } else {
            Ok((t.subrange(0, t.len() - 1), n))
        },
    }
}

/// One record starting at `pos` (which must leave at least two bytes): the
/// coordinate byte and flag byte, two widening bytes when the extension flag
/// is set, then a comment or legacy comment block if flagged, then a
/// board-text block if flagged. Yields the record and the position after it.
pub open spec fn spec_record_step(bytes: Seq<u8>, pos: nat) -> Result<(RecordModel, nat), TextFault>
    recommends
        pos + 2 <= bytes.len(),
{
    let b0 = bytes[pos as int];
    let b1 = bytes[pos + 1int];
    let point = if b0 == 0 {
        Point { x: 0, y: 0, is_null: true }
    } else {
        spec_byte_point(b0)
    };
    let cmd0 = b1 as u32;
    let ext = cmd0 & 0x01 == 0x01;
    if ext && pos + 4 > bytes.len() {
        Err(TextFault::Truncated)
    } else {
        let cmd = if ext {
            (cmd0 & 0xff) | (((bytes[pos + 2int] as u32) << 16) | ((bytes[pos + 3int] as u32)
                << 8))
        } else {
            cmd0
        };
        let p1 = if ext {
            (pos + 4) as nat
        } else {
            (pos + 2) as nat
        };
        let cres = if cmd & 0x08 == 0x08 {
            spec_text_block(bytes, p1)
        } else if cmd & 0x20 == 0x20 {
            spec_old_text_block(bytes, p1)
        } else {
            Ok(((None, None), 0))
        };
        match cres {
            Err(f) => Err(f),
            Ok((om, n1)) => {
                let p2 = (p1 + n1) as nat;
                let bres = if cmd & 0x100 == 0x100 {
                    match spec_board_text_block(bytes, p2) {
                        Err(f) => Err(f),
                        Ok((bt, n2)) => Ok((Some(bt), n2)),
                    }
                } else {
                    Ok((None, 0))
                };
                match bres {
                    Err(f) => Err(f),
                    Ok((bt, n2)) => Ok(
                        (
                            RecordModel {
                                point,
                                oneline: om.0,
                                multiline: om.1,
                                board_text: bt,
                                command: cmd,
                            },
                            (p2 + n2) as nat,
                        ),
                    ),
                }
            },
        }
    }
}

/// A successful record step moves forward and stays inside the stream.
pub proof fn lemma_record_step_bounds(bytes: Seq<u8>, pos: nat)
    requires
        pos + 2 <= bytes.len(),
    ensures
        spec_record_step(bytes, pos) matches Ok(rp) ==> pos + 2 <= rp.1 && rp.1 <= bytes.len(),
{
    let b1 = bytes[pos + 1int];
    let cmd0 = b1 as u32;
    let ext = cmd0 & 0x01 == 0x01;
    if !(ext && pos + 4 > bytes.len()) {
        let p1: nat = if ext {
            (pos + 4) as nat
        } else {
            (pos + 2) as nat
        };
        lemma_read_text_bounds(bytes, p1);
        if spec_record_step(bytes, pos) matches Ok(rp) {
            match spec_read_text(bytes, p1) {
                Ok((n1, _t)) => {
                    lemma_read_text_bounds(bytes, (p1 + n1) as nat);
                },
                Err(_) => {},
            }
        }
    }
}

/// The record stream from `pos` on, each record stamped with its offset
/// counted from `idx`. A final odd byte is ignored, as a reader working in
/// two-byte steps never sees it.
pub open spec fn spec_parse_v3x(bytes: Seq<u8>, pos: nat, idx: nat) -> Result<
    Seq<MarkerModel>,
    TextFault,
>
    decreases bytes.len() - pos,
    via spec_parse_v3x_decreases
{
    if pos + 2 > bytes.len() {
        Ok(Seq::empty())
    } else {
        match spec_record_step(bytes, pos) {
            Err(f) => Err(f),
            Ok((rec, pos2)) => match spec_parse_v3x(bytes, pos2, (idx + (pos2 - pos)) as nat) {
                Ok(rest) => Ok(seq![MarkerModel { rec, index: idx }] + rest),
                Err(f) => Err(f),
            },
        }
    }
}

#[via_fn]
proof fn spec_parse_v3x_decreases(bytes: Seq<u8>, pos: nat, idx: nat) {
    if pos + 2 <= bytes.len() {
        lemma_record_step_bounds(bytes, pos);
    }
}

/// An executable marker carries a modelled record when every field agrees,
/// with text fields related by lossy decoding.
pub open spec fn marker_matches(m: BoardMarker, s: MarkerModel) -> bool {
    &&& m.point == s.rec.point
    &&& m.color == Stone::Empty
    &&& opt_text_matches(m.oneline_comment, s.rec.oneline)
    &&& opt_text_matches(m.multiline_comment, s.rec.multiline)
    &&& opt_text_matches(m.board_text, s.rec.board_text)
    &&& m.command.0 == s.rec.command
    &&& m.index_in_file matches Some(i) && i == s.index
}

pub open spec fn markers_match(v: Seq<BoardMarker>, ms: Seq<MarkerModel>) -> bool {
    &&& v.len() == ms.len()
    &&& forall|i: int| 0 <= i < ms.len() ==> marker_matches(v[i], ms[i])
}

/// The whole stream parsed from the start equals the markers gathered so
/// far, followed by whatever the stream from `pos` still yields.
pub open spec fn spec_parse_compose(
    bytes: Seq<u8>,
    idx0: nat,
    acc: Seq<MarkerModel>,
    pos: nat,
) -> bool {
    spec_parse_v3x(bytes, 0, idx0) == match spec_parse_v3x(bytes, pos, (idx0 + pos) as nat) {
        Ok(rest) => Ok::<Seq<MarkerModel>, TextFault>(acc + rest),
        Err(f) => Err::<Seq<MarkerModel>, TextFault>(f),
    }
}

/// Decode a version 3.x record stream into its flat record list. `index` is
/// the offset of `bytes` within the surrounding file, used only to stamp
/// each record with its position. A trailing odd byte is ignored, as the
/// original stream format always works in two-byte steps.
#[verifier::rlimit(60)]
pub fn parse_v3x(bytes: &[u8], _version: Version, index: usize) -> (r: Result<
    Vec<BoardMarker>,
    ParseError,
>)
    requires
        index + bytes@.len() <= usize::MAX,
    ensures
        spec_parse_v3x(bytes@, 0, index as nat) matches Ok(ms) ==> (r matches Ok(v)
            && markers_match(v@, ms)),
        spec_parse_v3x(bytes@, 0, index as nat) matches Err(f) ==> (r matches Err(e)
            && fault_error_ok(f, e)),
{
    let mut vec: Vec<BoardMarker> = Vec::new();
    let ghost mut models: Seq<MarkerModel> = Seq::empty();
    let mut pos: usize = 0;
    loop
        invariant
            pos <= bytes@.len(),
            index + bytes@.len() <= usize::MAX,
            markers_match(vec@, models),
            spec_parse_compose(bytes@, index as nat, models, pos as nat),
        decreases bytes@.len() - pos,
    {
        if pos >= bytes.len() || bytes.len() - pos < 2 {
            proof {
                assert(spec_parse_v3x(bytes@, pos as nat, (index + pos) as nat)
                    == Ok::<Seq<MarkerModel>, TextFault>(Seq::empty()));
                assert(models + Seq::<MarkerModel>::empty() =~= models);
            }
            return Ok(vec);
        }
        let ghost pos0 = pos as nat;
        let b0 = bytes[pos];
        let b1 = bytes[pos + 1];
        let point = if b0 == 0 {
            Point::null()
        } else {
            match Point::from_byte(b0) {
                Ok(p) => p,
                Err(_) => {
                    proof {
                        assert(false);
                    }
                    Point::null()
                },
            }
        };
        let cmd0 = b1 as u32;
        let ext = cmd0 & 0x01 == 0x01;
        let cmd: u32;
        let p1: usize;
        if ext {
            if bytes.len() - pos < 4 {
                proof {
                    assert(spec_record_step(bytes@, pos0) == Err::<(RecordModel, nat), TextFault>(
                        TextFault::Truncated,
                    ));
                }
                return Err(ParseError::TruncatedStream);
            }
            cmd = (cmd0 & 0xff) | (((bytes[pos + 2] as u32) << 16) | ((bytes[pos + 3] as u32)
                << 8));
            p1 = pos + 4;
        } else {
            cmd = cmd0;
            p1 = pos + 2;
        }
        let mut one: Option<String> = None;
        let mut multi: Option<String> = None;
        let ghost mut spec_one: Option<Seq<u8>> = None;
        let ghost mut spec_multi: Option<Seq<u8>> = None;
        let p2: usize;
        if cmd & 0x08 == 0x08 {
            proof {
                lemma_read_text_bounds(bytes@, p1 as nat);
            }
            let mut buf: Vec<u8> = Vec::new();
            match parse_comments(bytes, p1, &mut buf) {
                Ok((om, n)) => {
                    one = om.0;
                    multi = om.1;
                    proof {
                        match spec_read_text(bytes@, p1 as nat) {
                            Ok((sn, st)) => {
                                assert(Seq::<u8>::empty() + st =~= st);
                                match spec_split_comments(st) {
                                    Ok(som) => {
                                        spec_one = som.0;
                                        spec_multi = som.1;
                                    },
                                    Err(_) => {
                                        assert(false);
                                    },
                                }
                                assert(spec_text_block(bytes@, p1 as nat) == Ok::<
                                    ((Option<Seq<u8>>, Option<Seq<u8>>), nat),
                                    TextFault,
                                >(((spec_one, spec_multi), sn)));
                            },
                            Err(_) => {
                                assert(false);
                            },
                        }
                    }
                    p2 = p1 + n;
                },
                Err(e) => {
                    proof {
                        match spec_read_text(bytes@, p1 as nat) {
                            Ok((sn, st)) => {
                                assert(Seq::<u8>::empty() + st =~= st);
                            },
                            Err(_) => {},
                        }
                    }
                    return Err(
                        match e {
                            ParseCommentError::Truncated => ParseError::TruncatedStream,
                            ParseCommentError::Malformed => ParseError::Other(
                                "malformed comment block".to_string(),
                            ),
                        },
                    );
                },
            }
        } else if cmd & 0x20 == 0x20 {
            proof {
                lemma_read_text_bounds(bytes@, p1 as nat);
            }
            let mut buf: Vec<u8> = Vec::new();
            match parse_old_comments(bytes, p1, &mut buf) {
                Ok((om, n)) => {
                    one = om.0;
                    multi = om.1;
                    proof {
                        match spec_read_text(bytes@, p1 as nat) {
                            Ok((sn, st)) => {
                                assert(Seq::<u8>::empty() + st =~= st);
                                let mt = st.map_values(|b: u8| spec_remap(b));
                                match spec_split_comments(mt) {
                                    Ok(som) => {
                                        spec_one = som.0;
                                        spec_multi = som.1;
                                    },
                                    Err(_) => {
                                        assert(false);
                                    },
                                }
                                assert(spec_old_text_block(bytes@, p1 as nat) == Ok::<
                                    ((Option<Seq<u8>>, Option<Seq<u8>>), nat),
                                    TextFault,
                                >(((spec_one, spec_multi), sn)));
                            },
                            Err(_) => {
                                assert(false);
                            },
                        }
                    }
                    p2 = p1 + n;
                },
                Err(e) => {
                    proof {
                        match spec_read_text(bytes@, p1 as nat) {
                            Ok((sn, st)) => {
                                assert(Seq::<u8>::empty() + st =~= st);
                            },
                            Err(_) => {},
                        }
                    }
                    return Err(
                        match e {
                            ParseCommentError::Truncated => ParseError::TruncatedStream,
                            ParseCommentError::Malformed => ParseError::Other(
                                "malformed comment block".to_string(),
                            ),
                        },
                    );
                },
            }
        } else {
            p2 = p1;
        }
        let mut btext: Option<String> = None;
        let ghost mut spec_bt: Option<Seq<u8>> = None;
        let p3: usize;
        if cmd & 0x100 == 0x100 {
            proof {
                lemma_read_text_bounds(bytes@, p2 as nat);
            }
            let mut buf: Vec<u8> = Vec::new();
            match parse_board_text(bytes, p2, &mut buf) {
                Ok((t, n)) => {
                    proof {
                        match spec_read_text(bytes@, p2 as nat) {
                            Ok((sn, st)) => {
                                assert(Seq::<u8>::empty() + st =~= st);
                                spec_bt = Some(st.subrange(0, st.len() - 1));
                                assert(spec_board_text_block(bytes@, p2 as nat) == Ok::<
                                    (Seq<u8>, nat),
                                    TextFault,
                                >((st.subrange(0, st.len() - 1), sn)));
                            },
                            Err(_) => {
                                assert(false);
                            },
                        }
                    }
                    btext = Some(t);
                    p3 = p2 + n;
                },
                Err(e) => {
                    proof {
                        match spec_read_text(bytes@, p2 as nat) {
                            Ok((sn, st)) => {
                                assert(Seq::<u8>::empty() + st =~= st);
                            },
                            Err(_) => {},
                        }
                    }
                    return Err(
                        match e {
                            ParseBoardTextError::Truncated => ParseError::TruncatedStream,
                            ParseBoardTextError::Malformed => ParseError::Other(
                                "malformed board text block".to_string(),
                            ),
                        },
                    );
                },
            }
        } else {
            p3 = p2;
        }
        let marker = BoardMarker {
            point,
            color: Stone::Empty,
            oneline_comment: one,
            multiline_comment: multi,
            board_text: btext,
            command: Command(cmd),
            index_in_file: Some(index + pos),
        };
        proof {
            let rec = RecordModel {
                point,
                oneline: spec_one,
                multiline: spec_multi,
                board_text: spec_bt,
                command: cmd,
            };
            assert(spec_record_step(bytes@, pos0) == Ok::<(RecordModel, nat), TextFault>(
                (rec, p3 as nat),
            ));
            let m = MarkerModel { rec, index: (index + pos0) as nat };
            let old_models = models;
            models = models.push(m);
            assert(marker_matches(marker, m));
            match spec_parse_v3x(bytes@, p3 as nat, (index + p3) as nat) {
                Ok(rest) => {
                    assert(old_models + (seq![m] + rest) =~= models + rest);
                },
                Err(_) => {},
            }
        }
        vec.push(marker);
        pos = p3;
    }
}

} // verus!




