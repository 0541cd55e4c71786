//! Command words and zigzag-encoded deltas of the geometry stream.
//!
//! A command word packs an instruction kind into its low three bits and a
//! repeat count into the remaining bits.  Coordinate deltas are zigzag
//! encoded: small magnitudes of either sign map to small unsigned words.

use vstd::prelude::*;
use crate::mesh::{point_in_range, Point2, COORD_LIMIT};

verus! {

/// Why a geometry stream failed to decode.  Both conditions are
/// recoverable per-feature failures: one malformed feature must not stop
/// the decoding of the remaining features of a tile.
#[derive(Clone, Copy, Debug, PartialEq, Eq, Structural)]
pub enum DecodeError {
    /// A command word or coordinate pair ran past the end of the input.
    TruncatedStream,
    /// A decoded cursor coordinate left the accepted range.
    CoordinateOutOfRange,
}

/// Instruction kind of a `MoveTo` command word.
pub const MOVE_TO: u32 = 1;

/// Instruction kind of a `LineTo` command word.
pub const LINE_TO: u32 = 2;

/// Instruction kind of a `ClosePath` command word.
pub const CLOSE_PATH: u32 = 7;

/// One decoded instruction of the geometry stream.
pub struct GeometryCommand {
    /// Instruction kind: `MOVE_TO`, `LINE_TO` or `CLOSE_PATH`.
    pub kind: u32,
    /// How many coordinate pairs follow the command word.
    pub repeat: u32,
}

/// Meaning of a zigzag-encoded parameter word: even words are non-negative
/// deltas, odd words are negative ones.
pub open spec fn spec_zigzag_decode(param: int) -> int {
    if param % 2 == 0 {
        param / 2
    } else {
        -((param + 1) / 2)
    }
}

/// Zigzag encoding of a signed delta into an unsigned word.
pub open spec fn spec_zigzag_encode(delta: int) -> int {
    if delta >= 0 {
        2 * delta
    } else {
        -2 * delta - 1
    }
}

/// Zigzag decoding inverts zigzag encoding on every signed delta.
pub proof fn lemma_zigzag_round_trip(delta: int)
    ensures
        spec_zigzag_decode(spec_zigzag_encode(delta)) == delta,
{
}

/// Decodes one zigzag-encoded parameter word into a signed delta.
pub fn zigzag_decode(param: u32) -> (delta: i64)
    ensures
        delta == spec_zigzag_decode(param as int),
        -0x8000_0000 <= delta < 0x8000_0000,
{
    let p = param as i64;
    proof {
        assert(p & 1 == 0 || p & 1 == 1) by (bit_vector);
        assert((p >> 1) ^ ((-(p & 1)) as i64) == (if p % 2 == 0 {
            p / 2
        } else {
            -((p + 1) / 2)
        })) by (bit_vector)
            requires
                0 <= p < 0x1_0000_0000i64,
        ;
    }
    (p >> 1) ^ (-(p & 1))
}

/// Encodes a signed delta into a zigzag parameter word.
pub fn zigzag_encode(delta: i64) -> (param: u32)
    requires
        -0x8000_0000 <= delta < 0x8000_0000,
    ensures
        param == spec_zigzag_encode(delta as int),
{
    if delta >= 0 {
        (2 * delta) as u32
    } else {
        let m = -1 - delta;
        assert(2 * m + 1 == -2 * (delta as int) - 1);
        (2 * m + 1) as u32
    }
}

/// Splits a command word into its instruction kind (low three bits) and its
/// repeat count (the remaining bits).
pub fn decode_command(word: u32) -> (c: GeometryCommand)
    ensures
        c.kind == word % 8,
        c.repeat == word / 8,
{
    proof {
        assert(word & 0x7 == word % 8) by (bit_vector);
        assert(word >> 3 == word / 8) by (bit_vector);
    }
    GeometryCommand { kind: word & 0x7, repeat: word >> 3 }
}

/// The signed delta carried by one zigzag-encoded parameter word.
pub open spec fn spec_delta(w: u32) -> int {
    spec_zigzag_decode(w as int)
}

/// Result of reading a run of coordinate pairs: the decoded points and
/// the stream position and cursor the run ends with.
#[verifier::ext_equal]
pub struct ParsedPoints {
    pub points: Seq<Point2>,
    pub pos: int,
    pub x: int,
    pub y: int,
}

/// Meaning of reading `count` coordinate pairs from position `pos` with
/// the cursor at `(x, y)`: each pair moves the cursor by its two zigzag
/// deltas and yields the cursor as a point.  Fails when the stream ends
/// mid-pair or a cursor coordinate leaves the accepted range.
pub open spec fn spec_parse_points(geom: Seq<u32>, pos: int, x: int, y: int, count: int) -> Result<
    ParsedPoints,
    DecodeError,
>
    decreases count,
{
    if count <= 0 {
        Ok(ParsedPoints { points: Seq::empty(), pos, x, y })
    } else if pos + 1 >= geom.len() {
        Err(DecodeError::TruncatedStream)
    } else {
        let nx = x + spec_delta(geom[pos]);
        let ny = y + spec_delta(geom[pos + 1]);
        if nx < -COORD_LIMIT || nx > COORD_LIMIT || ny < -COORD_LIMIT || ny > COORD_LIMIT {
            Err(DecodeError::CoordinateOutOfRange)
        } else {
            match spec_parse_points(geom, pos + 2, nx, ny, count - 1) {
                Ok(rest) => Ok(
                    ParsedPoints {
                        points: seq![Point2 { x: nx as i64, y: ny as i64 }] + rest.points,
                        pos: rest.pos,
                        x: rest.x,
                        y: rest.y,
                    },
                ),
                Err(e) => Err(e),
            }
        }
    }
}

/// Shape facts about a successful run of coordinate pairs: it consumes
/// exactly two words per point, stays inside the stream, and yields only
/// in-range points, ending with the cursor on the last one.
pub proof fn lemma_parse_points_props(geom: Seq<u32>, pos: int, x: int, y: int, count: int)
    requires
        0 <= pos <= geom.len(),
        0 <= count,
    ensures
        spec_parse_points(geom, pos, x, y, count) matches Ok(st) ==> {
            &&& st.points.len() == count
            &&& st.pos == pos + 2 * count
            &&& st.pos <= geom.len()
            &&& forall|i: int| 0 <= i < st.points.len() ==> point_in_range(#[trigger] st.points[i])
            &&& (count == 0 ==> st.x == x && st.y == y)
            &&& (count > 0 ==> st.x == st.points.last().x && st.y == st.points.last().y)
            &&& -COORD_LIMIT <= st.x <= COORD_LIMIT || (count == 0 && st.x == x)
            &&& -COORD_LIMIT <= st.y <= COORD_LIMIT || (count == 0 && st.y == y)
        },
    decreases count,
{
    if count > 0 && pos + 1 < geom.len() {
        let nx = x + spec_delta(geom[pos]);
        let ny = y + spec_delta(geom[pos + 1]);
        if -COORD_LIMIT <= nx <= COORD_LIMIT && -COORD_LIMIT <= ny <= COORD_LIMIT {
            lemma_parse_points_props(geom, pos + 2, nx, ny, count - 1);
        }
    }
}

/// When the first pair of a run fails, the whole run fails the same way.
pub proof fn lemma_parse_points_err_step(
    geom: Seq<u32>,
    pos: int,
    x: int,
    y: int,
    count: int,
    e: DecodeError,
)
    requires
        count >= 1,
        spec_parse_points(geom, pos, x, y, 1) == Err::<ParsedPoints, DecodeError>(e),
    ensures
        spec_parse_points(geom, pos, x, y, count) == Err::<ParsedPoints, DecodeError>(e),
{
    if pos + 1 >= geom.len() {
        assert(spec_parse_points(geom, pos, x, y, count) == Err::<ParsedPoints, DecodeError>(
            DecodeError::TruncatedStream,
        ));
    } else {
        let nx = x + spec_delta(geom[pos]);
        let ny = y + spec_delta(geom[pos + 1]);
        if nx < -COORD_LIMIT || nx > COORD_LIMIT || ny < -COORD_LIMIT || ny > COORD_LIMIT {
            assert(spec_parse_points(geom, pos, x, y, count) == Err::<ParsedPoints, DecodeError>(
                DecodeError::CoordinateOutOfRange,
            ));
        } else {
            assert(spec_parse_points(geom, pos + 2, nx, ny, 0) matches Ok(_));
            assert(false);
        }
    }
}

/// A successful one-pair run pins the first step of any longer run: the
/// longer run continues from exactly where the pair left off.
pub proof fn lemma_parse_points_ok_step(
    geom: Seq<u32>,
    pos: int,
    x: int,
    y: int,
    count: int,
    st1: ParsedPoints,
)
    requires
        count >= 1,
        spec_parse_points(geom, pos, x, y, 1) == Ok::<ParsedPoints, DecodeError>(st1),
    ensures
        st1.points.len() == 1,
        spec_parse_points(geom, pos, x, y, count) == (match spec_parse_points(
            geom,
            st1.pos,
            st1.x,
            st1.y,
            count - 1,
        ) {
            Ok(rest) => Ok::<ParsedPoints, DecodeError>(
                ParsedPoints {
                    points: st1.points + rest.points,
                    pos: rest.pos,
                    x: rest.x,
                    y: rest.y,
                },
            ),
            Err(e) => Err::<ParsedPoints, DecodeError>(e),
        }),
{
    assert(pos + 1 < geom.len());
    let nx = x + spec_delta(geom[pos]);
    let ny = y + spec_delta(geom[pos + 1]);
    assert(-COORD_LIMIT <= nx <= COORD_LIMIT && -COORD_LIMIT <= ny <= COORD_LIMIT);
    let p = Point2 { x: nx as i64, y: ny as i64 };
    assert(spec_parse_points(geom, pos + 2, nx, ny, 0) == Ok::<ParsedPoints, DecodeError>(
        ParsedPoints { points: Seq::empty(), pos: pos + 2, x: nx, y: ny },
    ));
    assert(st1.points =~= seq![p]);
    assert(st1.pos == pos + 2 && st1.x == nx && st1.y == ny);
    match spec_parse_points(geom, st1.pos, st1.x, st1.y, count - 1) {
        Ok(rest) => {
            assert(seq![p] + rest.points =~= st1.points + rest.points);
            assert(spec_parse_points(geom, pos, x, y, count) matches Ok(full) && full =~~= (
            ParsedPoints {
                points: st1.points + rest.points,
                pos: rest.pos,
                x: rest.x,
                y: rest.y,
            }));
        },
        Err(e) => {
            assert(spec_parse_points(geom, pos, x, y, count) == Err::<ParsedPoints, DecodeError>(
                e,
            ));
        },
    }
}

/// Zigzag round trip at the cursor step: a coordinate pair whose two
/// words carry the zigzag encodings of two signed deltas moves the
/// cursor by exactly those deltas and yields the moved cursor as the
/// point — for every delta a word can carry and wherever the cursor
/// stands, as long as the result stays within the accepted coordinate
/// range.
pub proof fn lemma_cursor_applies_deltas(
    geom: Seq<u32>,
    pos: int,
    x: int,
    y: int,
    dx: int,
    dy: int,
)
    requires
        0 <= pos,
        pos + 1 < geom.len(),
        -0x8000_0000 <= dx < 0x8000_0000,
        -0x8000_0000 <= dy < 0x8000_0000,
        geom[pos] == spec_zigzag_encode(dx),
        geom[pos + 1] == spec_zigzag_encode(dy),
        -COORD_LIMIT <= x + dx <= COORD_LIMIT,
        -COORD_LIMIT <= y + dy <= COORD_LIMIT,
    ensures
        spec_parse_points(geom, pos, x, y, 1) == Ok::<ParsedPoints, DecodeError>(
            ParsedPoints {
                points: seq![Point2 { x: (x + dx) as i64, y: (y + dy) as i64 }],
                pos: pos + 2,
                x: x + dx,
                y: y + dy,
            },
        ),
{
    lemma_zigzag_round_trip(dx);
    lemma_zigzag_round_trip(dy);
    assert(spec_delta(geom[pos]) == dx);
    assert(spec_delta(geom[pos + 1]) == dy);
    assert(spec_parse_points(geom, pos + 2, x + dx, y + dy, 0) == Ok::<
        ParsedPoints,
        DecodeError,
    >(ParsedPoints { points: Seq::empty(), pos: pos + 2, x: x + dx, y: y + dy }));
    assert(spec_parse_points(geom, pos, x, y, 1) matches Ok(st) && st =~~= (ParsedPoints {
        points: seq![Point2 { x: (x + dx) as i64, y: (y + dy) as i64 }],
        pos: pos + 2,
        x: x + dx,
        y: y + dy,
    }));
}

/// A decoding cursor over one feature's geometry words: a position in
/// the stream and the accumulated `(x, y)` coordinate pair.
pub struct GeometryCursor {
    geometry: Vec<u32>,
    position: usize,
    x: i64,
    y: i64,
}

/// Model of a decoding cursor.
pub struct CursorModel {
    pub geometry: Seq<u32>,
    pub position: int,
    pub x: int,
    pub y: int,
}

impl View for GeometryCursor {
    type V = CursorModel;

    closed spec fn view(&self) -> CursorModel {
        CursorModel {
            geometry: self.geometry@,
            position: self.position as int,
            x: self.x as int,
            y: self.y as int,
        }
    }
}

/// Invariant of the cursor: the position stays inside the stream and the
/// coordinates stay in range.
pub open spec fn cursor_wf(c: CursorModel) -> bool {
    &&& 0 <= c.position <= c.geometry.len()
    &&& -COORD_LIMIT <= c.x <= COORD_LIMIT
    &&& -COORD_LIMIT <= c.y <= COORD_LIMIT
}

impl GeometryCursor {
    /// A cursor at the start of the given stream, at the origin.
    pub fn new(geometry: Vec<u32>) -> (c: GeometryCursor)
        ensures
            c@ == (CursorModel { geometry: geometry@, position: 0, x: 0, y: 0 }),
            cursor_wf(c@),
    {
        GeometryCursor { geometry, position: 0, x: 0, y: 0 }
    }

    /// How many words are left in the stream.
    pub fn remaining(&self) -> (r: usize)
        requires
            cursor_wf(self@),
        ensures
            r == self@.geometry.len() - self@.position,
    {
        self.geometry.len() - self.position
    }

    /// Consumes one command word and splits it into kind and repeat
    /// count; fails when the stream is exhausted.
    pub fn advance_command(&mut self) -> (r: Result<GeometryCommand, DecodeError>)
        requires
            cursor_wf(old(self)@),
        ensures
            cursor_wf(final(self)@),
            final(self)@.geometry == old(self)@.geometry,
            final(self)@.x == old(self)@.x,
            final(self)@.y == old(self)@.y,
            match r {
                Ok(c) => {
                    &&& old(self)@.position < old(self)@.geometry.len()
                    &&& final(self)@.position == old(self)@.position + 1
                    &&& c.kind == old(self)@.geometry[old(self)@.position] % 8
                    &&& c.repeat == old(self)@.geometry[old(self)@.position] / 8
                },
                Err(e) => {
                    &&& e == DecodeError::TruncatedStream
                    &&& old(self)@.position == old(self)@.geometry.len()
                    &&& final(self)@ == old(self)@
                },
            },
    {
        if self.position >= self.geometry.len() {
            return Err(DecodeError::TruncatedStream);
        }
        let word = self.geometry[self.position];
        self.position = self.position + 1;
        Ok(decode_command(word))
    }

    /// Consumes one coordinate pair: applies the two zigzag deltas to the
    /// cursor and returns it as a point.  Fails, leaving the cursor
    /// untouched, when the stream ends mid-pair or a coordinate would
    /// leave the accepted range.
    pub fn advance_cursor(&mut self) -> (r: Result<Point2, DecodeError>)
        requires
            cursor_wf(old(self)@),
        ensures
            cursor_wf(final(self)@),
            final(self)@.geometry == old(self)@.geometry,
            match r {
                Ok(p) => spec_parse_points(
                    old(self)@.geometry,
                    old(self)@.position,
                    old(self)@.x,
                    old(self)@.y,
                    1,
                ) == Ok::<ParsedPoints, DecodeError>(
                    ParsedPoints {
                        points: seq![p],
                        pos: final(self)@.position,
                        x: final(self)@.x,
                        y: final(self)@.y,
                    },
                ) && point_in_range(p),
                Err(e) => spec_parse_points(
                    old(self)@.geometry,
                    old(self)@.position,
                    old(self)@.x,
                    old(self)@.y,
                    1,
                ) == Err::<ParsedPoints, DecodeError>(e) && final(self)@ == old(self)@,
            },
    {
        if self.geometry.len() - self.position < 2 {
            return Err(DecodeError::TruncatedStream);
        }
        let param0 = self.geometry[self.position];
        let param1 = self.geometry[self.position + 1];
        let nx = self.x + zigzag_decode(param0);
        let ny = self.y + zigzag_decode(param1);
        if nx < -COORD_LIMIT || nx > COORD_LIMIT || ny < -COORD_LIMIT || ny > COORD_LIMIT {
            return Err(DecodeError::CoordinateOutOfRange);
        }
        self.position = self.position + 2;
        self.x = nx;
        self.y = ny;
        let p = Point2 { x: nx, y: ny };
        proof {
            let one = spec_parse_points(
                old(self)@.geometry,
                old(self)@.position,
                old(self)@.x,
                old(self)@.y,
                1,
            );
            assert(spec_parse_points(
                old(self)@.geometry,
                old(self)@.position + 2,
                self@.x,
                self@.y,
                0,
            ) matches Ok(empty_rest) && empty_rest.points.len() == 0);
            match one {
                Ok(st) => {
                    assert(st.points =~= seq![p]);
                    assert(st =~~= (ParsedPoints {
                        points: seq![p],
                        pos: self@.position,
                        x: self@.x,
                        y: self@.y,
                    }));
                },
                Err(_) => {
                    assert(false);
                },
            }
        }
        Ok(p)
    }

    /// Reads a run of `count` coordinate pairs, the decoded points of one
    /// command's repetitions.
    pub fn read_points(&mut self, count: u32) -> (r: Result<Vec<Point2>, DecodeError>)
        requires
            cursor_wf(old(self)@),
        ensures
            cursor_wf(final(self)@),
            final(self)@.geometry == old(self)@.geometry,
            match r {
                Ok(pts) => spec_parse_points(
                    old(self)@.geometry,
                    old(self)@.position,
                    old(self)@.x,
                    old(self)@.y,
                    count as int,
                ) == Ok::<ParsedPoints, DecodeError>(
                    ParsedPoints {
                        points: pts@,
                        pos: final(self)@.position,
                        x: final(self)@.x,
                        y: final(self)@.y,
                    },
                ),
                Err(e) => spec_parse_points(
                    old(self)@.geometry,
                    old(self)@.position,
                    old(self)@.x,
                    old(self)@.y,
                    count as int,
                ) == Err::<ParsedPoints, DecodeError>(e),
            },
    {
        let mut pts: Vec<Point2> = Vec::new();
        let mut k: u32 = 0;
        while k < count
            invariant
                0 <= k <= count,
                cursor_wf(self@),
                self@.geometry == old(self)@.geometry,
                pts@.len() == k,
                spec_parse_points(
                    old(self)@.geometry,
                    old(self)@.position,
                    old(self)@.x,
                    old(self)@.y,
                    count as int,
                ) == (match spec_parse_points(
                    self@.geometry,
                    self@.position,
                    self@.x,
                    self@.y,
                    count - k,
                ) {
                    Ok(rest) => Ok::<ParsedPoints, DecodeError>(
                        ParsedPoints {
                            points: pts@ + rest.points,
                            pos: rest.pos,
                            x: rest.x,
                            y: rest.y,
                        },
                    ),
                    Err(e) => Err::<ParsedPoints, DecodeError>(e),
                }),
            decreases count - k,
        {
            let ghost pre = self@;
            let ghost prev_pts = pts@;
            let p = match self.advance_cursor() {
                Ok(p) => p,
                Err(e) => {
                    proof {
                        lemma_parse_points_err_step(
                            pre.geometry,
                            pre.position,
                            pre.x,
                            pre.y,
                            count - k,
                            e,
                        );
                    }
                    return Err(e);
                },
            };
            pts.push(p);
            proof {
                let st1 = ParsedPoints { points: seq![p], pos: self@.position, x: self@.x, y: self@.y };
                lemma_parse_points_ok_step(pre.geometry, pre.position, pre.x, pre.y, count - k, st1);
                match spec_parse_points(self@.geometry, self@.position, self@.x, self@.y, count - (
                k + 1)) {
                    Ok(rest) => {
                        assert(prev_pts + (st1.points + rest.points) =~= pts@ + rest.points);
                        assert(spec_parse_points(
                            old(self)@.geometry,
                            old(self)@.position,
                            old(self)@.x,
                            old(self)@.y,
                            count as int,
                        ) matches Ok(full) && full =~~= (ParsedPoints {
                            points: pts@ + rest.points,
                            pos: rest.pos,
                            x: rest.x,
                            y: rest.y,
                        }));
                    },
                    Err(_) => {},
                }
            }
            k += 1;
        }
        proof {
            assert(spec_parse_points(self@.geometry, self@.position, self@.x, self@.y, 0)
                == Ok::<ParsedPoints, DecodeError>(
                ParsedPoints {
                    points: Seq::empty(),
                    pos: self@.position,
                    x: self@.x,
                    y: self@.y,
                },
            ));
            assert(pts@ + Seq::<Point2>::empty() =~= pts@);
            assert(spec_parse_points(
                old(self)@.geometry,
                old(self)@.position,
                old(self)@.x,
                old(self)@.y,
                count as int,
            ) matches Ok(full) && full =~~= (ParsedPoints {
                points: pts@,
                pos: self@.position,
                x: self@.x,
                y: self@.y,
            }));
        }
        Ok(pts)
    }
}

} // verus!
