use tilemesh::codec::{decode_command, zigzag_decode, zigzag_encode, DecodeError, GeometryCursor};
use tilemesh::mesh::Point2;

#[test]
fn zigzag_decode_small_values() {
    assert_eq!(zigzag_decode(0), 0);
    assert_eq!(zigzag_decode(1), -1);
    assert_eq!(zigzag_decode(2), 1);
    assert_eq!(zigzag_decode(3), -2);
    assert_eq!(zigzag_decode(4), 2);
    assert_eq!(zigzag_decode(0xFFFF_FFFF), -0x8000_0000);
    assert_eq!(zigzag_decode(0xFFFF_FFFE), 0x7FFF_FFFF);
}

#[test]
fn zigzag_encode_small_values() {
    assert_eq!(zigzag_encode(0), 0);
    assert_eq!(zigzag_encode(-1), 1);
    assert_eq!(zigzag_encode(1), 2);
    assert_eq!(zigzag_encode(-2), 3);
    assert_eq!(zigzag_encode(2), 4);
}

#[test]
fn zigzag_round_trip_many() {
    let samples: Vec<i64> = vec![0, 1, -1, 2, -2, 4095, -4096, 0x7FFF_FFFF, -0x8000_0000];
    for d in samples {
        assert_eq!(zigzag_decode(zigzag_encode(d)), d);
    }
}

#[test]
fn command_word_split() {
    // MoveTo with repeat 1: kind id 1 in the low three bits.
    let c = decode_command(9);
    assert_eq!(c.kind, 1);
    assert_eq!(c.repeat, 1);
    // LineTo with repeat 3.
    let c = decode_command(26);
    assert_eq!(c.kind, 2);
    assert_eq!(c.repeat, 3);
    // ClosePath with repeat 1.
    let c = decode_command(15);
    assert_eq!(c.kind, 7);
    assert_eq!(c.repeat, 1);
}

#[test]
fn cursor_accumulates_deltas() {
    // Two pairs: (+3,+1) then (+1,+1); the cursor accumulates.
    let mut cur = GeometryCursor::new(vec![6, 2, 2, 2]);
    let p1 = cur.advance_cursor().unwrap();
    assert_eq!(p1, Point2 { x: 3, y: 1 });
    let p2 = cur.advance_cursor().unwrap();
    assert_eq!(p2, Point2 { x: 4, y: 2 });
}

#[test]
fn cursor_truncated_pair() {
    let mut cur = GeometryCursor::new(vec![6]);
    assert_eq!(cur.advance_cursor(), Err(DecodeError::TruncatedStream));
}

#[test]
fn cursor_empty_command() {
    let mut cur = GeometryCursor::new(vec![]);
    assert!(cur.advance_command().is_err());
}

#[test]
fn cursor_coordinate_out_of_range() {
    // A delta of 2^29 exceeds the accepted coordinate range.
    let delta: i64 = 0x2000_0000;
    let word = zigzag_encode(delta);
    let mut cur = GeometryCursor::new(vec![word, 0]);
    assert_eq!(cur.advance_cursor(), Err(DecodeError::CoordinateOutOfRange));
}
