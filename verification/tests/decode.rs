use nbody_playback::body::{BodyState, Vec3};
use nbody_playback::decode::{DecodeError, decode};

fn body(px: i64, py: i64, pz: i64, vx: i64, vy: i64, vz: i64, mass: i64) -> BodyState {
    BodyState {
        position: Vec3 { x: px, y: py, z: pz },
        velocity: Vec3 { x: vx, y: vy, z: vz },
        mass,
    }
}

#[test]
fn decode_single_body() {
    let rec = b"[{\"pos\":[0,0,0],\"vel\":[0,0,0],\"mass\":100}]";
    let frame = decode(rec).unwrap();
    assert_eq!(frame, vec![body(0, 0, 0, 0, 0, 0, 100)]);
}

#[test]
fn decode_empty_record() {
    let frame = decode(b"[]").unwrap();
    assert_eq!(frame.len(), 0);
}

#[test]
fn decode_multiple_bodies_in_order() {
    let rec = b"[{\"pos\":[1,2,3],\"vel\":[4,5,6],\"mass\":7},{\"pos\":[8,9,10],\"vel\":[11,12,13],\"mass\":14}]";
    let frame = decode(rec).unwrap();
    assert_eq!(
        frame,
        vec![body(1, 2, 3, 4, 5, 6, 7), body(8, 9, 10, 11, 12, 13, 14)]
    );
}

#[test]
fn decode_negative_coordinates() {
    let rec = b"[{\"pos\":[-5,0,-17],\"vel\":[-1,2,-3],\"mass\":42}]";
    let frame = decode(rec).unwrap();
    assert_eq!(frame, vec![body(-5, 0, -17, -1, 2, -3, 42)]);
}

#[test]
fn decode_repeated_calls_yield_equal_frames() {
    let rec = b"[{\"pos\":[3,1,4],\"vel\":[1,5,9],\"mass\":26}]";
    let first = decode(rec);
    let second = decode(rec);
    assert_eq!(first, second);
    assert!(first.is_ok());
}

#[test]
fn decode_zero_mass_rejected() {
    let rec = b"[{\"pos\":[0,0,0],\"vel\":[0,0,0],\"mass\":0}]";
    assert_eq!(decode(rec).unwrap_err(), DecodeError::NonPositiveMass);
}

#[test]
fn decode_negative_mass_rejected() {
    let rec = b"[{\"pos\":[0,0,0],\"vel\":[0,0,0],\"mass\":-5}]";
    assert_eq!(decode(rec).unwrap_err(), DecodeError::NonPositiveMass);
}

#[test]
fn decode_one_bad_mass_among_good_rejected() {
    let rec = b"[{\"pos\":[1,1,1],\"vel\":[0,0,0],\"mass\":9},{\"pos\":[2,2,2],\"vel\":[0,0,0],\"mass\":0}]";
    assert_eq!(decode(rec).unwrap_err(), DecodeError::NonPositiveMass);
}

#[test]
fn decode_missing_mass_field_rejected() {
    let rec = b"[{\"pos\":[0,0,0],\"vel\":[0,0,0]}]";
    assert_eq!(decode(rec).unwrap_err(), DecodeError::Malformed);
}

#[test]
fn decode_extra_field_rejected() {
    let rec = b"[{\"pos\":[0,0,0],\"vel\":[0,0,0],\"mass\":100,\"id\":1}]";
    assert_eq!(decode(rec).unwrap_err(), DecodeError::Malformed);
}

#[test]
fn decode_non_numeric_value_rejected() {
    let rec = b"[{\"pos\":[a,0,0],\"vel\":[0,0,0],\"mass\":100}]";
    assert_eq!(decode(rec).unwrap_err(), DecodeError::Malformed);
}

#[test]
fn decode_trailing_bytes_rejected() {
    let rec = b"[{\"pos\":[0,0,0],\"vel\":[0,0,0],\"mass\":100}] ";
    assert_eq!(decode(rec).unwrap_err(), DecodeError::Malformed);
}

#[test]
fn decode_whitespace_rejected() {
    assert_eq!(decode(b"[ ]").unwrap_err(), DecodeError::Malformed);
}

#[test]
fn decode_empty_input_rejected() {
    assert_eq!(decode(b"").unwrap_err(), DecodeError::Malformed);
}

#[test]
fn decode_leading_zero_rejected() {
    let rec = b"[{\"pos\":[0,0,0],\"vel\":[0,0,0],\"mass\":007}]";
    assert_eq!(decode(rec).unwrap_err(), DecodeError::Malformed);
}

#[test]
fn decode_largest_mass_accepted() {
    let rec = b"[{\"pos\":[0,0,0],\"vel\":[0,0,0],\"mass\":9223372036854775807}]";
    let frame = decode(rec).unwrap();
    assert_eq!(frame[0].mass, i64::MAX);
}

#[test]
fn decode_oversized_mass_rejected() {
    let rec = b"[{\"pos\":[0,0,0],\"vel\":[0,0,0],\"mass\":9223372036854775808}]";
    assert_eq!(decode(rec).unwrap_err(), DecodeError::Malformed);
}

#[test]
fn decode_most_negative_coordinate() {
    // the magnitude must fit in i64, so -9223372036854775807 is the
    // most negative value the grammar admits
    let rec = b"[{\"pos\":[-9223372036854775807,0,0],\"vel\":[0,0,0],\"mass\":1}]";
    let frame = decode(rec).unwrap();
    assert_eq!(frame[0].position.x, -9223372036854775807);
}
