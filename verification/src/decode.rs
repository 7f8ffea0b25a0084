//! The snapshot decoder: turns one raw record into a validated frame.
//!
//! A record is a self-contained textual encoding of zero or more bodies,
//! in strict field order `pos`, `vel`, `mass`:
//!
//! ```text
//! record  = '[' ']' | '[' body (',' body)* ']'
//! body    = '{"pos":' vec3 ',"vel":' vec3 ',"mass":' int '}'
//! vec3    = '[' int ',' int ',' int ']'
//! int     = '-'? ( '0' | nonzero digit, more digits )
//! ```
//!
//! Decoding is strict: any missing or extra field, non-numeric value,
//! number whose magnitude does not fit in `i64` (so the most negative
//! value the grammar admits is `-i64::MAX`), stray byte, or non-positive
//! mass yields a `DecodeError`, and no partial frame is ever produced. Decoding does
//! no I/O and is a pure function of the record bytes: its whole result is
//! pinned to the spec-level parser `spec_decode`.

use vstd::prelude::*;

use crate::body::{BodyState, Frame, Vec3, body_valid, frame_valid};

verus! {

/// The ASCII byte `"`.
pub const B_QUOTE: u8 = 34;

/// The ASCII byte `,`.
pub const B_COMMA: u8 = 44;

/// The ASCII byte `-`.
pub const B_MINUS: u8 = 45;

/// The ASCII byte `0`.
pub const B_ZERO: u8 = 48;

/// The ASCII byte `9`.
pub const B_NINE: u8 = 57;

/// The ASCII byte `:`.
pub const B_COLON: u8 = 58;

/// The ASCII byte `[`.
pub const B_LBRACKET: u8 = 91;

/// The ASCII byte `]`.
pub const B_RBRACKET: u8 = 93;

/// The ASCII byte `a`.
pub const B_A: u8 = 97;

/// The ASCII byte `e`.
pub const B_E: u8 = 101;

/// The ASCII byte `l`.
pub const B_L: u8 = 108;

/// The ASCII byte `m`.
pub const B_M: u8 = 109;

/// The ASCII byte `o`.
pub const B_O: u8 = 111;

/// The ASCII byte `p`.
pub const B_P: u8 = 112;

/// The ASCII byte `s`.
pub const B_S: u8 = 115;

/// The ASCII byte `v`.
pub const B_V: u8 = 118;

/// The ASCII byte `{`.
pub const B_LBRACE: u8 = 123;

/// The ASCII byte `}`.
pub const B_RBRACE: u8 = 125;

/// Why a record failed to decode.
#[derive(Clone, Copy, PartialEq, Eq, Structural, Debug)]
pub enum DecodeError {
    /// The record is not a well-formed encoding of a list of bodies.
    Malformed,
    /// The record is well-formed, but some body has a non-positive mass.
    NonPositiveMass,
}

/// Whether `b` is an ASCII decimal digit.
pub open spec fn is_digit(b: u8) -> bool {
    B_ZERO <= b && b <= B_NINE
}

/// The first index at or after `i` that does not hold a decimal digit
/// (or the end of the record).
pub open spec fn digit_run_end(s: Seq<u8>, i: int) -> int
    decreases s.len() - i,
{
    if i < s.len() && is_digit(s[i]) {
        digit_run_end(s, i + 1)
    } else {
        i
    }
}

/// The value of the decimal digits `s[i..j)`.
pub open spec fn digits_value(s: Seq<u8>, i: int, j: int) -> int
    decreases j - i,
{
    if i < j {
        digits_value(s, i, j - 1) * 10 + (s[j - 1] - B_ZERO)
    } else {
        0
    }
}

/// Every byte of `s[i..j)` is a decimal digit.
pub open spec fn all_digits(s: Seq<u8>, i: int, j: int) -> bool {
    forall|m: int| i <= m < j ==> is_digit(#[trigger] s[m])
}

/// The digit run starting at `i` ends within the record, consists of
/// digits only, and stops at a non-digit or the end.
pub proof fn lemma_digit_run_end(s: Seq<u8>, i: int)
    requires
        0 <= i <= s.len(),
    ensures
        i <= digit_run_end(s, i) <= s.len(),
        all_digits(s, i, digit_run_end(s, i)),
        digit_run_end(s, i) == s.len() || !is_digit(s[digit_run_end(s, i)]),
    decreases s.len() - i,
{
    if i < s.len() && is_digit(s[i]) {
        lemma_digit_run_end(s, i + 1);
    }
}

/// Digit values are non-negative.
pub proof fn lemma_digits_value_nonneg(s: Seq<u8>, i: int, j: int)
    requires
        i <= j,
        all_digits(s, i, j),
    ensures
        digits_value(s, i, j) >= 0,
    decreases j - i,
{
    if i < j {
        lemma_digits_value_nonneg(s, i, j - 1);
    }
}

/// Extending a digit run can only grow its value.
pub proof fn lemma_digits_value_mono(s: Seq<u8>, i: int, j: int, k: int)
    requires
        i <= j <= k,
        all_digits(s, i, k),
    ensures
        digits_value(s, i, j) <= digits_value(s, i, k),
    decreases k - j,
{
    if j < k {
        lemma_digits_value_mono(s, i, j, k - 1);
        lemma_digits_value_nonneg(s, i, k - 1);
    }
}

/// Structural parse of an unsigned magnitude at `i`: a single `0`, or a
/// nonzero digit followed by the rest of its digit run, whose value must
/// fit in `i64`. Returns the value and the index just past it.
pub open spec fn spec_parse_magnitude(s: Seq<u8>, i: int) -> Option<(int, int)> {
    if 0 <= i < s.len() && is_digit(s[i]) {
        if s[i] == B_ZERO {
            Some((0int, i + 1))
        } else {
            let e = digit_run_end(s, i);
            let v = digits_value(s, i, e);
            if v <= i64::MAX {
                Some((v, e))
            } else {
                None
            }
        }
    } else {
        None
    }
}

/// Structural parse of an integer at `i`: an optional minus sign, then a
/// magnitude. Returns the value and the index just past it.
pub open spec fn spec_parse_int(s: Seq<u8>, i: int) -> Option<(i64, int)> {
    if 0 <= i < s.len() && s[i] == B_MINUS {
        match spec_parse_magnitude(s, i + 1) {
            Some((m, e)) => Some(((-m) as i64, e)),
            None => None,
        }
    } else {
        match spec_parse_magnitude(s, i) {
            Some((m, e)) => Some((m as i64, e)),
            None => None,
        }
    }
}

/// The bytes `{"pos":` stand at `i`.
pub open spec fn key_pos_at(s: Seq<u8>, i: int) -> bool {
    &&& 0 <= i
    &&& i + 7 <= s.len()
    &&& s[i] == B_LBRACE
    &&& s[i + 1] == B_QUOTE
    &&& s[i + 2] == B_P
    &&& s[i + 3] == B_O
    &&& s[i + 4] == B_S
    &&& s[i + 5] == B_QUOTE
    &&& s[i + 6] == B_COLON
}

/// The bytes `,"vel":` stand at `i`.
pub open spec fn key_vel_at(s: Seq<u8>, i: int) -> bool {
    &&& 0 <= i
    &&& i + 7 <= s.len()
    &&& s[i] == B_COMMA
    &&& s[i + 1] == B_QUOTE
    &&& s[i + 2] == B_V
    &&& s[i + 3] == B_E
    &&& s[i + 4] == B_L
    &&& s[i + 5] == B_QUOTE
    &&& s[i + 6] == B_COLON
}

/// The bytes `,"mass":` stand at `i`.
pub open spec fn key_mass_at(s: Seq<u8>, i: int) -> bool {
    &&& 0 <= i
    &&& i + 8 <= s.len()
    &&& s[i] == B_COMMA
    &&& s[i + 1] == B_QUOTE
    &&& s[i + 2] == B_M
    &&& s[i + 3] == B_A
    &&& s[i + 4] == B_S
    &&& s[i + 5] == B_S
    &&& s[i + 6] == B_QUOTE
    &&& s[i + 7] == B_COLON
}

/// Structural parse of a 3-component vector `[x,y,z]` at `i`.
pub open spec fn spec_parse_vec3(s: Seq<u8>, i: int) -> Option<(Vec3, int)> {
    if 0 <= i < s.len() && s[i] == B_LBRACKET {
        match spec_parse_int(s, i + 1) {
            Some((x, j)) => if j < s.len() && s[j] == B_COMMA {
                match spec_parse_int(s, j + 1) {
                    Some((y, k)) => if k < s.len() && s[k] == B_COMMA {
                        match spec_parse_int(s, k + 1) {
                            Some((z, l)) => if l < s.len() && s[l] == B_RBRACKET {
                                Some((Vec3 { x, y, z }, l + 1))
                            } else {
                                None
                            },
                            None => None,
                        }
                    } else {
                        None
                    },
                    None => None,
                }
            } else {
                None
            },
            None => None,
        }
    } else {
        None
    }
}

/// Structural parse of one body `{"pos":vec3,"vel":vec3,"mass":int}` at `i`.
pub open spec fn spec_parse_body(s: Seq<u8>, i: int) -> Option<(BodyState, int)> {
    if key_pos_at(s, i) {
        match spec_parse_vec3(s, i + 7) {
            Some((pos, j)) => if key_vel_at(s, j) {
                match spec_parse_vec3(s, j + 7) {
                    Some((vel, k)) => if key_mass_at(s, k) {
                        match spec_parse_int(s, k + 8) {
                            Some((mass, l)) => if l < s.len() && s[l] == B_RBRACE {
                                Some((BodyState { position: pos, velocity: vel, mass }, l + 1))
                            } else {
                                None
                            },
                            None => None,
                        }
                    } else {
                        None
                    },
                    None => None,
                }
            } else {
                None
            },
            None => None,
        }
    } else {
        None
    }
}

/// Structural parse of the non-empty body list from `i` up to and
/// including the closing `]`. Returns the bodies and the index just past
/// the `]`. The `i < j` guard only serves termination; a parsed body
/// always moves the cursor forward (`lemma_parse_body_advances`).
pub open spec fn spec_parse_bodies(s: Seq<u8>, i: int) -> Option<(Seq<BodyState>, int)>
    decreases s.len() - i,
{
    match spec_parse_body(s, i) {
        Some((b, j)) => if i < j && j < s.len() && s[j] == B_COMMA {
            match spec_parse_bodies(s, j + 1) {
                Some((rest, e)) => Some((seq![b] + rest, e)),
                None => None,
            }
        } else if j < s.len() && s[j] == B_RBRACKET {
            Some((seq![b], j + 1))
        } else {
            None
        },
        None => None,
    }
}

/// Structural parse of a whole record: `[]`, or `[` body list `]`, with
/// nothing before or after.
pub open spec fn spec_parse_record(s: Seq<u8>) -> Option<Seq<BodyState>> {
    if s.len() >= 1 && s[0] == B_LBRACKET {
        if s.len() == 2 && s[1] == B_RBRACKET {
            Some(Seq::empty())
        } else {
            match spec_parse_bodies(s, 1) {
                Some((bs, e)) => if e == s.len() {
                    Some(bs)
                } else {
                    None
                },
                None => None,
            }
        }
    } else {
        None
    }
}

/// What decoding a record returns: the parsed bodies when the record is
/// well-formed and every mass is positive, and the exact error otherwise.
pub open spec fn spec_decode(s: Seq<u8>) -> Result<Seq<BodyState>, DecodeError> {
    match spec_parse_record(s) {
        Some(bs) => if frame_valid(bs) {
            Ok(bs)
        } else {
            Err(DecodeError::NonPositiveMass)
        },
        None => Err(DecodeError::Malformed),
    }
}

/// A parsed magnitude ends after its start, within the record.
pub proof fn lemma_parse_magnitude_advances(s: Seq<u8>, i: int)
    requires
        spec_parse_magnitude(s, i) is Some,
    ensures
        i < spec_parse_magnitude(s, i)->Some_0.1 <= s.len(),
        spec_parse_magnitude(s, i)->Some_0.0 >= 0,
{
    lemma_digit_run_end(s, i);
    lemma_digits_value_nonneg(s, i, digit_run_end(s, i));
}

/// A parsed integer ends after its start, within the record.
pub proof fn lemma_parse_int_advances(s: Seq<u8>, i: int)
    requires
        spec_parse_int(s, i) is Some,
    ensures
        i < spec_parse_int(s, i)->Some_0.1 <= s.len(),
{
    if 0 <= i < s.len() && s[i] == B_MINUS {
        lemma_parse_magnitude_advances(s, i + 1);
    } else {
        lemma_parse_magnitude_advances(s, i);
    }
}

/// A parsed vector ends after its start, within the record.
pub proof fn lemma_parse_vec3_advances(s: Seq<u8>, i: int)
    requires
        spec_parse_vec3(s, i) is Some,
    ensures
        i < spec_parse_vec3(s, i)->Some_0.1 <= s.len(),
{
    let (x, j) = spec_parse_int(s, i + 1)->Some_0;
    lemma_parse_int_advances(s, i + 1);
    let (y, k) = spec_parse_int(s, j + 1)->Some_0;
    lemma_parse_int_advances(s, j + 1);
    let (z, l) = spec_parse_int(s, k + 1)->Some_0;
    lemma_parse_int_advances(s, k + 1);
}

/// A parsed body ends after its start, within the record.
pub proof fn lemma_parse_body_advances(s: Seq<u8>, i: int)
    requires
        spec_parse_body(s, i) is Some,
    ensures
        i < spec_parse_body(s, i)->Some_0.1 <= s.len(),
{
    let (pos, j) = spec_parse_vec3(s, i + 7)->Some_0;
    lemma_parse_vec3_advances(s, i + 7);
    let (vel, k) = spec_parse_vec3(s, j + 7)->Some_0;
    lemma_parse_vec3_advances(s, j + 7);
    let (mass, l) = spec_parse_int(s, k + 8)->Some_0;
    lemma_parse_int_advances(s, k + 8);
}

/// Parses an unsigned magnitude at `i`, exactly as `spec_parse_magnitude`
/// reads it.
fn parse_magnitude(s: &[u8], i: usize) -> (r: Option<(i64, usize)>)
    requires
        i <= s@.len(),
    ensures
        match r {
            Some(p) => {
                &&& spec_parse_magnitude(s@, i as int) == Some((p.0 as int, p.1 as int))
                &&& i < p.1 <= s@.len()
                &&& p.0 >= 0
            },
            None => spec_parse_magnitude(s@, i as int) is None,
        },
{
    if i >= s.len() {
        return None;
    }
    let b = s[i];
    if !(B_ZERO <= b && b <= B_NINE) {
        return None;
    }
    if b == B_ZERO {
        return Some((0, i + 1));
    }
    let ghost e = digit_run_end(s@, i as int);
    proof {
        lemma_digit_run_end(s@, i as int);
        assert(digits_value(s@, i as int, i as int) == 0);
        assert(digits_value(s@, i as int, i + 1) == (b - B_ZERO) as int);
    }
    let mut j = i + 1;
    let mut v: i64 = (b - B_ZERO) as i64;
    loop
        invariant
            i < j <= s@.len(),
            i <= s@.len(),
            all_digits(s@, i as int, j as int),
            e == digit_run_end(s@, i as int),
            digit_run_end(s@, j as int) == e,
            i <= e <= s@.len(),
            all_digits(s@, i as int, e),
            v as int == digits_value(s@, i as int, j as int),
            v >= 0,
            s@[i as int] == b,
            is_digit(b) && b != B_ZERO,
        decreases s@.len() - j,
    {
        if !(j < s.len() && B_ZERO <= s[j] && s[j] <= B_NINE) {
            // the digit run ends here, so its value is exactly `v`
            proof {
                assert(digit_run_end(s@, j as int) == j);
            }
            return Some((v, j));
        }
        let d = s[j] - B_ZERO;
        if v > (i64::MAX - d as i64) / 10 {
            // the full run can only be larger still, so the magnitude
            // cannot fit in an `i64` and the parse fails
            proof {
                assert(v * 10 + d > i64::MAX) by (nonlinear_arith)
                    requires
                        v > (i64::MAX - d as i64) / 10,
                        0 <= d <= 9,
                        v >= 0,
                ;
                assert(digits_value(s@, i as int, j + 1) == v * 10 + d);
                assert(j + 1 <= e) by {
                    assert(digit_run_end(s@, j as int) == digit_run_end(s@, j + 1));
                    lemma_digit_run_end(s@, j + 1);
                }
                lemma_digits_value_mono(s@, i as int, j + 1, e);
            }
            return None;
        }
        proof {
            assert(v * 10 + d <= i64::MAX) by (nonlinear_arith)
                requires
                    v <= (i64::MAX - d as i64) / 10,
                    0 <= d <= 9,
                    v >= 0,
            ;
        }
        v = v * 10 + (d as i64);
        j = j + 1;
    }
}

/// Parses a signed integer at `i`, exactly as `spec_parse_int` reads it.
fn parse_int(s: &[u8], i: usize) -> (r: Option<(i64, usize)>)
    requires
        i <= s@.len(),
    ensures
        match r {
            Some(p) => {
                &&& spec_parse_int(s@, i as int) == Some((p.0, p.1 as int))
                &&& i < p.1 <= s@.len()
            },
            None => spec_parse_int(s@, i as int) is None,
        },
{
    if i < s.len() && s[i] == B_MINUS {
        match parse_magnitude(s, i + 1) {
            Some((m, j)) => Some((-m, j)),
            None => None,
        }
    } else {
        parse_magnitude(s, i)
    }
}

/// Whether the bytes `{"pos":` stand at `i`.
fn has_key_pos(s: &[u8], i: usize) -> (r: bool)
    requires
        i <= s@.len(),
    ensures
        r == key_pos_at(s@, i as int),
{
    s.len() - i >= 7 && s[i] == B_LBRACE && s[i + 1] == B_QUOTE && s[i + 2] == B_P && s[i + 3]
        == B_O && s[i + 4] == B_S && s[i + 5] == B_QUOTE && s[i + 6] == B_COLON
}

/// Whether the bytes `,"vel":` stand at `i`.
fn has_key_vel(s: &[u8], i: usize) -> (r: bool)
    requires
        i <= s@.len(),
    ensures
        r == key_vel_at(s@, i as int),
{
    s.len() - i >= 7 && s[i] == B_COMMA && s[i + 1] == B_QUOTE && s[i + 2] == B_V && s[i + 3]
        == B_E && s[i + 4] == B_L && s[i + 5] == B_QUOTE && s[i + 6] == B_COLON
}

/// Whether the bytes `,"mass":` stand at `i`.
fn has_key_mass(s: &[u8], i: usize) -> (r: bool)
    requires
        i <= s@.len(),
    ensures
        r == key_mass_at(s@, i as int),
{
    s.len() - i >= 8 && s[i] == B_COMMA && s[i + 1] == B_QUOTE && s[i + 2] == B_M && s[i + 3]
        == B_A && s[i + 4] == B_S && s[i + 5] == B_S && s[i + 6] == B_QUOTE && s[i + 7] == B_COLON
}

/// Parses a 3-component vector at `i`, exactly as `spec_parse_vec3`
/// reads it.
fn parse_vec3(s: &[u8], i: usize) -> (r: Option<(Vec3, usize)>)
    requires
        i <= s@.len(),
    ensures
        match r {
            Some(p) => {
                &&& spec_parse_vec3(s@, i as int) == Some((p.0, p.1 as int))
                &&& i < p.1 <= s@.len()
            },
            None => spec_parse_vec3(s@, i as int) is None,
        },
{
    if !(i < s.len() && s[i] == B_LBRACKET) {
        return None;
    }
    let (x, j) = match parse_int(s, i + 1) {
        Some(p) => p,
        None => {
            return None;
        },
    };
    if !(j < s.len() && s[j] == B_COMMA) {
        return None;
    }
    let (y, k) = match parse_int(s, j + 1) {
        Some(p) => p,
        None => {
            return None;
        },
    };
    if !(k < s.len() && s[k] == B_COMMA) {
        return None;
    }
    let (z, l) = match parse_int(s, k + 1) {
        Some(p) => p,
        None => {
            return None;
        },
    };
    if !(l < s.len() && s[l] == B_RBRACKET) {
        return None;
    }
    Some((Vec3 { x, y, z }, l + 1))
}

/// Parses one body at `i`, exactly as `spec_parse_body` reads it.
fn parse_body(s: &[u8], i: usize) -> (r: Option<(BodyState, usize)>)
    requires
        i <= s@.len(),
    ensures
        match r {
            Some(p) => {
                &&& spec_parse_body(s@, i as int) == Some((p.0, p.1 as int))
                &&& i < p.1 <= s@.len()
            },
            None => spec_parse_body(s@, i as int) is None,
        },
{
    let n = s.len();
    if !has_key_pos(s, i) {
        return None;
    }
    let (pos, j) = match parse_vec3(s, i + 7) {
        Some(p) => p,
        None => {
            return None;
        },
    };
    if !has_key_vel(s, j) {
        return None;
    }
    let (vel, k) = match parse_vec3(s, j + 7) {
        Some(p) => p,
        None => {
            return None;
        },
    };
    if !has_key_mass(s, k) {
        return None;
    }
    let (mass, l) = match parse_int(s, k + 8) {
        Some(p) => p,
        None => {
            return None;
        },
    };
    if !(l < n && s[l] == B_RBRACE) {
        return None;
    }
    Some((BodyState { position: pos, velocity: vel, mass }, l + 1))
}

/// Checks that every body of a structurally parsed frame has a positive
/// mass, handing the frame back untouched when it does.
fn validate(f: Frame) -> (r: Result<Frame, DecodeError>)
    ensures
        match r {
            Ok(g) => g@ == f@ && frame_valid(f@),
            Err(e) => e == DecodeError::NonPositiveMass && !frame_valid(f@),
        },
{
    let mut k: usize = 0;
    while k < f.len()
        invariant
            k <= f@.len(),
            forall|m: int| 0 <= m < k ==> body_valid(#[trigger] f@[m]),
        decreases f@.len() - k,
    {
        if f[k].mass <= 0 {
            return Err(DecodeError::NonPositiveMass);
        }
        k = k + 1;
    }
    Ok(f)
}

/// The record parse of `s` equals `acc` plus whatever the body list
/// parse from `i` still yields, provided that list runs to the very end.
spec fn record_matches_from(s: Seq<u8>, acc: Seq<BodyState>, i: int) -> bool {
    spec_parse_record(s) == (match spec_parse_bodies(s, i) {
        Some((rest, e)) => if e == s.len() {
            Some(acc + rest)
        } else {
            None::<Seq<BodyState>>
        },
        None => None::<Seq<BodyState>>,
    })
}

/// Decodes one raw record into a frame.
///
/// The whole result is pinned to `spec_decode`: the decoded frame when
/// the record is a well-formed encoding whose masses are all positive,
/// `DecodeError::Malformed` when it is not well-formed, and
/// `DecodeError::NonPositiveMass` when only the mass validation fails.
/// Decoding is a pure function of the record bytes, so repeated calls on
/// equal records return equal frames, and an error never leaves a
/// partial frame behind.
#[verifier::rlimit(50)]
pub fn decode(record: &[u8]) -> (r: Result<Frame, DecodeError>)
    ensures
        match r {
            Ok(f) => spec_decode(record@) == Ok::<Seq<BodyState>, DecodeError>(f@) && frame_valid(
                f@,
            ),
            Err(e) => spec_decode(record@) == Err::<Seq<BodyState>, DecodeError>(e),
        },
{
    if !(record.len() >= 1 && record[0] == B_LBRACKET) {
        return Err(DecodeError::Malformed);
    }
    if record.len() == 2 && record[1] == B_RBRACKET {
        let f: Frame = Vec::new();
        proof {
            assert(spec_parse_record(record@) == Some(f@)) by {
                assert(f@ =~= Seq::<BodyState>::empty());
            }
        }
        return Ok(f);
    }
    let mut acc: Frame = Vec::new();
    let mut cur: usize = 1;
    proof {
        assert(record_matches_from(record@, acc@, 1)) by {
            if spec_parse_bodies(record@, 1) is Some {
                let (rest, e) = spec_parse_bodies(record@, 1)->Some_0;
                assert(acc@ + rest =~= rest);
            }
        }
    }
    loop
        invariant
            1 <= cur <= record@.len(),
            record_matches_from(record@, acc@, cur as int),
        decreases record@.len() - cur,
    {
        let (b, j) = match parse_body(record, cur) {
            Some(p) => p,
            None => {
                proof {
                    assert(spec_parse_bodies(record@, cur as int) is None);
                    assert(spec_parse_record(record@) is None);
                }
                return Err(DecodeError::Malformed);
            },
        };
        if j < record.len() && record[j] == B_COMMA {
            let ghost acc0 = acc@;
            acc.push(b);
            proof {
                assert(spec_parse_bodies(record@, cur as int) == (match spec_parse_bodies(
                    record@,
                    j + 1,
                ) {
                    Some((rest, e)) => Some((seq![b] + rest, e)),
                    None => None::<(Seq<BodyState>, int)>,
                }));
                if spec_parse_bodies(record@, j + 1) is Some {
                    let (rest, e) = spec_parse_bodies(record@, j + 1)->Some_0;
                    assert(acc0 + (seq![b] + rest) =~= acc@ + rest);
                    assert(record_matches_from(record@, acc@, j + 1));
                } else {
                    assert(record_matches_from(record@, acc@, j + 1));
                }
            }
            cur = j + 1;
        } else if j < record.len() && record[j] == B_RBRACKET {
            if j + 1 == record.len() {
                let ghost acc0 = acc@;
                acc.push(b);
                proof {
                    assert(spec_parse_bodies(record@, cur as int) == Some(
                        (seq![b], (j + 1) as int),
                    ));
                    assert(acc0 + seq![b] =~= acc@);
                    assert(spec_parse_record(record@) == Some(acc@));
                }
                let r = validate(acc);
                proof {
                    match &r {
                        Ok(g) => {
                            assert(spec_decode(record@) == Ok::<Seq<BodyState>, DecodeError>(g@));
                        },
                        Err(e) => {
                            assert(spec_decode(record@) == Err::<Seq<BodyState>, DecodeError>(*e));
                        },
                    }
                }
                return r;
            } else {
                proof {
                    assert(spec_parse_record(record@) is None);
                }
                return Err(DecodeError::Malformed);
            }
        } else {
            proof {
                assert(spec_parse_bodies(record@, cur as int) is None);
                assert(spec_parse_record(record@) is None);
            }
            return Err(DecodeError::Malformed);
        }
    }
}

/// A structurally well-formed record holding any body with a
/// non-positive mass decodes to an error, never to a partial frame.
pub proof fn lemma_nonpositive_mass_rejected(s: Seq<u8>, bs: Seq<BodyState>, k: int)
    requires
        spec_parse_record(s) == Some(bs),
        0 <= k < bs.len(),
        bs[k].mass <= 0,
    ensures
        spec_decode(s) == Err::<Seq<BodyState>, DecodeError>(DecodeError::NonPositiveMass),
{
    assert(!body_valid(bs[k]));
}

} // verus!
