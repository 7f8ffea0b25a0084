//! The data model: one body's state at one instant, and frames of bodies.

use vstd::prelude::*;

verus! {

/// A 3-component vector in simulation space, in integer simulation units.
/// The `z` component may be unused by a renderer but is preserved.
#[derive(Clone, Copy, PartialEq, Eq, Structural, Debug)]
pub struct Vec3 {
    pub x: i64,
    pub y: i64,
    pub z: i64,
}

/// One body at one instant: position, velocity and mass.
///
/// Velocity is carried through even though playback never integrates it.
/// A body is only considered valid when its mass is positive; the decoder
/// rejects records that violate this (see `crate::decode`).
#[derive(Clone, Copy, PartialEq, Eq, Structural, Debug)]
pub struct BodyState {
    pub position: Vec3,
    pub velocity: Vec3,
    pub mass: i64,
}

/// A frame is the ordered sequence of all body states at one instant.
/// Index `i` in one frame is assumed to denote the same logical body as
/// index `i` in the previous frame; no identifier is transmitted.
pub type Frame = Vec<BodyState>;

/// A body is valid exactly when its mass is positive.
pub open spec fn body_valid(b: BodyState) -> bool {
    b.mass > 0
}

/// A frame is valid exactly when every body in it is valid.
pub open spec fn frame_valid(f: Seq<BodyState>) -> bool {
    forall|i: int| 0 <= i < f.len() ==> body_valid(#[trigger] f[i])
}

/// The compiled-in seed frame: four bodies at fixed positions, zero
/// velocity and fixed mass, shown until real data arrives.
pub open spec fn seed_frame_spec() -> Seq<BodyState> {
    seq![
        (BodyState {
            position: Vec3 { x: 0, y: 0, z: 0 },
            velocity: Vec3 { x: 0, y: 0, z: 0 },
            mass: 100,
        }),
        (BodyState {
            position: Vec3 { x: 100, y: 0, z: 0 },
            velocity: Vec3 { x: 0, y: 0, z: 0 },
            mass: 100,
        }),
        (BodyState {
            position: Vec3 { x: 0, y: 100, z: 0 },
            velocity: Vec3 { x: 0, y: 0, z: 0 },
            mass: 100,
        }),
        (BodyState {
            position: Vec3 { x: 100, y: 100, z: 0 },
            velocity: Vec3 { x: 0, y: 0, z: 0 },
            mass: 100,
        }),
    ]
}

/// Builds the seed frame used before any real data arrives.
pub fn seed_frame() -> (f: Frame)
    ensures
        f@ == seed_frame_spec(),
        frame_valid(f@),
{
    let zero = Vec3 { x: 0, y: 0, z: 0 };
    let mut f: Frame = Vec::new();
    f.push(BodyState { position: Vec3 { x: 0, y: 0, z: 0 }, velocity: zero, mass: 100 });
    f.push(BodyState { position: Vec3 { x: 100, y: 0, z: 0 }, velocity: zero, mass: 100 });
    f.push(BodyState { position: Vec3 { x: 0, y: 100, z: 0 }, velocity: zero, mass: 100 });
    f.push(BodyState { position: Vec3 { x: 100, y: 100, z: 0 }, velocity: zero, mass: 100 });
    proof {
        assert(f@ =~= seed_frame_spec());
    }
    f
}

} // verus!
