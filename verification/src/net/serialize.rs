//! Quantized forms of rotations and positions as they travel in snapshots.
use vstd::prelude::*;

verus! {

/// A rotation as three Euler angles, each quantized to a byte.
#[derive(Clone, Copy, PartialEq, Eq, Structural, Debug, Default)]
pub struct QuantizedRotation {
    pub pitch: u8,
    pub yaw: u8,
    pub roll: u8,
}

/// A position or velocity with each axis quantized to sixteen bits.
#[derive(Clone, Copy, PartialEq, Eq, Structural, Debug, Default)]
pub struct QuantizedVec3U16 {
    pub x: u16,
    pub y: u16,
    pub z: u16,
}

} // verus!
