//! Numbers and rigid poses.

use vstd::prelude::*;

verus! {

/// A single-precision number, held as its IEEE 754 bit pattern.
///
/// Two scalars are equal exactly when their bits are, so a negative zero
/// differs from a positive one and a NaN equals itself.
#[derive(Clone, Copy, Debug, PartialEq, Eq, Structural)]
pub struct Scalar {
    pub bits: u32,
}

impl Scalar {
    /// Positive zero: every bit clear.
    pub open spec fn spec_zero() -> Scalar {
        Scalar { bits: 0 }
    }

    /// Positive zero: every bit clear.
    #[verifier::when_used_as_spec(spec_zero)]
    pub fn zero() -> (z: Scalar)
        ensures
            z == Scalar::spec_zero(),
    {
        Scalar { bits: 0 }
    }
}

/// The pose of one named entity at one instant: a position and an
/// orientation quaternion. The quaternion is stored as received and is not
/// normalised.
#[derive(Clone, Copy, Debug, PartialEq, Eq, Structural)]
pub struct Transform {
    pub x: Scalar,
    pub y: Scalar,
    pub z: Scalar,
    pub qx: Scalar,
    pub qy: Scalar,
    pub qz: Scalar,
    pub qw: Scalar,
}

impl Transform {
    /// Position at the origin with the degenerate all-zero quaternion.
    pub open spec fn spec_zero() -> Transform {
        Transform {
            x: Scalar::spec_zero(),
            y: Scalar::spec_zero(),
            z: Scalar::spec_zero(),
            qx: Scalar::spec_zero(),
            qy: Scalar::spec_zero(),
            qz: Scalar::spec_zero(),
            qw: Scalar::spec_zero(),
        }
    }

    /// Position at the origin with the degenerate all-zero quaternion.
    #[verifier::when_used_as_spec(spec_zero)]
    pub fn zero() -> (t: Transform)
        ensures
            t == Transform::spec_zero(),
    {
        Transform {
            x: Scalar::zero(),
            y: Scalar::zero(),
            z: Scalar::zero(),
            qx: Scalar::zero(),
            qy: Scalar::zero(),
            qz: Scalar::zero(),
            qw: Scalar::zero(),
        }
    }
}

} // verus!
