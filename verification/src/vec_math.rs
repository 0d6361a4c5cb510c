//! Three-component vectors of binary64 numbers: points, directions, colors.
//!
//! The vector algebra proper rounds, and is therefore the caller's. Here
//! stand the operations that the encodings alone settle.

use vstd::prelude::*;
use crate::scalar::Scalar;

verus! {

/// The encoding of `1e-8`, below which a component counts as vanished.
pub const NEAR_ZERO_BITS: u64 = 0x3e45_798e_e230_8c3a;

#[derive(Clone, Copy, Debug)]
pub struct Vec3 {
    pub data: [Scalar; 3],
}

pub type Point3 = Vec3;

pub type Color = Vec3;

/// Whether a component is smaller in absolute value than `1e-8`.
/// A NaN is not.
pub open spec fn vanishes(s: Scalar) -> bool {
    s.absolute().less(Scalar { bits: NEAR_ZERO_BITS })
}

impl Vec3 {
    /// The vector with every component's sign flipped.
    pub open spec fn negated(self) -> Vec3 {
        Vec3 { data: [self.data[0].negated(), self.data[1].negated(), self.data[2].negated()] }
    }

    /// Whether all three components vanish.
    pub open spec fn is_near_zero(self) -> bool {
        vanishes(self.data[0]) && vanishes(self.data[1]) && vanishes(self.data[2])
    }

    /// What the hemisphere sampler makes of a sample whose dot product with
    /// the normal is `alignment`: the sample itself if it points to the
    /// normal's side, else its mirror image.
    pub open spec fn oriented(self, alignment: Scalar) -> Vec3 {
        if (Scalar { bits: 0 }).less(alignment) {
            self
        } else {
            self.negated()
        }
    }

    pub fn new(x: Scalar, y: Scalar, z: Scalar) -> (r: Vec3)
        ensures
            r == (Vec3 { data: [x, y, z] }),
    {
        Vec3 { data: [x, y, z] }
    }

    /// Whether the vector is too short to serve as a direction.
    pub fn near_zero(&self) -> (r: bool)
        ensures
            r == self.is_near_zero(),
    {
        let sigma: Scalar = Scalar::from_bits(NEAR_ZERO_BITS);
        self.data[0].abs().lt(sigma) && self.data[1].abs().lt(sigma) && self.data[2].abs().lt(
            sigma,
        )
    }

    pub fn neg(self) -> (r: Vec3)
        ensures
            r == self.negated(),
    {
        Vec3 { data: [self.data[0].neg(), self.data[1].neg(), self.data[2].neg()] }
    }

    /// Turns a sample drawn from the unit ball into one from the hemisphere
    /// around a normal. `alignment` is the dot product of sample and normal.
    pub fn random_in_hemisphere(sample: Vec3, alignment: Scalar) -> (r: Vec3)
        ensures
            r == sample.oriented(alignment),
    {
        if alignment.gt(Scalar::zero()) {
            sample
        } else {
            sample.neg()
        }
    }
}

} // verus!
