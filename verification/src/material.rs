//! What a surface does with a ray that reaches it.
//!
//! A material either sends the ray on, tinted by its color, or swallows it.
//! The directions themselves come out of rounding arithmetic and random
//! draws, which the caller supplies; which of them is taken, and whether the
//! ray survives, is decided here.

use vstd::prelude::*;
use crate::ray_tracing::{HitRecord, Ray};
use crate::scalar::{Scalar, ONE_BITS};
use crate::vec_math::{Color, Vec3};

verus! {

/// A matte surface.
#[derive(Clone, Copy, Debug)]
pub struct Diffusor {
    pub color: Color,
}

/// A mirror, blurred by `fuzz_coeff`.
#[derive(Clone, Copy, Debug)]
pub struct Reflector {
    pub color: Color,
    pub fuzz_coeff: Scalar,
}

/// A transparent body with refraction index `refr_coeff`.
#[derive(Clone, Copy, Debug)]
pub struct Refractor {
    pub color: Color,
    pub fuzz_coeff: Scalar,
    pub refr_coeff: Scalar,
}

#[derive(Clone, Copy, Debug)]
pub enum Material {
    Diffuse(Diffusor),
    Reflective(Reflector),
    Refractive(Refractor),
}

/// Whether a glass surface mirrors the ray instead of letting it through.
/// `bend` is the refraction ratio times the sine of the angle of incidence:
/// above one, no refracted ray exists. Otherwise the ray is mirrored with
/// probability `reflectance`, which a uniform `draw` from `[0, 1)` decides.
pub open spec fn mirrors(bend: Scalar, reflectance: Scalar, draw: Scalar) -> bool {
    (Scalar { bits: ONE_BITS }).less(bend) || draw.less(reflectance)
}

impl Diffusor {
    /// Scatters into the hemisphere around the normal. `sample` is the
    /// direction drawn from that hemisphere; where it is too short to be a
    /// direction, the normal takes its place. Never absorbs.
    pub fn scatter(&self, record: &HitRecord, sample: Vec3) -> (r: Option<(Color, Ray)>)
        ensures
            r == Some(
                (
                    self.color,
                    Ray {
                        origin: record.point,
                        direction: if sample.is_near_zero() {
                            record.normal
                        } else {
                            sample
                        },
                    },
                ),
            ),
    {
        if sample.near_zero() {
            Some((self.color, Ray::new(record.point, record.normal)))
        } else {
            Some((self.color, Ray::new(record.point, sample)))
        }
    }
}

impl Reflector {
    /// Sends the ray on along `direction`, the mirrored and blurred incoming
    /// direction, unless the blur has pushed it below the surface.
    /// `alignment` is the dot product of `direction` and the normal.
    pub fn scatter(&self, record: &HitRecord, direction: Vec3, alignment: Scalar) -> (r: Option<
        (Color, Ray),
    >)
        ensures
            r == if (Scalar { bits: 0 }).less(alignment) {
                Some((self.color, Ray { origin: record.point, direction }))
            } else {
                None
            },
    {
        if alignment.gt(Scalar::zero()) {
            Some((self.color, Ray::new(record.point, direction)))
        } else {
            None
        }
    }
}

impl Refractor {
    /// The ratio of the refraction indices on the two sides of the surface,
    /// in the order in which the ray meets them: the reciprocal of the index
    /// for a ray that enters the body, the index itself for one that leaves.
    /// `invert` computes the reciprocal, and is called only for an entering ray.
    pub fn refraction_ratio<F: FnOnce(Scalar) -> Scalar>(&self, front_face: bool, invert: F) -> (r:
        Scalar)
        requires
            front_face ==> call_requires(invert, (self.refr_coeff,)),
        ensures
            !front_face ==> r == self.refr_coeff,
            front_face ==> call_ensures(invert, (self.refr_coeff,), r),
    {
        if front_face {
            invert(self.refr_coeff)
        } else {
            self.refr_coeff
        }
    }

    /// Decides between mirroring and refracting. `draw` supplies the uniform
    /// number, and is called only where refraction is possible at all.
    pub fn reflects<F: FnOnce() -> Scalar>(bend: Scalar, reflectance: Scalar, draw: F) -> (r: bool)
        requires
            !(Scalar { bits: ONE_BITS }).less(bend) ==> call_requires(draw, ()),
        ensures
            (Scalar { bits: ONE_BITS }).less(bend) ==> r,
            !(Scalar { bits: ONE_BITS }).less(bend) ==> exists|d: Scalar|
                call_ensures(draw, (), d) && r == mirrors(bend, reflectance, d),
    {
        if bend.gt(Scalar::one()) {
            true
        } else {
            let d: Scalar = draw();
            let r: bool = reflectance.gt(d);
            assert(call_ensures(draw, (), d) && r == mirrors(bend, reflectance, d));
            r
        }
    }

    /// Sends the ray on along `direction`, the mirrored or refracted and then
    /// blurred incoming direction. Never absorbs.
    pub fn scatter(&self, record: &HitRecord, direction: Vec3) -> (r: Option<(Color, Ray)>)
        ensures
            r == Some((self.color, Ray { origin: record.point, direction })),
    {
        Some((self.color, Ray::new(record.point, direction)))
    }
}

} // verus!
