//! Rays, spheres, the scene, and one step of the radiance integrator.
//!
//! The numeric kernels (solving the quadratic of a ray and a sphere,
//! evaluating the surface at a ray parameter, sampling a material) round and
//! draw random numbers; callers hand them in as closures. What is decided
//! here: which root of a crossing counts, which sphere of a scene is hit
//! first, how the hit's normal is turned, and how a step of the integrator ends.

use vstd::prelude::*;
use crate::material::Material;
use crate::scalar::{Scalar, INFINITY_BITS};
use crate::vec_math::{Color, Point3, Vec3};

verus! {

/// The encoding of `0.001`: a ray that leaves a surface must travel at least
/// this far before it can hit anything, its own surface included.
pub const T_MIN_BITS: u64 = 0x3f50_624d_d2f1_a9fc;

#[derive(Clone, Copy, Debug)]
pub struct Ray {
    pub origin: Point3,
    pub direction: Vec3,
}

/// One intersection of a ray with a surface.
#[derive(Clone, Copy, Debug)]
pub struct HitRecord {
    pub point: Point3,
    /// Unit normal at `point`, turned against the incoming ray.
    pub normal: Vec3,
    pub material: Material,
    /// The ray parameter of `point`.
    pub t: Scalar,
    /// Whether the ray came from outside the body.
    pub front_face: bool,
}

/// The two parameters at which the line of a ray crosses a sphere: the roots
/// of `a t^2 + 2 half_b t + c`, with the discriminant that they were taken from.
#[derive(Clone, Copy, Debug)]
pub struct Crossing {
    pub discriminant: Scalar,
    /// The smaller root.
    pub near: Scalar,
    /// The larger root.
    pub far: Scalar,
}

/// A surface, evaluated at one ray parameter.
#[derive(Clone, Copy, Debug)]
pub struct Contact {
    pub point: Point3,
    /// Unit normal at `point`, pointing away from the body.
    pub outward_normal: Vec3,
    /// The dot product of the ray's direction and `outward_normal`.
    pub facing: Scalar,
}

pub struct Sphere {
    center: Point3,
    radius: Scalar,
    material: Material,
}

/// The spheres of a scene, in the order in which they were added.
pub struct Scene {
    pub hittables: Vec<Sphere>,
}

/// How one step of the integrator ends.
#[derive(Clone, Copy, Debug)]
pub enum Radiance {
    /// No light: the bounce budget is spent, or the surface swallowed the ray.
    Black,
    /// The ray left the scene: the light of the sky in its direction.
    Sky,
    /// The light that arrives along the scattered ray, traced with the
    /// remaining budget, tinted by the attenuation.
    Attenuated(Color, Ray, u32),
}

/// `bounds.0 <= t <= bounds.1`. No NaN lies within any bounds.
pub open spec fn within(t: Scalar, bounds: (Scalar, Scalar)) -> bool {
    bounds.0.at_most(t) && t.at_most(bounds.1)
}

/// The bounds within which the integrator looks for a hit: `[0.001, +inf]`.
pub open spec fn trace_bounds() -> (Scalar, Scalar) {
    (Scalar { bits: T_MIN_BITS }, Scalar { bits: INFINITY_BITS })
}

/// The sphere that a ray hits first among `crossings`, by its index, and the
/// ray parameter of the hit. Each sphere is asked in turn for its first root
/// between the lower bound and the nearest hit so far.
pub open spec fn nearest(crossings: Seq<Crossing>, bounds: (Scalar, Scalar)) -> Option<
    (int, Scalar),
>
    decreases crossings.len(),
{
    if crossings.len() == 0 {
        None
    } else {
        let before = nearest(crossings.drop_last(), bounds);
        let closest = match before {
            Some((_, t)) => t,
            None => bounds.1,
        };
        match crossings.last().first_within((bounds.0, closest)) {
            Some(t) => Some((crossings.len() - 1, t)),
            None => before,
        }
    }
}

/// How a step ends after a hit, given what the material answered.
pub open spec fn bounced(depth: u32, scattered: Option<(Color, Ray)>) -> Radiance {
    match scattered {
        Some((attenuation, ray)) => Radiance::Attenuated(attenuation, ray, (depth - 1) as u32),
        None => Radiance::Black,
    }
}

pub fn is_within_range(t: Scalar, t_bounds: (Scalar, Scalar)) -> (r: bool)
    ensures
        r == within(t, t_bounds),
{
    t.ge(t_bounds.0) && t.le(t_bounds.1)
}

impl Ray {
    pub fn new(origin: Point3, direction: Vec3) -> (r: Ray)
        ensures
            r == (Ray { origin, direction }),
    {
        Ray { origin, direction }
    }

    /// One step of the integrator: black once the budget `depth` is spent;
    /// else the sky where the ray hits nothing beyond `0.001`; else whatever
    /// the material at the nearest hit makes of the ray. At depth 0 no kernel
    /// is called.
    pub fn color<F, G, H>(
        &self,
        scene: &Scene,
        depth: u32,
        crossing: F,
        surface: G,
        scatter: H,
    ) -> (r: Radiance) where
        F: Fn(&Sphere, &Ray) -> Crossing,
        G: Fn(&Sphere, &Ray, Scalar) -> Contact,
        H: FnOnce(&HitRecord, &Ray) -> Option<(Color, Ray)>,

        requires
            depth > 0 ==> forall|i: int|
                0 <= i < scene.hittables.len() ==> call_requires(
                    crossing,
                    (&#[trigger] scene.hittables[i], self),
                ),
            depth > 0 ==> forall|i: int, t: Scalar|
                0 <= i < scene.hittables.len() ==> call_requires(
                    surface,
                    (&#[trigger] scene.hittables[i], self, t),
                ),
            depth > 0 ==> forall|record: HitRecord| #[trigger]
                call_requires(scatter, (&record, self)),
        ensures
            depth == 0 ==> r == Radiance::Black,
            depth > 0 ==> exists|hit: Option<HitRecord>|
                scene.hits(*self, trace_bounds(), crossing, surface, hit) && match hit {
                    None => r == Radiance::Sky,
                    Some(record) => exists|scattered: Option<(Color, Ray)>|
                        call_ensures(scatter, (&record, self), scattered) && r == bounced(
                            depth,
                            scattered,
                        ),
                },
    {
        if depth == 0 {
            return Radiance::Black;
        }
        let bounds: (Scalar, Scalar) = (
            Scalar::from_bits(T_MIN_BITS),
            Scalar::from_bits(INFINITY_BITS),
        );
        let hit: Option<HitRecord> = scene.hit(self, bounds, crossing, surface);
        assert(bounds == trace_bounds());
        assert(scene.hits(*self, trace_bounds(), crossing, surface, hit));
        match hit {
            None => Radiance::Sky,
            Some(record) => {
                let scattered: Option<(Color, Ray)> = scatter(&record, self);
                let r: Radiance = match scattered {
                    Some((attenuation, ray)) => Radiance::Attenuated(attenuation, ray, depth - 1),
                    None => Radiance::Black,
                };
                assert(call_ensures(scatter, (&record, self), scattered) && r == bounced(
                    depth,
                    scattered,
                ));
                r
            },
        }
    }
}

impl HitRecord {
    /// The record of a hit at `point`, where the surface's outward normal is
    /// `outward_normal` and its dot product with the ray's direction is `facing`.
    pub open spec fn made(
        point: Point3,
        outward_normal: Vec3,
        material: Material,
        facing: Scalar,
        t: Scalar,
    ) -> HitRecord {
        let front_face = facing.less(Scalar { bits: 0 });
        HitRecord {
            point,
            normal: if front_face {
                outward_normal
            } else {
                outward_normal.negated()
            },
            material,
            t,
            front_face,
        }
    }

    /// Records a hit. The ray struck the front face iff it ran against the
    /// outward normal, `facing < 0`; otherwise it came from within, and the
    /// recorded normal is the outward one mirrored.
    pub fn new(
        point: Point3,
        outward_normal: Vec3,
        material: Material,
        facing: Scalar,
        t: Scalar,
    ) -> (r: HitRecord)
        ensures
            r == HitRecord::made(point, outward_normal, material, facing, t),
    {
        let front_face: bool = facing.lt(Scalar::zero());
        let normal: Vec3 = if front_face {
            outward_normal
        } else {
            outward_normal.neg()
        };
        HitRecord { point, normal, material, t, front_face }
    }
}

impl Crossing {
    /// Whether the roots are in order. A NaN is out of order with nothing.
    pub open spec fn ordered(self) -> bool {
        !self.far.less(self.near)
    }

    /// Whether `t` is a root of this crossing that lies within `bounds`.
    pub open spec fn offers(self, t: Scalar, bounds: (Scalar, Scalar)) -> bool {
        !self.discriminant.less(Scalar { bits: 0 }) && (t == self.near || t == self.far) && within(
            t,
            bounds,
        )
    }

    /// The root that counts as the hit: none where the discriminant is
    /// negative; else the smaller root if it lies within `bounds`; else the
    /// larger if that one does.
    pub open spec fn first_within(self, bounds: (Scalar, Scalar)) -> Option<Scalar> {
        if self.discriminant.less(Scalar { bits: 0 }) {
            None
        } else if within(self.near, bounds) {
            Some(self.near)
        } else if within(self.far, bounds) {
            Some(self.far)
        } else {
            None
        }
    }

    /// The ray parameter of the hit within `t_bounds`, if there is one.
    pub fn hit(&self, t_bounds: (Scalar, Scalar)) -> (r: Option<Scalar>)
        ensures
            r == self.first_within(t_bounds),
    {
        if self.discriminant.lt(Scalar::zero()) {
            None
        } else if is_within_range(self.near, t_bounds) {
            Some(self.near)
        } else if is_within_range(self.far, t_bounds) {
            Some(self.far)
        } else {
            None
        }
    }
}

impl Sphere {
    #[verifier::type_invariant]
    spec fn positive_radius(self) -> bool {
        (Scalar { bits: 0 }).less(self.radius)
    }

    pub closed spec fn center_of(self) -> Point3 {
        self.center
    }

    pub closed spec fn radius_of(self) -> Scalar {
        self.radius
    }

    pub closed spec fn material_of(self) -> Material {
        self.material
    }

    /// A sphere, if `radius` is a positive number; else nothing.
    pub fn new(center: Point3, radius: Scalar, material: Material) -> (r: Option<Sphere>)
        ensures
            r.is_some() == (Scalar { bits: 0 }).less(radius),
            r.is_some() ==> r.unwrap().center_of() == center && r.unwrap().radius_of() == radius
                && r.unwrap().material_of() == material,
    {
        if radius.gt(Scalar::zero()) {
            Some(Sphere { center, radius, material })
        } else {
            None
        }
    }

    pub fn center(&self) -> (r: Point3)
        ensures
            r == self.center_of(),
    {
        self.center
    }

    pub fn radius(&self) -> (r: Scalar)
        ensures
            r == self.radius_of(),
            (Scalar { bits: 0 }).less(r),
    {
        proof {
            use_type_invariant(self);
        }
        self.radius
    }

    pub fn material(&self) -> (r: Material)
        ensures
            r == self.material_of(),
    {
        self.material
    }

    /// Whether `record` is what `surface` makes of a hit of `ray` on this
    /// sphere at parameter `t`.
    pub open spec fn records<G: Fn(&Sphere, &Ray, Scalar) -> Contact>(
        self,
        ray: Ray,
        t: Scalar,
        surface: G,
        record: HitRecord,
    ) -> bool {
        exists|contact: Contact|
            call_ensures(surface, (&self, &ray, t), contact) && record == HitRecord::made(
                contact.point,
                contact.outward_normal,
                self.material_of(),
                contact.facing,
                t,
            )
    }

    /// Whether `hit` is the answer to the root `choice`: no hit where no root
    /// counts, else a record of the hit at that root.
    pub open spec fn answers<G: Fn(&Sphere, &Ray, Scalar) -> Contact>(
        self,
        ray: Ray,
        choice: Option<Scalar>,
        surface: G,
        hit: Option<HitRecord>,
    ) -> bool {
        match choice {
            None => hit.is_none(),
            Some(t) => hit.is_some() && self.records(ray, t, surface, hit.unwrap()),
        }
    }

    /// Where `ray` hits the sphere within `t_bounds`. `crossing` solves the
    /// quadratic; `surface` evaluates the sphere at the root that counts.
    pub fn hit<F, G>(&self, ray: &Ray, t_bounds: (Scalar, Scalar), crossing: &F, surface: &G) -> (r:
        Option<HitRecord>) where
        F: Fn(&Sphere, &Ray) -> Crossing,
        G: Fn(&Sphere, &Ray, Scalar) -> Contact,

        requires
            call_requires(*crossing, (self, ray)),
            forall|t: Scalar| #[trigger] call_requires(*surface, (self, ray, t)),
        ensures
            exists|c: Crossing|
                call_ensures(*crossing, (self, ray), c) && self.answers(
                    *ray,
                    c.first_within(t_bounds),
                    *surface,
                    r,
                ),
    {
        let c: Crossing = crossing(self, ray);
        match c.hit(t_bounds) {
            None => None,
            Some(t) => {
                let contact: Contact = surface(self, ray, t);
                Some(
                    HitRecord::new(
                        contact.point,
                        contact.outward_normal,
                        self.material,
                        contact.facing,
                        t,
                    ),
                )
            },
        }
    }
}

impl Scene {
    /// Whether `hit` is a possible answer of the scene to `ray`: the kernels
    /// being what they are, some crossings that `crossing` may report for the
    /// spheres make `hit` the record of the nearest of them.
    pub open spec fn hits<F, G>(
        self,
        ray: Ray,
        bounds: (Scalar, Scalar),
        crossing: F,
        surface: G,
        hit: Option<HitRecord>,
    ) -> bool where F: Fn(&Sphere, &Ray) -> Crossing, G: Fn(&Sphere, &Ray, Scalar) -> Contact {
        exists|crossings: Seq<Crossing>|
            self.reported(ray, crossing, crossings) && match nearest(crossings, bounds) {
                None => hit.is_none(),
                Some((i, t)) => hit.is_some() && hit.unwrap().t == t
                    && self.hittables[i].records(ray, t, surface, hit.unwrap()),
            }
    }

    /// Whether `crossings` holds, sphere by sphere, what `crossing` reports
    /// for `ray`.
    pub open spec fn reported<F: Fn(&Sphere, &Ray) -> Crossing>(
        self,
        ray: Ray,
        crossing: F,
        crossings: Seq<Crossing>,
    ) -> bool {
        crossings.len() == self.hittables.len() && forall|i: int|
            0 <= i < crossings.len() ==> call_ensures(
                crossing,
                (&self.hittables[i], &ray),
                #[trigger] crossings[i],
            )
    }

    /// The empty scene.
    pub fn new() -> (r: Scene)
        ensures
            r.hittables@ == Seq::<Sphere>::empty(),
    {
        Scene { hittables: Vec::new() }
    }

    /// Adds a sphere behind those that are there.
    pub fn add(&mut self, hittable: Sphere)
        ensures
            final(self).hittables@ == old(self).hittables@.push(hittable),
    {
        self.hittables.push(hittable);
    }

    /// The nearest hit of `ray` within `t_bounds` on any sphere of the scene.
    /// The spheres are asked in the order in which they were added, each for
    /// a hit no farther than the nearest so far.
    pub fn hit<F, G>(&self, ray: &Ray, t_bounds: (Scalar, Scalar), crossing: F, surface: G) -> (r:
        Option<HitRecord>) where
        F: Fn(&Sphere, &Ray) -> Crossing,
        G: Fn(&Sphere, &Ray, Scalar) -> Contact,

        requires
            forall|i: int|
                0 <= i < self.hittables.len() ==> call_requires(
                    crossing,
                    (&#[trigger] self.hittables[i], ray),
                ),
            forall|i: int, t: Scalar|
                0 <= i < self.hittables.len() ==> call_requires(
                    surface,
                    (&#[trigger] self.hittables[i], ray, t),
                ),
        ensures
            self.hits(*ray, t_bounds, crossing, surface, r),
    {
        let mut result: Option<HitRecord> = None;
        let mut closest: Scalar = t_bounds.1;
        let ghost mut seen: Seq<Crossing> = Seq::empty();
        let mut k: usize = 0;
        while k < self.hittables.len()
            invariant
                k <= self.hittables.len(),
                seen.len() == k,
                forall|i: int|
                    0 <= i < self.hittables.len() ==> call_requires(
                        crossing,
                        (&#[trigger] self.hittables[i], ray),
                    ),
                forall|i: int, t: Scalar|
                    0 <= i < self.hittables.len() ==> call_requires(
                        surface,
                        (&#[trigger] self.hittables[i], ray, t),
                    ),
                forall|i: int|
                    0 <= i < k ==> call_ensures(
                        crossing,
                        (&self.hittables[i], ray),
                        #[trigger] seen[i],
                    ),
                match nearest(seen, t_bounds) {
                    None => result.is_none() && closest == t_bounds.1,
                    Some((i, t)) => 0 <= i < k && result.is_some() && result.unwrap().t == t
                        && closest == t && self.hittables[i].records(
                        *ray,
                        t,
                        surface,
                        result.unwrap(),
                    ),
                },
            decreases self.hittables.len() - k,
        {
            let sphere: &Sphere = &self.hittables[k];
            let found: Option<HitRecord> = sphere.hit(ray, (t_bounds.0, closest), &crossing, &surface);
            proof {
                let c: Crossing = choose|c: Crossing|
                    call_ensures(crossing, (sphere, ray), c) && sphere.answers(
                        *ray,
                        c.first_within((t_bounds.0, closest)),
                        surface,
                        found,
                    );
                let grown: Seq<Crossing> = seen.push(c);
                assert(grown.drop_last() =~= seen);
                assert(grown.last() == c);
                assert forall|i: int| 0 <= i < k + 1 implies call_ensures(
                    crossing,
                    (&self.hittables[i], ray),
                    #[trigger] grown[i],
                ) by {
                    if i < k {
                        assert(grown[i] == seen[i]);
                    }
                }
                seen = grown;
            }
            if let Some(record) = found {
                closest = record.t;
                result = Some(record);
            }
            k += 1;
        }
        assert(self.reported(*ray, crossing, seen));
        result
    }
}

/// What the scene answers is on offer. Where `nearest` names no sphere, no
/// crossing has a root within the bounds. Where it names one, the parameter
/// that it gives is a root of that sphere's crossing and lies within the bounds.
pub proof fn nearest_is_on_offer(crossings: Seq<Crossing>, bounds: (Scalar, Scalar))
    ensures
        match nearest(crossings, bounds) {
            None => forall|i: int, u: Scalar|
                0 <= i < crossings.len() ==> !#[trigger] crossings[i].offers(u, bounds),
            Some((k, t)) => 0 <= k < crossings.len() && crossings[k].offers(t, bounds),
        },
    decreases crossings.len(),
{
    if crossings.len() > 0 {
        let earlier = crossings.drop_last();
        nearest_is_on_offer(earlier, bounds);
        if nearest(crossings, bounds).is_none() {
            assert forall|i: int, u: Scalar| 0 <= i < crossings.len() implies !#[trigger] crossings[i].offers(
                u,
                bounds,
            ) by {
                if i < earlier.len() {
                    assert(earlier[i] == crossings[i]);
                }
            }
        } else if nearest(crossings, bounds) == nearest(earlier, bounds) {
            let k = nearest(earlier, bounds).unwrap().0;
            assert(earlier[k] == crossings[k]);
        }
    }
}

/// A trace keeps its distance: whatever the crossings, the nearest hit
/// within the integrator's bounds lies no closer than `0.001`. A ray is
/// therefore not stopped at once by the surface that it leaves, whose
/// crossing has a root at or about zero.
pub proof fn a_trace_keeps_its_distance(crossings: Seq<Crossing>)
    ensures
        match nearest(crossings, trace_bounds()) {
            None => true,
            Some((_, t)) => (Scalar { bits: T_MIN_BITS }).at_most(t),
        },
{
    nearest_is_on_offer(crossings, trace_bounds());
}

/// The scene's answer is the nearest root on offer. Let every crossing have
/// its roots in order. Then no sphere added before the one that `nearest`
/// names offers a smaller root than the parameter it gives, and every root
/// that a sphere added after it offers is larger.
pub proof fn nearest_is_closest(crossings: Seq<Crossing>, bounds: (Scalar, Scalar))
    requires
        forall|i: int| 0 <= i < crossings.len() ==> (#[trigger] crossings[i]).ordered(),
    ensures
        match nearest(crossings, bounds) {
            None => true,
            Some((k, t)) => forall|i: int, u: Scalar|
                0 <= i < crossings.len() && #[trigger] crossings[i].offers(u, bounds) ==> t.at_most(
                    u,
                ) && (i > k ==> t.less(u)),
        },
    decreases crossings.len(),
{
    if crossings.len() > 0 {
        let earlier = crossings.drop_last();
        let last = crossings.last();
        assert forall|i: int| 0 <= i < earlier.len() implies (#[trigger] earlier[i]).ordered() by {
            assert(earlier[i] == crossings[i]);
        }
        nearest_is_closest(earlier, bounds);
        nearest_is_on_offer(earlier, bounds);
        let before = nearest(earlier, bounds);
        let closest = match before {
            Some((_, t)) => t,
            None => bounds.1,
        };
        let narrowed = (bounds.0, closest);
        assert forall|i: int, u: Scalar|
            0 <= i < earlier.len() && #[trigger] crossings[i].offers(u, bounds) implies earlier[i].offers(
            u,
            bounds,
        ) by {
            assert(earlier[i] == crossings[i]);
        }
        match last.first_within(narrowed) {
            Some(t) => {
                assert forall|i: int, u: Scalar|
                    0 <= i < crossings.len() && #[trigger] crossings[i].offers(
                        u,
                        bounds,
                    ) implies t.at_most(u) by {
                    if i < earlier.len() {
                        assert(earlier[i].offers(u, bounds));
                    }
                }
            },
            None => {
                assert forall|u: Scalar| #[trigger] last.offers(u, bounds) implies match before {
                    Some((_, t)) => t.less(u),
                    None => false,
                } by {
                    assert(!within(u, narrowed));
                }
                if let Some((k, t)) = before {
                    assert forall|i: int, u: Scalar|
                        0 <= i < crossings.len() && #[trigger] crossings[i].offers(
                            u,
                            bounds,
                        ) implies t.at_most(u) && (i > k ==> t.less(u)) by {
                        if i < earlier.len() {
                            assert(earlier[i].offers(u, bounds));
                        }
                    }
                }
            },
        }
    }
}

} // verus!
