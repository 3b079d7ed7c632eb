use crate::graphics::Color;
use crate::math::scalar::Scalar;
use crate::math::vec3::{Vector, Vertex};
use crate::math::{solve_quadratic, spec_solve_quadratic, QuadraticSolution};
use crate::tracer::Ray;
use vstd::prelude::*;

verus! {

/// A surface of the scene: geometry together with shading parameters.
#[derive(Clone, Copy, Debug, PartialEq, Eq, Structural)]
pub enum Object {
    Plane(Plane),
    Sphere(Sphere),
}

impl Object {
    /// The base color of the surface.
    pub open spec fn spec_color(self) -> Color {
        match self {
            Object::Plane(o) => o.base_color,
            Object::Sphere(o) => o.base_color,
        }
    }

    pub fn color(&self) -> (r: Color)
        ensures
            r == self.spec_color(),
    {
        match self {
            Object::Plane(o) => o.color(),
            Object::Sphere(o) => o.color(),
        }
    }

    /// The fraction of incoming light the surface reflects diffusely.
    pub open spec fn spec_albedo(self) -> Scalar {
        match self {
            Object::Plane(o) => o.base_albedo,
            Object::Sphere(o) => o.base_albedo,
        }
    }

    pub fn albedo(&self) -> (r: Scalar)
        ensures
            r == self.spec_albedo(),
    {
        match self {
            Object::Plane(o) => o.albedo(),
            Object::Sphere(o) => o.albedo(),
        }
    }

    /// The nearest forward hit of `ray` on the surface, if any.
    pub open spec fn spec_intercept(self, ray: Ray) -> Option<Scalar> {
        match self {
            Object::Plane(o) => o.spec_intercept(ray),
            Object::Sphere(o) => o.spec_intercept(ray),
        }
    }

    pub fn intercept(&self, ray: &Ray) -> (r: Option<Scalar>)
        ensures
            r == self.spec_intercept(*ray),
    {
        match self {
            Object::Plane(o) => o.intercept(ray),
            Object::Sphere(o) => o.intercept(ray),
        }
    }

    /// The outward unit normal at a point taken to lie on the surface.
    pub open spec fn spec_compute_normal(self, hitpoint: Vertex) -> Vector {
        match self {
            Object::Plane(o) => o.spec_compute_normal(hitpoint),
            Object::Sphere(o) => o.spec_compute_normal(hitpoint),
        }
    }

    pub fn compute_normal(&self, hitpoint: Vertex) -> (r: Vector)
        ensures
            r == self.spec_compute_normal(hitpoint),
    {
        match self {
            Object::Plane(o) => o.compute_normal(hitpoint),
            Object::Sphere(o) => o.compute_normal(hitpoint),
        }
    }
}

impl From<Plane> for Object {
    fn from(o: Plane) -> (r: Object) {
        Object::Plane(o)
    }
}

impl vstd::std_specs::convert::FromSpecImpl<Plane> for Object {
    open spec fn obeys_from_spec() -> bool {
        true
    }

    open spec fn from_spec(o: Plane) -> Object {
        Object::Plane(o)
    }
}

impl From<Sphere> for Object {
    fn from(o: Sphere) -> (r: Object) {
        Object::Sphere(o)
    }
}

impl vstd::std_specs::convert::FromSpecImpl<Sphere> for Object {
    open spec fn obeys_from_spec() -> bool {
        true
    }

    open spec fn from_spec(o: Sphere) -> Object {
        Object::Sphere(o)
    }
}

/// An unbounded plane through `point` with the stored orientation `normal`.
#[derive(Clone, Copy, Debug, PartialEq, Eq, Structural)]
pub struct Plane {
    pub point: Vertex,
    pub normal: Vector,
    pub base_color: Color,
    pub base_albedo: Scalar,
}

impl Plane {
    pub fn color(&self) -> (r: Color)
        ensures
            r == self.base_color,
    {
        self.base_color
    }

    pub fn albedo(&self) -> (r: Scalar)
        ensures
            r == self.base_albedo,
    {
        self.base_albedo
    }

    /// What `intercept` returns: the plane is one-sided, so only a ray whose
    /// direction makes a strictly positive product with the stored normal can
    /// hit it, and only at a non-negative distance.
    pub open spec fn spec_intercept(self, ray: Ray) -> Option<Scalar> {
        let denom = self.normal.spec_dot(ray.direction);
        if denom.raw > 0 {
            let v = Vector::spec_from_vertices(ray.origin, self.point);
            let distance = v.spec_dot(self.normal).spec_div(denom);
            if distance.raw >= 0 {
                Some(distance)
            } else {
                None
            }
        } else {
            None
        }
    }

    /// The hit distance of `ray` along the plane, under the one-sided
    /// visibility policy: a ray approaching from the side the stored normal
    /// points into never hits.
    pub fn intercept(&self, ray: &Ray) -> (r: Option<Scalar>)
        ensures
            r == self.spec_intercept(*ray),
    {
        let denom = self.normal.dot(ray.direction);
        if denom.raw > 0 {
            let v = Vector::from_vertices(ray.origin, self.point);
            let distance = v.dot(self.normal).div(denom);
            if distance.raw >= 0 {
                return Some(distance);
            }
        }
        None
    }

    /// What `compute_normal` returns: always the flipped stored normal, the
    /// convention paired with the one-sided visibility test.
    pub open spec fn spec_compute_normal(self, hitpoint: Vertex) -> Vector {
        self.normal.spec_vneg()
    }

    pub fn compute_normal(&self, hitpoint: Vertex) -> (r: Vector)
        ensures
            r == self.spec_compute_normal(hitpoint),
    {
        self.normal.neg()
    }
}

/// A sphere around `center` with the given radius.
#[derive(Clone, Copy, Debug, PartialEq, Eq, Structural)]
pub struct Sphere {
    pub center: Vertex,
    pub radius: Scalar,
    pub base_color: Color,
    pub base_albedo: Scalar,
}

impl Sphere {
    pub fn color(&self) -> (r: Color)
        ensures
            r == self.base_color,
    {
        self.base_color
    }

    pub fn albedo(&self) -> (r: Scalar)
        ensures
            r == self.base_albedo,
    {
        self.base_albedo
    }

    /// What `intercept` returns: the quadratic along the ray is solved, and
    /// among its roots the smallest strictly positive one is taken.
    pub open spec fn spec_intercept(self, ray: Ray) -> Option<Scalar> {
        let l = Vector::spec_from_vertices(self.center, ray.origin);
        let a = ray.direction.spec_dot(ray.direction);
        let b = Scalar::spec_from_int(2i64).spec_mul(ray.direction.spec_dot(l));
        let c = l.spec_dot(l).spec_sub(self.radius.spec_mul(self.radius));
        match spec_solve_quadratic(a, b, c) {
            QuadraticSolution::Two(x1, x2) => {
                if x1.raw > 0 && x2.raw > 0 {
                    Some(x2.spec_min(x1))
                } else if x1.raw > 0 {
                    Some(x1)
                } else if x2.raw > 0 {
                    Some(x2)
                } else {
                    None
                }
            },
            QuadraticSolution::One(x) => {
                if x.raw > 0 {
                    Some(x)
                } else {
                    None
                }
            },
            QuadraticSolution::Zero => None,
        }
    }

    /// The hit distance of `ray` along the sphere: the nearest strictly
    /// positive root of the ray's quadratic, so the front surface wins over
    /// the back one.
    pub fn intercept(&self, ray: &Ray) -> (r: Option<Scalar>)
        ensures
            r == self.spec_intercept(*ray),
    {
        let l = Vector::from_vertices(self.center, ray.origin);
        let a = ray.direction.dot(ray.direction);
        let b = Scalar::from_int(2).mul(ray.direction.dot(l));
        let c = l.dot(l).sub(self.radius.mul(self.radius));
        match solve_quadratic(a, b, c) {
            QuadraticSolution::Two(x1, x2) => {
                if x1.raw > 0 && x2.raw > 0 {
                    Some(x2.min(x1))
                } else if x1.raw > 0 {
                    Some(x1)
                } else if x2.raw > 0 {
                    Some(x2)
                } else {
                    None
                }
            },
            QuadraticSolution::One(x) => {
                if x.raw > 0 {
                    Some(x)
                } else {
                    None
                }
            },
            QuadraticSolution::Zero => None,
        }
    }

    /// What `compute_normal` returns: the direction from the center to the
    /// hit point, scaled to unit length.
    pub open spec fn spec_compute_normal(self, hitpoint: Vertex) -> Vector {
        Vector::spec_from_vertices(self.center, hitpoint).spec_normalize()
    }

    pub fn compute_normal(&self, hitpoint: Vertex) -> (r: Vector)
        ensures
            r == self.spec_compute_normal(hitpoint),
    {
        Vector::from_vertices(self.center, hitpoint).normalize()
    }
}

/// The one-sided visibility policy, stated on its own: a ray whose direction
/// does not make a strictly positive product with the stored normal misses the
/// plane, whatever the unsigned geometry would say.
pub proof fn lemma_plane_one_sided(p: Plane, ray: Ray)
    requires
        p.normal.spec_dot(ray.direction).raw <= 0,
    ensures
        p.spec_intercept(ray) is None,
{
}

/// A reported hit never lies behind the ray's origin: every intercept
/// distance is non-negative, and on a sphere strictly positive.
pub proof fn lemma_intercept_distance_nonneg(o: Object, ray: Ray)
    ensures
        o.spec_intercept(ray) is Some ==> o.spec_intercept(ray)->Some_0.raw >= 0,
{
}

/// The nearest-root policy, stated on its own: when the ray's quadratic has
/// two strictly positive roots, the reported hit distance is the smaller of
/// the two, never the farther surface.
pub proof fn lemma_sphere_intercept_nearest(s: Sphere, ray: Ray, x1: Scalar, x2: Scalar)
    requires
        spec_solve_quadratic(
            ray.direction.spec_dot(ray.direction),
            Scalar::spec_from_int(2i64).spec_mul(
                ray.direction.spec_dot(Vector::spec_from_vertices(s.center, ray.origin)),
            ),
            Vector::spec_from_vertices(s.center, ray.origin).spec_dot(
                Vector::spec_from_vertices(s.center, ray.origin),
            ).spec_sub(s.radius.spec_mul(s.radius)),
        ) == QuadraticSolution::Two(x1, x2),
        x1.raw > 0,
        x2.raw > 0,
    ensures
        s.spec_intercept(ray) == Some(x2.spec_min(x1)),
        s.spec_intercept(ray)->Some_0.raw <= x1.raw,
        s.spec_intercept(ray)->Some_0.raw <= x2.raw,
{
}

} // verus!
