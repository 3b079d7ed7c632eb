use crate::graphics::Color;
use crate::math::scalar::{lemma_div_nonneg, lemma_mul_nonneg, Scalar, MAX_RAW};
use crate::math::vec3::{lemma_norm_nonneg, Vector, Vertex};
use crate::math::PI_RAW;
use vstd::prelude::*;

verus! {

/// An emitter of the scene: a source at infinity or a point source.
#[derive(Clone, Copy, Debug, PartialEq, Eq, Structural)]
pub enum Light {
    Directional(DirectionalLight),
    Spherical(SphericalLight),
}

impl Light {
    /// The base color of the emitted light.
    pub open spec fn spec_color(self) -> Color {
        match self {
            Light::Directional(l) => l.base_color,
            Light::Spherical(l) => l.base_color,
        }
    }

    pub fn color(&self) -> (r: Color)
        ensures
            r == self.spec_color(),
    {
        match self {
            Light::Directional(l) => l.color(),
            Light::Spherical(l) => l.color(),
        }
    }

    /// The unit direction pointing from a surface point toward the light.
    pub open spec fn spec_direction_from(self, point: Vertex) -> Vector {
        match self {
            Light::Directional(l) => l.spec_direction_from(point),
            Light::Spherical(l) => l.spec_direction_from(point),
        }
    }

    pub fn direction_from(&self, point: Vertex) -> (r: Vector)
        ensures
            r == self.spec_direction_from(point),
    {
        match self {
            Light::Directional(l) => l.direction_from(point),
            Light::Spherical(l) => l.direction_from(point),
        }
    }

    /// How far the light stands from a surface point; a directional light
    /// stands at the clamp bound, farther than any representable hit.
    pub open spec fn spec_distance(self, point: Vertex) -> Scalar {
        match self {
            Light::Directional(l) => l.spec_distance(point),
            Light::Spherical(l) => l.spec_distance(point),
        }
    }

    pub fn distance(&self, point: Vertex) -> (r: Scalar)
        ensures
            r == self.spec_distance(point),
    {
        match self {
            Light::Directional(l) => l.distance(point),
            Light::Spherical(l) => l.distance(point),
        }
    }

    /// The radiant intensity reaching a surface point, before the surface's
    /// own reflectance is applied.
    pub open spec fn spec_intensity(self, point: Vertex) -> Scalar {
        match self {
            Light::Directional(l) => l.spec_intensity(point),
            Light::Spherical(l) => l.spec_intensity(point),
        }
    }

    pub fn intensity(&self, point: Vertex) -> (r: Scalar)
        ensures
            r == self.spec_intensity(point),
    {
        match self {
            Light::Directional(l) => l.intensity(point),
            Light::Spherical(l) => l.intensity(point),
        }
    }

    /// The intensity the light was registered with, before any falloff.
    pub open spec fn spec_base_intensity(self) -> Scalar {
        match self {
            Light::Directional(l) => l.base_intensity,
            Light::Spherical(l) => l.base_intensity,
        }
    }
}

impl From<DirectionalLight> for Light {
    fn from(l: DirectionalLight) -> (r: Light) {
        Light::Directional(l)
    }
}

impl vstd::std_specs::convert::FromSpecImpl<DirectionalLight> for Light {
    open spec fn obeys_from_spec() -> bool {
        true
    }

    open spec fn from_spec(l: DirectionalLight) -> Light {
        Light::Directional(l)
    }
}

impl From<SphericalLight> for Light {
    fn from(l: SphericalLight) -> (r: Light) {
        Light::Spherical(l)
    }
}

impl vstd::std_specs::convert::FromSpecImpl<SphericalLight> for Light {
    open spec fn obeys_from_spec() -> bool {
        true
    }

    open spec fn from_spec(l: SphericalLight) -> Light {
        Light::Spherical(l)
    }
}

/// A light shining from infinity along a fixed direction, with no falloff.
#[derive(Clone, Copy, Debug, PartialEq, Eq, Structural)]
pub struct DirectionalLight {
    pub direction: Vector,
    pub base_color: Color,
    pub base_intensity: Scalar,
}

impl DirectionalLight {
    pub fn color(&self) -> (r: Color)
        ensures
            r == self.base_color,
    {
        self.base_color
    }

    /// The stored direction, normalized and reversed: the same for every
    /// surface point.
    pub open spec fn spec_direction_from(self, point: Vertex) -> Vector {
        self.direction.spec_normalize().spec_vneg()
    }

    pub fn direction_from(&self, point: Vertex) -> (r: Vector)
        ensures
            r == self.spec_direction_from(point),
    {
        self.direction.normalize().neg()
    }

    /// A directional light stands farther than any representable hit: at the
    /// clamp bound of the scalar range.
    pub open spec fn spec_distance(self, point: Vertex) -> Scalar {
        Scalar { raw: MAX_RAW }
    }

    pub fn distance(&self, point: Vertex) -> (r: Scalar)
        ensures
            r == self.spec_distance(point),
    {
        Scalar { raw: MAX_RAW }
    }

    /// Intensity does not fall off with distance.
    pub open spec fn spec_intensity(self, point: Vertex) -> Scalar {
        self.base_intensity
    }

    pub fn intensity(&self, point: Vertex) -> (r: Scalar)
        ensures
            r == self.spec_intensity(point),
    {
        self.base_intensity
    }
}

/// A point light at a position, falling off with the square of the distance.
#[derive(Clone, Copy, Debug, PartialEq, Eq, Structural)]
pub struct SphericalLight {
    pub position: Vertex,
    pub base_color: Color,
    pub base_intensity: Scalar,
}

impl SphericalLight {
    pub fn color(&self) -> (r: Color)
        ensures
            r == self.base_color,
    {
        self.base_color
    }

    /// The unit direction from the surface point toward the light's position.
    pub open spec fn spec_direction_from(self, hitpoint: Vertex) -> Vector {
        Vector::spec_from_vertices(hitpoint, self.position).spec_normalize()
    }

    pub fn direction_from(&self, hitpoint: Vertex) -> (r: Vector)
        ensures
            r == self.spec_direction_from(hitpoint),
    {
        Vector::from_vertices(hitpoint, self.position).normalize()
    }

    /// The distance from the surface point to the light's position.
    pub open spec fn spec_distance(self, hitpoint: Vertex) -> Scalar {
        Vector::spec_from_vertices(hitpoint, self.position).spec_norm()
    }

    pub fn distance(&self, hitpoint: Vertex) -> (r: Scalar)
        ensures
            r == self.spec_distance(hitpoint),
    {
        Vector::from_vertices(hitpoint, self.position).norm()
    }

    /// The inverse-square falloff of a point emitter: the base intensity
    /// spread over the sphere of radius `distance`.
    pub open spec fn spec_intensity(self, hitpoint: Vertex) -> Scalar {
        let d = Vector::spec_from_vertices(hitpoint, self.position).spec_norm();
        let d2 = d.spec_mul(d);
        self.base_intensity.spec_div(
            Scalar::spec_from_int(4i64).spec_mul(Scalar { raw: PI_RAW }).spec_mul(d2),
        )
    }

    pub fn intensity(&self, hitpoint: Vertex) -> (r: Scalar)
        ensures
            r == self.spec_intensity(hitpoint),
    {
        let d = Vector::from_vertices(hitpoint, self.position).norm();
        let d2 = d.mul(d);
        self.base_intensity.div(Scalar::from_int(4).mul(Scalar { raw: PI_RAW }).mul(d2))
    }
}

/// A light registered with a non-negative base intensity delivers a
/// non-negative intensity at every point.
pub proof fn lemma_intensity_nonneg(light: Light, point: Vertex)
    requires
        light.spec_base_intensity().raw >= 0,
    ensures
        light.spec_intensity(point).raw >= 0,
{
    match light {
        Light::Directional(l) => {},
        Light::Spherical(l) => {
            let d = Vector::spec_from_vertices(point, l.position).spec_norm();
            lemma_norm_nonneg(Vector::spec_from_vertices(point, l.position));
            lemma_mul_nonneg(d, d);
            let four_pi = Scalar::spec_from_int(4i64).spec_mul(Scalar { raw: PI_RAW });
            lemma_mul_nonneg(Scalar::spec_from_int(4i64), Scalar { raw: PI_RAW });
            lemma_mul_nonneg(four_pi, d.spec_mul(d));
            lemma_div_nonneg(l.base_intensity, four_pi.spec_mul(d.spec_mul(d)));
        },
    }
}

} // verus!
