use crate::math::scalar::{
    abs_i64, abs_int, is_sqrt_of, isqrt, isqrt_u128, lemma_isqrt_exists, lemma_sqrt_of_unique,
    sat64, Scalar, MAX_RAW,
};
use vstd::prelude::*;

verus! {

/// A position in space.
#[derive(Clone, Copy, Debug, PartialEq, Eq, Structural)]
pub struct Vertex {
    pub x: Scalar,
    pub y: Scalar,
    pub z: Scalar,
}

/// A displacement or direction in space.
#[derive(Clone, Copy, Debug, PartialEq, Eq, Structural)]
pub struct Vector {
    pub x: Scalar,
    pub y: Scalar,
    pub z: Scalar,
}

impl Vector {
    /// The vector with all components zero.
    pub open spec fn spec_zero() -> Vector {
        Vector { x: Scalar { raw: 0 }, y: Scalar { raw: 0 }, z: Scalar { raw: 0 } }
    }

    pub open spec fn spec_from_vertices(v1: Vertex, v2: Vertex) -> Vector {
        Vector { x: v2.x.spec_sub(v1.x), y: v2.y.spec_sub(v1.y), z: v2.z.spec_sub(v1.z) }
    }

    /// The displacement leading from `v1` to `v2`.
    pub fn from_vertices(v1: Vertex, v2: Vertex) -> (r: Vector)
        ensures
            r == Vector::spec_from_vertices(v1, v2),
    {
        Vector { x: v2.x.sub(v1.x), y: v2.y.sub(v1.y), z: v2.z.sub(v1.z) }
    }

    /// The sum of the squared raw parts; the norm's raw part is its rounded
    /// square root.
    pub open spec fn spec_norm_sq_raw(self) -> int {
        self.x.raw * self.x.raw + self.y.raw * self.y.raw + self.z.raw * self.z.raw
    }

    /// What `norm` returns.
    pub open spec fn spec_norm(self) -> Scalar {
        Scalar { raw: sat64(isqrt(self.spec_norm_sq_raw())) }
    }

    /// The length of the vector, rounded down to the raw grid and clamped.
    pub fn norm(&self) -> (r: Scalar)
        ensures
            r == self.spec_norm(),
    {
        let ax: u64 = abs_i64(self.x.raw);
        let ay: u64 = abs_i64(self.y.raw);
        let az: u64 = abs_i64(self.z.raw);
        proof {
            lemma_abs_square(self.x.raw as int, ax as int);
            lemma_abs_square(self.y.raw as int, ay as int);
            lemma_abs_square(self.z.raw as int, az as int);
        }
        let sum: u128 = (ax as u128) * (ax as u128) + (ay as u128) * (ay as u128) + (az as u128)
            * (az as u128);
        let s: u64 = isqrt_u128(sum);
        proof {
            lemma_isqrt_exists(sum as int);
            lemma_sqrt_of_unique(sum as int, s as int, isqrt(sum as int));
        }
        if s > MAX_RAW as u64 {
            Scalar { raw: MAX_RAW }
        } else {
            Scalar { raw: s as i64 }
        }
    }

    /// What `normalize` returns.
    pub open spec fn spec_normalize(self) -> Vector {
        let n = self.spec_norm();
        if n.raw == 0 {
            Vector::spec_zero()
        } else {
            Vector { x: self.x.spec_div(n), y: self.y.spec_div(n), z: self.z.spec_div(n) }
        }
    }

    /// The vector scaled to unit length; the zero vector stays zero instead
    /// of failing on a division by zero.
    pub fn normalize(&self) -> (r: Vector)
        ensures
            r == self.spec_normalize(),
    {
        let n = self.norm();
        if n.raw == 0 {
            Vector { x: Scalar { raw: 0 }, y: Scalar { raw: 0 }, z: Scalar { raw: 0 } }
        } else {
            Vector { x: self.x.div(n), y: self.y.div(n), z: self.z.div(n) }
        }
    }

    pub open spec fn spec_cross(self, v: Vector) -> Vector {
        Vector {
            x: self.y.spec_mul(v.z).spec_sub(self.z.spec_mul(v.y)),
            y: self.z.spec_mul(v.x).spec_sub(self.x.spec_mul(v.z)),
            z: self.x.spec_mul(v.y).spec_sub(self.y.spec_mul(v.x)),
        }
    }

    /// The cross product of the two vectors.
    pub fn cross(&self, v: Vector) -> (r: Vector)
        ensures
            r == self.spec_cross(v),
    {
        Vector {
            x: self.y.mul(v.z).sub(self.z.mul(v.y)),
            y: self.z.mul(v.x).sub(self.x.mul(v.z)),
            z: self.x.mul(v.y).sub(self.y.mul(v.x)),
        }
    }

    pub open spec fn spec_dot(self, v: Vector) -> Scalar {
        self.x.spec_mul(v.x).spec_add(self.y.spec_mul(v.y)).spec_add(self.z.spec_mul(v.z))
    }

    /// The dot product of the two vectors.
    pub fn dot(&self, v: Vector) -> (r: Scalar)
        ensures
            r == self.spec_dot(v),
    {
        self.x.mul(v.x).add(self.y.mul(v.y)).add(self.z.mul(v.z))
    }

    pub open spec fn spec_vadd(self, rhs: Vector) -> Vector {
        Vector { x: self.x.spec_add(rhs.x), y: self.y.spec_add(rhs.y), z: self.z.spec_add(rhs.z) }
    }

    /// Component-wise sum.
    pub fn add(self, rhs: Vector) -> (r: Vector)
        ensures
            r == self.spec_vadd(rhs),
    {
        Vector { x: self.x.add(rhs.x), y: self.y.add(rhs.y), z: self.z.add(rhs.z) }
    }

    pub open spec fn spec_vsub(self, rhs: Vector) -> Vector {
        Vector { x: self.x.spec_sub(rhs.x), y: self.y.spec_sub(rhs.y), z: self.z.spec_sub(rhs.z) }
    }

    /// Component-wise difference.
    pub fn sub(self, rhs: Vector) -> (r: Vector)
        ensures
            r == self.spec_vsub(rhs),
    {
        Vector { x: self.x.sub(rhs.x), y: self.y.sub(rhs.y), z: self.z.sub(rhs.z) }
    }

    pub open spec fn spec_vneg(self) -> Vector {
        Vector { x: self.x.spec_neg(), y: self.y.spec_neg(), z: self.z.spec_neg() }
    }

    /// The opposite vector.
    pub fn neg(self) -> (r: Vector)
        ensures
            r == self.spec_vneg(),
    {
        Vector { x: self.x.neg(), y: self.y.neg(), z: self.z.neg() }
    }

    pub open spec fn spec_vmul(self, rhs: Scalar) -> Vector {
        Vector { x: self.x.spec_mul(rhs), y: self.y.spec_mul(rhs), z: self.z.spec_mul(rhs) }
    }

    /// The vector scaled by `rhs`.
    pub fn mul(self, rhs: Scalar) -> (r: Vector)
        ensures
            r == self.spec_vmul(rhs),
    {
        Vector { x: self.x.mul(rhs), y: self.y.mul(rhs), z: self.z.mul(rhs) }
    }

    pub open spec fn spec_vdiv(self, rhs: Scalar) -> Vector {
        Vector { x: self.x.spec_div(rhs), y: self.y.spec_div(rhs), z: self.z.spec_div(rhs) }
    }

    /// The vector scaled by the reciprocal of `rhs`.
    pub fn div(self, rhs: Scalar) -> (r: Vector)
        ensures
            r == self.spec_vdiv(rhs),
    {
        Vector { x: self.x.div(rhs), y: self.y.div(rhs), z: self.z.div(rhs) }
    }
}

/// Scaling the zero vector to unit length yields the zero vector again: the
/// division by a zero norm is guarded, not performed.
pub proof fn lemma_normalize_zero()
    ensures
        Vector::spec_zero().spec_normalize() == Vector::spec_zero(),
{
    let z = Vector::spec_zero();
    assert(z.spec_norm_sq_raw() == 0);
    lemma_isqrt_exists(0);
    assert(is_sqrt_of(0, 0));
    lemma_sqrt_of_unique(0, isqrt(0), 0);
}

/// A norm is never negative.
pub proof fn lemma_norm_nonneg(v: Vector)
    ensures
        v.spec_norm().raw >= 0,
{
    assert(v.spec_norm_sq_raw() >= 0) by (nonlinear_arith);
    lemma_isqrt_exists(v.spec_norm_sq_raw());
}

/// Squaring loses the sign: the square of a raw part is the square of its
/// magnitude.
proof fn lemma_abs_square(v: int, a: int)
    requires
        a == abs_int(v),
        -0x8000_0000_0000_0000 <= v <= 0x7fff_ffff_ffff_ffff,
    ensures
        a * a == v * v,
        0 <= a * a <= 0x4000_0000_0000_0000_0000_0000_0000_0000,
{
    assert(a * a == v * v && 0 <= a * a <= 0x4000_0000_0000_0000_0000_0000_0000_0000)
        by (nonlinear_arith)
        requires
            a == abs_int(v),
            -0x8000_0000_0000_0000 <= v <= 0x7fff_ffff_ffff_ffff,
    ;
}

} // verus!
