pub mod scalar;
pub mod vec3;

use crate::math::scalar::Scalar;
use vstd::prelude::*;

verus! {

/// Raw part of the scalar nearest the circle constant from below.
pub const PI_RAW: i64 = 205887;

/// Raw part of the scalar nearest `180 / pi` from below.
pub const DEG_PER_RAD_RAW: i64 = 3754936;

/// Raw part of the scalar nearest `pi / 180` from below.
pub const RAD_PER_DEG_RAW: i64 = 1143;

/// An angle measured in degrees.
#[derive(Clone, Copy, Debug, PartialEq, Eq, Structural)]
pub struct Degree(pub Scalar);

/// An angle measured in radians.
#[derive(Clone, Copy, Debug, PartialEq, Eq, Structural)]
pub struct Radian(pub Scalar);

impl From<Radian> for Degree {
    fn from(angle: Radian) -> (r: Degree) {
        Degree(angle.0.mul(Scalar { raw: DEG_PER_RAD_RAW }))
    }
}

impl vstd::std_specs::convert::FromSpecImpl<Radian> for Degree {
    open spec fn obeys_from_spec() -> bool {
        true
    }

    open spec fn from_spec(angle: Radian) -> Degree {
        Degree(angle.0.spec_mul(Scalar { raw: DEG_PER_RAD_RAW }))
    }
}

impl From<Degree> for Radian {
    fn from(angle: Degree) -> (r: Radian) {
        Radian(angle.0.mul(Scalar { raw: RAD_PER_DEG_RAW }))
    }
}

impl vstd::std_specs::convert::FromSpecImpl<Degree> for Radian {
    open spec fn obeys_from_spec() -> bool {
        true
    }

    open spec fn from_spec(angle: Degree) -> Radian {
        Radian(angle.0.spec_mul(Scalar { raw: RAD_PER_DEG_RAW }))
    }
}

/// The real roots of a quadratic equation: none, a double root, or two
/// distinct roots in no particular order.
#[derive(Clone, Copy, Debug, PartialEq, Eq, Structural)]
pub enum QuadraticSolution {
    Zero,
    One(Scalar),
    Two(Scalar, Scalar),
}

/// The discriminant `b*b - 4*a*c` of `a*x^2 + b*x + c`, as `solve_quadratic`
/// computes it.
pub open spec fn spec_discriminant(a: Scalar, b: Scalar, c: Scalar) -> Scalar {
    b.spec_mul(b).spec_sub(Scalar::spec_from_int(4i64).spec_mul(a).spec_mul(c))
}

/// What `solve_quadratic` returns: the three-way split on the sign of the
/// discriminant, with the root formulas evaluated in fixed point.
pub open spec fn spec_solve_quadratic(a: Scalar, b: Scalar, c: Scalar) -> QuadraticSolution {
    let disc = spec_discriminant(a, b, c);
    if disc.raw < 0 {
        QuadraticSolution::Zero
    } else if disc.raw == 0 {
        QuadraticSolution::One(Scalar::spec_from_ratio(-1i64, 2i64).spec_mul(b).spec_div(a))
    } else {
        let neg_b = Scalar::spec_from_int(-1i64).spec_mul(b);
        let root = disc.spec_sqrt();
        let two_a = Scalar::spec_from_int(2i64).spec_mul(a);
        QuadraticSolution::Two(
            neg_b.spec_add(root).spec_div(two_a),
            neg_b.spec_sub(root).spec_div(two_a),
        )
    }
}

/// Solve `a*x^2 + b*x + c == 0` over the reals: no real root when the
/// discriminant is negative, the double root `-b / 2a` when it is zero, and
/// the two roots `(-b +- sqrt(disc)) / 2a`, in unspecified order, when it is
/// positive.
pub fn solve_quadratic(a: Scalar, b: Scalar, c: Scalar) -> (r: QuadraticSolution)
    ensures
        r == spec_solve_quadratic(a, b, c),
{
    let discriminant = b.mul(b).sub(Scalar::from_int(4).mul(a).mul(c));
    if discriminant.raw < 0 {
        QuadraticSolution::Zero
    } else if discriminant.raw == 0 {
        QuadraticSolution::One(Scalar::from_ratio(-1, 2).mul(b).div(a))
    } else {
        let neg_b = Scalar::from_int(-1).mul(b);
        let root = discriminant.sqrt();
        let two_a = Scalar::from_int(2).mul(a);
        QuadraticSolution::Two(neg_b.add(root).div(two_a), neg_b.sub(root).div(two_a))
    }
}

} // verus!
