use rusty::math::scalar::Scalar;
use rusty::math::vec3::{Vector, Vertex};
use rusty::math::{solve_quadratic, QuadraticSolution};

fn s(i: i64) -> Scalar {
    Scalar::from_int(i)
}

#[test]
fn quadratic() {
    assert_eq!(solve_quadratic(s(2), s(-4), s(7)), QuadraticSolution::Zero);
    assert_eq!(
        solve_quadratic(s(-3), s(-24), s(-48)),
        QuadraticSolution::One(s(-4))
    );
    assert_eq!(
        solve_quadratic(s(4), s(-4), s(-24)),
        QuadraticSolution::Two(s(3), s(-2))
    );
}

#[test]
fn quadratic_two() {
    assert_eq!(
        solve_quadratic(s(1), s(5), s(6)),
        QuadraticSolution::Two(s(-2), s(-3))
    );
    assert_eq!(
        solve_quadratic(s(1), s(7), s(10)),
        QuadraticSolution::Two(s(-2), s(-5))
    );
    assert_eq!(
        solve_quadratic(s(15), s(5), s(0)),
        QuadraticSolution::Two(s(0), Scalar::from_ratio(-1, 3))
    );
}

#[test]
fn quadratic_one() {
    assert_eq!(solve_quadratic(s(1), s(8), s(16)), QuadraticSolution::One(s(-4)));
}

#[test]
fn quadratic_zero() {
    assert_eq!(solve_quadratic(s(1), s(2), s(3)), QuadraticSolution::Zero);
    assert_eq!(solve_quadratic(s(1), s(8), s(17)), QuadraticSolution::Zero);
}

#[test]
fn vector_from_vertices() {
    let v1 = Vertex {
        x: s(1),
        y: s(2),
        z: s(3),
    };
    let v2 = Vertex {
        x: s(10),
        y: s(0),
        z: s(100),
    };
    let expected = Vector {
        x: s(9),
        y: s(-2),
        z: s(97),
    };
    assert_eq!(Vector::from_vertices(v1, v2), expected);
}

#[test]
fn normalize_zero_vector() {
    let zero = Vector {
        x: s(0),
        y: s(0),
        z: s(0),
    };
    assert_eq!(zero.normalize(), zero);
}

#[test]
fn normalize_unit_axis() {
    let v = Vector {
        x: s(0),
        y: s(0),
        z: s(-7),
    };
    let expected = Vector {
        x: s(0),
        y: s(0),
        z: s(-1),
    };
    assert_eq!(v.normalize(), expected);
    assert_eq!(v.norm(), s(7));
}

#[test]
fn norm_pythagorean() {
    let v = Vector {
        x: s(3),
        y: s(4),
        z: s(0),
    };
    assert_eq!(v.norm(), s(5));
}

#[test]
fn dot_and_cross() {
    let a = Vector {
        x: s(1),
        y: s(2),
        z: s(3),
    };
    let b = Vector {
        x: s(4),
        y: s(-5),
        z: s(6),
    };
    assert_eq!(a.dot(b), s(12));
    let c = a.cross(b);
    assert_eq!(
        c,
        Vector {
            x: s(27),
            y: s(6),
            z: s(-13),
        }
    );
}

#[test]
fn scalar_saturates_instead_of_overflowing() {
    let big = Scalar { raw: i64::MAX };
    assert_eq!(big.add(big).raw, i64::MAX);
    assert_eq!(big.neg().raw, -i64::MAX);
    assert_eq!(big.mul(big).raw, i64::MAX);
    assert_eq!(s(1).div(s(0)).raw, i64::MAX);
    assert_eq!(s(-1).div(s(0)).raw, -i64::MAX);
    assert_eq!(s(0).div(s(0)).raw, 0);
}
