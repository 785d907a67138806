// Tuple algebra, exercised on whole fixed-point values: SCALE units are
// one whole, so 1.5 is written 15_000 and so on.

use tracer::tuple::{Color, Tuple, SCALE};

#[test]
fn can_create_tuple() {
    let t = Tuple::new(10_000, 20_000, 30_000, 40_000);
    assert_eq!(t.x, 10_000);
    assert_eq!(t.y, 20_000);
    assert_eq!(t.z, 30_000);
    assert_eq!(t.w, 40_000);
}

#[test]
fn vector_is_not_point() {
    let v = Tuple::vector(10_000, 20_000, 30_000);
    assert_eq!(v.w, 0);
}

#[test]
fn point_is_not_vector() {
    let p = Tuple::point(10_000, 20_000, 30_000);
    assert_eq!(p.w, SCALE);
}

#[test]
fn can_compare_tuples() {
    let t1 = Tuple::new(10_000, 20_000, 30_000, 40_000);
    let t2 = Tuple::new(10_000, 20_000, 30_000, 40_000);
    assert!(t1.equals(&t2));
}

#[test]
fn can_add_vectors() {
    let t1 = Tuple::vector(10_000, 20_000, 30_000);
    let t2 = Tuple::vector(10_000, 20_000, 30_000);
    let t3 = t1.add(&t2);
    assert_eq!(t3.x, 20_000);
    assert_eq!(t3.y, 40_000);
    assert_eq!(t3.z, 60_000);
    assert_eq!(t3.w, 0);
    assert_eq!(t1.add(&t2), Tuple::vector(20_000, 40_000, 60_000));
}

#[test]
fn can_add_vector_to_point() {
    let t1 = Tuple::point(10_000, 20_000, 30_000);
    let t2 = Tuple::vector(10_000, 20_000, 30_000);
    let t3 = t1.add(&t2);
    assert_eq!(t3.x, 20_000);
    assert_eq!(t3.y, 40_000);
    assert_eq!(t3.z, 60_000);
    assert_eq!(t3.w, SCALE);
}

#[test]
fn can_subtract_points() {
    let p1 = Tuple::point(30_000, 20_000, 10_000);
    let p2 = Tuple::point(50_000, 60_000, 70_000);
    let t3 = p1.sub(&p2);
    assert_eq!(t3.x, -20_000);
    assert_eq!(t3.y, -40_000);
    assert_eq!(t3.z, -60_000);
    assert_eq!(t3.w, 0);
    assert_eq!(p1.sub(&p2), t3);
}

#[test]
fn can_subtract_vector_from_point() {
    let p = Tuple::point(30_000, 20_000, 10_000);
    let v = Tuple::vector(50_000, 60_000, 70_000);
    let t = p.sub(&v);
    assert_eq!(t.x, -20_000);
    assert_eq!(t.y, -40_000);
    assert_eq!(t.z, -60_000);
    assert_eq!(t.w, SCALE);
}

#[test]
fn can_subtract_vectors() {
    let v1 = Tuple::vector(30_000, 20_000, 10_000);
    let v2 = Tuple::vector(50_000, 60_000, 70_000);
    let t3 = v1.sub(&v2);
    assert_eq!(t3.x, -20_000);
    assert_eq!(t3.y, -40_000);
    assert_eq!(t3.z, -60_000);
    assert_eq!(t3.w, 0);
}

#[test]
fn can_negate_tuple() {
    let t = Tuple::new(10_000, -20_000, 30_000, -40_000);
    let t2 = t.negate();
    assert_eq!(t2.x, -10_000);
    assert_eq!(t2.y, 20_000);
    assert_eq!(t2.z, -30_000);
    assert_eq!(t2.w, 40_000);
    assert_eq!(t.negate(), Tuple::new(-10_000, 20_000, -30_000, 40_000));
}

#[test]
fn can_multiply_tuple_by_scalar() {
    let t = Tuple::new(10_000, -20_000, 30_000, 10_000);
    let t2 = t.multiply(35_000);
    assert_eq!(t2.x, 35_000);
    assert_eq!(t2.y, -70_000);
    assert_eq!(t2.z, 105_000);
    assert_eq!(t2.w, 10_000);
    assert_eq!(t.multiply(35_000), t2);
}

#[test]
fn can_multiply_tuple_by_fraction() {
    let t = Tuple::new(10_000, -20_000, 30_000, 10_000);
    let t2 = t.multiply(5_000);
    assert_eq!(t2.x, 5_000);
    assert_eq!(t2.y, -10_000);
    assert_eq!(t2.z, 15_000);
    assert_eq!(t2.w, 10_000);
    assert_eq!(t.multiply(5_000), t2);
}

#[test]
fn can_divide_tuple_by_scalar() {
    let t = Tuple::new(10_000, -20_000, 30_000, 10_000);
    let t2 = t.divide(20_000);
    assert_eq!(t2.x, 5_000);
    assert_eq!(t2.y, -10_000);
    assert_eq!(t2.z, 15_000);
    assert_eq!(t2.w, 5_000);
}

#[test]
fn can_compute_magnitude_of_vector() {
    let v1 = Tuple::vector(10_000, 0, 0);
    assert_eq!(v1.magnitude(), 10_000);
    let v2 = Tuple::vector(0, 10_000, 0);
    assert_eq!(v2.magnitude(), 10_000);
    let v3 = Tuple::vector(0, 0, 10_000);
    assert_eq!(v3.magnitude(), 10_000);
    // sqrt(14) is irrational: the norm of (1, 2, 3) truncates to the
    // greatest whole number of units whose square fits.
    let v4 = Tuple::vector(10_000, 20_000, 30_000);
    assert_eq!(v4.magnitude(), 37_416);
    let v5 = Tuple::vector(-10_000, -20_000, -30_000);
    assert_eq!(v5.magnitude(), 37_416);
}

#[test]
fn can_normalize_vector() {
    let v1 = Tuple::vector(40_000, 0, 0);
    let v2 = v1.normalize();
    assert_eq!(v2.x, 10_000);
    assert_eq!(v2.y, 0);
    assert_eq!(v2.z, 0);
    assert_eq!(v2.w, 0);
    assert_eq!(v2.magnitude(), 10_000);
    // (1, 2, 3) normalized, each quotient truncated toward zero.
    let v3 = Tuple::vector(10_000, 20_000, 30_000);
    let v4 = v3.normalize();
    assert_eq!(v4.x, 2_672);
    assert_eq!(v4.y, 5_345);
    assert_eq!(v4.z, 8_017);
    assert_eq!(v4.w, 0);
    // Truncation leaves the norm one unit short of a whole.
    assert_eq!(v4.magnitude(), 9_999);
}

#[test]
fn can_compute_dot_product() {
    let v1 = Tuple::vector(10_000, 20_000, 30_000);
    let v2 = Tuple::vector(20_000, 30_000, 40_000);
    assert_eq!(v1.dot(&v2), 200_000);
}

#[test]
fn can_compute_cross_product() {
    let v1 = Tuple::vector(10_000, 20_000, 30_000);
    let v2 = Tuple::vector(20_000, 30_000, 40_000);
    let v3 = v1.cross(&v2);
    assert_eq!(v3.x, -10_000);
    assert_eq!(v3.y, 20_000);
    assert_eq!(v3.z, -10_000);
    assert_eq!(v3.w, 0);
    let v4 = v2.cross(&v1);
    assert_eq!(v4.x, 10_000);
    assert_eq!(v4.y, -20_000);
    assert_eq!(v4.z, 10_000);
    assert_eq!(v4.w, 0);
}

#[test]
fn cross_of_swapped_operands_is_negated() {
    let a = Tuple::vector(12_345, -6_789, 4_242);
    let b = Tuple::vector(-1_111, 2_222, 9_999);
    assert_eq!(a.cross(&b), b.cross(&a).negate());
}

#[test]
fn dot_product_commutes() {
    let a = Tuple::vector(12_345, -6_789, 4_242);
    let b = Tuple::vector(-1_111, 2_222, 9_999);
    assert_eq!(a.dot(&b), b.dot(&a));
}

#[test]
fn colors_hold_their_channels() {
    let c = Color::new(-5_000, 4_000, 17_000);
    assert_eq!(c.red, -5_000);
    assert_eq!(c.green, 4_000);
    assert_eq!(c.blue, 17_000);
}

#[test]
fn normalized_magnitude_is_within_three_units_of_one() {
    let samples = [
        Tuple::vector(40_000, 0, 0),
        Tuple::vector(10_000, 20_000, 30_000),
        Tuple::vector(-123_456, 654_321, 999_999),
        Tuple::new(25_000, -14_000, 3_000, 10_000),
    ];
    for v in samples {
        let m = v.normalize().magnitude();
        assert!(m >= SCALE - 3 && m <= SCALE, "norm {} for {:?}", m, v);
    }
}
