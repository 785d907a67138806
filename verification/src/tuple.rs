//! Fixed-point tuples: points and direction vectors with four components.
//!
//! A component is a signed count of units; `SCALE` units make one whole.
//! The fourth component `w` tells points (`w == SCALE`, i.e. 1) apart from
//! direction vectors (`w == 0`). Products and quotients of fixed-point
//! values are truncated toward zero, exactly as the contracts state.

use vstd::prelude::*;

verus! {

/// Number of units in one whole coordinate or channel value.
pub const SCALE: i64 = 10_000;

/// Half of `SCALE`, used for round-to-nearest.
pub const HALF_SCALE: i64 = 5_000;

/// Largest component magnitude, in units, that the arithmetic accepts
/// without risking overflow in intermediate products.
pub const MAX_UNITS: i64 = 1_000_000_000;

/// Mathematical model of a tuple: four unbounded integers, in units.
pub ghost struct Tup4 {
    pub x: int,
    pub y: int,
    pub z: int,
    pub w: int,
}

/// A four-component fixed-point tuple.
#[derive(Clone, Copy, Debug, PartialEq, Eq, Structural)]
pub struct Tuple {
    pub x: i64,
    pub y: i64,
    pub z: i64,
    pub w: i64,
}

impl View for Tuple {
    type V = Tup4;

    open spec fn view(&self) -> Tup4 {
        Tup4 { x: self.x as int, y: self.y as int, z: self.z as int, w: self.w as int }
    }
}

/// A color: red, green and blue channels in units, nominally 0 to `SCALE`
/// (that is, 0.0 to 1.0), but not clamped until pixmap export.
#[derive(Clone, Copy, Debug, PartialEq, Eq, Structural)]
pub struct Color {
    pub red: i64,
    pub green: i64,
    pub blue: i64,
}

impl Color {
    pub fn new(red: i64, green: i64, blue: i64) -> (r: Color)
        ensures
            r == (Color { red, green, blue }),
    {
        Color { red, green, blue }
    }
}

/// Integer division truncated toward zero, the rounding every fixed-point
/// product and quotient in this module uses.
pub open spec fn tdiv(a: int, b: int) -> int
    recommends
        b != 0,
{
    let q = (vstd::math::abs(a) as int) / (vstd::math::abs(b) as int);
    if (a < 0) != (b < 0) {
        -q
    } else {
        q
    }
}

/// A component small enough for products with `SCALE` and with other
/// bounded components to stay inside `i64`.
pub open spec fn in_range(n: int) -> bool {
    -(MAX_UNITS as int) <= n <= MAX_UNITS as int
}

/// All four components are in range.
pub open spec fn bounded(t: Tup4) -> bool {
    in_range(t.x) && in_range(t.y) && in_range(t.z) && in_range(t.w)
}

/// A point has homogeneous coordinate 1.
pub open spec fn is_point(t: Tup4) -> bool {
    t.w == SCALE as int
}

/// A direction vector has homogeneous coordinate 0.
pub open spec fn is_vector(t: Tup4) -> bool {
    t.w == 0
}

/// Component-wise sum; `w` is summed too.
pub open spec fn add_v(a: Tup4, b: Tup4) -> Tup4 {
    Tup4 { x: a.x + b.x, y: a.y + b.y, z: a.z + b.z, w: a.w + b.w }
}

/// Component-wise difference; `w` is subtracted too.
pub open spec fn sub_v(a: Tup4, b: Tup4) -> Tup4 {
    Tup4 { x: a.x - b.x, y: a.y - b.y, z: a.z - b.z, w: a.w - b.w }
}

/// Component-wise negation, `w` included.
pub open spec fn neg_v(a: Tup4) -> Tup4 {
    Tup4 { x: -a.x, y: -a.y, z: -a.z, w: -a.w }
}

/// Scaling by a fixed-point factor: `x`, `y`, `z` are scaled, `w` is left
/// unchanged.
pub open spec fn scale_v(a: Tup4, s: int) -> Tup4 {
    Tup4 {
        x: tdiv(a.x * s, SCALE as int),
        y: tdiv(a.y * s, SCALE as int),
        z: tdiv(a.z * s, SCALE as int),
        w: a.w,
    }
}

/// Division by a fixed-point divisor: every component is divided,
/// `w` included.
pub open spec fn div_v(a: Tup4, s: int) -> Tup4 {
    Tup4 {
        x: tdiv(a.x * (SCALE as int), s),
        y: tdiv(a.y * (SCALE as int), s),
        z: tdiv(a.z * (SCALE as int), s),
        w: tdiv(a.w * (SCALE as int), s),
    }
}

/// Dot product over all four components, in units.
pub open spec fn dot_v(a: Tup4, b: Tup4) -> int {
    tdiv(a.x * b.x + a.y * b.y + a.z * b.z + a.w * b.w, SCALE as int)
}

/// Cross product on `x`, `y`, `z`; the result is always a direction vector.
pub open spec fn cross_v(a: Tup4, b: Tup4) -> Tup4 {
    Tup4 {
        x: tdiv(a.y * b.z - a.z * b.y, SCALE as int),
        y: tdiv(a.z * b.x - a.x * b.z, SCALE as int),
        z: tdiv(a.x * b.y - a.y * b.x, SCALE as int),
        w: 0,
    }
}

/// Product of two in-range components; the result fits comfortably in
/// `i64`, with room to sum four such products.
fn mul_i64(a: i64, b: i64) -> (r: i64)
    requires
        in_range(a as int),
        in_range(b as int),
    ensures
        r as int == (a as int) * (b as int),
        -1_000_000_000_000_000_000 <= r as int <= 1_000_000_000_000_000_000,
{
    proof {
        assert(-1_000_000_000_000_000_000 <= (a as int) * (b as int)
            <= 1_000_000_000_000_000_000) by (nonlinear_arith)
            requires
                in_range(a as int),
                in_range(b as int),
        ;
    }
    a * b
}

/// Integer square root: the greatest `r` with `r * r <= n`.
pub open spec fn isqrt(n: int) -> int
    recommends
        n >= 0,
    decreases n,
{
    if n <= 0 {
        0
    } else {
        let r = isqrt(n - 1);
        if (r + 1) * (r + 1) <= n {
            r + 1
        } else {
            r
        }
    }
}

/// `isqrt(n)` squares to at most `n`, and is the last value that does.
pub proof fn lemma_isqrt_bounds(n: int)
    requires
        n >= 0,
    ensures
        0 <= isqrt(n),
        isqrt(n) * isqrt(n) <= n,
        n < (isqrt(n) + 1) * (isqrt(n) + 1),
    decreases n,
{
    if n > 0 {
        lemma_isqrt_bounds(n - 1);
        let r = isqrt(n - 1);
        if (r + 1) * (r + 1) <= n {
            assert((r + 2) * (r + 2) > (r + 1) * (r + 1)) by (nonlinear_arith)
                requires
                    r >= 0,
            ;
        }
    }
}

/// Any `r` in the right square window is the integer square root.
pub proof fn lemma_isqrt_unique(n: int, r: int)
    requires
        n >= 0,
        r >= 0,
        r * r <= n,
        n < (r + 1) * (r + 1),
    ensures
        r == isqrt(n),
{
    lemma_isqrt_bounds(n);
    let s = isqrt(n);
    if r < s {
        assert((r + 1) * (r + 1) <= s * s) by (nonlinear_arith)
            requires
                0 <= r,
                r + 1 <= s,
        ;
    }
    if s < r {
        assert((s + 1) * (s + 1) <= r * r) by (nonlinear_arith)
            requires
                0 <= s,
                s + 1 <= r,
        ;
    }
}

/// Binary search for the integer square root of a sum of four squares
/// of in-range components.
fn isqrt_u64(q: u64) -> (r: u64)
    requires
        q <= 4_000_000_000_000_000_000,
    ensures
        r as int == isqrt(q as int),
        r <= 2_000_000_000,
{
    let mut lo: u64 = 0;
    let mut hi: u64 = 2_000_000_001;
    proof {
        assert((2_000_000_001 as int) * (2_000_000_001 as int) > q as int) by (nonlinear_arith)
            requires
                q <= 4_000_000_000_000_000_000,
        ;
    }
    while lo + 1 < hi
        invariant
            lo < hi <= 2_000_000_001,
            (lo as int) * (lo as int) <= q as int,
            (hi as int) * (hi as int) > q as int,
            q <= 4_000_000_000_000_000_000,
        decreases hi - lo,
    {
        let mid: u64 = lo + (hi - lo) / 2;
        proof {
            assert((mid as int) * (mid as int) <= 4_000_000_000_000_000_000) by (nonlinear_arith)
                requires
                    mid <= 2_000_000_000,
            ;
        }
        if mid * mid <= q {
            lo = mid;
        } else {
            hi = mid;
        }
    }
    proof {
        lemma_isqrt_unique(q as int, lo as int);
    }
    lo
}

/// Squared Euclidean norm over all four components, in squared units.
pub open spec fn mag_sq(t: Tup4) -> int {
    t.x * t.x + t.y * t.y + t.z * t.z + t.w * t.w
}

/// Euclidean norm in units: the integer square root of the squared norm.
pub open spec fn magnitude_v(t: Tup4) -> int {
    isqrt(mag_sq(t))
}

/// Normalization divides every component, `w` included, by the norm.
pub open spec fn normalize_v(t: Tup4) -> Tup4 {
    let m = magnitude_v(t);
    Tup4 {
        x: tdiv(t.x * (SCALE as int), m),
        y: tdiv(t.y * (SCALE as int), m),
        z: tdiv(t.z * (SCALE as int), m),
        w: tdiv(t.w * (SCALE as int), m),
    }
}

/// Truncated division for unit values, matching `tdiv`.
fn div_trunc(a: i64, b: i64) -> (r: i64)
    requires
        b != 0,
        -(i64::MAX as int) <= a as int,
        -(i64::MAX as int) <= b as int,
    ensures
        r as int == tdiv(a as int, b as int),
{
    let na: u64 = if a >= 0 {
        a as u64
    } else {
        (-a) as u64
    };
    let nb: u64 = if b >= 0 {
        b as u64
    } else {
        (-b) as u64
    };
    let q: u64 = na / nb;
    assert(q <= na) by {
        assert(na / nb <= na / 1) by (nonlinear_arith)
            requires
                nb >= 1,
        ;
    };
    if (a < 0) != (b < 0) {
        -(q as i64)
    } else {
        q as i64
    }
}

impl Tuple {
    pub fn new(x: i64, y: i64, z: i64, w: i64) -> (r: Tuple)
        ensures
            r == (Tuple { x, y, z, w }),
    {
        Tuple { x, y, z, w }
    }

    /// A point: `w` is set to one whole.
    pub fn point(x: i64, y: i64, z: i64) -> (r: Tuple)
        ensures
            r == (Tuple { x, y, z, w: SCALE }),
            is_point(r@),
    {
        Tuple { x, y, z, w: SCALE }
    }

    /// A direction vector: `w` is set to zero.
    pub fn vector(x: i64, y: i64, z: i64) -> (r: Tuple)
        ensures
            r == (Tuple { x, y, z, w: 0i64 }),
            is_vector(r@),
    {
        Tuple { x, y, z, w: 0 }
    }

    /// Exact equality of all four components. The representation's
    /// granularity is far coarser than the tolerance an approximate
    /// compare would use, so the tolerant compare collapses to equality.
    pub fn equals(&self, other: &Tuple) -> (r: bool)
        ensures
            r == (self@ == other@),
    {
        self.x == other.x && self.y == other.y && self.z == other.z && self.w == other.w
    }

    pub fn add(&self, other: &Tuple) -> (r: Tuple)
        requires
            bounded(self@),
            bounded(other@),
        ensures
            r@ == add_v(self@, other@),
    {
        Tuple { x: self.x + other.x, y: self.y + other.y, z: self.z + other.z, w: self.w + other.w }
    }

    pub fn sub(&self, other: &Tuple) -> (r: Tuple)
        requires
            bounded(self@),
            bounded(other@),
        ensures
            r@ == sub_v(self@, other@),
    {
        Tuple { x: self.x - other.x, y: self.y - other.y, z: self.z - other.z, w: self.w - other.w }
    }

    pub fn negate(&self) -> (r: Tuple)
        requires
            bounded(self@),
        ensures
            r@ == neg_v(self@),
    {
        Tuple { x: -self.x, y: -self.y, z: -self.z, w: -self.w }
    }

    /// Scale `x`, `y`, `z` by a fixed-point factor; `w` stays as it is.
    pub fn multiply(&self, scalar: i64) -> (r: Tuple)
        requires
            bounded(self@),
            in_range(scalar as int),
        ensures
            r@ == scale_v(self@, scalar as int),
    {
        Tuple {
            x: div_trunc(mul_i64(self.x, scalar), SCALE),
            y: div_trunc(mul_i64(self.y, scalar), SCALE),
            z: div_trunc(mul_i64(self.z, scalar), SCALE),
            w: self.w,
        }
    }

    /// Divide every component, `w` included, by a fixed-point divisor.
    pub fn divide(&self, scalar: i64) -> (r: Tuple)
        requires
            bounded(self@),
            in_range(scalar as int),
            scalar != 0,
        ensures
            r@ == div_v(self@, scalar as int),
    {
        Tuple {
            x: div_trunc(mul_i64(self.x, SCALE), scalar),
            y: div_trunc(mul_i64(self.y, SCALE), scalar),
            z: div_trunc(mul_i64(self.z, SCALE), scalar),
            w: div_trunc(mul_i64(self.w, SCALE), scalar),
        }
    }

    /// Dot product over all four components.
    pub fn dot(&self, other: &Tuple) -> (r: i64)
        requires
            bounded(self@),
            bounded(other@),
        ensures
            r as int == dot_v(self@, other@),
    {
        let s: i64 = mul_i64(self.x, other.x) + mul_i64(self.y, other.y) + mul_i64(self.z, other.z)
            + mul_i64(self.w, other.w);
        div_trunc(s, SCALE)
    }

    /// Euclidean norm over all four components, in units.
    pub fn magnitude(&self) -> (r: i64)
        requires
            bounded(self@),
        ensures
            r as int == magnitude_v(self@),
            0 <= r <= 2_000_000_000,
    {
        let s: i64 = mul_i64(self.x, self.x) + mul_i64(self.y, self.y) + mul_i64(self.z, self.z)
            + mul_i64(self.w, self.w);
        proof {
            assert(mag_sq(self@) >= 0) by (nonlinear_arith);
        }
        let r = isqrt_u64(s as u64);
        r as i64
    }

    /// Normalization: every component, `w` included, divided by the norm.
    /// A tuple of norm zero is excluded: dividing by it has no finite
    /// result.
    pub fn normalize(&self) -> (r: Tuple)
        requires
            bounded(self@),
            !(self.x == 0 && self.y == 0 && self.z == 0 && self.w == 0),
        ensures
            r@ == normalize_v(self@),
    {
        let m = self.magnitude();
        proof {
            assert(mag_sq(self@) >= 1) by (nonlinear_arith)
                requires
                    !(self@.x == 0 && self@.y == 0 && self@.z == 0 && self@.w == 0),
            ;
            lemma_isqrt_bounds(mag_sq(self@));
            let s = magnitude_v(self@);
            if s == 0 {
                assert((s + 1) * (s + 1) == 1) by (nonlinear_arith)
                    requires
                        s == 0,
                ;
            }
            assert(m as int >= 1);
        }
        Tuple {
            x: div_trunc(mul_i64(self.x, SCALE), m),
            y: div_trunc(mul_i64(self.y, SCALE), m),
            z: div_trunc(mul_i64(self.z, SCALE), m),
            w: div_trunc(mul_i64(self.w, SCALE), m),
        }
    }

    /// Cross product of the spatial components; always a direction vector.
    pub fn cross(&self, other: &Tuple) -> (r: Tuple)
        requires
            bounded(self@),
            bounded(other@),
        ensures
            r@ == cross_v(self@, other@),
            is_vector(r@),
    {
        Tuple {
            x: div_trunc(mul_i64(self.y, other.z) - mul_i64(self.z, other.y), SCALE),
            y: div_trunc(mul_i64(self.z, other.x) - mul_i64(self.x, other.z), SCALE),
            z: div_trunc(mul_i64(self.x, other.y) - mul_i64(self.y, other.x), SCALE),
            w: 0,
        }
    }
}

/// A scaled absolute value: scaling by a positive factor commutes with
/// taking the absolute value.
proof fn lemma_abs_scale(x: int, s: int)
    requires
        s > 0,
    ensures
        vstd::math::abs(x * s) as int == (vstd::math::abs(x) as int) * s,
{
    if x >= 0 {
        assert(x * s >= 0) by (nonlinear_arith)
            requires
                x >= 0,
                s > 0,
        ;
    } else {
        assert(x * s < 0) by (nonlinear_arith)
            requires
                x < 0,
                s > 0,
        ;
        assert(-(x * s) == (-x) * s) by (nonlinear_arith);
    }
}

/// Everything the near-unit argument needs of one component `c`:
/// with `a` its scaled absolute value and `f` the quotient the
/// normalization computes, the square of the normalized component is
/// `f * f`, pinched between `a * a` and `a * a - 2 * a * m` after
/// scaling by `m * m`.
proof fn lemma_component_square_bounds(c: int, m: int)
    requires
        m > 0,
    ensures
        ({
            let a = (vstd::math::abs(c) as int) * (SCALE as int);
            let f = a / m;
            &&& a >= 0
            &&& tdiv(c * (SCALE as int), m) * tdiv(c * (SCALE as int), m) == f * f
            &&& m * m * (f * f) <= a * a
            &&& m * m * (f * f) >= a * a - 2 * a * m
            &&& a * a == (c * c) * ((SCALE as int) * (SCALE as int))
            &&& (vstd::math::abs(c) as int) * (vstd::math::abs(c) as int) == c * c
        }),
{
    let s = SCALE as int;
    let l = vstd::math::abs(c) as int;
    let a = l * s;
    let f = a / m;
    lemma_abs_scale(c, s);
    assert(a >= 0) by (nonlinear_arith)
        requires
            a == l * s,
            l >= 0,
            s > 0,
    ;
    // The truncated quotient of the signed value squares to f * f.
    assert(tdiv(c * s, m) * tdiv(c * s, m) == f * f) by {
        assert(vstd::math::abs(m) as int == m);
        assert(tdiv(c * s, m) == f || tdiv(c * s, m) == -f);
        assert((-f) * (-f) == f * f) by (nonlinear_arith);
    };
    // f is the floor quotient: m * f == a - r with 0 <= r < m.
    vstd::arithmetic::div_mod::lemma_fundamental_div_mod(a, m);
    vstd::arithmetic::div_mod::lemma_mod_pos_bound(a, m);
    vstd::arithmetic::div_mod::lemma_div_pos_is_pos(a, m);
    let r = a % m;
    assert(m * f == a - r);
    assert(m * m * (f * f) == (m * f) * (m * f)) by (nonlinear_arith);
    assert((a - r) * (a - r) <= a * a) by (nonlinear_arith)
        requires
            0 <= r,
            a - r >= 0,
            m * f == a - r,
            m * f >= 0,
            a >= a - r,
    ;
    assert((a - r) * (a - r) >= a * a - 2 * a * m) by (nonlinear_arith)
        requires
            a >= 0,
            0 <= r < m,
    ;
    // The squared scaled component in terms of the raw component.
    assert(l * l == c * c) by {
        if c < 0 {
            assert((-c) * (-c) == c * c) by (nonlinear_arith);
        }
    };
    assert(a * a == (l * l) * (s * s)) by (nonlinear_arith)
        requires
            a == l * s,
    ;
}

/// Normalizing any tuple whose norm is at least one whole yields a
/// tuple whose norm is within three units of exactly one whole: the
/// truncations in the quotients and in the integer square root cost at
/// most three units. Tuples of smaller norm are excluded: for them the
/// integer square root is too coarse for the quotient to mean anything.
pub proof fn lemma_normalize_near_unit(t: Tup4)
    requires
        magnitude_v(t) >= SCALE as int,
    ensures
        SCALE as int - 3 <= magnitude_v(normalize_v(t)) <= SCALE as int,
{
    let s = SCALE as int;
    let q = mag_sq(t);
    let m = magnitude_v(t);
    assert(q >= 0) by (nonlinear_arith)
        requires
            q == t.x * t.x + t.y * t.y + t.z * t.z + t.w * t.w,
    ;
    lemma_isqrt_bounds(q);
    assert(m * m <= q);
    assert(q <= m * m + 2 * m) by (nonlinear_arith)
        requires
            q < (m + 1) * (m + 1),
    ;

    lemma_component_square_bounds(t.x, m);
    lemma_component_square_bounds(t.y, m);
    lemma_component_square_bounds(t.z, m);
    lemma_component_square_bounds(t.w, m);
    let lx = vstd::math::abs(t.x) as int;
    let ly = vstd::math::abs(t.y) as int;
    let lz = vstd::math::abs(t.z) as int;
    let lw = vstd::math::abs(t.w) as int;
    let ax = lx * s;
    let ay = ly * s;
    let az = lz * s;
    let aw = lw * s;
    let fx = ax / m;
    let fy = ay / m;
    let fz = az / m;
    let fw = aw / m;
    let fsum = fx * fx + fy * fy + fz * fz + fw * fw;

    // The squared norm of the normalized tuple is the sum of the
    // squared quotients.
    assert(mag_sq(normalize_v(t)) == fsum);

    // Sum of squared scaled components is the squared norm, rescaled.
    assert((t.x * t.x) * (s * s) + (t.y * t.y) * (s * s) + (t.z * t.z) * (s * s) + (t.w * t.w) * (s
        * s) == q * (s * s)) by (nonlinear_arith)
        requires
            q == t.x * t.x + t.y * t.y + t.z * t.z + t.w * t.w,
    ;
    assert(m * m * fsum == m * m * (fx * fx) + m * m * (fy * fy) + m * m * (fz * fz) + m * m * (fw
        * fw)) by (nonlinear_arith)
        requires
            fsum == fx * fx + fy * fy + fz * fz + fw * fw,
    ;

    // Upper bound: m * m * fsum <= q * s * s <= (m * m + 2 * m) * s * s,
    // so fsum stays below (s + 1) * (s + 1).
    assert(m * m * fsum <= q * (s * s));
    assert(fsum <= s * s + 2 * s) by (nonlinear_arith)
        requires
            m * m * fsum <= q * (s * s),
            q <= m * m + 2 * m,
            m >= s,
            s >= 2,
    ;

    // The one-norm of the components is at most 2 * m + 1.
    let lsum = lx + ly + lz + lw;
    let pa = lx + ly;
    let pb = lz + lw;
    assert(pa * pa <= 2 * (lx * lx) + 2 * (ly * ly)) by (nonlinear_arith)
        requires
            pa == lx + ly,
    ;
    assert(pb * pb <= 2 * (lz * lz) + 2 * (lw * lw)) by (nonlinear_arith)
        requires
            pb == lz + lw,
    ;
    assert(lsum * lsum <= 2 * (pa * pa) + 2 * (pb * pb)) by (nonlinear_arith)
        requires
            lsum == pa + pb,
    ;
    assert(lsum * lsum <= 4 * q);
    assert(lsum <= 2 * m + 1) by (nonlinear_arith)
        requires
            lsum >= 0,
            lsum * lsum <= 4 * q,
            q <= m * m + 2 * m,
            m >= 1,
    ;

    // Lower bound: the truncations cost at most 2 * a * m per
    // component, 2 * m * s * lsum in all.
    assert(2 * ax * m + 2 * ay * m + 2 * az * m + 2 * aw * m == 2 * m * (lsum * s))
        by (nonlinear_arith)
        requires
            ax == lx * s,
            ay == ly * s,
            az == lz * s,
            aw == lw * s,
            lsum == lx + ly + lz + lw,
    ;
    assert(m * m * fsum >= q * (s * s) - 2 * m * (lsum * s));
    assert(fsum >= s * s - 4 * s - 2) by (nonlinear_arith)
        requires
            m * m * fsum >= q * (s * s) - 2 * m * (lsum * s),
            q >= m * m,
            lsum <= 2 * m + 1,
            lsum >= 0,
            m >= s,
            s >= 10,
    ;

    // Read the norm bounds off the integer square root.
    lemma_isqrt_bounds(fsum);
    let g = isqrt(fsum);
    assert(g <= s) by (nonlinear_arith)
        requires
            g >= 0,
            g * g <= fsum,
            fsum <= s * s + 2 * s,
            s >= 1,
    ;
    assert(g >= s - 3) by (nonlinear_arith)
        requires
            g >= 0,
            fsum < (g + 1) * (g + 1),
            fsum >= s * s - 4 * s - 2,
            s >= 10,
    ;
}

/// Subtraction's bookkeeping of the homogeneous coordinate: point minus
/// point is a vector, point minus vector is a point, vector minus vector
/// is a vector.
pub proof fn lemma_sub_kinds(a: Tup4, b: Tup4)
    ensures
        is_point(a) && is_point(b) ==> is_vector(sub_v(a, b)),
        is_point(a) && is_vector(b) ==> is_point(sub_v(a, b)),
        is_vector(a) && is_vector(b) ==> is_vector(sub_v(a, b)),
{
}

/// Truncated division is odd in its dividend.
pub proof fn lemma_tdiv_neg(a: int, b: int)
    requires
        b != 0,
    ensures
        tdiv(-a, b) == -tdiv(a, b),
{
    assert(vstd::math::abs(-a) == vstd::math::abs(a));
}

/// The cross product is antisymmetric: swapping the operands negates it.
pub proof fn lemma_cross_antisymmetric(a: Tup4, b: Tup4)
    ensures
        cross_v(a, b) == neg_v(cross_v(b, a)),
{
    lemma_tdiv_neg(b.y * a.z - b.z * a.y, SCALE as int);
    lemma_tdiv_neg(b.z * a.x - b.x * a.z, SCALE as int);
    lemma_tdiv_neg(b.x * a.y - b.y * a.x, SCALE as int);
    assert(a.y * b.z - a.z * b.y == -(b.y * a.z - b.z * a.y)) by (nonlinear_arith);
    assert(a.z * b.x - a.x * b.z == -(b.z * a.x - b.x * a.z)) by (nonlinear_arith);
    assert(a.x * b.y - a.y * b.x == -(b.x * a.y - b.y * a.x)) by (nonlinear_arith);
}

/// The dot product is commutative.
pub proof fn lemma_dot_commutative(a: Tup4, b: Tup4)
    ensures
        dot_v(a, b) == dot_v(b, a),
{
}

} // verus!
