//! Projectile simulation collaborators and world-to-screen mapping.
//!
//! A projectile holds a position and a velocity; a world holds gravity
//! and wind. One tick moves the position by the velocity and the
//! velocity by gravity plus wind. A separate pure mapping turns a
//! world-space point into a canvas pixel coordinate, flipping the
//! vertical axis, or signals that the point is out of bounds.

use vstd::prelude::*;

use crate::canvas::Canvas;
use crate::tuple::{add_v, bounded, in_range, Tup4, Tuple, HALF_SCALE, SCALE};

verus! {

/// The forces of the simulated world.
#[derive(Clone, Copy, Debug)]
pub struct World {
    pub gravity: Tuple,
    pub wind: Tuple,
}

impl World {
    pub fn new(gravity: Tuple, wind: Tuple) -> (r: World)
        ensures
            r.gravity == gravity,
            r.wind == wind,
    {
        World { gravity, wind }
    }
}

/// A projectile's state: where it is and where it is going.
#[derive(Clone, Copy, Debug)]
pub struct Projectile {
    pub position: Tuple,
    pub velocity: Tuple,
}

impl Projectile {
    pub fn new(position: Tuple, velocity: Tuple) -> (r: Projectile)
        ensures
            r.position == position,
            r.velocity == velocity,
    {
        Projectile { position, velocity }
    }

    /// One simulation step: position moves by the velocity, velocity
    /// changes by gravity plus wind.
    pub fn tick(&self, world: &World) -> (r: Projectile)
        requires
            bounded(self.position@),
            bounded(self.velocity@),
            bounded(world.gravity@),
            bounded(world.wind@),
        ensures
            r.position@ == add_v(self.position@, self.velocity@),
            r.velocity@ == add_v(add_v(self.velocity@, world.gravity@), world.wind@),
    {
        Projectile {
            position: self.position.add(&self.velocity),
            velocity: Tuple {
                x: self.velocity.x + world.gravity.x + world.wind.x,
                y: self.velocity.y + world.gravity.y + world.wind.y,
                z: self.velocity.z + world.gravity.z + world.wind.z,
                w: self.velocity.w + world.gravity.w + world.wind.w,
            },
        }
    }
}

/// Free-standing form of the tick, taking the world and the projectile
/// by value.
pub fn tick(environment: World, projectile: Projectile) -> (r: Projectile)
    requires
        bounded(projectile.position@),
        bounded(projectile.velocity@),
        bounded(environment.gravity@),
        bounded(environment.wind@),
    ensures
        r.position@ == add_v(projectile.position@, projectile.velocity@),
        r.velocity@ == add_v(add_v(projectile.velocity@, environment.gravity@), environment.wind@),
{
    projectile.tick(&environment)
}

/// A canvas coordinate for a world-space point, or the signal that the
/// point falls outside the canvas.
#[derive(Clone, Copy, Debug, PartialEq, Eq, Structural)]
pub enum Pixel {
    Coordinate { x: usize, y: usize },
    OutOfBounds,
}

/// A fixed-point value rounded to the nearest whole, half away from
/// zero.
pub open spec fn round_units(n: int) -> int {
    if n >= 0 {
        (n + HALF_SCALE as int) / (SCALE as int)
    } else {
        -(((-n) + HALF_SCALE as int) / (SCALE as int))
    }
}

/// Round a fixed-point value to the nearest whole number of units,
/// half away from zero.
fn round_to_whole(n: i64) -> (r: i64)
    requires
        in_range(n as int),
    ensures
        r as int == round_units(n as int),
        -200_000 <= r as int <= 200_000,
{
    if n >= 0 {
        (((n as u64) + (HALF_SCALE as u64)) / (SCALE as u64)) as i64
    } else {
        -(((((-n) as u64) + (HALF_SCALE as u64)) / (SCALE as u64)) as i64)
    }
}

/// Whether a rounded world point misses the canvas: a negative
/// coordinate, or one beyond the canvas's declared size. The bound is
/// deliberately non-strict, exactly as documented: a coordinate equal
/// to the width or height is accepted here even though the pixel store
/// itself has no room for it.
pub open spec fn out_of_bounds(p: Tup4, width: int, height: int) -> bool {
    round_units(p.x) < 0 || round_units(p.y) < 0 || round_units(p.x) > width || round_units(p.y)
        > height
}

impl Pixel {
    /// Map a world-space point onto a canvas: round the x and y
    /// coordinates, reject out-of-bounds points, and flip the vertical
    /// axis so that growing world y moves up the image.
    pub fn from_point_for_canvas(point: Tuple, canvas: &Canvas) -> (r: Pixel)
        requires
            bounded(point@),
        ensures
            (r is OutOfBounds) == out_of_bounds(point@, canvas.width as int, canvas.height as int),
            r matches Pixel::Coordinate { x, y } ==> x as int == round_units(point@.x) && y as int
                == canvas.height - round_units(point@.y),
    {
        let rx = round_to_whole(point.x);
        let ry = round_to_whole(point.y);
        if rx < 0 || ry < 0 {
            return Pixel::OutOfBounds;
        }
        let ux = rx as usize;
        let uy = ry as usize;
        if ux > canvas.width || uy > canvas.height {
            return Pixel::OutOfBounds;
        }
        Pixel::Coordinate { x: ux, y: canvas.height - uy }
    }
}

/// One tick of the model: the pair is (position, velocity), the third
/// argument the net acceleration per tick.
pub open spec fn tick_v(p: (Tup4, Tup4), acc: Tup4) -> (Tup4, Tup4) {
    (add_v(p.0, p.1), add_v(p.1, acc))
}

/// The model state after `k` ticks.
pub open spec fn ticks_v(p: (Tup4, Tup4), acc: Tup4, k: nat) -> (Tup4, Tup4)
    decreases k,
{
    if k == 0 {
        p
    } else {
        tick_v(ticks_v(p, acc, (k - 1) as nat), acc)
    }
}

/// The sum 0 + 1 + ... + (k - 1).
pub open spec fn tri(k: nat) -> int
    decreases k,
{
    if k == 0 {
        0
    } else {
        tri((k - 1) as nat) + (k - 1)
    }
}

/// Closed form of the vertical motion: after `k` ticks the vertical
/// velocity has grown by `k` accelerations and the height by `k`
/// starting velocities plus a triangular number of accelerations.
pub proof fn lemma_ticks_closed_form(p: (Tup4, Tup4), acc: Tup4, k: nat)
    ensures
        ticks_v(p, acc, k).1.y == p.1.y + k * acc.y,
        ticks_v(p, acc, k).0.y == p.0.y + k * p.1.y + tri(k) * acc.y,
    decreases k,
{
    if k == 0 {
        assert(0 * acc.y == 0) by (nonlinear_arith);
        assert(0 * p.1.y == 0) by (nonlinear_arith);
        assert(tri(0) * acc.y == 0) by (nonlinear_arith);
    } else {
        let j = (k - 1) as nat;
        lemma_ticks_closed_form(p, acc, j);
        assert(p.1.y + j * acc.y + acc.y == p.1.y + k * acc.y) by (nonlinear_arith)
            requires
                j == k - 1,
        ;
        assert((p.0.y + j * p.1.y + tri(j) * acc.y) + (p.1.y + j * acc.y) == p.0.y + k * p.1.y + (
        tri(j) + j) * acc.y) by (nonlinear_arith)
            requires
                j == k - 1,
        ;
    }
}

/// Twice a triangular number is a product of neighbours.
pub proof fn lemma_tri_closed_form(k: nat)
    ensures
        2 * tri(k) == k * (k - 1),
        tri(k) >= 0,
    decreases k,
{
    if k == 0 {
        assert(k * (k - 1) == 0) by (nonlinear_arith)
            requires
                k == 0,
        ;
    } else {
        let j = (k - 1) as nat;
        lemma_tri_closed_form(j);
        assert(tri(k) == tri(j) + j);
        assert(2 * tri(k) == k * (k - 1)) by (nonlinear_arith)
            requires
                j == k - 1,
                tri(k) == tri(j) + j,
                2 * tri(j) == j * (j - 1),
        ;
        assert(k * (k - 1) >= 0) by (nonlinear_arith)
            requires
                k >= 1,
        ;
    }
}

/// Under any downward net acceleration, the projectile's height drops
/// to or below zero after finitely many ticks, whatever the starting
/// position and velocity.
pub proof fn lemma_projectile_lands(p: (Tup4, Tup4), acc: Tup4)
    requires
        acc.y < 0,
    ensures
        exists|k: nat| ticks_v(p, acc, k).0.y <= 0,
{
    let y0 = p.0.y;
    let v0 = p.1.y;
    let b = (if y0 > 0 {
        y0
    } else {
        0
    }) + (if v0 > 0 {
        v0
    } else {
        0
    }) + 1;
    let n = (2 * b + 2) as nat;
    lemma_ticks_closed_form(p, acc, n);
    lemma_tri_closed_form(n);
    assert(y0 + n * v0 + tri(n) * acc.y <= 0) by (nonlinear_arith)
        requires
            acc.y <= -1,
            b >= 1,
            y0 <= b - 1,
            v0 <= b - 1,
            n == 2 * b + 2,
            2 * tri(n) == n * (n - 1),
            tri(n) >= 0,
    ;
    assert(ticks_v(p, acc, n).0.y <= 0);
}

} // verus!
