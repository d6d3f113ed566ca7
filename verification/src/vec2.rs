//! 2D fixed-point vectors with componentwise arithmetic and Euclidean norm.

use crate::fixed::{fx_add, fx_div, fx_mul, fx_neg, fx_sqrt, fx_sub, Fx};
use vstd::prelude::*;

verus! {

#[derive(Clone, Copy, PartialEq, Eq, Structural, Debug)]
pub struct Vec2 {
    pub x: Fx,
    pub y: Fx,
}

/// Raw value of the Euclidean norm of the vector `(x, y)`, as the physics
/// computes it: `sqrt(x*x + y*y)` in saturating fixed point.
pub open spec fn norm(x: int, y: int) -> int {
    fx_sqrt(fx_add(fx_mul(x, x), fx_mul(y, y)))
}

impl Vec2 {
    /// Raw value of the x component.
    pub open spec fn vx(self) -> int {
        self.x.v()
    }

    /// Raw value of the y component.
    pub open spec fn vy(self) -> int {
        self.y.v()
    }

    pub fn new(x: Fx, y: Fx) -> (r: Vec2)
        ensures
            r.x == x,
            r.y == y,
    {
        Vec2 { x, y }
    }

    pub fn zero() -> (r: Vec2)
        ensures
            r.vx() == 0,
            r.vy() == 0,
    {
        Vec2 { x: Fx { raw: 0 }, y: Fx { raw: 0 } }
    }

    pub fn add(self, o: Vec2) -> (r: Vec2)
        ensures
            r.vx() == fx_add(self.vx(), o.vx()),
            r.vy() == fx_add(self.vy(), o.vy()),
    {
        Vec2 { x: self.x.add(o.x), y: self.y.add(o.y) }
    }

    pub fn sub(self, o: Vec2) -> (r: Vec2)
        ensures
            r.vx() == fx_sub(self.vx(), o.vx()),
            r.vy() == fx_sub(self.vy(), o.vy()),
    {
        Vec2 { x: self.x.sub(o.x), y: self.y.sub(o.y) }
    }

    /// Componentwise multiplication by a scalar.
    pub fn scale(self, s: Fx) -> (r: Vec2)
        ensures
            r.vx() == fx_mul(self.vx(), s.v()),
            r.vy() == fx_mul(self.vy(), s.v()),
    {
        Vec2 { x: self.x.mul(s), y: self.y.mul(s) }
    }

    /// Componentwise division by a scalar.
    pub fn div_by(self, s: Fx) -> (r: Vec2)
        ensures
            r.vx() == fx_div(self.vx(), s.v()),
            r.vy() == fx_div(self.vy(), s.v()),
    {
        Vec2 { x: self.x.div(s), y: self.y.div(s) }
    }

    pub fn neg(self) -> (r: Vec2)
        ensures
            r.vx() == fx_neg(self.vx()),
            r.vy() == fx_neg(self.vy()),
    {
        Vec2 { x: self.x.neg(), y: self.y.neg() }
    }

    /// Euclidean norm.
    pub fn len(self) -> (r: Fx)
        ensures
            r.v() == norm(self.vx(), self.vy()),
    {
        self.x.mul(self.x).add(self.y.mul(self.y)).sqrt()
    }
}

} // verus!
