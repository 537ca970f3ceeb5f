//! The Julia generator: the sampled point is the iterate seed of the
//! quadratic map, and a fixed point of its own is the constant.
use crate::fractal::iterate_points;
use crate::fractal::Generator;
use crate::fractal::Point;
use vstd::prelude::*;

verus! {

/// Generator of Julia-set iterate sequences.
pub struct Julia {
    pub z: Point,
}

impl Julia {
    /// A Julia generator with constant `z`.
    pub fn new(z: Point) -> (g: Julia)
        ensures
            g.z == z,
    {
        Julia { z }
    }
}

impl Generator for Julia {
    open spec fn constant_spec(&self, p: Point) -> Point {
        self.z
    }

    open spec fn seed_spec(&self, p: Point) -> Point {
        p
    }

    fn constant_of(&self, p: Point) -> Point {
        self.z
    }

    fn seed_of(&self, p: Point) -> Point {
        p
    }

    fn generate(&self, p: Point, n: usize) -> Vec<Point> {
        iterate_points(self.z, p, n)
    }
}

} // verus!
