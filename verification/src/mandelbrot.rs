//! The Mandelbrot generator: the sampled point is the per-pixel constant of
//! the quadratic map, and a fixed point of its own is the iterate seed.
use crate::fractal::iterate_points;
use crate::fractal::Generator;
use crate::fractal::Point;
use vstd::prelude::*;

verus! {

/// Generator of Mandelbrot-set iterate sequences.
pub struct Mandelbrot {
    pub z: Point,
}

impl Mandelbrot {
    /// A Mandelbrot generator whose iterations start from `z`.
    pub fn new(z: Point) -> (g: Mandelbrot)
        ensures
            g.z == z,
    {
        Mandelbrot { z }
    }
}

impl Generator for Mandelbrot {
    open spec fn constant_spec(&self, p: Point) -> Point {
        p
    }

    open spec fn seed_spec(&self, p: Point) -> Point {
        self.z
    }

    fn constant_of(&self, p: Point) -> Point {
        p
    }

    fn seed_of(&self, p: Point) -> Point {
        self.z
    }

    fn generate(&self, p: Point, n: usize) -> Vec<Point> {
        iterate_points(p, self.z, n)
    }
}

} // verus!
