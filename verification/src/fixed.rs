//! Fixed-point real numbers.
//!
//! Every coordinate of the complex plane is carried as a raw `i64` count of
//! units of `1 / SCALE`. All arithmetic is total: results are clipped to
//! `[-RAW_BOUND, RAW_BOUND]`, so no operation can overflow or panic, and the
//! exact value of every operation is pinned by the spec functions below.
use vstd::prelude::*;

verus! {

/// Raw units per 1.0 of real value.
pub const SCALE: i64 = 65536;

/// Largest raw magnitude a `Fx` can carry; arithmetic saturates here.
pub const RAW_BOUND: i64 = 0x4000_0000_0000;

/// Saturate a mathematical integer into the raw range.
pub open spec fn clip(x: int) -> int {
    if x < -(RAW_BOUND as int) {
        -(RAW_BOUND as int)
    } else if x > RAW_BOUND as int {
        RAW_BOUND as int
    } else {
        x
    }
}

/// Floor division by a positive divisor.
pub open spec fn fxdiv(p: int, d: int) -> int
    recommends
        d > 0,
{
    if p >= 0 {
        p / d
    } else {
        -((-p + d - 1) / d)
    }
}

/// Truncating (toward zero) division by a positive divisor.
pub open spec fn fxtrunc_by(p: int, d: int) -> int
    recommends
        d > 0,
{
    if p >= 0 {
        p / d
    } else {
        -((-p) / d)
    }
}

/// The raw value of a sum.
pub open spec fn fx_add(a: int, b: int) -> int {
    clip(a + b)
}

/// The raw value of a difference.
pub open spec fn fx_sub(a: int, b: int) -> int {
    clip(a - b)
}

/// The raw value of a fixed-point product: floor((a * b) / SCALE), clipped.
pub open spec fn fx_mul(a: int, b: int) -> int {
    clip(fxdiv(a * b, SCALE as int))
}

/// The raw value of a product with a plain integer.
pub open spec fn fx_mul_int(a: int, n: int) -> int {
    clip(a * n)
}

/// A real number in fixed-point representation; its value is `raw / SCALE`.
#[derive(Clone, Copy, Debug, PartialEq, Eq, Structural)]
pub struct Fx {
    pub raw: i64,
}

/// The product of two 64-bit quantities stays well inside `i128`.
proof fn lemma_i64_product_fits(a: int, b: int)
    by (nonlinear_arith)
    requires
        -0x8000_0000_0000_0000 <= a <= 0x8000_0000_0000_0000,
        -0x8000_0000_0000_0000 <= b <= 0x8000_0000_0000_0000,
    ensures
        -0x4000_0000_0000_0000_0000_0000_0000_0000 <= a * b,
        a * b <= 0x4000_0000_0000_0000_0000_0000_0000_0000,
{
}

/// The square of a 64-bit quantity is nonnegative and stays inside `i128`.
pub proof fn lemma_i64_square_fits(a: int)
    by (nonlinear_arith)
    requires
        -0x8000_0000_0000_0000 <= a <= 0x8000_0000_0000_0000,
    ensures
        0 <= a * a <= 0x4000_0000_0000_0000_0000_0000_0000_0000,
{
}

/// Divide a nonnegative `i128` by a positive one, rounding down.
fn udiv_i128(p: i128, d: i128) -> (q: i128)
    requires
        0 <= p,
        0 < d,
    ensures
        q == p as int / d as int,
{
    let pu: u128 = p as u128;
    let du: u128 = d as u128;
    let qu: u128 = pu / du;
    assert(qu == p as int / d as int) by {
        assert(pu as int == p as int);
        assert(du as int == d as int);
    };
    qu as i128
}

/// Clip an `i128` into the raw range and return it as a fixed-point number.
fn clip_i128(x: i128) -> (r: Fx)
    ensures
        r.raw == clip(x as int),
{
    if x < -(RAW_BOUND as i128) {
        Fx { raw: -RAW_BOUND }
    } else if x > RAW_BOUND as i128 {
        Fx { raw: RAW_BOUND }
    } else {
        Fx { raw: x as i64 }
    }
}

impl Fx {
    /// The fixed-point number closest to the integer `n` (clipped).
    pub fn from_int(n: i64) -> (r: Fx)
        ensures
            r.raw == clip(n * SCALE),
    {
        proof {
            lemma_i64_product_fits(n as int, SCALE as int);
        }
        clip_i128((n as i128) * (SCALE as i128))
    }

    /// Clipped sum.
    pub fn add(self, o: Fx) -> (r: Fx)
        ensures
            r.raw == fx_add(self.raw as int, o.raw as int),
    {
        clip_i128((self.raw as i128) + (o.raw as i128))
    }

    /// Clipped difference.
    pub fn sub(self, o: Fx) -> (r: Fx)
        ensures
            r.raw == fx_sub(self.raw as int, o.raw as int),
    {
        clip_i128((self.raw as i128) - (o.raw as i128))
    }

    /// Clipped fixed-point product.
    pub fn mul(self, o: Fx) -> (r: Fx)
        ensures
            r.raw == fx_mul(self.raw as int, o.raw as int),
    {
        proof {
            lemma_i64_product_fits(self.raw as int, o.raw as int);
        }
        let p: i128 = (self.raw as i128) * (o.raw as i128);
        let q: i128 = if p >= 0 {
            udiv_i128(p, SCALE as i128)
        } else {
            let m: i128 = -p;
            proof {
                vstd::arithmetic::div_mod::lemma_div_pos_is_pos(
                    m + (SCALE - 1),
                    SCALE as int,
                );
                vstd::arithmetic::div_mod::lemma_div_nonincreasing(
                    m + (SCALE - 1),
                    SCALE as int,
                );
            }
            -udiv_i128(m + (SCALE as i128 - 1), SCALE as i128)
        };
        clip_i128(q)
    }

    /// Clipped product with a plain integer.
    pub fn mul_int(self, n: i64) -> (r: Fx)
        ensures
            r.raw == fx_mul_int(self.raw as int, n as int),
    {
        proof {
            lemma_i64_product_fits(self.raw as int, n as int);
        }
        clip_i128((self.raw as i128) * (n as i128))
    }

    /// Clipped doubling.
    pub fn double(self) -> (r: Fx)
        ensures
            r.raw == fx_mul_int(self.raw as int, 2),
    {
        clip_i128(2 * (self.raw as i128))
    }

    /// Divide by a positive integer, rounding down.
    pub fn div_int(self, n: u32) -> (r: Fx)
        requires
            n >= 1,
        ensures
            r.raw == clip(fxdiv(self.raw as int, n as int)),
    {
        let q: i128 = if self.raw >= 0 {
            udiv_i128(self.raw as i128, n as i128)
        } else {
            let m: i128 = -(self.raw as i128);
            proof {
                vstd::arithmetic::div_mod::lemma_div_pos_is_pos(m + n - 1, n as int);
            }
            -udiv_i128(m + (n as i128 - 1), n as i128)
        };
        clip_i128(q)
    }

    /// The integer part of the value, rounded toward zero.
    pub fn trunc(self) -> (n: i64)
        ensures
            n == fxtrunc_by(self.raw as int, SCALE as int),
    {
        let q: i128 = if self.raw >= 0 {
            proof {
                vstd::arithmetic::div_mod::lemma_div_nonincreasing(self.raw as int, SCALE as int);
                vstd::arithmetic::div_mod::lemma_div_pos_is_pos(self.raw as int, SCALE as int);
            }
            udiv_i128(self.raw as i128, SCALE as i128)
        } else {
            proof {
                let m = -(self.raw as int);
                vstd::arithmetic::div_mod::lemma_div_nonincreasing(m, SCALE as int);
                vstd::arithmetic::div_mod::lemma_div_pos_is_pos(m, SCALE as int);
            }
            -udiv_i128(-(self.raw as i128), SCALE as i128)
        };
        q as i64
    }

    /// Strict order on values.
    pub fn lt(self, o: Fx) -> (r: bool)
        ensures
            r == (self.raw < o.raw),
    {
        self.raw < o.raw
    }
}

} // verus!
