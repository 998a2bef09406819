//! Fixed-point 3-vectors, rays and the scalar helpers the whole
//! library builds on. A scalar is an `i64` counting `1 / UNIT` steps.
use vstd::prelude::*;

verus! {

use crate::{UNIT, GEOM_BOUND, ORIGIN_BOUND};

/// Truncating division (round toward zero), the semantics of Rust's
/// `/` on signed integers. Spec-level `/` on `int` rounds toward
/// negative infinity instead, so contracts about executable division
/// of possibly-negative scalars go through this function.
pub open spec fn tdiv(a: int, b: int) -> int {
    if a >= 0 {
        a / b
    } else {
        -((-a) / b)
    }
}

/// Largest `r` with `r * r <= n`, as a recursively defined function so
/// that contracts can name the result of a square root exactly.
pub open spec fn sqrt_floor(n: nat) -> nat
    decreases n,
{
    if n == 0 {
        0
    } else {
        let r = sqrt_floor((n - 1) as nat);
        if (r + 1) * (r + 1) <= n {
            r + 1
        } else {
            r
        }
    }
}

pub proof fn lemma_sqrt_floor_bounds(n: nat)
    ensures
        sqrt_floor(n) * sqrt_floor(n) <= n,
        n < (sqrt_floor(n) + 1) * (sqrt_floor(n) + 1),
    decreases n,
{
    if n == 0 {
        assert(sqrt_floor(0) == 0);
        assert(n < (sqrt_floor(n) + 1) * (sqrt_floor(n) + 1)) by (nonlinear_arith)
            requires
                n == 0,
                sqrt_floor(n) == 0;
    }
    if n > 0 {
        lemma_sqrt_floor_bounds((n - 1) as nat);
        let r = sqrt_floor((n - 1) as nat);
        assert(r * r <= n - 1 && n - 1 < (r + 1) * (r + 1));
        if (r + 1) * (r + 1) <= n {
            assert(sqrt_floor(n) == r + 1);
            assert(n < (r + 1 + 1) * (r + 1 + 1)) by (nonlinear_arith)
                requires
                    n <= (r + 1) * (r + 1),
                    r >= 0;
            assert(sqrt_floor(n) * sqrt_floor(n) <= n);
            assert(n < (sqrt_floor(n) + 1) * (sqrt_floor(n) + 1));
        } else {
            assert(sqrt_floor(n) == r);
            assert(r * r <= n);
            assert(sqrt_floor(n) * sqrt_floor(n) <= n);
            assert(n < (sqrt_floor(n) + 1) * (sqrt_floor(n) + 1));
        }
    }
}

/// The floor square root is the only `r` with `r * r <= n < (r+1)^2`.
pub proof fn lemma_sqrt_floor_unique(n: nat, r: nat)
    requires
        r * r <= n,
        n < (r + 1) * (r + 1),
    ensures
        r == sqrt_floor(n),
{
    lemma_sqrt_floor_bounds(n);
    let s = sqrt_floor(n);
    assert(r == s) by (nonlinear_arith)
        requires
            r * r <= n,
            n < (r + 1) * (r + 1),
            s * s <= n,
            n < (s + 1) * (s + 1),
            r >= 0,
            s >= 0;
}

/// `|a * b| <= aa * bb` whenever `|a| <= aa` and `|b| <= bb`.
pub proof fn lemma_abs_mul_le(a: int, b: int, aa: int, bb: int)
    by (nonlinear_arith)
    requires
        -aa <= a <= aa,
        -bb <= b <= bb,
        0 <= aa,
        0 <= bb,
    ensures
        -(aa * bb) <= a * b <= aa * bb,
{
}

/// A vector with a nonzero component has a nonzero squared length.
pub proof fn lemma_vec_nonzero_norm2(v: Vec3)
    by (nonlinear_arith)
    requires
        v.x != 0 || v.y != 0 || v.z != 0,
    ensures
        v.spec_norm2() != 0,
{
}

/// A square is never negative.
pub proof fn lemma_square_nonneg(a: int)
    by (nonlinear_arith)
    ensures
        a * a >= 0,
{
}

/// Truncating division of magnitudes bounded by a multiple of the
/// divisor stays within the multiplier.
pub proof fn lemma_tdiv_bound(a: int, b: int, m: int)
    by (nonlinear_arith)
    requires
        b > 0,
        m >= 0,
        -(m * b) <= a <= m * b,
    ensures
        -m <= tdiv(a, b) <= m,
        a >= 0 ==> tdiv(a, b) >= 0,
        a <= 0 ==> tdiv(a, b) <= 0,
{
}

/// Truncating division, checked against `tdiv`.
pub fn div_i128(a: i128, b: i128) -> (r: i128)
    requires
        b > 0,
        a != i128::MIN,
    ensures
        r == tdiv(a as int, b as int),
{
    if a >= 0 {
        a / b
    } else {
        -((-a) / b)
    }
}

/// Floor square root of a `u128` by binary search on the root.
pub fn isqrt_u128(n: u128) -> (r: u128)
    ensures
        r == sqrt_floor(n as nat),
{
    let mut lo: u128 = 0;
    // An exclusive upper bound on the root: (2^64)^2 > u128::MAX.
    let mut hi: u128 = 1u128 << 64u128;
    assert((1u128 << 64u128) == 0x1_0000_0000_0000_0000u128) by (bit_vector);
    assert(hi * hi > n) by (nonlinear_arith)
        requires
            hi == 0x1_0000_0000_0000_0000u128,
            n <= u128::MAX;
    while lo + 1 < hi
        invariant
            lo < hi,
            hi <= 0x1_0000_0000_0000_0000u128,
            (lo as nat) * (lo as nat) <= n as nat,
            (n as nat) < (hi as nat) * (hi as nat),
        decreases hi - lo,
    {
        let mid: u128 = lo + (hi - lo) / 2;
        assert(mid * mid <= u128::MAX) by (nonlinear_arith)
            requires
                mid < 0x1_0000_0000_0000_0000u128,
                u128::MAX == 0xffff_ffff_ffff_ffff_ffff_ffff_ffff_ffffu128;
        if mid * mid <= n {
            lo = mid;
        } else {
            hi = mid;
        }
    }
    proof {
        lemma_sqrt_floor_unique(n as nat, lo as nat);
    }
    lo
}

/// Texture coordinate of a surface point.
#[derive(Clone, Copy, Debug, PartialEq, Eq, Structural)]
pub struct Uv {
    pub u: i64,
    pub v: i64,
}

/// A 3-vector of fixed-point scalars: positions, directions, colors.
#[derive(Clone, Copy, Debug, PartialEq, Eq, Structural)]
pub struct Vec3 {
    pub x: i64,
    pub y: i64,
    pub z: i64,
}

/// All three components within `b` in magnitude.
pub open spec fn vec_within(v: Vec3, b: int) -> bool {
    &&& -b <= v.x <= b
    &&& -b <= v.y <= b
    &&& -b <= v.z <= b
}

impl Vec3 {
    pub fn new(x: i64, y: i64, z: i64) -> (r: Vec3)
        ensures
            r == (Vec3 { x, y, z }),
    {
        Vec3 { x, y, z }
    }

    pub fn zero() -> (r: Vec3)
        ensures
            r == (Vec3 { x: 0, y: 0, z: 0 }),
    {
        Vec3 { x: 0, y: 0, z: 0 }
    }

    /// Component along an axis index: 0 is x, 1 is y, anything else z.
    pub open spec fn spec_axis(self, a: u8) -> i64 {
        if a == 0 {
            self.x
        } else if a == 1 {
            self.y
        } else {
            self.z
        }
    }

    pub fn axis(&self, a: u8) -> (r: i64)
        ensures
            r == self.spec_axis(a),
    {
        if a == 0 {
            self.x
        } else if a == 1 {
            self.y
        } else {
            self.z
        }
    }

    pub fn add(&self, o: &Vec3) -> (r: Vec3)
        requires
            i64::MIN <= self.x + o.x <= i64::MAX,
            i64::MIN <= self.y + o.y <= i64::MAX,
            i64::MIN <= self.z + o.z <= i64::MAX,
        ensures
            r.x == self.x + o.x,
            r.y == self.y + o.y,
            r.z == self.z + o.z,
    {
        Vec3 { x: self.x + o.x, y: self.y + o.y, z: self.z + o.z }
    }

    pub fn sub(&self, o: &Vec3) -> (r: Vec3)
        requires
            i64::MIN <= self.x - o.x <= i64::MAX,
            i64::MIN <= self.y - o.y <= i64::MAX,
            i64::MIN <= self.z - o.z <= i64::MAX,
        ensures
            r.x == self.x - o.x,
            r.y == self.y - o.y,
            r.z == self.z - o.z,
    {
        Vec3 { x: self.x - o.x, y: self.y - o.y, z: self.z - o.z }
    }

    pub fn neg(&self) -> (r: Vec3)
        requires
            self.x != i64::MIN,
            self.y != i64::MIN,
            self.z != i64::MIN,
        ensures
            r.x == -self.x,
            r.y == -self.y,
            r.z == -self.z,
    {
        Vec3 { x: -self.x, y: -self.y, z: -self.z }
    }

    /// What a fixed-point product of two components means.
    pub open spec fn spec_fixed_mul(a: int, b: int) -> int {
        tdiv(a * b, UNIT as int)
    }

    /// Componentwise product with a fixed-point scalar.
    pub fn scale(&self, s: i64) -> (r: Vec3)
        requires
            vec_within(*self, 0x80_0000_0000),
            -0x80_0000_0000 <= s <= 0x80_0000_0000,
        ensures
            r.x == Vec3::spec_fixed_mul(self.x as int, s as int),
            r.y == Vec3::spec_fixed_mul(self.y as int, s as int),
            r.z == Vec3::spec_fixed_mul(self.z as int, s as int),
            vec_within(r, 0x80_0000_0000int * 0x80_0000_0000 / (UNIT as int)),
    {
        Vec3 { x: fixed_mul(self.x, s), y: fixed_mul(self.y, s), z: fixed_mul(self.z, s) }
    }

    /// Fixed-point dot product: the sum of componentwise products,
    /// brought back to scalar scale by one division by `UNIT`.
    pub open spec fn spec_dot(self, o: Vec3) -> int {
        tdiv(self.x * o.x + self.y * o.y + self.z * o.z, UNIT as int)
    }

    pub fn dot(&self, o: &Vec3) -> (r: i64)
        requires
            vec_within(*self, 0x4000_0000),
            vec_within(*o, 0x4000_0000),
        ensures
            r == self.spec_dot(*o),
            -0x3000_0000_0000 <= r <= 0x3000_0000_0000,
    {
        proof {
            lemma_abs_mul_le(self.x as int, o.x as int, 0x4000_0000, 0x4000_0000);
            lemma_abs_mul_le(self.y as int, o.y as int, 0x4000_0000, 0x4000_0000);
            lemma_abs_mul_le(self.z as int, o.z as int, 0x4000_0000, 0x4000_0000);
        }
        let p: i128 = (self.x as i128) * (o.x as i128) + (self.y as i128) * (o.y as i128) + (
        self.z as i128) * (o.z as i128);
        proof {
            lemma_tdiv_bound(p as int, UNIT as int, 0x3000_0000_0000);
        }
        div_i128(p, UNIT as i128) as i64
    }

    /// Squared length in raw product scale (not divided by `UNIT`).
    pub open spec fn spec_norm2(self) -> int {
        self.x * self.x + self.y * self.y + self.z * self.z
    }

    /// Fixed-point length: the floor square root of the squared length.
    /// The two `UNIT` scales of the square cancel into one.
    pub open spec fn spec_length(self) -> int {
        sqrt_floor(self.spec_norm2() as nat) as int
    }

    pub fn length(&self) -> (r: i64)
        requires
            vec_within(*self, 0x4000_0000_0000_0000),
        ensures
            r == self.spec_length(),
            0 <= r <= 0x7fff_ffff_ffff_ffffint,
    {
        proof {
            lemma_abs_mul_le(self.x as int, self.x as int, 0x4000_0000_0000_0000, 0x4000_0000_0000_0000);
            lemma_abs_mul_le(self.y as int, self.y as int, 0x4000_0000_0000_0000, 0x4000_0000_0000_0000);
            lemma_abs_mul_le(self.z as int, self.z as int, 0x4000_0000_0000_0000, 0x4000_0000_0000_0000);
            lemma_square_nonneg(self.x as int);
            lemma_square_nonneg(self.y as int);
            lemma_square_nonneg(self.z as int);
        }
        let p: i128 = (self.x as i128) * (self.x as i128) + (self.y as i128) * (self.y as i128)
            + (self.z as i128) * (self.z as i128);
        proof {
            lemma_sqrt_floor_bounds(p as nat);
            assert(sqrt_floor(p as nat) <= 0x7fff_ffff_ffff_ffff) by {
                let s = sqrt_floor(p as nat);
                assert(s * s <= p);
                assert(s <= 0x7fff_ffff_ffff_ffff) by (nonlinear_arith)
                    requires
                        s * s <= p,
                        p <= 3 * (0x4000_0000_0000_0000int * 0x4000_0000_0000_0000),
                        s >= 0;
            }
        }
        let r: u128 = isqrt_u128(p as u128);
        r as i64
    }

    /// The unit-length direction of a non-zero vector, in fixed point:
    /// each component times `UNIT`, divided by the length.
    pub open spec fn spec_unit(self) -> Vec3 {
        let len = self.spec_length();
        Vec3 {
            x: tdiv(self.x * UNIT as int, len) as i64,
            y: tdiv(self.y * UNIT as int, len) as i64,
            z: tdiv(self.z * UNIT as int, len) as i64,
        }
    }

    pub fn unit(&self) -> (r: Vec3)
        requires
            vec_within(*self, 0x4000_0000_0000),
            self.spec_norm2() != 0,
        ensures
            r == self.spec_unit(),
            vec_within(r, UNIT as int),
    {
        proof {
            assert(self.spec_norm2() >= 0) by (nonlinear_arith);
        }
        let len: i64 = self.length();
        proof {
            lemma_sqrt_floor_bounds(self.spec_norm2() as nat);
            assert(len > 0) by (nonlinear_arith)
                requires
                    len >= 0,
                    (len + 1) * (len + 1) > self.spec_norm2(),
                    self.spec_norm2() > 0;
            lemma_component_below_length(self.x as int, self.y as int, self.z as int, len as int);
            lemma_component_below_length(self.y as int, self.x as int, self.z as int, len as int);
            lemma_component_below_length(self.z as int, self.x as int, self.y as int, len as int);
        }
        Vec3 {
            x: unit_component(self.x, len),
            y: unit_component(self.y, len),
            z: unit_component(self.z, len),
        }
    }
}

/// A component whose square is below the squared length is at most the
/// floor length in magnitude.
proof fn lemma_component_below_length(x: int, b: int, c: int, len: int)
    by (nonlinear_arith)
    requires
        len >= 0,
        x * x + b * b + c * c < (len + 1) * (len + 1),
    ensures
        -len <= x <= len,
{
}

/// One component of a unit vector: scaled by `UNIT`, divided by the
/// length. With `|c| <= len` the result is within `UNIT`.
fn unit_component(c: i64, len: i64) -> (r: i64)
    requires
        len > 0,
        -len <= c <= len,
    ensures
        r == tdiv(c as int * UNIT as int, len as int),
        -(UNIT as int) <= r <= UNIT as int,
    {
    proof {
        lemma_abs_mul_le(c as int, UNIT as int, len as int, UNIT as int);
    }
    let p: i128 = (c as i128) * (UNIT as i128);
    proof {
        lemma_abs_mul_le(len as int, UNIT as int, len as int, UNIT as int);
        assert(len as int * (UNIT as int) == UNIT as int * (len as int)) by (nonlinear_arith);
        lemma_tdiv_bound(p as int, len as int, UNIT as int);
    }
    div_i128(p, len as i128) as i64
}

/// Fixed-point product of two scalars.
pub fn fixed_mul(a: i64, b: i64) -> (r: i64)
    requires
        -0x80_0000_0000 <= a <= 0x80_0000_0000,
        -0x80_0000_0000 <= b <= 0x80_0000_0000,
    ensures
        r == Vec3::spec_fixed_mul(a as int, b as int),
        -(0x80_0000_0000int * 0x80_0000_0000 / (UNIT as int)) <= r
            <= 0x80_0000_0000int * 0x80_0000_0000 / (UNIT as int),
{
    proof {
        lemma_abs_mul_le(a as int, b as int, 0x80_0000_0000, 0x80_0000_0000);
    }
    let p: i128 = (a as i128) * (b as i128);
    proof {
        lemma_tdiv_bound(p as int, UNIT as int, 0x80_0000_0000int * 0x80_0000_0000 / (UNIT as int));
        assert(0x80_0000_0000int * 0x80_0000_0000 / (UNIT as int) * (UNIT as int)
            == 0x80_0000_0000int * 0x80_0000_0000);
    }
    div_i128(p, UNIT as i128) as i64
}

} // verus!

verus! {

/// Product of two `i64` values, exact in an `i128`.
pub fn wide_mul(a: i64, b: i64) -> (r: i128)
    ensures
        r == a as int * b as int,
{
    proof {
        lemma_abs_mul_le(a as int, b as int, 0x8000_0000_0000_0000, 0x8000_0000_0000_0000);
    }
    (a as i128) * (b as i128)
}

/// A ray: origin, direction (not necessarily unit length) and the
/// exposure time it was fired at (for motion blur).
#[derive(Clone, Copy, Debug, PartialEq, Eq, Structural)]
pub struct Ray {
    pub origin: Vec3,
    pub direction: Vec3,
    pub time: i64,
}

/// Origin and direction components small enough for every product the
/// intersection routines form.
pub open spec fn ray_within_bounds(r: Ray) -> bool {
    &&& vec_within(r.origin, ORIGIN_BOUND as int)
    &&& vec_within(r.direction, GEOM_BOUND as int)
}

impl Ray {
    pub fn new(origin: Vec3, direction: Vec3, time: i64) -> (r: Ray)
        ensures
            r == (Ray { origin, direction, time }),
    {
        Ray { origin, direction, time }
    }

    /// The point reached after parameter `t`: `origin + t * direction`.
    pub open spec fn spec_at(self, t: i64) -> Vec3 {
        Vec3 {
            x: (self.origin.x + Vec3::spec_fixed_mul(t as int, self.direction.x as int)) as i64,
            y: (self.origin.y + Vec3::spec_fixed_mul(t as int, self.direction.y as int)) as i64,
            z: (self.origin.z + Vec3::spec_fixed_mul(t as int, self.direction.z as int)) as i64,
        }
    }

    pub fn at(&self, t: i64) -> (p: Vec3)
        requires
            ray_within_bounds(*self),
            -GEOM_BOUND <= t <= GEOM_BOUND,
        ensures
            p == self.spec_at(t),
            vec_within(p, 0x4000_0100_0000_0000),
    {
        let d = self.direction.scale(t);
        self.origin.add(&d)
    }
}

} // verus!
