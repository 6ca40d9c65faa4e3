//! Two-component integer vectors.
use vstd::prelude::*;

verus! {

/// A pair `(x, y)`. World coordinates use `Vector2<i64>`; `y` grows upward.
#[derive(Debug, Clone, Copy, PartialEq, Eq)]
pub struct Vector2<T>(pub T, pub T);

/// The floor of the square root of `n`: the one `r` with `r * r <= n < (r + 1) * (r + 1)`.
pub open spec fn is_floor_sqrt(r: nat, n: nat) -> bool {
    r * r <= n && n < (r + 1) * (r + 1)
}

pub open spec fn floor_sqrt(n: nat) -> nat {
    choose|r: nat| is_floor_sqrt(r, n)
}

/// Integer division that rounds toward zero, as Rust's `/` does.
pub open spec fn div_toward_zero(a: int, d: nat) -> int
    recommends
        d > 0,
{
    if a >= 0 {
        a / (d as int)
    } else {
        -((-a) / (d as int))
    }
}

proof fn lemma_floor_sqrt_unique(a: nat, b: nat, n: nat)
    requires
        is_floor_sqrt(a, n),
        is_floor_sqrt(b, n),
    ensures
        a == b,
{
    if a < b {
        assert((a + 1) * (a + 1) <= b * b) by (nonlinear_arith)
            requires
                a + 1 <= b,
        ;
    } else if b < a {
        assert((b + 1) * (b + 1) <= a * a) by (nonlinear_arith)
            requires
                b + 1 <= a,
        ;
    }
}

pub(crate) proof fn lemma_product_bound(a: int, b: int)
    requires
        i64::MIN <= a <= i64::MAX,
        i64::MIN <= b <= i64::MAX,
    ensures
        -0x4000_0000_0000_0000_0000_0000_0000_0000 <= a * b <= 0x4000_0000_0000_0000_0000_0000_0000_0000,
        i128::MIN <= a * b <= i128::MAX,
{
    assert(-0x4000_0000_0000_0000_0000_0000_0000_0000 <= a * b <= 0x4000_0000_0000_0000_0000_0000_0000_0000)
        by (nonlinear_arith)
        requires
            -0x8000_0000_0000_0000 <= a <= 0x8000_0000_0000_0000,
            -0x8000_0000_0000_0000 <= b <= 0x8000_0000_0000_0000,
    ;
}

/// `a / d`, rounding toward zero.
fn div_toward_zero_exec(a: i64, d: u64) -> (r: i64)
    requires
        d > 0,
    ensures
        r == div_toward_zero(a as int, d as nat),
{
    let m: u128 = if a < 0 { (-(a as i128)) as u128 } else { a as u128 };
    let q: u128 = m / (d as u128);
    assert(q <= m) by (nonlinear_arith)
        requires
            q == m / (d as u128),
            d > 0,
    ;
    if a < 0 {
        (-(q as i128)) as i64
    } else {
        q as i64
    }
}

/// Computes `floor_sqrt(n)` by bisection.
fn isqrt(n: u128) -> (r: u64)
    ensures
        r as nat == floor_sqrt(n as nat),
        is_floor_sqrt(r as nat, n as nat),
{
    let mut lo: u128 = 0;
    let mut hi: u128 = 0x1_0000_0000_0000_0000;
    assert(n < hi * hi);
    while hi - lo > 1
        invariant
            lo < hi <= 0x1_0000_0000_0000_0000,
            lo * lo <= n,
            n < hi * hi,
        decreases hi - lo,
    {
        let mid: u128 = lo + (hi - lo) / 2;
        assert(mid * mid < 0x1_0000_0000_0000_0000 * 0x1_0000_0000_0000_0000) by (nonlinear_arith)
            requires
                mid < 0x1_0000_0000_0000_0000,
        ;
        if mid * mid <= n {
            lo = mid;
        } else {
            hi = mid;
        }
    }
    proof {
        assert(hi == lo + 1);
        assert(is_floor_sqrt(lo as nat, n as nat));
        lemma_floor_sqrt_unique(lo as nat, floor_sqrt(n as nat), n as nat);
    }
    lo as u64
}

impl Vector2<i64> {
    /// `x * x + y * y`.
    pub open spec fn len_sq(self) -> nat {
        (self.0 * self.0 + self.1 * self.1) as nat
    }

    /// The Euclidean length, rounded down.
    pub open spec fn length(self) -> nat {
        floor_sqrt(self.len_sq())
    }

    pub open spec fn dot_spec(self, rhs: Self) -> int {
        self.0 * rhs.0 + self.1 * rhs.1
    }

    /// Each component divided by the rounded-down length, rounding toward zero.
    pub open spec fn normalised_spec(self) -> Self
        recommends
            self.len_sq() > 0,
    {
        Vector2(
            div_toward_zero(self.0 as int, self.length()) as i64,
            div_toward_zero(self.1 as int, self.length()) as i64,
        )
    }

    pub fn zero() -> (r: Self)
        ensures
            r == Vector2(0i64, 0i64),
    {
        Vector2(0, 0)
    }

    /// One unit toward larger `y`: the camera moves up the world, and the picture slides down.
    pub fn up() -> (r: Self)
        ensures
            r == Vector2(0i64, 1i64),
    {
        Vector2(0, 1)
    }

    pub fn down() -> (r: Self)
        ensures
            r == Vector2(0i64, -1i64),
    {
        Vector2(0, -1)
    }

    pub fn left() -> (r: Self)
        ensures
            r == Vector2(-1i64, 0i64),
    {
        Vector2(-1, 0)
    }

    pub fn right() -> (r: Self)
        ensures
            r == Vector2(1i64, 0i64),
    {
        Vector2(1, 0)
    }

    pub fn add(self, rhs: Self) -> (r: Self)
        requires
            i64::MIN <= self.0 + rhs.0 <= i64::MAX,
            i64::MIN <= self.1 + rhs.1 <= i64::MAX,
        ensures
            r.0 == self.0 + rhs.0,
            r.1 == self.1 + rhs.1,
    {
        Vector2(self.0 + rhs.0, self.1 + rhs.1)
    }

    pub fn sub(self, rhs: Self) -> (r: Self)
        requires
            i64::MIN <= self.0 - rhs.0 <= i64::MAX,
            i64::MIN <= self.1 - rhs.1 <= i64::MAX,
        ensures
            r.0 == self.0 - rhs.0,
            r.1 == self.1 - rhs.1,
    {
        Vector2(self.0 - rhs.0, self.1 - rhs.1)
    }

    /// Multiplies both components by `k`.
    pub fn scale(self, k: i64) -> (r: Self)
        requires
            i64::MIN <= self.0 * k <= i64::MAX,
            i64::MIN <= self.1 * k <= i64::MAX,
        ensures
            r.0 == self.0 * k,
            r.1 == self.1 * k,
    {
        Vector2(self.0 * k, self.1 * k)
    }

    /// The dot product, in a type wide enough for every pair but one.
    pub fn dot(&self, rhs: &Self) -> (r: i128)
        requires
            self.dot_spec(*rhs) <= i128::MAX,
        ensures
            r == self.dot_spec(*rhs),
    {
        let (x0, y0, x1, y1) = (self.0 as i128, self.1 as i128, rhs.0 as i128, rhs.1 as i128);
        proof {
            lemma_product_bound(x0 as int, x1 as int);
            lemma_product_bound(y0 as int, y1 as int);
        }
        let a: i128 = x0 * x1;
        let b: i128 = y0 * y1;
        a + b
    }

    /// `x * x + y * y`, exactly.
    pub fn len_squared(&self) -> (r: u128)
        ensures
            r == self.len_sq(),
    {
        let ax: u128 = if self.0 < 0 { (-(self.0 as i128)) as u128 } else { self.0 as u128 };
        let ay: u128 = if self.1 < 0 { (-(self.1 as i128)) as u128 } else { self.1 as u128 };
        assert(ax * ax <= 0x4000_0000_0000_0000_0000_0000_0000_0000) by (nonlinear_arith)
            requires
                ax <= 0x8000_0000_0000_0000,
        ;
        assert(ay * ay <= 0x4000_0000_0000_0000_0000_0000_0000_0000) by (nonlinear_arith)
            requires
                ay <= 0x8000_0000_0000_0000,
        ;
        assert(ax * ax == self.0 * self.0) by (nonlinear_arith)
            requires
                ax == self.0 || ax == -self.0,
        ;
        assert(ay * ay == self.1 * self.1) by (nonlinear_arith)
            requires
                ay == self.1 || ay == -self.1,
        ;
        ax * ax + ay * ay
    }

    /// The Euclidean length, rounded down.
    pub fn len(&self) -> (r: u64)
        ensures
            r == self.length(),
            is_floor_sqrt(r as nat, self.len_sq()),
    {
        let sq = self.len_squared();
        isqrt(sq)
    }

    /// Divides each component by the rounded-down length, rounding toward zero.
    /// The zero vector has no direction and is not accepted.
    pub fn normalise(&mut self)
        requires
            old(self).len_sq() > 0,
        ensures
            *final(self) == old(self).normalised_spec(),
    {
        *self = self.normalised();
    }

    /// A copy of `self` divided by its rounded-down length.
    pub fn normalised(&self) -> (r: Self)
        requires
            self.len_sq() > 0,
        ensures
            r == self.normalised_spec(),
    {
        let l = self.len();
        assert(l > 0) by (nonlinear_arith)
            requires
                self.len_sq() < (l + 1) * (l + 1),
                self.len_sq() > 0,
        ;
        Vector2(div_toward_zero_exec(self.0, l), div_toward_zero_exec(self.1, l))
    }

    /// `self` divided by its rounded-down length, consuming it.
    pub fn to_normalised(self) -> (r: Self)
        requires
            self.len_sq() > 0,
        ensures
            r == self.normalised_spec(),
    {
        let mut v = self;
        v.normalise();
        v
    }
}

} // verus!
