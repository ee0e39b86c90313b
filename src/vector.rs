//! Two-dimensional fixed-point vectors and length clamping.
use vstd::prelude::*;

verus! {

/// Fixed-point scale: `ONE` steps are one world unit, one second, one unit of power.
pub const ONE: i64 = 1000;

/// Largest magnitude of a coordinate that the length operations accept.
pub const WIDE: i64 = 0x1000_0000_0000_0000;

/// A vector with integer coordinates.
#[derive(Clone, Copy, Debug, PartialEq, Eq, Structural)]
pub struct Vec2 {
    pub x: i64,
    pub y: i64,
}

pub open spec fn abs(x: int) -> int {
    if x >= 0 { x } else { -x }
}

/// `v` lies between `a` and `b`, in either order.
pub open spec fn between(v: int, a: int, b: int) -> bool {
    (a <= v <= b) || (b <= v <= a)
}

/// `r` is the least non-negative integer whose square reaches `n`.
pub open spec fn is_ceil_sqrt(n: int, r: int) -> bool {
    r >= 0 && r * r >= n && (r == 0 || (r - 1) * (r - 1) < n)
}

/// The least non-negative integer whose square reaches `n`.
pub open spec fn ceil_sqrt(n: int) -> int {
    choose|r: int| is_ceil_sqrt(n, r)
}

/// `x * m / n`, rounded toward zero.
pub open spec fn scale_toward_zero(x: int, m: int, n: int) -> int {
    if x >= 0 {
        x * m / n
    } else {
        -((-x) * m / n)
    }
}

impl Vec2 {
    pub open spec fn len_sqr_spec(self) -> int {
        self.x * self.x + self.y * self.y
    }

    /// Both coordinates are at most `b` in magnitude.
    pub open spec fn within(self, b: int) -> bool {
        -b <= self.x <= b && -b <= self.y <= b
    }

    pub open spec fn plus_spec(self, o: Vec2) -> Vec2 {
        Vec2 { x: (self.x + o.x) as i64, y: (self.y + o.y) as i64 }
    }

    pub open spec fn minus_spec(self, o: Vec2) -> Vec2 {
        Vec2 { x: (self.x - o.x) as i64, y: (self.y - o.y) as i64 }
    }

    pub open spec fn times_spec(self, k: int) -> Vec2 {
        Vec2 { x: (self.x * k) as i64, y: (self.y * k) as i64 }
    }

    /// Each coordinate scaled by `m / n`, rounded toward zero.
    pub open spec fn rescaled(self, m: int, n: int) -> Vec2 {
        Vec2 {
            x: scale_toward_zero(self.x as int, m, n) as i64,
            y: scale_toward_zero(self.y as int, m, n) as i64,
        }
    }

    /// The vector shortened to length `max` when it is longer, keeping its direction.
    pub open spec fn clamp_len_spec(self, max: int) -> Vec2 {
        if self.len_sqr_spec() <= max * max {
            self
        } else {
            self.rescaled(max, ceil_sqrt(self.len_sqr_spec()))
        }
    }

    /// The vector brought to length `len` in its own direction; the zero vector stays zero.
    pub open spec fn with_len_spec(self, len: int) -> Vec2 {
        if self.len_sqr_spec() == 0 {
            self
        } else {
            self.rescaled(len, ceil_sqrt(self.len_sqr_spec()))
        }
    }

    pub fn new(x: i64, y: i64) -> (r: Vec2)
        ensures
            r.x == x,
            r.y == y,
    {
        Vec2 { x, y }
    }

    pub open spec fn zero_spec() -> Vec2 {
        Vec2 { x: 0, y: 0 }
    }

    pub fn zero() -> (r: Vec2)
        ensures
            r == Vec2::zero_spec(),
    {
        Vec2 { x: 0, y: 0 }
    }

    pub fn plus(self, o: Vec2) -> (r: Vec2)
        requires
            i64::MIN <= self.x + o.x <= i64::MAX,
            i64::MIN <= self.y + o.y <= i64::MAX,
        ensures
            r == self.plus_spec(o),
    {
        Vec2 { x: self.x + o.x, y: self.y + o.y }
    }

    pub fn minus(self, o: Vec2) -> (r: Vec2)
        requires
            i64::MIN <= self.x - o.x <= i64::MAX,
            i64::MIN <= self.y - o.y <= i64::MAX,
        ensures
            r == self.minus_spec(o),
    {
        Vec2 { x: self.x - o.x, y: self.y - o.y }
    }

    pub fn times(self, k: i64) -> (r: Vec2)
        requires
            i64::MIN <= self.x * k <= i64::MAX,
            i64::MIN <= self.y * k <= i64::MAX,
        ensures
            r == self.times_spec(k as int),
    {
        Vec2 { x: self.x * k, y: self.y * k }
    }

    /// Each coordinate multiplied by `m / n`, rounded toward zero.
    pub fn mul_div(self, m: i64, n: i64) -> (r: Vec2)
        requires
            self.within(WIDE as int),
            0 <= m <= WIDE,
            0 < n,
            abs(self.x as int) * m <= (WIDE as int) * n,
            abs(self.y as int) * m <= (WIDE as int) * n,
        ensures
            r == self.rescaled(m as int, n as int),
            abs(r.x as int) * n <= abs(self.x as int) * m,
            abs(r.y as int) * n <= abs(self.y as int) * m,
            r.within(WIDE as int),
    {
        Vec2 { x: mul_div(self.x, m, n), y: mul_div(self.y, m, n) }
    }

    /// Squared length.
    pub fn len_sqr(self) -> (r: i128)
        requires
            self.within(WIDE as int),
        ensures
            r == self.len_sqr_spec(),
            0 <= r <= 2 * (WIDE as int) * (WIDE as int),
    {
        let x = self.x as i128;
        let y = self.y as i128;
        proof {
            lemma_square_bound(x as int, WIDE as int);
            lemma_square_bound(y as int, WIDE as int);
        }
        x * x + y * y
    }

    /// The vector shortened to length `max` when it is longer than that.
    pub fn clamp_len(self, max: i64) -> (r: Vec2)
        requires
            self.within(WIDE as int),
            0 <= max <= WIDE,
        ensures
            r == self.clamp_len_spec(max as int),
            r.len_sqr_spec() <= max * max,
            between(r.x as int, 0, self.x as int),
            between(r.y as int, 0, self.y as int),
    {
        let s = self.len_sqr();
        let m = max as i128;
        proof {
            lemma_square_bound(m as int, WIDE as int);
        }
        if s <= m * m {
            proof {
                assert(self.x * self.x >= 0) by (nonlinear_arith);
                assert(self.y * self.y >= 0) by (nonlinear_arith);
            }
            self
        } else {
            let n = ceil_sqrt_exec(s as u128);
            proof {
                lemma_ceil_sqrt_unique(s as int, n as int);
                lemma_ceil_sqrt_above(s as int, n as int, m as int);
                lemma_square_le_len(self.x as int, self.y as int, n as int);
            }
            let r = Vec2 {
                x: scale_coord(self.x, max, n as i128),
                y: scale_coord(self.y, max, n as i128),
            };
            proof {
                lemma_rescaled_len(self.x as int, self.y as int, m as int, n as int);
            }
            r
        }
    }

    /// The vector brought to length `len` in its own direction (the zero vector stays zero).
    /// Rounding toward zero keeps the result no longer than `len`.
    pub fn with_len(self, len: i64) -> (r: Vec2)
        requires
            self.within(WIDE as int),
            0 <= len <= WIDE,
        ensures
            r == self.with_len_spec(len as int),
            r.len_sqr_spec() <= len * len,
            r.within(len as int),
    {
        let s = self.len_sqr();
        if s == 0 {
            proof {
                assert(self.x * self.x >= 0) by (nonlinear_arith);
                assert(self.y * self.y >= 0) by (nonlinear_arith);
                assert(self.x * self.x == 0 ==> self.x == 0) by (nonlinear_arith);
                assert(self.y * self.y == 0 ==> self.y == 0) by (nonlinear_arith);
                assert(len * len >= 0) by (nonlinear_arith);
            }
            self
        } else {
            let n = ceil_sqrt_exec(s as u128);
            proof {
                lemma_ceil_sqrt_unique(s as int, n as int);
                lemma_square_le_len(self.x as int, self.y as int, n as int);
            }
            let r = Vec2 {
                x: scale_coord(self.x, len, n as i128),
                y: scale_coord(self.y, len, n as i128),
            };
            proof {
                lemma_rescaled_len(self.x as int, self.y as int, len as int, n as int);
                lemma_scale_within(self.x as int, len as int, n as int);
                lemma_scale_within(self.y as int, len as int, n as int);
            }
            r
        }
    }
}

/// A vector no longer than `r` has both coordinates within `r`.
pub proof fn lemma_len_within(v: Vec2, r: int)
    requires
        r >= 0,
        v.len_sqr_spec() <= r * r,
    ensures
        v.within(r),
{
    assert(v.x * v.x <= r * r && v.y * v.y <= r * r) by (nonlinear_arith)
        requires
            v.x * v.x + v.y * v.y <= r * r,
    ;
    assert(-r <= v.x <= r) by (nonlinear_arith)
        requires
            v.x * v.x <= r * r,
            r >= 0,
    ;
    assert(-r <= v.y <= r) by (nonlinear_arith)
        requires
            v.y * v.y <= r * r,
            r >= 0,
    ;
}

proof fn lemma_square_bound(x: int, b: int)
    requires
        -b <= x <= b,
    ensures
        0 <= x * x <= b * b,
{
    assert(0 <= x * x <= b * b) by (nonlinear_arith)
        requires
            -b <= x <= b,
    ;
}

/// A ceiling square root is unique, so it is the one that `ceil_sqrt` names.
pub proof fn lemma_ceil_sqrt_unique(n: int, r: int)
    requires
        is_ceil_sqrt(n, r),
    ensures
        ceil_sqrt(n) == r,
{
    let c = ceil_sqrt(n);
    assert(is_ceil_sqrt(n, c));
    if c < r {
        assert(c * c <= (r - 1) * (r - 1)) by (nonlinear_arith)
            requires
                0 <= c <= r - 1,
        ;
    } else if r < c {
        assert(r * r <= (c - 1) * (c - 1)) by (nonlinear_arith)
            requires
                0 <= r <= c - 1,
        ;
    }
}

/// Where `m * m < s`, the ceiling square root of `s` exceeds `m`.
proof fn lemma_ceil_sqrt_above(s: int, n: int, m: int)
    requires
        is_ceil_sqrt(s, n),
        0 <= m,
        m * m < s,
    ensures
        n > m,
{
    if n <= m {
        assert(n * n <= m * m) by (nonlinear_arith)
            requires
                0 <= n <= m,
        ;
    }
}

/// Each coordinate is no longer than the ceiling square root of the squared length.
proof fn lemma_square_le_len(x: int, y: int, n: int)
    requires
        is_ceil_sqrt(x * x + y * y, n),
    ensures
        abs(x) <= n,
        abs(y) <= n,
{
    assert(y * y >= 0) by (nonlinear_arith);
    assert(x * x >= 0) by (nonlinear_arith);
    if abs(x) > n {
        assert(abs(x) * abs(x) > n * n) by (nonlinear_arith)
            requires
                abs(x) > n >= 0,
        ;
        assert(abs(x) * abs(x) == x * x) by (nonlinear_arith)
            requires
                abs(x) == x || abs(x) == -x,
        ;
    }
    if abs(y) > n {
        assert(abs(y) * abs(y) > n * n) by (nonlinear_arith)
            requires
                abs(y) > n >= 0,
        ;
        assert(abs(y) * abs(y) == y * y) by (nonlinear_arith)
            requires
                abs(y) == y || abs(y) == -y,
        ;
    }
}

/// Facts on `a * m / n` for non-negative `a`, `m` and positive `n`.
pub proof fn lemma_scale_nonneg(a: int, m: int, n: int)
    requires
        a >= 0,
        m >= 0,
        n > 0,
    ensures
        0 <= a * m / n,
        (a * m / n) * n <= a * m,
        m <= n ==> a * m / n <= a,
        a <= n ==> a * m / n <= m,
{
    assert(a * m >= 0) by (nonlinear_arith)
        requires
            a >= 0,
            m >= 0,
    ;
    let q = a * m / n;
    vstd::arithmetic::div_mod::lemma_fundamental_div_mod(a * m, n);
    assert(0 <= q) by {
        vstd::arithmetic::div_mod::lemma_div_pos_is_pos(a * m, n);
    }
    assert(q * n <= a * m) by (nonlinear_arith)
        requires
            a * m == n * q + (a * m) % n,
            (a * m) % n >= 0,
    ;
    if m <= n {
        assert(a * m <= a * n) by (nonlinear_arith)
            requires
                a >= 0,
                m <= n,
        ;
        assert(q <= a) by (nonlinear_arith)
            requires
                q * n <= a * n,
                n > 0,
        ;
    }
    if a <= n {
        assert(a * m <= n * m) by (nonlinear_arith)
            requires
                m >= 0,
                a <= n,
        ;
        assert(q <= m) by (nonlinear_arith)
            requires
                q * n <= n * m,
                n > 0,
        ;
    }
}

/// Scaling by `m / n` toward zero stays within `m` when `|x| <= n`.
proof fn lemma_scale_within(x: int, m: int, n: int)
    requires
        abs(x) <= n,
        m >= 0,
        n > 0,
    ensures
        abs(scale_toward_zero(x, m, n)) <= m,
{
    lemma_scale_nonneg(abs(x), m, n);
}

/// Scaling both coordinates by `m / n`, where `n` is the ceiling square root of the
/// squared length, gives a vector no longer than `m`.
proof fn lemma_rescaled_len(x: int, y: int, m: int, n: int)
    requires
        is_ceil_sqrt(x * x + y * y, n),
        n > 0,
        m >= 0,
    ensures
        ({
            let a = scale_toward_zero(x, m, n);
            let b = scale_toward_zero(y, m, n);
            a * a + b * b <= m * m
        }),
{
    let ax = abs(x);
    let ay = abs(y);
    lemma_scale_nonneg(ax, m, n);
    lemma_scale_nonneg(ay, m, n);
    let qx = ax * m / n;
    let qy = ay * m / n;
    let a = scale_toward_zero(x, m, n);
    let b = scale_toward_zero(y, m, n);
    assert(a * a == qx * qx) by (nonlinear_arith)
        requires
            a == qx || a == -qx,
    ;
    assert(b * b == qy * qy) by (nonlinear_arith)
        requires
            b == qy || b == -qy,
    ;
    assert(ax * ax == x * x) by (nonlinear_arith)
        requires
            ax == x || ax == -x,
    ;
    assert(ay * ay == y * y) by (nonlinear_arith)
        requires
            ay == y || ay == -y,
    ;
    assert((qx * qx + qy * qy) * (n * n) <= (ax * ax + ay * ay) * (m * m)) by (nonlinear_arith)
        requires
            0 <= qx,
            0 <= qy,
            qx * n <= ax * m,
            qy * n <= ay * m,
            n > 0,
            ax >= 0,
            ay >= 0,
            m >= 0,
    ;
    assert((ax * ax + ay * ay) * (m * m) <= (n * n) * (m * m)) by (nonlinear_arith)
        requires
            ax * ax + ay * ay <= n * n,
            m >= 0,
    ;
    assert(qx * qx + qy * qy <= m * m) by (nonlinear_arith)
        requires
            (qx * qx + qy * qy) * (n * n) <= (n * n) * (m * m),
            n > 0,
    ;
}

/// The least `r` with `r * r >= n`, by bisection.
pub fn ceil_sqrt_exec(n: u128) -> (r: u64)
    requires
        n <= 0x4000_0000_0000_0000_0000_0000_0000_0000,
    ensures
        is_ceil_sqrt(n as int, r as int),
{
    if n == 0 {
        return 0;
    }
    let mut lo: u128 = 0;
    let mut hi: u128 = 0x8000_0000_0000_0000;
    assert(hi * hi == 0x4000_0000_0000_0000_0000_0000_0000_0000);
    while hi - lo > 1
        invariant
            lo < hi <= 0x8000_0000_0000_0000,
            lo * lo < n,
            hi * hi >= n,
        decreases hi - lo,
    {
        let mid = lo + (hi - lo) / 2;
        assert(mid * mid <= 0x4000_0000_0000_0000_0000_0000_0000_0000) by (nonlinear_arith)
            requires
                mid <= 0x8000_0000_0000_0000,
        ;
        if mid * mid >= n {
            hi = mid;
        } else {
            lo = mid;
        }
    }
    assert(hi - 1 == lo);
    hi as u64
}

/// `x * m / n` rounded toward zero, for a product that stays within `WIDE`.
pub fn mul_div(x: i64, m: i64, n: i64) -> (r: i64)
    requires
        -WIDE <= x <= WIDE,
        0 <= m <= WIDE,
        0 < n,
        abs(x as int) * m <= (WIDE as int) * n,
    ensures
        r == scale_toward_zero(x as int, m as int, n as int),
        abs(r as int) * n <= abs(x as int) * m,
        -WIDE <= r <= WIDE,
{
    let ax: i128 = if x >= 0 { x as i128 } else { -(x as i128) };
    proof {
        lemma_scale_nonneg(ax as int, m as int, n as int);
        assert(ax * m <= (WIDE as int) * (WIDE as int)) by (nonlinear_arith)
            requires
                0 <= ax <= WIDE,
                0 <= m <= WIDE,
        ;
        let q: int = (ax as int) * (m as int) / (n as int);
        assert(q <= WIDE) by (nonlinear_arith)
            requires
                q * n <= ax * m,
                ax * m <= (WIDE as int) * n,
                n > 0,
        ;
    }
    let q = ax * (m as i128) / (n as i128);
    if x >= 0 {
        q as i64
    } else {
        -(q as i64)
    }
}

/// One coordinate scaled by `m / n`, rounded toward zero.
fn scale_coord(x: i64, m: i64, n: i128) -> (r: i64)
    requires
        -WIDE <= x <= WIDE,
        0 <= m <= WIDE,
        0 < n,
        abs(x as int) <= n || m <= n,
    ensures
        r == scale_toward_zero(x as int, m as int, n as int),
        abs(r as int) <= abs(x as int) || abs(r as int) <= m,
        m <= n ==> between(r as int, 0, x as int),
{
    let ax: i128 = if x >= 0 { x as i128 } else { -(x as i128) };
    proof {
        lemma_scale_nonneg(ax as int, m as int, n as int);
        assert(ax * m <= (WIDE as int) * (WIDE as int)) by (nonlinear_arith)
            requires
                0 <= ax <= WIDE,
                0 <= m <= WIDE,
        ;
    }
    let q = ax * (m as i128) / n;
    if x >= 0 {
        q as i64
    } else {
        -(q as i64)
    }
}

} // verus!
