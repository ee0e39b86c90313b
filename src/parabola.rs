//! Quadratic arcs through three points, and closest-point queries on them.
use vstd::prelude::*;

use crate::vector::{scale_toward_zero, Vec2, ONE};

verus! {

/// Largest coordinate magnitude of the points an arc is fitted through.
pub const ARC_BOUND: i64 = 0x1_0000_0000;

/// Largest parameter magnitude at which the arc is evaluated and searched: `[-8.192, 8.192]`
/// in steps of `1 / ONE`, the widest range in which the exact squared distance from a
/// point to the arc (`dist_key`) fits in 128 bits for points within `ARC_BOUND`.
pub const ARC_RANGE: i64 = 8192;

/// The arc `f(t) = a t² + b t + c`, held with `a2 = 2a` and `b2 = 2b` so that every
/// coefficient is an integer. The parameter is fixed-point: `t = ONE` stands for 1,
/// and `f(-1)`, `f(0)`, `f(1)` are the three points the arc was fitted through.
#[derive(Clone, Copy, Debug, PartialEq, Eq, Structural)]
pub struct Parabola {
    pub a2: Vec2,
    pub b2: Vec2,
    pub c: Vec2,
}

/// The arc through `p0`, `p1`, `p2` at parameters -1, 0 and 1.
pub open spec fn fit(p0: Vec2, p1: Vec2, p2: Vec2) -> Parabola {
    Parabola {
        a2: Vec2 { x: (p0.x + p2.x - 2 * p1.x) as i64, y: (p0.y + p2.y - 2 * p1.y) as i64 },
        b2: Vec2 { x: (p2.x - p0.x) as i64, y: (p2.y - p0.y) as i64 },
        c: p1,
    }
}

/// The parameter can be evaluated, and is searched by closest-point queries.
pub open spec fn in_range(t: int) -> bool {
    -ARC_RANGE <= t <= ARC_RANGE
}

impl Parabola {
    pub open spec fn wf(self) -> bool {
        &&& self.a2.within(4 * ARC_BOUND)
        &&& self.b2.within(2 * ARC_BOUND)
        &&& self.c.within(ARC_BOUND as int)
    }

    /// `2·ONE²·(f(t) - c)` for one coordinate with coefficients `a2`, `b2`: exact.
    pub open spec fn bend(a2: int, b2: int, t: int) -> int {
        a2 * t * t + b2 * t * ONE
    }

    /// The point at parameter `t`, each coordinate rounded toward `c`.
    pub open spec fn get_spec(self, t: int) -> Vec2 {
        Vec2 {
            x: (scale_toward_zero(Self::bend(self.a2.x as int, self.b2.x as int, t), 1, 2 * ONE * ONE)
                + self.c.x) as i64,
            y: (scale_toward_zero(Self::bend(self.a2.y as int, self.b2.y as int, t), 1, 2 * ONE * ONE)
                + self.c.y) as i64,
        }
    }

    /// The derivative at `t`, times `2·ONE`: exact, and in the tangent's direction.
    pub open spec fn tangent_spec(self, t: int) -> Vec2 {
        Vec2 {
            x: (2 * self.a2.x * t + self.b2.x * ONE) as i64,
            y: (2 * self.a2.y * t + self.b2.y * ONE) as i64,
        }
    }

    /// Squared distance from `f(t)` to `p`, times `(2·ONE²)²`: exact.
    pub open spec fn dist_key(self, t: int, p: Vec2) -> int {
        let dx = Self::bend(self.a2.x as int, self.b2.x as int, t) + 2 * ONE * ONE * (self.c.x - p.x);
        let dy = Self::bend(self.a2.y as int, self.b2.y as int, t) + 2 * ONE * ONE * (self.c.y - p.y);
        dx * dx + dy * dy
    }

    /// `r` is the parameter whose point is closest to `p` among all that can be evaluated,
    /// the least such on a tie.
    pub open spec fn is_projection(self, p: Vec2, r: int) -> bool {
        &&& in_range(r)
        &&& forall|s: int| #[trigger] in_range(s) ==> self.dist_key(r, p) <= self.dist_key(s, p)
        &&& forall|s: int| -ARC_RANGE <= s < r ==> self.dist_key(r, p) < #[trigger] self.dist_key(s, p)
    }

    /// The closest parameter to `p`, the least such on a tie.
    pub open spec fn projection_spec(self, p: Vec2) -> int {
        choose|r: int| self.is_projection(p, r)
    }

    /// There is one closest parameter, so it is the one `projection_spec` names.
    pub proof fn lemma_projection_unique(self, p: Vec2, r: int)
        requires
            self.is_projection(p, r),
        ensures
            self.projection_spec(p) == r,
    {
        let q = self.projection_spec(p);
        assert(self.is_projection(p, q));
        if q < r {
            assert(in_range(q));
            assert(self.dist_key(r, p) < self.dist_key(q, p));
        } else if r < q {
            assert(in_range(r));
            assert(self.dist_key(q, p) < self.dist_key(r, p));
        }
    }

    /// Fits the arc with `f(-1) = points[0]`, `f(0) = points[1]`, `f(1) = points[2]`.
    pub fn new(points: [Vec2; 3]) -> (r: Parabola)
        requires
            points@[0].within(ARC_BOUND as int),
            points@[1].within(ARC_BOUND as int),
            points@[2].within(ARC_BOUND as int),
        ensures
            r == fit(points@[0], points@[1], points@[2]),
            r.wf(),
            r.get_spec(-ONE) == points@[0],
            r.get_spec(0) == points@[1],
            r.get_spec(ONE as int) == points@[2],
    {
        proof {
            lemma_fit_interpolates(points@[0], points@[1], points@[2]);
        }
        let p0 = points[0];
        let p1 = points[1];
        let p2 = points[2];
        Parabola {
            a2: Vec2 { x: p0.x + p2.x - 2 * p1.x, y: p0.y + p2.y - 2 * p1.y },
            b2: Vec2 { x: p2.x - p0.x, y: p2.y - p0.y },
            c: p1,
        }
    }

    /// The point at parameter `t`.
    pub fn get(&self, t: i64) -> (r: Vec2)
        requires
            self.wf(),
            in_range(t as int),
        ensures
            r == self.get_spec(t as int),
            r.within(150 * ARC_BOUND),
    {
        Vec2 { x: Self::get_coord(self.a2.x, self.b2.x, self.c.x, t), y: Self::get_coord(self.a2.y, self.b2.y, self.c.y, t) }
    }

    fn get_coord(a2: i64, b2: i64, c: i64, t: i64) -> (r: i64)
        requires
            -4 * ARC_BOUND <= a2 <= 4 * ARC_BOUND,
            -2 * ARC_BOUND <= b2 <= 2 * ARC_BOUND,
            -ARC_BOUND <= c <= ARC_BOUND,
            in_range(t as int),
        ensures
            r == scale_toward_zero(Self::bend(a2 as int, b2 as int, t as int), 1, 2 * ONE * ONE) + c,
            -150 * ARC_BOUND <= r <= 150 * ARC_BOUND,
    {
        proof {
            Self::lemma_bend_bound(a2 as int, b2 as int, t as int);
        }
        let n = (a2 as i128) * (t as i128) * (t as i128) + (b2 as i128) * (t as i128) * (ONE as i128);
        let d: i128 = 2 * (ONE as i128) * (ONE as i128);
        let q = if n >= 0 { n / d } else { -((-n) / d) };
        proof {
            assert(-143 * ARC_BOUND <= q <= 143 * ARC_BOUND);
        }
        q as i64 + c
    }

    proof fn lemma_bend_bound(a2: int, b2: int, t: int)
        requires
            -4 * ARC_BOUND <= a2 <= 4 * ARC_BOUND,
            -2 * ARC_BOUND <= b2 <= 2 * ARC_BOUND,
            in_range(t),
        ensures
            -32768 * ARC_BOUND <= a2 * t <= 32768 * ARC_BOUND,
            2 * a2 * t == 2 * (a2 * t),
            -268435456 * ARC_BOUND <= a2 * t * t <= 268435456 * ARC_BOUND,
            -16384 * ARC_BOUND <= b2 * t <= 16384 * ARC_BOUND,
            -16384 * ARC_BOUND * ONE <= b2 * t * ONE <= 16384 * ARC_BOUND * ONE,
    {
        assert(0 <= t * t <= 67108864) by (nonlinear_arith)
            requires
                -8192 <= t <= 8192,
        ;
        assert(-268435456 * ARC_BOUND <= a2 * (t * t) <= 268435456 * ARC_BOUND) by (nonlinear_arith)
            requires
                -4 * ARC_BOUND <= a2 <= 4 * ARC_BOUND,
                0 <= t * t <= 67108864,
        ;
        assert(a2 * t * t == a2 * (t * t)) by (nonlinear_arith);
        assert(2 * a2 * t == 2 * (a2 * t)) by (nonlinear_arith);
        assert(-32768 * ARC_BOUND <= a2 * t <= 32768 * ARC_BOUND) by (nonlinear_arith)
            requires
                -4 * ARC_BOUND <= a2 <= 4 * ARC_BOUND,
                -8192 <= t <= 8192,
        ;
        assert(-16384 * ARC_BOUND <= b2 * t <= 16384 * ARC_BOUND) by (nonlinear_arith)
            requires
                -2 * ARC_BOUND <= b2 <= 2 * ARC_BOUND,
                -8192 <= t <= 8192,
        ;
    }

    /// The derivative at `t` times `2·ONE`; it points along the arc.
    pub fn tangent(&self, t: i64) -> (r: Vec2)
        requires
            self.wf(),
            in_range(t as int),
        ensures
            r == self.tangent_spec(t as int),
            r.within(70000 * ARC_BOUND),
    {
        proof {
            Self::lemma_bend_bound(self.a2.x as int, self.b2.x as int, t as int);
            Self::lemma_bend_bound(self.a2.y as int, self.b2.y as int, t as int);
        }
        Vec2 { x: 2 * self.a2.x * t + self.b2.x * ONE, y: 2 * self.a2.y * t + self.b2.y * ONE }
    }

    /// Exact squared distance from the point at `t` to `p`, scaled as `dist_key`.
    fn dist_key_exec(&self, t: i64, p: Vec2) -> (r: i128)
        requires
            self.wf(),
            in_range(t as int),
            p.within(ARC_BOUND as int),
        ensures
            r == self.dist_key(t as int, p),
    {
        proof {
            Self::lemma_bend_bound(self.a2.x as int, self.b2.x as int, t as int);
            Self::lemma_bend_bound(self.a2.y as int, self.b2.y as int, t as int);
        }
        let tt = t as i128;
        let dx = (self.a2.x as i128) * tt * tt + (self.b2.x as i128) * tt * 1000 + 2_000_000 * ((self.c.x as i128) - (p.x as i128));
        let dy = (self.a2.y as i128) * tt * tt + (self.b2.y as i128) * tt * 1000 + 2_000_000 * ((self.c.y as i128) - (p.y as i128));
        proof {
            assert(0 <= dx * dx <= 0x400_0000_0000_0000_0000_0000_0000_0000) by (nonlinear_arith)
                requires
                    -0x2000_0000_0000_0000 <= dx <= 0x2000_0000_0000_0000,
            ;
            assert(0 <= dy * dy <= 0x400_0000_0000_0000_0000_0000_0000_0000) by (nonlinear_arith)
                requires
                    -0x2000_0000_0000_0000 <= dy <= 0x2000_0000_0000_0000,
            ;
        }
        dx * dx + dy * dy
    }

    /// The parameter of the point on the arc closest to `p`, over every parameter the arc
    /// can be evaluated at (`[-ARC_RANGE, ARC_RANGE]`); on a tie the least parameter wins.
    pub fn project(&self, p: Vec2) -> (r: i64)
        requires
            self.wf(),
            p.within(ARC_BOUND as int),
        ensures
            self.is_projection(p, r as int),
            r == self.projection_spec(p),
    {
        let mut best_t: i64 = -ARC_RANGE;
        let mut best = self.dist_key_exec(best_t, p);
        let mut t: i64 = -ARC_RANGE + 1;
        while t <= ARC_RANGE
            invariant
                self.wf(),
                p.within(ARC_BOUND as int),
                -ARC_RANGE <= best_t < t <= ARC_RANGE + 1,
                best == self.dist_key(best_t as int, p),
                forall|s: int| -ARC_RANGE <= s < t ==> best <= #[trigger] self.dist_key(s, p),
                forall|s: int| -ARC_RANGE <= s < best_t ==> best < #[trigger] self.dist_key(s, p),
            decreases ARC_RANGE + 1 - t,
        {
            let k = self.dist_key_exec(t, p);
            if k < best {
                best = k;
                best_t = t;
            }
            t = t + 1;
        }
        proof {
            self.lemma_projection_unique(p, best_t as int);
        }
        best_t
    }

    /// `resolution + 1` points spaced evenly in the parameter from -1 to 1.
    pub fn chain(&self, resolution: usize) -> (r: Vec<Vec2>)
        requires
            self.wf(),
            0 < resolution <= 0x10_0000,
        ensures
            r@.len() == resolution + 1,
            forall|i: int| 0 <= i <= resolution ==> #[trigger] r@[i] == self.get_spec(-ONE + 2 * ONE * i / (resolution as int)),
    {
        let mut v: Vec<Vec2> = Vec::new();
        let mut i: usize = 0;
        while i <= resolution
            invariant
                self.wf(),
                0 < resolution <= 0x10_0000,
                i <= resolution + 1,
                v@.len() == i,
                forall|j: int| 0 <= j < i ==> #[trigger] v@[j] == self.get_spec(-ONE + 2 * ONE * j / (resolution as int)),
            decreases resolution + 1 - i,
        {
            let step = (2 * ONE * (i as i64)) / (resolution as i64);
            proof {
                assert(0 <= 2 * ONE * i / (resolution as int) <= 2 * ONE) by (nonlinear_arith)
                    requires
                        0 <= i <= resolution,
                        resolution > 0,
                ;
            }
            v.push(self.get(-ONE + step));
            i = i + 1;
        }
        v
    }
}

/// The fitted arc passes through its three points: `f(-1)`, `f(0)` and `f(1)` are
/// exactly the start, middle and end it was built from.
pub proof fn lemma_fit_interpolates(p0: Vec2, p1: Vec2, p2: Vec2)
    requires
        p0.within(ARC_BOUND as int),
        p1.within(ARC_BOUND as int),
        p2.within(ARC_BOUND as int),
    ensures
        fit(p0, p1, p2).get_spec(-ONE) == p0,
        fit(p0, p1, p2).get_spec(0) == p1,
        fit(p0, p1, p2).get_spec(ONE as int) == p2,
{
    let f = fit(p0, p1, p2);
    let d = 2 * ONE * ONE;
    assert(f.a2.x == p0.x + p2.x - 2 * p1.x);
    assert(f.a2.y == p0.y + p2.y - 2 * p1.y);
    assert(f.b2.x == p2.x - p0.x);
    assert(f.b2.y == p2.y - p0.y);
    assert(Parabola::bend(f.a2.x as int, f.b2.x as int, -ONE) == (p0.x - p1.x) * d) by (nonlinear_arith)
        requires
            f.a2.x == p0.x + p2.x - 2 * p1.x,
            f.b2.x == p2.x - p0.x,
            d == 2 * ONE * ONE,
    ;
    assert(Parabola::bend(f.a2.y as int, f.b2.y as int, -ONE) == (p0.y - p1.y) * d) by (nonlinear_arith)
        requires
            f.a2.y == p0.y + p2.y - 2 * p1.y,
            f.b2.y == p2.y - p0.y,
            d == 2 * ONE * ONE,
    ;
    assert(Parabola::bend(f.a2.x as int, f.b2.x as int, ONE as int) == (p2.x - p1.x) * d) by (nonlinear_arith)
        requires
            f.a2.x == p0.x + p2.x - 2 * p1.x,
            f.b2.x == p2.x - p0.x,
            d == 2 * ONE * ONE,
    ;
    assert(Parabola::bend(f.a2.y as int, f.b2.y as int, ONE as int) == (p2.y - p1.y) * d) by (nonlinear_arith)
        requires
            f.a2.y == p0.y + p2.y - 2 * p1.y,
            f.b2.y == p2.y - p0.y,
            d == 2 * ONE * ONE,
    ;
    lemma_exact_div(p0.x - p1.x, d);
    lemma_exact_div(p0.y - p1.y, d);
    lemma_exact_div(p2.x - p1.x, d);
    lemma_exact_div(p2.y - p1.y, d);
    assert(Parabola::bend(f.a2.x as int, f.b2.x as int, 0) == 0);
    assert(Parabola::bend(f.a2.y as int, f.b2.y as int, 0) == 0);
}

proof fn lemma_exact_div(q: int, d: int)
    requires
        d > 0,
    ensures
        scale_toward_zero(q * d, 1, d) == q,
{
    if q >= 0 {
        assert(q * d * 1 == q * d);
        vstd::arithmetic::div_mod::lemma_div_by_multiple(q, d);
        assert(q * d >= 0) by (nonlinear_arith)
            requires
                q >= 0,
                d > 0,
        ;
    } else {
        assert(-(q * d) == (-q) * d) by (nonlinear_arith);
        assert((-q) * d >= 0) by (nonlinear_arith)
            requires
                q < 0,
                d > 0,
        ;
        vstd::arithmetic::div_mod::lemma_div_by_multiple(-q, d);
    }
}

/// Sampling the arc at a parameter where it is hit exactly, and where no other
/// parameter in range reaches that point, the closest-point query gives back that
/// parameter.
pub proof fn lemma_project_recovers(arc: Parabola, t0: int, r: int)
    requires
        arc.wf(),
        in_range(t0),
        arc.dist_key(t0, arc.get_spec(t0)) == 0,
        forall|s: int| in_range(s) && s != t0 ==> arc.dist_key(s, arc.get_spec(t0)) > 0,
        arc.is_projection(arc.get_spec(t0), r),
    ensures
        r == t0,
{
    let p = arc.get_spec(t0);
    assert(arc.dist_key(r, p) <= arc.dist_key(t0, p));
    if r != t0 {
        assert(arc.dist_key(r, p) > 0);
    }
}

} // verus!
