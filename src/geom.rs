//! Fixed-point 2D geometry: points, circle overlap, rectangle clamping,
//! interpolation and length capping.

use vstd::prelude::*;

verus! {

/// Fixed-point denominator: a fractional quantity `q` is stored as `q * ONE`.
/// Every per-tick rate of the simulation is an exact multiple of `1 / ONE`.
pub const ONE: i64 = 12000;

/// Largest magnitude accepted for a coordinate or a velocity component.
pub const COORD_LIMIT: i64 = 0x100_0000_0000;

/// A point or vector; each component is in `1 / ONE` pixel
/// (or pixel per second, for a velocity).
#[derive(Clone, Copy, Debug, PartialEq, Eq, Structural)]
pub struct Vec2 {
    pub x: i64,
    pub y: i64,
}

pub open spec fn coord_ok(c: int) -> bool {
    -COORD_LIMIT <= c <= COORD_LIMIT
}

impl Vec2 {
    pub open spec fn in_range(&self) -> bool {
        coord_ok(self.x as int) && coord_ok(self.y as int)
    }
}

pub fn vec2(x: i64, y: i64) -> (r: Vec2)
    ensures
        r.x == x,
        r.y == y,
{
    Vec2 { x, y }
}

/// Squared Euclidean distance between two points.
pub open spec fn dist_sq(a: Vec2, b: Vec2) -> int {
    (a.x - b.x) * (a.x - b.x) + (a.y - b.y) * (a.y - b.y)
}

/// Squared length of a vector.
pub open spec fn len_sq(v: Vec2) -> int {
    v.x * v.x + v.y * v.y
}

/// Circles of radii `ar` and `br` centred at `a` and `b` overlap.
pub open spec fn overlaps(a: Vec2, ar: int, b: Vec2, br: int) -> bool {
    dist_sq(a, b) <= (ar + br) * (ar + br)
}

/// Two circles overlap when the distance of their centres is at most the
/// sum of their radii (touching counts).
pub fn circle_overlap(a: Vec2, ar: i64, b: Vec2, br: i64) -> (r: bool)
    requires
        a.in_range(),
        b.in_range(),
        0 <= ar <= COORD_LIMIT,
        0 <= br <= COORD_LIMIT,
    ensures
        r == overlaps(a, ar as int, b, br as int),
{
    let dx: i128 = a.x as i128 - b.x as i128;
    let dy: i128 = a.y as i128 - b.y as i128;
    let s: i128 = ar as i128 + br as i128;
    assert(0 <= dx * dx <= 0x100_0000_0000_0000_0000_0000) by (nonlinear_arith)
        requires -0x200_0000_0000 <= dx <= 0x200_0000_0000;
    assert(0 <= dy * dy <= 0x100_0000_0000_0000_0000_0000) by (nonlinear_arith)
        requires -0x200_0000_0000 <= dy <= 0x200_0000_0000;
    assert(0 <= s * s <= 0x100_0000_0000_0000_0000_0000) by (nonlinear_arith)
        requires 0 <= s <= 0x200_0000_0000;
    dx * dx + dy * dy <= s * s
}

/// One axis of `clamp_rect`: pushes `c` inside `[r, limit - r]`, the upper
/// side winning where the range is empty.
pub open spec fn clamp_axis(c: int, r: int, limit: int) -> int {
    let lo = if c - r < 0 { r } else { c };
    if lo + r > limit { limit - r } else { lo }
}

/// The direction (in `ONE` units) of the wall that `clamp_axis` pushed from.
pub open spec fn clamp_normal(c: int, r: int, limit: int) -> int {
    let lo = if c - r < 0 { r } else { c };
    if lo + r > limit { -ONE as int } else if c - r < 0 { ONE as int } else { 0 }
}

/// Keeps a circle of radius `r` centred at `p` inside the rectangle
/// `[0, w] x [0, h]`; returns the clamped centre and the wall normal.
pub fn clamp_rect(p: Vec2, r: i64, w: i64, h: i64) -> (res: (Vec2, Vec2))
    requires
        p.in_range(),
        0 <= r <= COORD_LIMIT,
        0 <= w <= COORD_LIMIT,
        0 <= h <= COORD_LIMIT,
    ensures
        res.0.x == clamp_axis(p.x as int, r as int, w as int),
        res.0.y == clamp_axis(p.y as int, r as int, h as int),
        res.1.x == clamp_normal(p.x as int, r as int, w as int),
        res.1.y == clamp_normal(p.y as int, r as int, h as int),
        res.0.in_range(),
{
    let mut pos = p;
    let mut norm = Vec2 { x: 0, y: 0 };
    if pos.x - r < 0 {
        pos.x = r;
        norm.x = ONE;
    }
    if pos.x + r > w {
        pos.x = w - r;
        norm.x = -ONE;
    }
    if pos.y - r < 0 {
        pos.y = r;
        norm.y = ONE;
    }
    if pos.y + r > h {
        pos.y = h - r;
        norm.y = -ONE;
    }
    (pos, norm)
}

/// Where the arena fits the circle, `clamp_axis` lands inside `[r, limit - r]`.
pub proof fn lemma_clamp_axis_inside(c: int, r: int, limit: int)
    requires
        0 <= r,
        2 * r <= limit,
    ensures
        r <= clamp_axis(c, r, limit) <= limit - r,
        r <= c <= limit - r ==> clamp_axis(c, r, limit) == c,
        clamp_normal(c, r, limit) == 0 ==> clamp_axis(c, r, limit) == c,
        clamp_normal(c, r, limit) == 0 || clamp_normal(c, r, limit) == ONE || clamp_normal(c, r, limit) == -ONE,
{
}

/// Linear interpolation from `a` towards `b` by `t / ONE`, rounded towards `a`.
pub open spec fn lerp_spec(a: int, b: int, t: int) -> int {
    if b >= a {
        a + (b - a) * t / (ONE as int)
    } else {
        a - (a - b) * t / (ONE as int)
    }
}

proof fn lemma_part_le(d: int, t: int)
    requires
        0 <= d,
        0 <= t <= ONE,
    ensures
        0 <= d * t / (ONE as int) <= d,
        t == 0 ==> d * t / (ONE as int) == 0,
        t == ONE ==> d * t / (ONE as int) == d,
{
    assert(0 <= d * t <= d * ONE) by (nonlinear_arith)
        requires
            0 <= d,
            0 <= t <= ONE,
    ;
    assert((d * ONE) / (ONE as int) == d) by (nonlinear_arith);
    vstd::arithmetic::div_mod::lemma_div_is_ordered(d * t, d * ONE, ONE as int);
}

/// `lerp_spec` stays between its end points and meets them at `t = 0` and `t = ONE`.
pub proof fn lemma_lerp_bounds(a: int, b: int, t: int)
    requires
        0 <= t <= ONE,
    ensures
        a <= b ==> a <= lerp_spec(a, b, t) <= b,
        b < a ==> b <= lerp_spec(a, b, t) <= a,
        lerp_spec(a, b, 0) == a,
        lerp_spec(a, b, ONE as int) == b,
{
    if b >= a {
        lemma_part_le(b - a, t);
        lemma_part_le(b - a, 0);
        lemma_part_le(b - a, ONE as int);
    } else {
        lemma_part_le(a - b, t);
        lemma_part_le(a - b, 0);
        lemma_part_le(a - b, ONE as int);
    }
}

pub fn lerp(a: i64, b: i64, t: i64) -> (r: i64)
    requires
        coord_ok(a as int),
        coord_ok(b as int),
        0 <= t <= ONE,
    ensures
        r == lerp_spec(a as int, b as int, t as int),
        coord_ok(r as int),
{
    proof {
        lemma_lerp_bounds(a as int, b as int, t as int);
    }
    if b >= a {
        let d = b - a;
        assert(d * t <= 0x200_0000_0000 * ONE) by (nonlinear_arith)
            requires
                0 <= d <= 0x200_0000_0000,
                0 <= t <= ONE,
        ;
        a + d * t / ONE
    } else {
        let d = a - b;
        assert(d * t <= 0x200_0000_0000 * ONE) by (nonlinear_arith)
            requires
                0 <= d <= 0x200_0000_0000,
                0 <= t <= ONE,
        ;
        a - d * t / ONE
    }
}

/// Componentwise `lerp_spec` of two points.
pub open spec fn lerp_point_spec(a: Vec2, b: Vec2, t: int) -> Vec2 {
    Vec2 { x: lerp_spec(a.x as int, b.x as int, t) as i64, y: lerp_spec(a.y as int, b.y as int, t) as i64 }
}

/// Componentwise `lerp` of two points.
pub fn lerp_point(a: Vec2, b: Vec2, t: i64) -> (r: Vec2)
    requires
        a.in_range(),
        b.in_range(),
        0 <= t <= ONE,
    ensures
        r == lerp_point_spec(a, b, t as int),
        r.in_range(),
{
    Vec2 { x: lerp(a.x, b.x, t), y: lerp(a.y, b.y, t) }
}

/// `r` is the least natural number whose square reaches `x`.
pub open spec fn is_ceil_sqrt(x: int, r: int) -> bool {
    &&& 0 <= r
    &&& x <= r * r
    &&& (r == 0 || (r - 1) * (r - 1) < x)
}

/// The least natural number whose square reaches `x`.
pub open spec fn ceil_sqrt_spec(x: int) -> int {
    choose|r: int| is_ceil_sqrt(x, r)
}

proof fn lemma_ceil_sqrt_unique(x: int, r1: int, r2: int)
    requires
        is_ceil_sqrt(x, r1),
        is_ceil_sqrt(x, r2),
    ensures
        r1 == r2,
{
    if r1 < r2 {
        assert(r1 * r1 <= (r2 - 1) * (r2 - 1)) by (nonlinear_arith)
            requires
                0 <= r1 <= r2 - 1,
        ;
    } else if r2 < r1 {
        assert(r2 * r2 <= (r1 - 1) * (r1 - 1)) by (nonlinear_arith)
            requires
                0 <= r2 <= r1 - 1,
        ;
    }
}

/// Integer square root rounded up, by bisection.
pub fn ceil_sqrt(x: u64) -> (r: u64)
    requires
        x <= 0x4000_0000_0000_0000,
    ensures
        is_ceil_sqrt(x as int, r as int),
        r == ceil_sqrt_spec(x as int),
        r <= 0x8000_0000,
{
    let mut lo: u64 = 0;
    let mut hi: u64 = 0x8000_0000;
    while lo < hi
        invariant
            lo <= hi <= 0x8000_0000,
            x <= hi * hi,
            lo == 0 || (lo - 1) * (lo - 1) < x,
        decreases hi - lo,
    {
        let mid: u64 = lo + (hi - lo) / 2;
        assert(mid * mid <= 0x4000_0000_0000_0000) by (nonlinear_arith)
            requires
                mid <= 0x8000_0000,
        ;
        if mid * mid >= x {
            hi = mid;
        } else {
            lo = mid + 1;
        }
    }
    proof {
        assert(is_ceil_sqrt(x as int, hi as int));
        let c = ceil_sqrt_spec(x as int);
        lemma_ceil_sqrt_unique(x as int, c, hi as int);
    }
    hi
}

/// `c * num / den` with the quotient rounded towards zero.
pub open spec fn scale_spec(c: int, num: int, den: int) -> int {
    if c >= 0 {
        c * num / den
    } else {
        -((-c) * num / den)
    }
}

proof fn lemma_scale_shrinks(c: int, num: int, den: int)
    requires
        0 <= num <= den,
        0 < den,
    ensures
        c >= 0 ==> 0 <= scale_spec(c, num, den) <= c,
        c < 0 ==> c <= scale_spec(c, num, den) <= 0,
{
    let a = if c >= 0 { c } else { -c };
    assert(0 <= a * num <= a * den) by (nonlinear_arith)
        requires
            0 <= a,
            0 <= num <= den,
    ;
    assert((a * den) / den == a) by (nonlinear_arith)
        requires
            0 < den,
    ;
    vstd::arithmetic::div_mod::lemma_div_is_ordered(a * num, a * den, den);
    vstd::arithmetic::div_mod::lemma_div_pos_is_pos(a * num, den);
}

/// A fraction of at most one keeps `c * num` within the bounds that
/// `scale_component` asks for.
pub proof fn lemma_fraction_in_bounds(c: int, num: int, den: int)
    requires
        coord_ok(c),
        0 <= num <= den,
    ensures
        -COORD_LIMIT * den <= c * num <= COORD_LIMIT * den,
{
    assert(-COORD_LIMIT * den <= c * num <= COORD_LIMIT * den) by (nonlinear_arith)
        requires
            -COORD_LIMIT <= c <= COORD_LIMIT,
            0 <= num <= den,
    ;
}

/// Multiplies a component by `num / den`, rounding towards zero.
pub fn scale_component(c: i64, num: i64, den: i64) -> (r: i64)
    requires
        coord_ok(c as int),
        0 <= num <= COORD_LIMIT,
        0 < den <= COORD_LIMIT,
        -COORD_LIMIT * den <= c * num <= COORD_LIMIT * den,
    ensures
        r == scale_spec(c as int, num as int, den as int),
        coord_ok(r as int),
        num <= den && c >= 0 ==> 0 <= r <= c,
        num <= den && c < 0 ==> c <= r <= 0,
{
    proof {
        if num <= den {
            lemma_scale_shrinks(c as int, num as int, den as int);
        }
    }
    let a: i128 = if c >= 0 { c as i128 } else { -(c as i128) };
    assert(0 <= a * (num as i128) <= 0x100_0000_0000_0000_0000_0000) by (nonlinear_arith)
        requires
            0 <= a <= 0x100_0000_0000,
            0 <= num <= 0x100_0000_0000,
    ;
    let q: i128 = a * (num as i128) / (den as i128);
    proof {
        assert(a * num <= COORD_LIMIT * den) by (nonlinear_arith)
            requires
                a == c || a == -c,
                -COORD_LIMIT * den <= c * num <= COORD_LIMIT * den,
        ;
        vstd::arithmetic::div_mod::lemma_div_is_ordered(a * num, COORD_LIMIT * den, den as int);
        assert((COORD_LIMIT * den) / (den as int) == COORD_LIMIT) by (nonlinear_arith)
            requires
                0 < den,
        ;
        vstd::arithmetic::div_mod::lemma_div_pos_is_pos(a * num, den as int);
    }
    if c >= 0 {
        q as i64
    } else {
        -(q as i64)
    }
}

/// The vector `v` shortened, if it is longer than `m`, to length at most `m`
/// along its own direction.
pub open spec fn capped_spec(v: Vec2, m: int) -> Vec2 {
    if len_sq(v) <= m * m {
        v
    } else {
        let r = ceil_sqrt_spec(len_sq(v));
        Vec2 { x: scale_spec(v.x as int, m, r) as i64, y: scale_spec(v.y as int, m, r) as i64 }
    }
}

/// Largest velocity component or length that `cap_length` accepts.
pub const SPEED_LIMIT: i64 = 0x4000_0000;

proof fn lemma_scaled_square(c: int, m: int, r: int)
    requires
        0 < r,
        0 <= m,
    ensures
        scale_spec(c, m, r) * scale_spec(c, m, r) * (r * r) <= c * c * (m * m),
{
    let a = if c >= 0 { c } else { -c };
    let q = a * m / r;
    vstd::arithmetic::div_mod::lemma_fundamental_div_mod(a * m, r);
    vstd::arithmetic::div_mod::lemma_div_pos_is_pos(a * m, r);
    assert(q * r <= a * m) by {
        vstd::arithmetic::div_mod::lemma_mod_pos_bound(a * m, r);
    }
    assert(q * q * (r * r) <= a * a * (m * m)) by (nonlinear_arith)
        requires
            0 <= q,
            0 < r,
            q * r <= a * m,
    ;
    assert(a * a == c * c) by (nonlinear_arith)
        requires
            a == c || a == -c,
    ;
    assert(scale_spec(c, m, r) * scale_spec(c, m, r) == q * q) by (nonlinear_arith)
        requires
            scale_spec(c, m, r) == q || scale_spec(c, m, r) == -q,
    ;
}

/// Caps the length of `v` at `m`: a longer vector is scaled down along its
/// own direction, a shorter one is returned unchanged.
pub fn cap_length(v: Vec2, m: i64) -> (r: Vec2)
    requires
        -SPEED_LIMIT <= v.x <= SPEED_LIMIT,
        -SPEED_LIMIT <= v.y <= SPEED_LIMIT,
        0 < m <= SPEED_LIMIT,
    ensures
        r == capped_spec(v, m as int),
        len_sq(r) <= m * m,
        -SPEED_LIMIT <= r.x <= SPEED_LIMIT,
        -SPEED_LIMIT <= r.y <= SPEED_LIMIT,
{
    assert(0 <= v.x * v.x <= 0x1000_0000_0000_0000) by (nonlinear_arith)
        requires
            -SPEED_LIMIT <= v.x <= SPEED_LIMIT,
    ;
    assert(0 <= v.y * v.y <= 0x1000_0000_0000_0000) by (nonlinear_arith)
        requires
            -SPEED_LIMIT <= v.y <= SPEED_LIMIT,
    ;
    assert(0 <= m * m <= 0x1000_0000_0000_0000) by (nonlinear_arith)
        requires
            0 < m <= SPEED_LIMIT,
    ;
    let l: u64 = (v.x as i128 * v.x as i128 + v.y as i128 * v.y as i128) as u64;
    let mm: u64 = (m as i128 * m as i128) as u64;
    if l <= mm {
        v
    } else {
        let r = ceil_sqrt(l);
        assert(r > 0) by (nonlinear_arith)
            requires
                0 <= mm < l,
                l <= r * r,
        ;
        assert(m <= r) by (nonlinear_arith)
            requires
                0 < m,
                m * m < l,
                l <= r * r,
                0 <= r,
        ;
        proof {
            lemma_fraction_in_bounds(v.x as int, m as int, r as int);
            lemma_fraction_in_bounds(v.y as int, m as int, r as int);
        }
        let res = Vec2 { x: scale_component(v.x, m, r as i64), y: scale_component(v.y, m, r as i64) };
        proof {
            let ri = r as int;
            let mi = m as int;
            lemma_scaled_square(v.x as int, mi, ri);
            lemma_scaled_square(v.y as int, mi, ri);
            let sx = res.x as int;
            let sy = res.y as int;
            assert((sx * sx + sy * sy) * (ri * ri) <= (v.x * v.x + v.y * v.y) * (mi * mi))
                by (nonlinear_arith)
                requires
                    sx * sx * (ri * ri) <= v.x * v.x * (mi * mi),
                    sy * sy * (ri * ri) <= v.y * v.y * (mi * mi),
            ;
            assert(sx * sx + sy * sy <= mi * mi) by (nonlinear_arith)
                requires
                    (sx * sx + sy * sy) * (ri * ri) <= (v.x * v.x + v.y * v.y) * (mi * mi),
                    v.x * v.x + v.y * v.y <= ri * ri,
                    0 < ri,
                    0 <= mi,
            ;
        }
        res
    }
}

} // verus!
