//! Orbs and their placement away from the player.

use vstd::prelude::*;
use crate::geom::{dist_sq, Vec2, ONE};
use crate::player::ARENA_LIMIT;

verus! {

pub const ORB_RADIUS: i64 = 8 * ONE;

/// Least distance from the player at which a random orb is accepted.
pub const ORB_SAFE_RADIUS: i64 = 80 * ONE;

/// Distance kept from the arena's edges when placing an orb.
pub const SPAWN_MARGIN: i64 = 40 * ONE;

/// Least extent of the random placement range.
pub const SPAWN_MIN_EXTENT: i64 = 41 * ONE;

/// Random placements tried before falling back to a fixed offset.
pub const SPAWN_ATTEMPTS: u32 = 64;

/// Offset from the player of the fallback placement.
pub const FALLBACK_DX: i64 = 200 * ONE;

pub const FALLBACK_DY: i64 = 150 * ONE;

#[derive(Clone, Copy, Debug, PartialEq, Eq, Structural)]
pub struct Orb {
    pub pos: Vec2,
    pub radius: i64,
    pub alive: bool,
}

/// Relies on macroquad::rand::gen_range, i.e. quad_rand's `RandomRange` for
/// `i64`: `low + (high - low) * u` with `u` in `[0, 1)`, truncated. For small
/// non-negative bounds the draw lies in `[low, high]`.
#[verifier::external_body]
pub(crate) fn gen_range_i64(low: i64, high: i64) -> (r: i64)
    requires
        0 <= low <= high <= ARENA_LIMIT,
    ensures
        low <= r <= high,
{
    macroquad::rand::gen_range(low, high)
}

/// `value` limited to `[lo, hi]`, `lo` checked first.
pub open spec fn clamp_spec(value: int, lo: int, hi: int) -> int {
    if value < lo {
        lo
    } else if value > hi {
        hi
    } else {
        value
    }
}

pub fn clamp_i64(value: i64, lo: i64, hi: i64) -> (r: i64)
    ensures
        r == clamp_spec(value as int, lo as int, hi as int),
{
    if value < lo {
        lo
    } else if value > hi {
        hi
    } else {
        value
    }
}

pub open spec fn max_spec(a: int, b: int) -> int {
    if a >= b { a } else { b }
}

/// Upper end of the random placement range along an axis of length `len`.
pub open spec fn spawn_upper(len: int) -> int {
    max_spec(len - SPAWN_MARGIN, SPAWN_MIN_EXTENT as int)
}

/// The deterministic placement used when every random attempt was too close.
pub open spec fn fallback_spec(p: Vec2, w: int, h: int) -> Vec2 {
    Vec2 {
        x: clamp_spec(p.x + FALLBACK_DX, SPAWN_MARGIN as int, max_spec(w - SPAWN_MARGIN, SPAWN_MARGIN as int)) as i64,
        y: clamp_spec(p.y + FALLBACK_DY, SPAWN_MARGIN as int, max_spec(h - SPAWN_MARGIN, SPAWN_MARGIN as int)) as i64,
    }
}

/// A candidate inside the random placement range of an arena `w` by `h`.
pub open spec fn in_spawn_box(q: Vec2, w: int, h: int) -> bool {
    SPAWN_MARGIN <= q.x <= spawn_upper(w) && SPAWN_MARGIN <= q.y <= spawn_upper(h)
}

/// `q` lies at least `min_dist` from `p`.
pub open spec fn far_enough(q: Vec2, p: Vec2, min_dist: int) -> bool {
    dist_sq(q, p) >= min_dist * min_dist
}

/// Bound on the player's coordinates accepted by the placement functions.
pub open spec fn near_arena(p: Vec2) -> bool {
    -ARENA_LIMIT <= p.x <= ARENA_LIMIT && -ARENA_LIMIT <= p.y <= ARENA_LIMIT
}

/// Whether `q` lies at least `min_dist` from `p`.
pub fn is_far_enough(q: Vec2, p: Vec2, min_dist: i64) -> (r: bool)
    requires
        near_arena(q),
        near_arena(p),
        0 <= min_dist <= ARENA_LIMIT,
    ensures
        r == far_enough(q, p, min_dist as int),
{
    let dx: i128 = q.x as i128 - p.x as i128;
    let dy: i128 = q.y as i128 - p.y as i128;
    let m: i128 = min_dist as i128;
    assert(0 <= dx * dx <= 0x1000_0000_0000_0000_0000) by (nonlinear_arith)
        requires
            -0x20_0000_0000 <= dx <= 0x20_0000_0000,
    ;
    assert(0 <= dy * dy <= 0x1000_0000_0000_0000_0000) by (nonlinear_arith)
        requires
            -0x20_0000_0000 <= dy <= 0x20_0000_0000,
    ;
    assert(0 <= m * m <= 0x100_0000_0000_0000_0000) by (nonlinear_arith)
        requires
            0 <= m <= 0x10_0000_0000,
    ;
    dx * dx + dy * dy >= m * m
}

/// The fallback placement: a fixed offset from `p` clamped into the arena.
pub fn fallback_pos(p: Vec2, w: i64, h: i64) -> (r: Vec2)
    requires
        near_arena(p),
        0 <= w <= ARENA_LIMIT,
        0 <= h <= ARENA_LIMIT,
    ensures
        r == fallback_spec(p, w as int, h as int),
        0 <= r.x <= ARENA_LIMIT,
        0 <= r.y <= ARENA_LIMIT,
{
    let hx = if w - SPAWN_MARGIN >= SPAWN_MARGIN { w - SPAWN_MARGIN } else { SPAWN_MARGIN };
    let hy = if h - SPAWN_MARGIN >= SPAWN_MARGIN { h - SPAWN_MARGIN } else { SPAWN_MARGIN };
    Vec2 {
        x: clamp_i64(p.x + FALLBACK_DX, SPAWN_MARGIN, hx),
        y: clamp_i64(p.y + FALLBACK_DY, SPAWN_MARGIN, hy),
    }
}

/// The first of `draws` inside the placement range and at least `min_dist`
/// from `p`; the fallback placement when none is.
pub open spec fn first_far_or_fallback(draws: Seq<Vec2>, p: Vec2, min_dist: int, w: int, h: int) -> Vec2
    decreases draws.len(),
{
    if draws.len() == 0 {
        fallback_spec(p, w, h)
    } else if in_spawn_box(draws[0], w, h) && far_enough(draws[0], p, min_dist) {
        draws[0]
    } else {
        first_far_or_fallback(draws.drop_first(), p, min_dist, w, h)
    }
}

/// `q` is where `rand_pos_away_from` puts an orb for some run of
/// `SPAWN_ATTEMPTS` draws inside the placement range.
pub open spec fn placed_by_draws(q: Vec2, p: Vec2, min_dist: int, w: int, h: int) -> bool {
    exists|d: Seq<Vec2>|
        d.len() == SPAWN_ATTEMPTS && (forall|i: int| 0 <= i < d.len() ==> in_spawn_box(#[trigger] d[i], w, h))
            && q == first_far_or_fallback(d, p, min_dist, w, h)
}

/// Chooses an orb position from the drawn candidates: the first one inside
/// the placement range and far enough from `p`, else the fallback placement.
pub fn place_from_draws(draws: &Vec<Vec2>, p: Vec2, min_dist: i64, w: i64, h: i64) -> (r: Vec2)
    requires
        forall|i: int| 0 <= i < draws@.len() ==> near_arena(#[trigger] draws@[i]),
        near_arena(p),
        0 <= min_dist <= ARENA_LIMIT,
        0 <= w <= ARENA_LIMIT,
        0 <= h <= ARENA_LIMIT,
    ensures
        r == first_far_or_fallback(draws@, p, min_dist as int, w as int, h as int),
        (in_spawn_box(r, w as int, h as int) && far_enough(r, p, min_dist as int)) || r
            == fallback_spec(p, w as int, h as int),
        0 <= r.x <= ARENA_LIMIT,
        0 <= r.y <= ARENA_LIMIT,
{
    let w1 = if w - SPAWN_MARGIN >= SPAWN_MIN_EXTENT { w - SPAWN_MARGIN } else { SPAWN_MIN_EXTENT };
    let h1 = if h - SPAWN_MARGIN >= SPAWN_MIN_EXTENT { h - SPAWN_MARGIN } else { SPAWN_MIN_EXTENT };
    let mut i: usize = 0;
    assert(draws@.skip(0) =~= draws@);
    while i < draws.len()
        invariant
            i <= draws@.len(),
            forall|j: int| 0 <= j < draws@.len() ==> near_arena(#[trigger] draws@[j]),
            near_arena(p),
            0 <= min_dist <= ARENA_LIMIT,
            0 <= w <= ARENA_LIMIT,
            0 <= h <= ARENA_LIMIT,
            w1 == spawn_upper(w as int),
            h1 == spawn_upper(h as int),
            first_far_or_fallback(draws@, p, min_dist as int, w as int, h as int)
                == first_far_or_fallback(draws@.skip(i as int), p, min_dist as int, w as int, h as int),
        decreases draws@.len() - i,
    {
        let q = draws[i];
        proof {
            assert(draws@.skip(i as int)[0] == q);
            assert(draws@.skip(i as int).drop_first() =~= draws@.skip(i as int + 1));
        }
        if SPAWN_MARGIN <= q.x && q.x <= w1 && SPAWN_MARGIN <= q.y && q.y <= h1 && is_far_enough(q, p, min_dist) {
            return q;
        }
        i = i + 1;
    }
    proof {
        assert(draws@.skip(i as int).len() == 0);
    }
    fallback_pos(p, w, h)
}

/// A random point of the arena at least `min_dist` from `p`: `SPAWN_ATTEMPTS`
/// uniform draws inside the placement range, of which `place_from_draws`
/// keeps the first far enough; the fallback placement when none is.
pub fn rand_pos_away_from(p: Vec2, min_dist: i64, w: i64, h: i64) -> (r: Vec2)
    requires
        near_arena(p),
        0 <= min_dist <= ARENA_LIMIT,
        0 <= w <= ARENA_LIMIT,
        0 <= h <= ARENA_LIMIT,
    ensures
        placed_by_draws(r, p, min_dist as int, w as int, h as int),
        (in_spawn_box(r, w as int, h as int) && far_enough(r, p, min_dist as int)) || r
            == fallback_spec(p, w as int, h as int),
        0 <= r.x <= ARENA_LIMIT,
        0 <= r.y <= ARENA_LIMIT,
{
    let w1 = if w - SPAWN_MARGIN >= SPAWN_MIN_EXTENT { w - SPAWN_MARGIN } else { SPAWN_MIN_EXTENT };
    let h1 = if h - SPAWN_MARGIN >= SPAWN_MIN_EXTENT { h - SPAWN_MARGIN } else { SPAWN_MIN_EXTENT };
    let mut draws: Vec<Vec2> = Vec::new();
    let mut attempt: u32 = 0;
    while attempt < SPAWN_ATTEMPTS
        invariant
            attempt <= SPAWN_ATTEMPTS,
            draws@.len() == attempt,
            forall|i: int| 0 <= i < draws@.len() ==> in_spawn_box(#[trigger] draws@[i], w as int, h as int),
            w1 == spawn_upper(w as int),
            h1 == spawn_upper(h as int),
            0 <= w <= ARENA_LIMIT,
            0 <= h <= ARENA_LIMIT,
        decreases SPAWN_ATTEMPTS - attempt,
    {
        let q = Vec2 { x: gen_range_i64(SPAWN_MARGIN, w1), y: gen_range_i64(SPAWN_MARGIN, h1) };
        draws.push(q);
        attempt = attempt + 1;
    }
    let r = place_from_draws(&draws, p, min_dist, w, h);
    proof {
        assert(draws@.len() == SPAWN_ATTEMPTS);
    }
    r
}

} // verus!
