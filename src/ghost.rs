//! Ghosts: looping replays of a captured slice of the player's path.

use vstd::prelude::*;
use vstd::arithmetic::div_mod::{
    lemma_add_mod_noop_right, lemma_fundamental_div_mod, lemma_fundamental_div_mod_converse,
    lemma_mod_pos_bound, lemma_multiply_divide_lt,
};
use crate::geom::{lemma_lerp_bounds, lerp_point, lerp_point_spec, Vec2, ONE};
use crate::history::HISTORY_CAPACITY;
use crate::player::TICK;

verus! {

pub const GHOST_RADIUS: i64 = 10 * ONE;

/// Most samples whose playback period fits in a `u64`.
pub const MAX_PLAYBACK_SAMPLES: u64 = 0x5_7619_f0fb_38a9;

/// A replay of recorded samples. `progress` counts samples in `ONE` units
/// and wraps around the recording; `speed` is added to it every tick;
/// `ttl` is the remaining lifetime in `ONE` units of seconds.
pub struct GhostEntity {
    pub samples: Vec<Vec2>,
    pub progress: u64,
    pub speed: u64,
    pub radius: i64,
    pub ttl: i64,
}

/// Length of one loop of a recording of `n` samples, in `ONE` units.
pub open spec fn period(n: int) -> int {
    n * ONE
}

/// Index of the sample that playback position `progress` starts from.
pub open spec fn cursor(progress: int, n: int) -> int {
    (progress % period(n)) / (ONE as int)
}

/// Index of the sample that playback position `progress` moves towards.
pub open spec fn cursor_next(progress: int, n: int) -> int {
    (cursor(progress, n) + 1) % n
}

/// How far, in `ONE` units, playback has moved from `cursor` to `cursor_next`.
pub open spec fn cursor_frac(progress: int, n: int) -> int {
    (progress % period(n)) % (ONE as int)
}

/// Where a ghost replaying `s` stands at playback position `progress`:
/// the interpolation between the two samples around it, looping over `s`.
pub open spec fn position_at(s: Seq<Vec2>, progress: int) -> Vec2 {
    if s.len() == 0 {
        Vec2 { x: 0, y: 0 }
    } else {
        let n = s.len() as int;
        lerp_point_spec(s[cursor(progress, n)], s[cursor_next(progress, n)], cursor_frac(progress, n))
    }
}

/// Playback reads only samples of the recording, however far it has run.
pub proof fn lemma_cursor_in_bounds(progress: nat, n: nat)
    requires
        0 < n,
    ensures
        0 <= cursor(progress as int, n as int) < n,
        0 <= cursor_next(progress as int, n as int) < n,
        0 <= cursor_frac(progress as int, n as int) < ONE,
{
    let p = period(n as int);
    assert(0 < p) by (nonlinear_arith)
        requires
            0 < n,
            p == n * ONE,
    ;
    lemma_mod_pos_bound(progress as int, p);
    let m = progress as int % p;
    lemma_multiply_divide_lt(m, ONE as int, n as int);
    vstd::arithmetic::div_mod::lemma_div_pos_is_pos(m, ONE as int);
    lemma_mod_pos_bound(m, ONE as int);
    lemma_mod_pos_bound(cursor(progress as int, n as int) + 1, n as int);
}

/// At a whole playback position `k * ONE` the ghost stands exactly on sample
/// `k mod n`; the end of each interpolated segment is the start of the next,
/// so playback is continuous across sample boundaries.
pub proof fn lemma_position_at_sample(s: Seq<Vec2>, k: nat)
    requires
        0 < s.len(),
    ensures
        position_at(s, k * ONE) == s[(k % s.len()) as int],
        k > 0 ==> lerp_point_spec(
            s[((k - 1) % s.len() as int)],
            s[(((k - 1) % s.len() as int) + 1) % s.len() as int],
            ONE as int,
        ) == position_at(s, k * ONE),
{
    let n = s.len() as int;
    let ki = k as int;
    let r = ki % n;
    let q = ki / n;
    lemma_fundamental_div_mod(ki, n);
    lemma_mod_pos_bound(ki, n);
    assert(ki * ONE == q * period(n) + r * ONE) by (nonlinear_arith)
        requires
            ki == n * q + r,
    ;
    assert(0 <= r * ONE < period(n)) by (nonlinear_arith)
        requires
            0 <= r < n,
    ;
    lemma_fundamental_div_mod_converse(ki * ONE, period(n), q, r * ONE);
    assert((r * ONE) / (ONE as int) == r && (r * ONE) % (ONE as int) == 0) by {
        lemma_fundamental_div_mod_converse(r * ONE, ONE as int, r, 0);
    }
    let a = s[cursor(ki * ONE, n)];
    let b = s[cursor_next(ki * ONE, n)];
    lemma_lerp_bounds(a.x as int, b.x as int, 0);
    lemma_lerp_bounds(a.y as int, b.y as int, 0);
    if k > 0 {
        let j = (ki - 1) % n;
        lemma_mod_pos_bound(ki - 1, n);
        assert((j + 1) % n == r) by {
            lemma_add_mod_noop_right(1, ki - 1, n);
        }
        let c = s[j];
        let d = s[(j + 1) % n];
        lemma_lerp_bounds(c.x as int, d.x as int, ONE as int);
        lemma_lerp_bounds(c.y as int, d.y as int, ONE as int);
    }
}

impl GhostEntity {
    pub open spec fn wf(&self) -> bool {
        &&& 0 < self.samples@.len() <= HISTORY_CAPACITY
        &&& forall|i: int| 0 <= i < self.samples@.len() ==> (#[trigger] self.samples@[i]).in_range()
        &&& self.progress < period(self.samples@.len() as int)
        &&& self.radius == GHOST_RADIUS
    }

    /// The interpolated position at the current playback position; the
    /// origin for a ghost without samples.
    pub fn current_pos(&self) -> (r: Vec2)
        requires
            self.samples@.len() <= MAX_PLAYBACK_SAMPLES,
            forall|i: int| 0 <= i < self.samples@.len() ==> (#[trigger] self.samples@[i]).in_range(),
        ensures
            r == position_at(self.samples@, self.progress as int),
            r.in_range() || self.samples@.len() == 0,
    {
        if self.samples.len() == 0 {
            return Vec2 { x: 0, y: 0 };
        }
        let n = self.samples.len();
        proof {
            lemma_cursor_in_bounds(self.progress as nat, n as nat);
        }
        let p: u64 = self.progress % (n as u64 * ONE as u64);
        let i0: usize = (p / ONE as u64) as usize;
        let i1: usize = (i0 + 1) % n;
        let t: i64 = (p % ONE as u64) as i64;
        lerp_point(self.samples[i0], self.samples[i1], t)
    }

    /// One tick of playback: the lifetime runs down by one tick and the
    /// playback position moves on by `speed`, wrapping around the recording.
    pub fn advance(&mut self)
        requires
            old(self).wf(),
            old(self).ttl >= -0x1000_0000_0000,
        ensures
            final(self).wf(),
            final(self).samples == old(self).samples,
            final(self).speed == old(self).speed,
            final(self).radius == old(self).radius,
            final(self).ttl == old(self).ttl - TICK,
            final(self).progress == (old(self).progress + old(self).speed) % period(
                old(self).samples@.len() as int,
            ),
    {
        let n = self.samples.len();
        let per: u64 = n as u64 * ONE as u64;
        proof {
            lemma_mod_pos_bound(self.speed as int, per as int);
            lemma_add_mod_noop_right(self.progress as int, self.speed as int, per as int);
            lemma_mod_pos_bound(self.progress as int + self.speed as int, per as int);
        }
        self.ttl = self.ttl - TICK;
        self.progress = (self.progress + self.speed % per) % per;
    }
}

} // verus!
