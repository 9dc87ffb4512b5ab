//! The run state and the fixed-timestep tick that advances it.

use vstd::prelude::*;
use crate::geom::{circle_overlap, clamp_axis, overlaps, Vec2, ONE, SPEED_LIMIT};
use crate::ghost::{period, position_at, GhostEntity, GHOST_RADIUS};
use crate::history::{keep_newest, HistoryBuffer, HISTORY_CAPACITY};
use crate::mode::{config_ok, mode_config, mode_config_spec, GameMode, ModeConfig, Settings};
use crate::player::{
    drift_spec, inside_arena, phase_step, velocity_step, Player, ARENA_LIMIT, PHASE_MAX, PLAYER_RADIUS, TICK,
};
use crate::spawn::{
    clamp_i64, clamp_spec, fallback_spec, far_enough, gen_range_i64, in_spawn_box, placed_by_draws, rand_pos_away_from, Orb,
    ORB_RADIUS,
    ORB_SAFE_RADIUS,
};

verus! {

/// Orb spawn interval at difficulty zero: 1.5 s.
pub const ORB_SPAWN_BASE: i64 = 18000;

/// Shortest orb spawn interval: 0.35 s.
pub const ORB_SPAWN_MIN: i64 = 4200;

/// Combo lost per tick (0.25 per second).
pub const COMBO_DECAY_PER_TICK: u64 = 50;

/// Pickups closer together than this (1.6 s) chain.
pub const COMBO_CHAIN_WINDOW: i64 = 19200;

/// Combo gained by a chained pickup (0.25).
pub const COMBO_CHAIN_BONUS: u64 = 3000;

/// Combo gained by a cold pickup (0.15).
pub const COMBO_COLD_BONUS: u64 = 1800;

/// Score of one orb per unit of combo.
pub const ORB_SCORE: u64 = 45;

/// `last_collect_time` of a run without pickups: 999 s before the start.
pub const NEVER_COLLECTED: i64 = -999 * ONE;

/// Longest run the clock represents, in `ONE` units of seconds.
pub const MAX_TIME: i64 = 0x4_0000_0000_0000;

/// Ghost lifetime at difficulty zero (8 s) and its cap (18 s).
pub const GHOST_TTL_BASE: i64 = 8 * ONE;

pub const GHOST_TTL_MAX: i64 = 18 * ONE;

/// Replay length at difficulty zero (2.6 s) and at full difficulty (5 s).
pub const REPLAY_MIN: i64 = 31200;

pub const REPLAY_MAX: i64 = 60000;

/// Difficulty at which the replay length stops growing.
pub const REPLAY_FULL_DIFFICULTY: u64 = 12 * 12000;

/// History samples needed beyond those a ghost copies.
pub const HISTORY_SLACK: usize = 10;

/// Fewest samples a ghost is made from.
pub const MIN_GHOST_SAMPLES: usize = 12;

/// Shake requested by a pickup, and by a lethal hit.
pub const PICKUP_SHAKE: i64 = 3 * ONE;

pub const PICKUP_SHAKE_TIME: i64 = 1440;

pub const DEATH_SHAKE: i64 = 8 * ONE;

pub const DEATH_SHAKE_TIME: i64 = 3000;

/// Largest shake strength (in `ONE` units of pixels) and duration (in `ONE`
/// units of seconds) the state holds.
pub const SHAKE_LIMIT: i64 = 0x8_0000_0000;

pub const SHAKE_TIME_LIMIT: i64 = MAX_TIME;

/// Bound on the difficulty reached within `MAX_TIME`.
pub const DIFFICULTY_BOUND: u64 = 0x200_0000_0000_0000;

pub open spec fn sat(x: int) -> int {
    if x > u64::MAX { u64::MAX as int } else { x }
}

/// `difficulty = rate * time + 0.002 * score`.
pub open spec fn difficulty_spec(c: ModeConfig, time: int, score: int) -> int {
    c.difficulty_rate * time / 1000 + score / 500
}

/// `ORB_SPAWN_BASE / (1 + 0.25 * difficulty) / spawn_rate_mul`, at least `ORB_SPAWN_MIN`.
pub open spec fn spawn_interval_spec(d: int, mul: int) -> int {
    let q = (ORB_SPAWN_BASE * 4 * ONE * 1000) / ((4 * ONE + d) * mul);
    if q < ORB_SPAWN_MIN { ORB_SPAWN_MIN as int } else { q }
}

/// The orb spawn interval never grows as difficulty rises.
pub proof fn lemma_spawn_interval_monotone(d1: int, d2: int, mul: int)
    requires
        0 <= d1 <= d2,
        0 < mul,
    ensures
        spawn_interval_spec(d2, mul) <= spawn_interval_spec(d1, mul),
{
    assert(0 < (4 * ONE + d1) * mul <= (4 * ONE + d2) * mul) by (nonlinear_arith)
        requires
            0 <= d1 <= d2,
            0 < mul,
    ;
    vstd::arithmetic::div_mod::lemma_div_is_ordered_by_denominator(
        ORB_SPAWN_BASE * 4 * ONE * 1000,
        (4 * ONE + d1) * mul,
        (4 * ONE + d2) * mul,
    );
}

/// `(1 + 0.3 * difficulty) * ghost_speed_mul`, in `ONE` units of samples per tick.
pub open spec fn ghost_speed_spec(d: int, mul: int) -> int {
    (ONE + 3 * d / 10) * mul / 1000
}

/// `min(18, 8 + 2 * difficulty)` seconds.
pub open spec fn ghost_ttl_spec(d: int) -> int {
    let t = GHOST_TTL_BASE + 2 * d;
    if t > GHOST_TTL_MAX { GHOST_TTL_MAX as int } else { t }
}

/// Replay length: from 2.6 s to 5 s as difficulty goes from 0 to 12.
pub open spec fn replay_secs_spec(d: int) -> int {
    let c = if d > REPLAY_FULL_DIFFICULTY { REPLAY_FULL_DIFFICULTY as int } else { d };
    REPLAY_MIN + c / 5
}

/// Whether the mode's time limit is reached at `time`.
pub open spec fn time_up_spec(c: ModeConfig, time: int) -> bool {
    match c.time_limit {
        Some(l) => time >= l,
        None => false,
    }
}

/// Combo and score after one pickup at `time`.
pub open spec fn pickup_spec(combo: int, score: int, time: int, last: int) -> (int, int) {
    let since = if time - last > 0 { time - last } else { 0 };
    let c = if since < COMBO_CHAIN_WINDOW {
        sat(combo + COMBO_CHAIN_BONUS)
    } else {
        let d = if combo - since / 4 > ONE { combo - since / 4 } else { ONE as int };
        d + COMBO_COLD_BONUS
    };
    (c, sat(score + ORB_SCORE * c))
}

/// Combo and score after `k` pickups at `time`, the first one measured
/// from `last` and the others chained to it.
pub open spec fn pickups_spec(combo: int, score: int, time: int, last: int, k: nat) -> (int, int)
    decreases k,
{
    if k == 0 {
        (combo, score)
    } else {
        let (c, s) = pickups_spec(combo, score, time, last, (k - 1) as nat);
        let l = if k == 1 { last } else { time };
        pickup_spec(c, s, time, l)
    }
}

/// Combo and score after the passive decay and gain of one tick.
pub open spec fn passive_spec(combo: int, score: int, d: int) -> (int, int) {
    let c = if combo - COMBO_DECAY_PER_TICK > ONE { combo - COMBO_DECAY_PER_TICK } else { ONE as int };
    (c, sat(score + (120000 + 2 * d) * c / 3_600_000))
}

/// The orbs of `s` that are still alive, in order.
pub open spec fn live_orbs(s: Seq<Orb>) -> Seq<Orb>
    decreases s.len(),
{
    if s.len() == 0 {
        s
    } else {
        let rest = live_orbs(s.drop_last());
        if s.last().alive { rest.push(s.last()) } else { rest }
    }
}

/// The ghosts of `s` whose lifetime has not run out, in order.
pub open spec fn live_ghosts(s: Seq<GhostEntity>) -> Seq<GhostEntity>
    decreases s.len(),
{
    if s.len() == 0 {
        s
    } else {
        let rest = live_ghosts(s.drop_last());
        if s.last().ttl > 0 { rest.push(s.last()) } else { rest }
    }
}

/// `g` after one tick of playback.
pub open spec fn advanced(g: GhostEntity) -> GhostEntity {
    GhostEntity {
        ttl: (g.ttl - TICK) as i64,
        progress: ((g.progress + g.speed) % period(g.samples@.len() as int)) as u64,
        ..g
    }
}

/// The ghosts of `s` after one tick of playback, the expired ones removed.
pub open spec fn advance_all(s: Seq<GhostEntity>) -> Seq<GhostEntity> {
    live_ghosts(s.map_values(|g: GhostEntity| advanced(g)))
}

/// `o` is alive and touches a player standing at `p`.
pub open spec fn picks_up(o: Orb, p: Vec2) -> bool {
    o.alive && overlaps(p, PLAYER_RADIUS as int, o.pos, o.radius as int)
}

/// `o` after a player standing at `p` has passed over it.
pub open spec fn after_pickup(o: Orb, p: Vec2) -> Orb {
    Orb { alive: o.alive && !picks_up(o, p), ..o }
}

/// How many orbs of `s` a player standing at `p` picks up.
pub open spec fn count_pickups(s: Seq<Orb>, p: Vec2) -> nat
    decreases s.len(),
{
    if s.len() == 0 {
        0
    } else {
        count_pickups(s.drop_last(), p) + if picks_up(s.last(), p) { 1nat } else { 0nat }
    }
}

/// Some ghost of `s` touches a player standing at `p`.
pub open spec fn ghost_hits(s: Seq<GhostEntity>, p: Vec2) -> bool {
    exists|i: int|
        0 <= i < s.len() && overlaps(
            p,
            PLAYER_RADIUS as int,
            position_at((#[trigger] s[i]).samples@, s[i].progress as int),
            s[i].radius as int,
        )
}

/// Purging dead orbs twice leaves what purging once left.
pub proof fn lemma_live_orbs_idempotent(s: Seq<Orb>)
    ensures
        live_orbs(live_orbs(s)) == live_orbs(s),
    decreases s.len(),
{
    if s.len() > 0 {
        lemma_live_orbs_idempotent(s.drop_last());
        let rest = live_orbs(s.drop_last());
        if s.last().alive {
            assert(rest.push(s.last()).drop_last() =~= rest);
        }
    }
}

/// Purging expired ghosts twice leaves what purging once left.
pub proof fn lemma_live_ghosts_idempotent(s: Seq<GhostEntity>)
    ensures
        live_ghosts(live_ghosts(s)) == live_ghosts(s),
    decreases s.len(),
{
    if s.len() > 0 {
        lemma_live_ghosts_idempotent(s.drop_last());
        let rest = live_ghosts(s.drop_last());
        if s.last().ttl > 0 {
            assert(rest.push(s.last()).drop_last() =~= rest);
        }
    }
}

/// What survives a purge was in the input and is alive.
pub proof fn lemma_live_orbs_from(s: Seq<Orb>)
    ensures
        forall|i: int|
            0 <= i < live_orbs(s).len() ==> (#[trigger] live_orbs(s)[i]).alive && s.contains(
                live_orbs(s)[i],
            ),
    decreases s.len(),
{
    if s.len() > 0 {
        lemma_live_orbs_from(s.drop_last());
        let rest = live_orbs(s.drop_last());
        assert forall|i: int| 0 <= i < live_orbs(s).len() implies (#[trigger] live_orbs(s)[i]).alive
            && s.contains(live_orbs(s)[i]) by {
            if i < rest.len() {
                let j = choose|j: int| 0 <= j < s.drop_last().len() && s.drop_last()[j] == rest[i];
                assert(s[j] == rest[i]);
            } else {
                assert(s[s.len() - 1] == s.last());
            }
        }
    }
}

/// What survives a purge was in the input and has lifetime left.
pub proof fn lemma_live_ghosts_from(s: Seq<GhostEntity>)
    ensures
        forall|i: int|
            0 <= i < live_ghosts(s).len() ==> (#[trigger] live_ghosts(s)[i]).ttl > 0 && s.contains(
                live_ghosts(s)[i],
            ),
    decreases s.len(),
{
    if s.len() > 0 {
        lemma_live_ghosts_from(s.drop_last());
        let rest = live_ghosts(s.drop_last());
        assert forall|i: int| 0 <= i < live_ghosts(s).len() implies (#[trigger] live_ghosts(s)[i]).ttl > 0
            && s.contains(live_ghosts(s)[i]) by {
            if i < rest.len() {
                let j = choose|j: int| 0 <= j < s.drop_last().len() && s.drop_last()[j] == rest[i];
                assert(s[j] == rest[i]);
            } else {
                assert(s[s.len() - 1] == s.last());
            }
        }
    }
}

/// The fixed-timestep accumulator: the time carried over `acc` plus the
/// frame's time `frame` (both in `ONE` units of seconds) split into the
/// whole ticks to run now and the time carried to the next frame.
pub fn ticks_due(acc: i64, frame: i64) -> (r: (u64, i64))
    requires
        0 <= acc <= MAX_TIME,
        0 <= frame <= MAX_TIME,
    ensures
        r.0 * TICK + r.1 == acc + frame,
        0 <= r.1 < TICK,
{
    let total = acc + frame;
    ((total / TICK) as u64, total % TICK)
}

/// A tick can still run: the clock holds one more tick.
pub open spec fn clock_left(time: int) -> bool {
    time <= MAX_TIME - TICK
}

/// An arena side as the tick uses it: limited to `[0, ARENA_LIMIT]`.
pub open spec fn arena_dim(len: int) -> int {
    clamp_spec(len, 0, ARENA_LIMIT as int)
}

/// An input direction as the tick uses it: each component limited to
/// `[-SPEED_LIMIT, SPEED_LIMIT]` (beyond that it is scaled to unit length
/// in any case).
pub open spec fn bounded_dir(d: Vec2) -> Vec2 {
    Vec2 {
        x: clamp_spec(d.x as int, -SPEED_LIMIT as int, SPEED_LIMIT as int) as i64,
        y: clamp_spec(d.y as int, -SPEED_LIMIT as int, SPEED_LIMIT as int) as i64,
    }
}

/// `u64` saturation of a `u128`.
pub fn saturate(x: u128) -> (r: u64)
    ensures
        r == sat(x as int),
{
    if x > u64::MAX as u128 {
        u64::MAX
    } else {
        x as u64
    }
}

/// Combo and score after one pickup at `time`, the previous one at `last`.
pub fn pickup(combo: u64, score: u64, time: i64, last: i64) -> (r: (u64, u64))
    requires
        ONE <= combo,
        NEVER_COLLECTED <= last <= time <= MAX_TIME,
    ensures
        (r.0 as int, r.1 as int) == pickup_spec(combo as int, score as int, time as int, last as int),
        ONE <= r.0,
{
    let since: i64 = if time - last > 0 { time - last } else { 0 };
    let c: u64 = if since < COMBO_CHAIN_WINDOW {
        combo.saturating_add(COMBO_CHAIN_BONUS)
    } else {
        let q: u64 = (since / 4) as u64;
        let d: u64 = if combo > q && combo - q > ONE as u64 { combo - q } else { ONE as u64 };
        d + COMBO_COLD_BONUS
    };
    assert(ORB_SCORE * c <= 45 * 0xffff_ffff_ffff_ffffu64);
    let s = saturate(score as u128 + ORB_SCORE as u128 * c as u128);
    (c, s)
}

/// Combo and score after one tick of passive decay and gain at difficulty `d`.
pub fn passive_gain(combo: u64, score: u64, d: u64) -> (r: (u64, u64))
    requires
        ONE <= combo,
        d <= DIFFICULTY_BOUND,
    ensures
        (r.0 as int, r.1 as int) == passive_spec(combo as int, score as int, d as int),
        ONE <= r.0,
{
    let c: u64 = if combo - COMBO_DECAY_PER_TICK > ONE as u64 { combo - COMBO_DECAY_PER_TICK } else { ONE as u64 };
    let rate: u128 = 120000 + 2 * d as u128;
    assert(rate * c <= 0x1000_0000_0000_0000 * 0x1_0000_0000_0000_0000) by (nonlinear_arith)
        requires
            rate <= 0x1000_0000_0000_0000,
            c <= 0xffff_ffff_ffff_ffff,
    ;
    let gain: u128 = rate * c as u128 / 3_600_000;
    proof {
        vstd::arithmetic::div_mod::lemma_div_is_ordered(
            (rate * c) as int,
            0x1000_0000_0000_0000 * 0x1_0000_0000_0000_0000int,
            3_600_000int,
        );
    }
    (c, saturate(score as u128 + gain))
}

/// Input for one tick: a direction in `ONE` units (longer than one is
/// scaled down to unit length) and whether the phase ability is held.
#[derive(Clone, Copy, Debug, PartialEq, Eq, Structural)]
pub struct TickInput {
    pub dir: Vec2,
    pub want_phase: bool,
}

/// What one tick reports to its caller.
#[derive(Clone, Copy, Debug, PartialEq, Eq, Structural)]
pub struct TickEvents {
    pub game_over: bool,
    pub orbs_collected: u64,
    pub ghosts_spawned: u64,
}

pub struct World {
    pub player: Player,
    pub ghosts: Vec<GhostEntity>,
    pub orbs: Vec<Orb>,
    pub history: HistoryBuffer,
    /// Elapsed time, in `ONE` units of seconds.
    pub time_alive: i64,
    /// Score and combo, in `ONE` units.
    pub score: u64,
    pub combo: u64,
    pub last_collect_time: i64,
    pub orb_spawn_timer: i64,
    pub difficulty: u64,
    pub shake_t: i64,
    pub shake_amt: i64,
    pub mode: GameMode,
    pub config: ModeConfig,
    pub settings: Settings,
}

pub open spec fn ghost_ok(g: GhostEntity) -> bool {
    g.wf() && 0 < g.ttl <= GHOST_TTL_MAX
}

pub open spec fn orb_ok(o: Orb) -> bool {
    &&& 0 <= o.pos.x <= ARENA_LIMIT
    &&& 0 <= o.pos.y <= ARENA_LIMIT
    &&& o.radius == ORB_RADIUS
}

impl World {
    pub open spec fn wf(&self) -> bool {
        &&& self.player.wf()
        &&& forall|i: int| 0 <= i < self.ghosts@.len() ==> ghost_ok(#[trigger] self.ghosts@[i])
        &&& forall|i: int| 0 <= i < self.orbs@.len() ==> orb_ok(#[trigger] self.orbs@[i])
        &&& self.history.wf()
        &&& self.history.capacity_spec() == HISTORY_CAPACITY
        &&& forall|i: int| 0 <= i < self.history@.len() ==> (#[trigger] self.history@[i]).in_range()
        &&& 0 <= self.time_alive <= MAX_TIME
        &&& NEVER_COLLECTED <= self.last_collect_time <= self.time_alive
        &&& ONE <= self.combo
        &&& self.config == mode_config_spec(self.mode)
        &&& 0 <= self.orb_spawn_timer <= ORB_SPAWN_BASE
        &&& 0 <= self.shake_t <= SHAKE_TIME_LIMIT
        &&& 0 <= self.shake_amt <= SHAKE_LIMIT
        &&& self.difficulty <= DIFFICULTY_BOUND
    }

    /// Seconds (in `ONE` units) until the next orb at the current difficulty.
    pub fn difficulty_spawn_interval(&self) -> (r: i64)
        requires
            config_ok(self.config),
            self.difficulty <= DIFFICULTY_BOUND,
        ensures
            r == spawn_interval_spec(self.difficulty as int, self.config.spawn_rate_mul as int),
            ORB_SPAWN_MIN <= r <= ORB_SPAWN_BASE,
    {
        let num: u128 = (ORB_SPAWN_BASE as u128) * (4 * ONE as u128) * 1000;
        assert((4 * ONE + self.difficulty) * self.config.spawn_rate_mul <= 0x400_0000_0000_0000 * 2000)
            by (nonlinear_arith)
            requires
                4 * ONE + self.difficulty <= 0x400_0000_0000_0000,
                self.config.spawn_rate_mul <= 2000,
        ;
        let den: u128 = (4 * ONE as u128 + self.difficulty as u128) * (self.config.spawn_rate_mul as u128);
        proof {
            assert(4 * ONE * 1000 <= den) by (nonlinear_arith)
                requires
                    den == (4 * ONE + self.difficulty) * self.config.spawn_rate_mul,
                    1000 <= self.config.spawn_rate_mul,
                    0 <= self.difficulty,
            ;
            vstd::arithmetic::div_mod::lemma_div_is_ordered_by_denominator(
                num as int,
                4 * ONE * 1000,
                den as int,
            );
        }
        let q: u128 = num / den;
        if q < ORB_SPAWN_MIN as u128 {
            ORB_SPAWN_MIN
        } else {
            q as i64
        }
    }

    /// Playback speed of a new ghost, in `ONE` units of samples per tick.
    pub fn ghost_speed(&self) -> (r: u64)
        requires
            config_ok(self.config),
            self.difficulty <= DIFFICULTY_BOUND,
        ensures
            r == ghost_speed_spec(self.difficulty as int, self.config.ghost_speed_mul as int),
    {
        let base: u128 = ONE as u128 + 3 * (self.difficulty as u128) / 10;
        assert(base * self.config.ghost_speed_mul <= 0x200_0000_0000_0000 * 2000) by (nonlinear_arith)
            requires
                base <= 0x200_0000_0000_0000,
                self.config.ghost_speed_mul <= 2000,
        ;
        let prod: u128 = base * (self.config.ghost_speed_mul as u128);
        proof {
            vstd::arithmetic::div_mod::lemma_div_is_ordered(prod as int, 0x200_0000_0000_0000 * 2000int, 1000int);
        }
        (prod / 1000) as u64
    }

    /// Lifetime of a new ghost, in `ONE` units of seconds.
    pub fn ghost_ttl(&self) -> (r: i64)
        requires
            self.difficulty <= DIFFICULTY_BOUND,
        ensures
            r == ghost_ttl_spec(self.difficulty as int),
            GHOST_TTL_BASE <= r <= GHOST_TTL_MAX,
    {
        let t: i64 = GHOST_TTL_BASE + 2 * (self.difficulty as i64);
        if t > GHOST_TTL_MAX {
            GHOST_TTL_MAX
        } else {
            t
        }
    }
    /// One tick of playback for every ghost; those whose lifetime ran out
    /// are removed.
    pub fn advance_ghosts(&mut self)
        requires
            forall|i: int| 0 <= i < old(self).ghosts@.len() ==> ghost_ok(#[trigger] old(self).ghosts@[i]),
        ensures
            final(self).ghosts@ == advance_all(old(self).ghosts@),
            forall|i: int| 0 <= i < final(self).ghosts@.len() ==> ghost_ok(#[trigger] final(self).ghosts@[i]),
            *final(self) == (World { ghosts: final(self).ghosts, ..*old(self) }),
    {
        let ghost start = self.ghosts@;
        let mut rest: Vec<GhostEntity> = Vec::new();
        std::mem::swap(&mut rest, &mut self.ghosts);
        let total: usize = rest.len();
        let mut done: usize = 0;
        while rest.len() > 0
            invariant
                done <= start.len(),
                start.len() == total,
                start == old(self).ghosts@,
                rest@ == start.skip(done as int),
                self.ghosts@ == live_ghosts(start.take(done as int).map_values(|g: GhostEntity| advanced(g))),
                forall|i: int| 0 <= i < start.len() ==> ghost_ok(#[trigger] start[i]),
                *self == (World { ghosts: self.ghosts, ..*old(self) }),
            decreases rest@.len(),
        {
            assert(done < start.len());
            let mut g = rest.remove(0);
            proof {
                assert(g == start[done as int]);
            }
            g.advance();
            proof {
                let f = |g: GhostEntity| advanced(g);
                let before = start.take(done as int).map_values(f);
                assert(start.take(done as int + 1).map_values(f) =~= before.push(advanced(start[done as int])));
                assert(before.push(advanced(start[done as int])).drop_last() =~= before);
                assert(rest@ =~= start.skip(done as int + 1));
            }
            if g.ttl > 0 {
                self.ghosts.push(g);
            }
            done = done + 1;
        }
        proof {
            assert(start.take(done as int) =~= start);
            let adv = start.map_values(|g: GhostEntity| advanced(g));
            lemma_live_ghosts_from(adv);
            assert forall|i: int| 0 <= i < self.ghosts@.len() implies ghost_ok(#[trigger] self.ghosts@[i]) by {
                let j = choose|j: int| 0 <= j < adv.len() && adv[j] == self.ghosts@[i];
                assert(ghost_ok(start[j]));
            }
        }
    }

    /// Whether some ghost touches the player.
    pub fn touches_ghost(&self) -> (r: bool)
        requires
            self.wf(),
        ensures
            r == ghost_hits(self.ghosts@, self.player.pos),
    {
        let mut i: usize = 0;
        while i < self.ghosts.len()
            invariant
                self.wf(),
                i <= self.ghosts@.len(),
                !ghost_hits(self.ghosts@.take(i as int), self.player.pos),
            decreases self.ghosts@.len() - i,
        {
            let g = &self.ghosts[i];
            proof {
                assert(ghost_ok(self.ghosts@[i as int]));
                assert(self.player.pos.in_range());
            }
            let gp = g.current_pos();
            if circle_overlap(self.player.pos, self.player.radius, gp, g.radius) {
                proof {
                    assert(self.ghosts@[i as int] == *g);
                }
                return true;
            }
            proof {
                assert forall|j: int| 0 <= j < i + 1 implies !overlaps(
                    self.player.pos,
                    PLAYER_RADIUS as int,
                    position_at((#[trigger] self.ghosts@.take(i + 1)[j]).samples@, self.ghosts@.take(i + 1)[j].progress as int),
                    self.ghosts@.take(i + 1)[j].radius as int,
                ) by {
                    if j < i {
                        assert(self.ghosts@.take(i + 1)[j] == self.ghosts@.take(i as int)[j]);
                    }
                }
            }
            i = i + 1;
        }
        proof {
            assert(self.ghosts@.take(i as int) =~= self.ghosts@);
        }
        false
    }

    /// Marks every live orb that touches the player as collected, applying
    /// the pickup rule once per orb in order; returns how many were collected.
    pub fn collect_orbs(&mut self) -> (r: u64)
        requires
            old(self).wf(),
        ensures
            final(self).orbs@.len() == old(self).orbs@.len(),
            forall|i: int| 0 <= i < old(self).orbs@.len() ==> #[trigger] final(self).orbs@[i] == after_pickup(
                old(self).orbs@[i],
                old(self).player.pos,
            ),
            r == count_pickups(old(self).orbs@, old(self).player.pos),
            (final(self).combo as int, final(self).score as int) == pickups_spec(
                old(self).combo as int,
                old(self).score as int,
                old(self).time_alive as int,
                old(self).last_collect_time as int,
                r as nat,
            ),
            final(self).last_collect_time == if r > 0 { old(self).time_alive } else { old(self).last_collect_time },
            final(self).wf(),
            *final(self) == (World {
                orbs: final(self).orbs,
                combo: final(self).combo,
                score: final(self).score,
                last_collect_time: final(self).last_collect_time,
                ..*old(self)
            }),
    {
        let ghost start = self.orbs@;
        let ghost p = self.player.pos;
        let mut count: u64 = 0;
        let mut i: usize = 0;
        while i < self.orbs.len()
            invariant
                i <= self.orbs@.len(),
                start == old(self).orbs@,
                p == old(self).player.pos,
                self.orbs@.len() == start.len(),
                count <= i,
                count == count_pickups(start.take(i as int), p),
                forall|j: int| 0 <= j < i ==> #[trigger] self.orbs@[j] == after_pickup(start[j], p),
                forall|j: int| i <= j < start.len() ==> #[trigger] self.orbs@[j] == start[j],
                (self.combo as int, self.score as int) == pickups_spec(
                    old(self).combo as int,
                    old(self).score as int,
                    old(self).time_alive as int,
                    old(self).last_collect_time as int,
                    count as nat,
                ),
                self.last_collect_time == if count > 0 { old(self).time_alive } else { old(self).last_collect_time },
                ONE <= self.combo,
                old(self).wf(),
                *self == (World {
                    orbs: self.orbs,
                    combo: self.combo,
                    score: self.score,
                    last_collect_time: self.last_collect_time,
                    ..*old(self)
                }),
            decreases start.len() - i,
        {
            let mut o = self.orbs[i];
            proof {
                assert(o == start[i as int]);
                assert(orb_ok(old(self).orbs@[i as int]));
                assert(start.take(i as int + 1).drop_last() =~= start.take(i as int));
            }
            if o.alive && circle_overlap(self.player.pos, self.player.radius, o.pos, o.radius) {
                o.alive = false;
                self.orbs.set(i, o);
                count = count + 1;
                let (c, s) = pickup(self.combo, self.score, self.time_alive, self.last_collect_time);
                self.combo = c;
                self.score = s;
                self.last_collect_time = self.time_alive;
            }
            i = i + 1;
        }
        proof {
            assert(start.take(i as int) =~= start);
            assert forall|j: int| 0 <= j < self.orbs@.len() implies orb_ok(#[trigger] self.orbs@[j]) by {
                assert(orb_ok(start[j]));
            }
        }
        count
    }

    /// Removes the collected orbs.
    pub fn purge_orbs(&mut self)
        requires
            forall|i: int| 0 <= i < old(self).orbs@.len() ==> orb_ok(#[trigger] old(self).orbs@[i]),
        ensures
            final(self).orbs@ == live_orbs(old(self).orbs@),
            forall|i: int| 0 <= i < final(self).orbs@.len() ==> orb_ok(#[trigger] final(self).orbs@[i])
                && final(self).orbs@[i].alive,
            *final(self) == (World { orbs: final(self).orbs, ..*old(self) }),
    {
        let ghost start = self.orbs@;
        let mut kept: Vec<Orb> = Vec::new();
        let mut i: usize = 0;
        while i < self.orbs.len()
            invariant
                i <= start.len(),
                self.orbs@ == start,
                kept@ == live_orbs(start.take(i as int)),
            decreases start.len() - i,
        {
            let o = self.orbs[i];
            proof {
                assert(start.take(i as int + 1).drop_last() =~= start.take(i as int));
            }
            if o.alive {
                kept.push(o);
            }
            i = i + 1;
        }
        proof {
            assert(start.take(i as int) =~= start);
            lemma_live_orbs_from(start);
        }
        self.orbs = kept;
        proof {
            assert forall|i: int| 0 <= i < self.orbs@.len() implies orb_ok(#[trigger] self.orbs@[i])
                && self.orbs@[i].alive by {
                let j = choose|j: int| 0 <= j < start.len() && start[j] == self.orbs@[i];
                assert(orb_ok(start[j]));
            }
        }
    }

    /// The difficulty at the current time and score.
    pub fn compute_difficulty(&self) -> (r: u64)
        requires
            config_ok(self.config),
            0 <= self.time_alive <= MAX_TIME,
        ensures
            r == difficulty_spec(self.config, self.time_alive as int, self.score as int),
            r <= DIFFICULTY_BOUND,
    {
        assert(self.config.difficulty_rate * self.time_alive <= 1000 * MAX_TIME) by (nonlinear_arith)
            requires
                self.config.difficulty_rate <= 1000,
                0 <= self.time_alive <= MAX_TIME,
        ;
        let ramp: u64 = self.config.difficulty_rate * (self.time_alive as u64) / 1000;
        proof {
            vstd::arithmetic::div_mod::lemma_div_is_ordered(
                self.config.difficulty_rate * self.time_alive,
                1000 * MAX_TIME,
                1000,
            );
        }
        ramp + self.score / 500
    }

    /// Whether the mode's time limit is reached.
    pub fn time_up(&self) -> (r: bool)
        ensures
            r == time_up_spec(self.config, self.time_alive as int),
    {
        match self.config.time_limit {
            Some(l) => self.time_alive >= l,
            None => false,
        }
    }

    /// Length of the replay of a ghost spawned now, in `ONE` units of seconds.
    pub fn replay_secs(&self) -> (r: i64)
        ensures
            r == replay_secs_spec(self.difficulty as int),
            REPLAY_MIN <= r <= REPLAY_MAX,
    {
        let c: u64 = if self.difficulty > REPLAY_FULL_DIFFICULTY { REPLAY_FULL_DIFFICULTY } else { self.difficulty };
        REPLAY_MIN + (c / 5) as i64
    }

    /// Advances the run by one tick: clock and difficulty, time limit, orb
    /// spawning, phase and movement, history, ghost playback, the lethal
    /// check, pickups with one ghost per collected orb, purge, passive
    /// combo decay and score gain, and the shake countdown.
    #[verifier::rlimit(60)]
    pub fn step(&mut self, input: TickInput, w: i64, h: i64) -> (r: TickEvents)
        requires
            old(self).wf(),
        ensures
            final(self).wf(),
            0 <= final(self).player.phase_energy <= PHASE_MAX,
            final(self).player.phase_active ==> final(self).player.phase_energy > 0,
            ONE <= final(self).combo,
            !clock_left(old(self).time_alive as int) ==> r == (TickEvents {
                game_over: true,
                orbs_collected: 0,
                ghosts_spawned: 0,
            }) && *final(self) == *old(self),
            clock_left(old(self).time_alive as int) ==> final(self).time_alive == old(self).time_alive + TICK,
            clock_left(old(self).time_alive as int) ==> final(self).difficulty == difficulty_spec(
                old(self).config,
                old(self).time_alive + TICK,
                old(self).score as int,
            ),
            final(self).mode == old(self).mode,
            final(self).score >= old(self).score,
            !r.game_over ==> final(self).score == u64::MAX || final(self).score > old(self).score,
            clock_left(old(self).time_alive as int) && time_up_spec(old(self).config, old(self).time_alive + TICK) ==> {
                &&& r == (TickEvents { game_over: true, orbs_collected: 0, ghosts_spawned: 0 })
                &&& *final(self) == (World {
                    time_alive: final(self).time_alive,
                    difficulty: final(self).difficulty,
                    ..*old(self)
                })
            },
            clock_left(old(self).time_alive as int) && !time_up_spec(old(self).config, old(self).time_alive + TICK) ==> {
                &&& final(self).orb_spawn_timer == if old(self).orb_spawn_timer - TICK <= 0 {
                    spawn_interval_spec(final(self).difficulty as int, old(self).config.spawn_rate_mul as int)
                } else {
                    old(self).orb_spawn_timer - TICK
                }
                &&& exists|o1: Seq<Orb>|
                    #[trigger] orb_spawn_stage(o1, old(self).orbs@, old(self).orb_spawn_timer as int, old(self).player.pos, arena_dim(w as int), arena_dim(h as int))
                        && (r.game_over ==> final(self).orbs@ == o1)
                        && (!r.game_over ==> {
                            &&& r.orbs_collected == count_pickups(o1, final(self).player.pos)
                            &&& final(self).orbs@ == live_orbs(
                                o1.map_values(|o: Orb| after_pickup(o, final(self).player.pos)),
                            )
                        })
            },
            clock_left(old(self).time_alive as int) && !time_up_spec(old(self).config, old(self).time_alive + TICK) ==> {
                &&& final(self).player.vel == velocity_step(old(self).player.vel, bounded_dir(input.dir))
                &&& final(self).player.pos.x == clamp_axis(
                    drift_spec(old(self).player.pos, final(self).player.vel).x as int,
                    PLAYER_RADIUS as int,
                    arena_dim(w as int),
                )
                &&& final(self).player.pos.y == clamp_axis(
                    drift_spec(old(self).player.pos, final(self).player.vel).y as int,
                    PLAYER_RADIUS as int,
                    arena_dim(h as int),
                )
                &&& (final(self).player.phase_energy as int, final(self).player.phase_active)
                    == phase_step(old(self).player.phase_energy as int, input.want_phase)
                &&& final(self).history@ == keep_newest(
                    old(self).history@.push(final(self).player.pos),
                    HISTORY_CAPACITY as nat,
                )
                &&& (2 * PLAYER_RADIUS <= arena_dim(w as int) && 2 * PLAYER_RADIUS <= arena_dim(h as int) ==> inside_arena(
                    final(self).player.pos,
                    PLAYER_RADIUS as int,
                    arena_dim(w as int),
                    arena_dim(h as int),
                ))
            },
            clock_left(old(self).time_alive as int) && r.game_over && !time_up_spec(old(self).config, old(self).time_alive + TICK) ==> {
                &&& !final(self).player.phase_active
                &&& final(self).ghosts@ == advance_all(old(self).ghosts@)
                &&& ghost_hits(final(self).ghosts@, final(self).player.pos)
                &&& r.orbs_collected == 0
                &&& r.ghosts_spawned == 0
                &&& final(self).score == old(self).score
                &&& final(self).combo == old(self).combo
                &&& final(self).last_collect_time == old(self).last_collect_time
                &&& (final(self).shake_amt as int, final(self).shake_t as int) == shake_request(
                    old(self).shake_amt as int,
                    old(self).shake_t as int,
                    old(self).settings.shake_enabled,
                    DEATH_SHAKE as int,
                    DEATH_SHAKE_TIME as int,
                )
            },
            !r.game_over ==> {
                &&& clock_left(old(self).time_alive as int)
                &&& !time_up_spec(old(self).config, old(self).time_alive + TICK)
                &&& (final(self).player.phase_active || !ghost_hits(
                    advance_all(old(self).ghosts@),
                    final(self).player.pos,
                ))
                &&& final(self).ghosts@.take(advance_all(old(self).ghosts@).len() as int)
                    == advance_all(old(self).ghosts@)
                &&& final(self).ghosts@.len() == advance_all(old(self).ghosts@).len() + r.ghosts_spawned
                &&& r.ghosts_spawned == if spawn_possible(final(self).history@.len() as int, final(self).difficulty as int) {
                    r.orbs_collected
                } else {
                    0
                }
                &&& forall|i: int|
                    advance_all(old(self).ghosts@).len() <= i < final(self).ghosts@.len() ==> spawned_from(
                        #[trigger] final(self).ghosts@[i],
                        final(self).history@.subrange(
                            final(self).history@.len() - replay_secs_spec(final(self).difficulty as int) / TICK as int,
                            final(self).history@.len() as int,
                        ),
                        final(self).difficulty as int,
                        final(self).config,
                    )
                &&& ({
                    let s1 = if r.orbs_collected > 0 {
                        shake_request(
                            old(self).shake_amt as int,
                            old(self).shake_t as int,
                            old(self).settings.shake_enabled,
                            PICKUP_SHAKE as int,
                            PICKUP_SHAKE_TIME as int,
                        )
                    } else {
                        (old(self).shake_amt as int, old(self).shake_t as int)
                    };
                    (final(self).shake_amt as int, final(self).shake_t as int) == shake_countdown(s1.0, s1.1)
                })
                &&& final(self).last_collect_time == if r.orbs_collected > 0 {
                    final(self).time_alive
                } else {
                    old(self).last_collect_time
                }
                &&& forall|i: int| 0 <= i < final(self).orbs@.len() ==> (#[trigger] final(self).orbs@[i]).alive
                &&& ({
                    let (c, s) = pickups_spec(
                        old(self).combo as int,
                        old(self).score as int,
                        old(self).time_alive + TICK,
                        old(self).last_collect_time as int,
                        r.orbs_collected as nat,
                    );
                    (final(self).combo as int, final(self).score as int) == passive_spec(
                        c,
                        s,
                        final(self).difficulty as int,
                    )
                })
            },
    {
        if self.time_alive > MAX_TIME - TICK {
            return TickEvents { game_over: true, orbs_collected: 0, ghosts_spawned: 0 };
        }
        let aw = clamp_i64(w, 0, ARENA_LIMIT);
        let ah = clamp_i64(h, 0, ARENA_LIMIT);
        let old_input = input;
        let input = TickInput {
            dir: Vec2 {
                x: clamp_i64(old_input.dir.x, -SPEED_LIMIT, SPEED_LIMIT),
                y: clamp_i64(old_input.dir.y, -SPEED_LIMIT, SPEED_LIMIT),
            },
            want_phase: old_input.want_phase,
        };
        assert(aw == arena_dim(w as int) && ah == arena_dim(h as int));
        assert(input.dir == bounded_dir(old_input.dir));
        self.time_alive = self.time_alive + TICK;
        self.difficulty = self.compute_difficulty();
        if self.time_up() {
            return TickEvents { game_over: true, orbs_collected: 0, ghosts_spawned: 0 };
        }
        let timer = self.orb_spawn_timer - TICK;
        let ghost orbs_before = self.orbs@;
        let ghost mover = self.player.pos;
        if timer <= 0 {
            self.spawn_orb(aw, ah);
            self.orb_spawn_timer = self.difficulty_spawn_interval();
        } else {
            self.orb_spawn_timer = timer;
        }
        let ghost o1 = self.orbs@;
        assert(orb_spawn_stage(o1, orbs_before, old(self).orb_spawn_timer as int, mover, aw as int, ah as int));
        self.player.update_phase(input.want_phase);
        self.player.integrate(input.dir, aw, ah);
        let ghost hist_before = self.history@;
        self.history.record(self.player.pos);
        proof {
            let grown = hist_before.push(self.player.pos);
            assert forall|i: int| 0 <= i < self.history@.len() implies (#[trigger] self.history@[i]).in_range() by {
                if grown.len() > HISTORY_CAPACITY {
                    assert(self.history@[i] == grown[grown.len() - HISTORY_CAPACITY + i]);
                } else {
                    assert(self.history@[i] == grown[i]);
                }
            }
        }
        self.advance_ghosts();
        let ghost advanced_ghosts = self.ghosts@;
        if !self.player.phase_active && self.touches_ghost() {
            self.add_shake(DEATH_SHAKE, DEATH_SHAKE_TIME);
            return TickEvents { game_over: true, orbs_collected: 0, ghosts_spawned: 0 };
        }
        let ghost score_before = self.score;
        let collected = self.collect_orbs();
        proof {
            lemma_pickups_score(
                old(self).combo as int,
                old(self).score as int,
                self.time_alive as int,
                old(self).last_collect_time as int,
                collected as nat,
            );
            assert(self.orbs@ =~= o1.map_values(|o: Orb| after_pickup(o, self.player.pos)));
        }
        let mut spawned: u64 = 0;
        if collected > 0 {
            let secs = self.replay_secs();
            let mut k: u64 = 0;
            let ghost pre = *self;
            while k < collected
                invariant
                    self.wf(),
                    k <= collected,
                    spawned == if spawn_possible(self.history@.len() as int, self.difficulty as int) { k } else { 0 },
                    secs == replay_secs_spec(self.difficulty as int),
                    self.ghosts@.len() == advanced_ghosts.len() + spawned,
                    self.ghosts@.take(advanced_ghosts.len() as int) == advanced_ghosts,
                    *self == (World { ghosts: self.ghosts, ..pre }),
                    forall|i: int|
                        advanced_ghosts.len() <= i < self.ghosts@.len() ==> spawned_from(
                            #[trigger] self.ghosts@[i],
                            self.history@.subrange(
                                self.history@.len() - replay_secs_spec(self.difficulty as int) / TICK as int,
                                self.history@.len() as int,
                            ),
                            self.difficulty as int,
                            self.config,
                        ),
                decreases collected - k,
            {
                let before = self.ghosts.len();
                let ghost prev = self.ghosts@;
                self.spawn_ghost(secs);
                if self.ghosts.len() > before {
                    spawned = spawned + 1;
                }
                proof {
                    if self.ghosts@.len() > prev.len() {
                        assert(self.ghosts@.take(advanced_ghosts.len() as int) =~= prev.take(
                            advanced_ghosts.len() as int,
                        ));
                        assert forall|i: int| advanced_ghosts.len() <= i < prev.len() implies self.ghosts@[i] == prev[i] by {
                            assert(self.ghosts@.take(prev.len() as int)[i] == prev[i]);
                        }
                    }
                    let hs = self.history@.subrange(
                        self.history@.len() - replay_secs_spec(self.difficulty as int) / TICK as int,
                        self.history@.len() as int,
                    );
                    assert forall|i: int| advanced_ghosts.len() <= i < self.ghosts@.len() implies spawned_from(
                        #[trigger] self.ghosts@[i],
                        hs,
                        self.difficulty as int,
                        self.config,
                    ) by {
                        if i < prev.len() {
                            assert(self.ghosts@[i] == prev[i]);
                        } else {
                            assert(self.ghosts@[i] == self.ghosts@.last());
                        }
                    }
                }
                k = k + 1;
            }
            self.add_shake(PICKUP_SHAKE, PICKUP_SHAKE_TIME);
        }
        self.purge_orbs();
        let (c, s) = passive_gain(self.combo, self.score, self.difficulty);
        proof {
            lemma_passive_score(self.combo as int, self.score as int, self.difficulty as int);
        }
        self.combo = c;
        self.score = s;
        if self.shake_t > 0 {
            self.shake_t = self.shake_t - TICK;
            if self.shake_t <= 0 {
                self.shake_t = 0;
                self.shake_amt = 0;
            }
        }
        TickEvents { game_over: false, orbs_collected: collected, ghosts_spawned: spawned }
    }

    /// Adds a ghost replaying the newest `recent_secs` of history (in `ONE`
    /// units of seconds), if the history holds that much and ten samples more
    /// and the replay has at least `MIN_GHOST_SAMPLES` samples; otherwise
    /// nothing changes.
    pub fn spawn_ghost(&mut self, recent_secs: i64)
        requires
            old(self).wf(),
            0 <= recent_secs,
        ensures
            final(self).wf(),
            ({
                let k = recent_secs / TICK;
                let n = old(self).history@.len();
                if n < k + HISTORY_SLACK || k < MIN_GHOST_SAMPLES {
                    final(self).ghosts@ == old(self).ghosts@
                } else {
                    &&& final(self).ghosts@.len() == old(self).ghosts@.len() + 1
                    &&& final(self).ghosts@.take(old(self).ghosts@.len() as int) == old(self).ghosts@
                    &&& spawned_from(
                        final(self).ghosts@.last(),
                        old(self).history@.subrange(n - k, n as int),
                        old(self).difficulty as int,
                        old(self).config,
                    )
                }
            }),
            *final(self) == (World { ghosts: final(self).ghosts, ..*old(self) }),
    {
        let frames64: u64 = (recent_secs / TICK) as u64;
        if (self.history.len() as u64) < frames64 + HISTORY_SLACK as u64 {
            return;
        }
        let frames: usize = frames64 as usize;
        let samples = self.history.newest(frames);
        if samples.len() < MIN_GHOST_SAMPLES {
            return;
        }
        let g = GhostEntity {
            samples,
            progress: 0,
            speed: self.ghost_speed(),
            radius: GHOST_RADIUS,
            ttl: self.ghost_ttl(),
        };
        proof {
            assert(g.samples@.len() <= HISTORY_CAPACITY);
            assert forall|i: int| 0 <= i < g.samples@.len() implies (#[trigger] g.samples@[i]).in_range() by {
                assert(g.samples@[i] == self.history@[self.history@.len() - frames + i]);
            }
            assert(0 < period(g.samples@.len() as int)) by (nonlinear_arith)
                requires
                    0 < g.samples@.len(),
            ;
        }
        self.ghosts.push(g);
        proof {
            assert(self.ghosts@.take(old(self).ghosts@.len() as int) =~= old(self).ghosts@);
            assert forall|i: int| 0 <= i < self.ghosts@.len() implies ghost_ok(#[trigger] self.ghosts@[i]) by {
                if i < old(self).ghosts@.len() {
                    assert(self.ghosts@[i] == old(self).ghosts@[i]);
                }
            }
        }
    }

    /// Adds a live orb away from the player inside the arena `w` by `h`.
    pub fn spawn_orb(&mut self, w: i64, h: i64)
        requires
            old(self).wf(),
            0 <= w <= ARENA_LIMIT,
            0 <= h <= ARENA_LIMIT,
        ensures
            final(self).wf(),
            final(self).orbs@.len() == old(self).orbs@.len() + 1,
            final(self).orbs@.take(old(self).orbs@.len() as int) == old(self).orbs@,
            final(self).orbs@.last().alive,
            final(self).orbs@.last().radius == ORB_RADIUS,
            placed_by_draws(final(self).orbs@.last().pos, old(self).player.pos, ORB_SAFE_RADIUS as int, w as int, h as int),
            ({
                let q = final(self).orbs@.last().pos;
                let p = old(self).player.pos;
                (in_spawn_box(q, w as int, h as int) && far_enough(q, p, ORB_SAFE_RADIUS as int))
                    || q == fallback_spec(p, w as int, h as int)
            }),
            *final(self) == (World { orbs: final(self).orbs, ..*old(self) }),
    {
        let o = Orb {
            pos: rand_pos_away_from(self.player.pos, ORB_SAFE_RADIUS, w, h),
            radius: ORB_RADIUS,
            alive: true,
        };
        self.orbs.push(o);
        proof {
            assert(self.orbs@.take(old(self).orbs@.len() as int) =~= old(self).orbs@);
            assert forall|i: int| 0 <= i < self.orbs@.len() implies orb_ok(#[trigger] self.orbs@[i]) by {
                if i < old(self).orbs@.len() {
                    assert(self.orbs@[i] == old(self).orbs@[i]);
                }
            }
        }
    }

    /// Requests a camera shake of at least `power` for at least `time`,
    /// when shaking is enabled.
    pub fn add_shake(&mut self, power: i64, time: i64)
        requires
            0 <= power <= SHAKE_LIMIT,
            0 <= time <= SHAKE_TIME_LIMIT,
        ensures
            ({
                let (a, t) = shake_request(
                    old(self).shake_amt as int,
                    old(self).shake_t as int,
                    old(self).settings.shake_enabled,
                    power as int,
                    time as int,
                );
                final(self).shake_amt == a && final(self).shake_t == t
            }),
            *final(self) == (World {
                shake_amt: final(self).shake_amt,
                shake_t: final(self).shake_t,
                ..*old(self)
            }),
    {
        if self.settings.shake_enabled {
            if power > self.shake_amt {
                self.shake_amt = power;
            }
            if time > self.shake_t {
                self.shake_t = time;
            }
        }
    }

    /// A random camera offset while the shake lasts: two draws in
    /// `[0, 2 * shake_amt]` turned into an offset by `shake_offset`; none
    /// once the shake is over.
    pub fn camera_offset(&self) -> (r: Vec2)
        requires
            0 <= self.shake_amt <= SHAKE_LIMIT,
        ensures
            self.shake_t <= 0 ==> r == (Vec2 { x: 0, y: 0 }),
            -self.shake_amt <= r.x <= self.shake_amt,
            -self.shake_amt <= r.y <= self.shake_amt,
    {
        if self.shake_t <= 0 {
            return Vec2 { x: 0, y: 0 };
        }
        let a = self.shake_amt;
        let dx = gen_range_i64(0, 2 * a);
        let dy = gen_range_i64(0, 2 * a);
        shake_offset(dx, dy, a)
    }
}

pub open spec fn max_int(a: int, b: int) -> int {
    if a >= b { a } else { b }
}

/// Shake strength and time after a request of `power` for `time`: each
/// raised to the request when shaking is enabled, unchanged otherwise.
pub open spec fn shake_request(amt: int, t: int, enabled: bool, power: int, time: int) -> (int, int) {
    if enabled { (max_int(amt, power), max_int(t, time)) } else { (amt, t) }
}

/// Shake strength and time after one tick of countdown: a running shake
/// loses one tick and, once over, drops to no shake at all.
pub open spec fn shake_countdown(amt: int, t: int) -> (int, int) {
    if t > 0 {
        if t - TICK <= 0 { (0, 0) } else { (amt, t - TICK) }
    } else {
        (amt, t)
    }
}

/// The camera offset for draws `dx` and `dy` taken in `[0, 2 * amt]`.
pub fn shake_offset(dx: i64, dy: i64, amt: i64) -> (r: Vec2)
    requires
        0 <= amt <= SHAKE_LIMIT,
        0 <= dx <= 2 * amt,
        0 <= dy <= 2 * amt,
    ensures
        r == (Vec2 { x: (dx - amt) as i64, y: (dy - amt) as i64 }),
        -amt <= r.x <= amt,
        -amt <= r.y <= amt,
{
    Vec2 { x: dx - amt, y: dy - amt }
}

/// `o1` is the orb list after the spawn stage of a tick that starts with
/// `orbs`, countdown `timer` and the player at `p`: one orb placed by the
/// spawner is appended when the countdown runs out.
pub open spec fn orb_spawn_stage(o1: Seq<Orb>, orbs: Seq<Orb>, timer: int, p: Vec2, w: int, h: int) -> bool {
    if timer - TICK <= 0 {
        &&& o1.len() == orbs.len() + 1
        &&& o1.take(orbs.len() as int) == orbs
        &&& o1.last().alive
        &&& o1.last().radius == ORB_RADIUS
        &&& placed_by_draws(o1.last().pos, p, ORB_SAFE_RADIUS as int, w, h)
    } else {
        o1 == orbs
    }
}

/// Pickups never lower the score.
pub proof fn lemma_pickups_score(combo: int, score: int, time: int, last: int, k: nat)
    requires
        0 <= combo,
        0 <= score <= u64::MAX,
    ensures
        score <= pickups_spec(combo, score, time, last, k).1 <= u64::MAX,
        0 <= pickups_spec(combo, score, time, last, k).0,
    decreases k,
{
    if k > 0 {
        lemma_pickups_score(combo, score, time, last, (k - 1) as nat);
    }
}

/// The passive gain never lowers the score, and raises it unless the score
/// is saturated.
pub proof fn lemma_passive_score(combo: int, score: int, d: int)
    requires
        0 <= combo,
        0 <= d,
        0 <= score <= u64::MAX,
    ensures
        score <= passive_spec(combo, score, d).1,
        passive_spec(combo, score, d).1 == u64::MAX || score < passive_spec(combo, score, d).1,
{
    let c = passive_spec(combo, score, d).0;
    assert(120000 * ONE <= (120000 + 2 * d) * c) by (nonlinear_arith)
        requires
            0 <= d,
            ONE <= c,
    ;
    vstd::arithmetic::div_mod::lemma_div_is_ordered(120000 * ONE, (120000 + 2 * d) * c, 3_600_000);
}

/// A ghost spawned now would be made: the history holds the replay of
/// `replay_secs_spec(d)` and `HISTORY_SLACK` samples more, and the replay has
/// at least `MIN_GHOST_SAMPLES` samples.
pub open spec fn spawn_possible(history_len: int, d: int) -> bool {
    let k = replay_secs_spec(d) / TICK as int;
    history_len >= k + HISTORY_SLACK && k >= MIN_GHOST_SAMPLES
}

/// `g` is a fresh ghost replaying `samples` at the given difficulty.
pub open spec fn spawned_from(g: GhostEntity, samples: Seq<Vec2>, d: int, c: ModeConfig) -> bool {
    &&& g.samples@ == samples
    &&& g.progress == 0
    &&& g.speed == ghost_speed_spec(d, c.ghost_speed_mul as int)
    &&& g.radius == GHOST_RADIUS
    &&& g.ttl == ghost_ttl_spec(d)
}

/// A new run of `mode` in an arena `w` by `h`, the player at its centre.
pub fn new_world(settings: Settings, mode: GameMode, w: i64, h: i64) -> (r: World)
    requires
        0 <= w <= ARENA_LIMIT,
        0 <= h <= ARENA_LIMIT,
    ensures
        r.wf(),
        r.player.pos.x == w / 2 && r.player.pos.y == h / 2,
        r.player.phase_energy == PHASE_MAX,
        r.player.vel == (Vec2 { x: 0, y: 0 }),
        !r.player.phase_active,
        r.player.radius == PLAYER_RADIUS,
        r.shake_t == 0 && r.shake_amt == 0,
        r.history.capacity_spec() == HISTORY_CAPACITY,
        r.ghosts@.len() == 0,
        r.orbs@.len() == 0,
        r.history@.len() == 0,
        r.time_alive == 0,
        r.score == 0,
        r.combo == ONE,
        r.last_collect_time == NEVER_COLLECTED,
        r.orb_spawn_timer == 0,
        r.difficulty == 0,
        r.mode == mode,
        r.config == mode_config_spec(mode),
        r.settings == settings,
{
    World {
        player: Player::new(Vec2 { x: w / 2, y: h / 2 }),
        ghosts: Vec::new(),
        orbs: Vec::new(),
        history: HistoryBuffer::new(HISTORY_CAPACITY),
        time_alive: 0,
        score: 0,
        combo: ONE as u64,
        last_collect_time: NEVER_COLLECTED,
        orb_spawn_timer: 0,
        difficulty: 0,
        shake_t: 0,
        shake_amt: 0,
        mode,
        config: mode_config(mode),
        settings,
    }
}

} // verus!
