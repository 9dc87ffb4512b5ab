//! Player kinematics and the energy-gated phase ability.

use vstd::prelude::*;
use crate::geom::{
    cap_length, capped_spec, clamp_axis, clamp_rect, lemma_clamp_axis_inside, lemma_fraction_in_bounds, len_sq,
    scale_component, scale_spec, Vec2, COORD_LIMIT, ONE, SPEED_LIMIT,
};

verus! {

/// Simulation ticks per second; one tick lasts `TICK / ONE` seconds.
pub const TICKS_PER_SECOND: i64 = 60;

/// Length of one tick in `ONE` units of seconds.
pub const TICK: i64 = 200;

pub const PLAYER_RADIUS: i64 = 12 * ONE;

/// Acceleration in pixels per second squared.
pub const ACCEL: i64 = 1600;

/// Friction coefficient, in thousandths per second.
pub const FRICTION_MILLI: i64 = 5500;

/// Velocity kept by friction over one tick: `(1 - FRICTION * dt)` as a
/// fraction `FRICTION_KEEP / FRICTION_DEN`.
pub const FRICTION_KEEP: i64 = TICKS_PER_SECOND * 1000 - FRICTION_MILLI;

pub const FRICTION_DEN: i64 = TICKS_PER_SECOND * 1000;

/// Speed cap, in `ONE` units of pixels per second.
pub const MAX_SPEED: i64 = 300 * ONE;

/// Phase energy capacity, in `ONE` units of seconds.
pub const PHASE_MAX: i64 = 18000;

/// Phase energy drained per tick while active (1.6 per second).
pub const PHASE_DRAIN_PER_TICK: i64 = 320;

/// Phase energy regained per tick while inactive (0.6 per second).
pub const PHASE_REGEN_PER_TICK: i64 = 120;

/// Largest arena side accepted, in `ONE` units of pixels.
pub const ARENA_LIMIT: i64 = 0x10_0000_0000;

/// Energy and activity after one tick of the phase rule.
pub open spec fn phase_step(energy: int, want: bool) -> (int, bool) {
    if want && energy > 0 {
        let e = energy - PHASE_DRAIN_PER_TICK;
        if e <= 0 {
            (0, false)
        } else {
            (e, true)
        }
    } else {
        let e = energy + PHASE_REGEN_PER_TICK;
        (if e > PHASE_MAX { PHASE_MAX as int } else { e }, false)
    }
}

/// Velocity change from one tick of input `dir` (in `ONE` units).
pub open spec fn accel_spec(dir: Vec2) -> Vec2 {
    Vec2 {
        x: scale_spec(dir.x as int, ACCEL as int, TICKS_PER_SECOND as int) as i64,
        y: scale_spec(dir.y as int, ACCEL as int, TICKS_PER_SECOND as int) as i64,
    }
}

/// The input direction, scaled down to unit length when it is longer.
pub open spec fn unit_dir_spec(dir: Vec2) -> Vec2 {
    capped_spec(dir, ONE as int)
}

/// Velocity after one tick: accelerate, cap the speed, apply friction.
pub open spec fn velocity_step(vel: Vec2, dir: Vec2) -> Vec2 {
    let a = accel_spec(unit_dir_spec(dir));
    let v = capped_spec(Vec2 { x: (vel.x + a.x) as i64, y: (vel.y + a.y) as i64 }, MAX_SPEED as int);
    Vec2 {
        x: scale_spec(v.x as int, FRICTION_KEEP as int, FRICTION_DEN as int) as i64,
        y: scale_spec(v.y as int, FRICTION_KEEP as int, FRICTION_DEN as int) as i64,
    }
}

/// Position after one tick with the new velocity `vel`, before clamping.
pub open spec fn drift_spec(pos: Vec2, vel: Vec2) -> Vec2 {
    Vec2 {
        x: (pos.x + scale_spec(vel.x as int, 1, TICKS_PER_SECOND as int)) as i64,
        y: (pos.y + scale_spec(vel.y as int, 1, TICKS_PER_SECOND as int)) as i64,
    }
}

/// The player's circle lies inside the arena `[0, w] x [0, h]`.
pub open spec fn inside_arena(p: Vec2, r: int, w: int, h: int) -> bool {
    r <= p.x <= w - r && r <= p.y <= h - r
}

pub struct Player {
    pub pos: Vec2,
    pub vel: Vec2,
    pub radius: i64,
    pub phase_energy: i64,
    pub phase_active: bool,
}

impl Player {
    pub open spec fn wf(&self) -> bool {
        &&& -PLAYER_RADIUS <= self.pos.x <= ARENA_LIMIT
        &&& -PLAYER_RADIUS <= self.pos.y <= ARENA_LIMIT
        &&& -MAX_SPEED <= self.vel.x <= MAX_SPEED
        &&& -MAX_SPEED <= self.vel.y <= MAX_SPEED
        &&& self.radius == PLAYER_RADIUS
        &&& 0 <= self.phase_energy <= PHASE_MAX
        &&& (self.phase_active ==> self.phase_energy > 0)
    }

    pub fn new(pos: Vec2) -> (r: Player)
        ensures
            r.pos == pos,
            r.vel == (Vec2 { x: 0, y: 0 }),
            r.radius == PLAYER_RADIUS,
            r.phase_energy == PHASE_MAX,
            !r.phase_active,
    {
        Player {
            pos,
            vel: Vec2 { x: 0, y: 0 },
            radius: PLAYER_RADIUS,
            phase_energy: PHASE_MAX,
            phase_active: false,
        }
    }

    /// One tick of the phase ability: drains while requested and charged,
    /// otherwise regenerates up to the capacity.
    pub fn update_phase(&mut self, want: bool)
        requires
            0 <= old(self).phase_energy <= PHASE_MAX,
        ensures
            (final(self).phase_energy as int, final(self).phase_active) == phase_step(
                old(self).phase_energy as int,
                want,
            ),
            0 <= final(self).phase_energy <= PHASE_MAX,
            final(self).phase_active ==> final(self).phase_energy > 0,
            final(self).pos == old(self).pos,
            final(self).vel == old(self).vel,
            final(self).radius == old(self).radius,
    {
        if want && self.phase_energy > 0 {
            self.phase_active = true;
            self.phase_energy = self.phase_energy - PHASE_DRAIN_PER_TICK;
            if self.phase_energy <= 0 {
                self.phase_energy = 0;
                self.phase_active = false;
            }
        } else {
            self.phase_active = false;
            let e = self.phase_energy + PHASE_REGEN_PER_TICK;
            self.phase_energy = if e > PHASE_MAX { PHASE_MAX } else { e };
        }
    }

    /// One tick of movement under input `dir`, then clamped into the arena
    /// `[0, w] x [0, h]`. The velocity is kept as it is when clamping.
    pub fn integrate(&mut self, dir: Vec2, w: i64, h: i64)
        requires
            old(self).wf(),
            -SPEED_LIMIT <= dir.x <= SPEED_LIMIT,
            -SPEED_LIMIT <= dir.y <= SPEED_LIMIT,
            0 <= w <= ARENA_LIMIT,
            0 <= h <= ARENA_LIMIT,
        ensures
            final(self).vel == velocity_step(old(self).vel, dir),
            final(self).pos.x == clamp_axis(
                drift_spec(old(self).pos, final(self).vel).x as int,
                PLAYER_RADIUS as int,
                w as int,
            ),
            final(self).pos.y == clamp_axis(
                drift_spec(old(self).pos, final(self).vel).y as int,
                PLAYER_RADIUS as int,
                h as int,
            ),
            2 * PLAYER_RADIUS <= w && 2 * PLAYER_RADIUS <= h ==> inside_arena(
                final(self).pos,
                PLAYER_RADIUS as int,
                w as int,
                h as int,
            ),
            len_sq(final(self).vel) <= MAX_SPEED * MAX_SPEED,
            final(self).wf(),
            final(self).radius == old(self).radius,
            final(self).phase_energy == old(self).phase_energy,
            final(self).phase_active == old(self).phase_active,
    {
        let u = cap_length(dir, ONE);
        proof {
            lemma_component_bound(u, ONE as int);
        }
        let ax = scale_component(u.x, ACCEL, TICKS_PER_SECOND);
        let ay = scale_component(u.y, ACCEL, TICKS_PER_SECOND);
        proof {
            lemma_accel_bound(u.x as int);
            lemma_accel_bound(u.y as int);
        }
        let v = cap_length(Vec2 { x: self.vel.x + ax, y: self.vel.y + ay }, MAX_SPEED);
        proof {
            lemma_component_bound(v, MAX_SPEED as int);
            lemma_fraction_in_bounds(v.x as int, FRICTION_KEEP as int, FRICTION_DEN as int);
            lemma_fraction_in_bounds(v.y as int, FRICTION_KEEP as int, FRICTION_DEN as int);
        }
        let vel = Vec2 {
            x: scale_component(v.x, FRICTION_KEEP, FRICTION_DEN),
            y: scale_component(v.y, FRICTION_KEEP, FRICTION_DEN),
        };
        proof {
            lemma_shrunk_len(v, vel);
        }
        self.vel = vel;
        let dx = scale_component(vel.x, 1, TICKS_PER_SECOND);
        let dy = scale_component(vel.y, 1, TICKS_PER_SECOND);
        let moved = Vec2 { x: self.pos.x + dx, y: self.pos.y + dy };
        let (clamped, _normal) = clamp_rect(moved, self.radius, w, h);
        proof {
            if 2 * PLAYER_RADIUS <= w && 2 * PLAYER_RADIUS <= h {
                lemma_clamp_axis_inside(moved.x as int, PLAYER_RADIUS as int, w as int);
                lemma_clamp_axis_inside(moved.y as int, PLAYER_RADIUS as int, h as int);
            }
        }
        self.pos = clamped;
    }
}

/// With no input, friction alone slows a player moving along an axis:
/// the speed drops every tick, stays on the same side of zero, and the
/// motion stays on that axis.
pub proof fn lemma_friction_slows(v: int)
    requires
        0 < v <= MAX_SPEED,
    ensures
        ({
            let n = velocity_step(Vec2 { x: v as i64, y: 0 }, Vec2 { x: 0, y: 0 });
            &&& n.y == 0
            &&& 0 <= n.x < v
            &&& n.x == v * FRICTION_KEEP / (FRICTION_DEN as int)
        }),
{
    let z = Vec2 { x: 0, y: 0 };
    assert(len_sq(z) == 0);
    assert(scale_spec(0, ACCEL as int, TICKS_PER_SECOND as int) == 0);
    assert(accel_spec(unit_dir_spec(z)) == z);
    let u = Vec2 { x: v as i64, y: 0 };
    assert(len_sq(u) <= MAX_SPEED * MAX_SPEED) by (nonlinear_arith)
        requires
            0 < v <= MAX_SPEED,
            len_sq(u) == v * v,
    ;
    assert(0 <= v * FRICTION_KEEP < v * FRICTION_DEN) by (nonlinear_arith)
        requires
            0 < v,
    ;
    vstd::arithmetic::div_mod::lemma_div_pos_is_pos(v * FRICTION_KEEP, FRICTION_DEN as int);
    vstd::arithmetic::div_mod::lemma_multiply_divide_lt(v * FRICTION_KEEP, FRICTION_DEN as int, v);
    assert(scale_spec(0, FRICTION_KEEP as int, FRICTION_DEN as int) == 0);
}

proof fn lemma_component_bound(v: Vec2, m: int)
    requires
        len_sq(v) <= m * m,
        0 <= m,
    ensures
        -m <= v.x <= m,
        -m <= v.y <= m,
{
    assert(-m <= v.x <= m) by (nonlinear_arith)
        requires
            v.x * v.x + v.y * v.y <= m * m,
            0 <= m,
    ;
    assert(-m <= v.y <= m) by (nonlinear_arith)
        requires
            v.x * v.x + v.y * v.y <= m * m,
            0 <= m,
    ;
}

proof fn lemma_accel_bound(c: int)
    requires
        -ONE <= c <= ONE,
    ensures
        -320000 <= scale_spec(c, ACCEL as int, TICKS_PER_SECOND as int) <= 320000,
{
    let a = if c >= 0 { c } else { -c };
    assert(0 <= a * ACCEL <= ONE * ACCEL) by (nonlinear_arith)
        requires
            0 <= a <= ONE,
    ;
    vstd::arithmetic::div_mod::lemma_div_is_ordered(a * ACCEL, ONE * ACCEL, TICKS_PER_SECOND as int);
    vstd::arithmetic::div_mod::lemma_div_pos_is_pos(a * ACCEL, TICKS_PER_SECOND as int);
}

proof fn lemma_shrunk_len(v: Vec2, s: Vec2)
    requires
        v.x >= 0 ==> 0 <= s.x <= v.x,
        v.x < 0 ==> v.x <= s.x <= 0,
        v.y >= 0 ==> 0 <= s.y <= v.y,
        v.y < 0 ==> v.y <= s.y <= 0,
    ensures
        len_sq(s) <= len_sq(v),
{
    assert(s.x * s.x <= v.x * v.x) by (nonlinear_arith)
        requires
            v.x >= 0 ==> 0 <= s.x <= v.x,
            v.x < 0 ==> v.x <= s.x <= 0,
    ;
    assert(s.y * s.y <= v.y * v.y) by (nonlinear_arith)
        requires
            v.y >= 0 ==> 0 <= s.y <= v.y,
            v.y < 0 ==> v.y <= s.y <= 0,
    ;
}

} // verus!
