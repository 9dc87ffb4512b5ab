use feedback_rush::geom::{cap_length, ceil_sqrt, circle_overlap, clamp_rect, lerp, vec2, Vec2, ONE};
use feedback_rush::ghost::GhostEntity;
use feedback_rush::history::HistoryBuffer;
use feedback_rush::mode::{mode_config, GameMode, Settings};
use feedback_rush::player::{Player, MAX_SPEED, PHASE_MAX, PLAYER_RADIUS, TICK};
use feedback_rush::spawn::{
    fallback_pos, is_far_enough, place_from_draws, rand_pos_away_from, Orb, ORB_RADIUS,
};
use feedback_rush::world::{
    new_world, passive_gain, pickup, shake_offset, ticks_due, TickInput, MAX_TIME, World, COMBO_CHAIN_BONUS,
    ORB_SPAWN_BASE,
};

const W: i64 = 960 * ONE;
const H: i64 = 540 * ONE;

fn idle() -> TickInput {
    TickInput { dir: vec2(0, 0), want_phase: false }
}

fn world(mode: GameMode) -> World {
    new_world(Settings::default(), mode, W, H)
}

#[test]
fn phase_and_combo_stay_in_range() {
    let mut w = world(GameMode::Classic);
    for i in 0..600 {
        let input = TickInput { dir: vec2(ONE, 0), want_phase: i % 3 != 0 };
        let ev = w.step(input, W, H);
        assert!(w.player.phase_energy >= 0 && w.player.phase_energy <= PHASE_MAX);
        assert!(w.combo >= ONE as u64);
        if ev.game_over {
            break;
        }
    }
}

#[test]
fn player_stays_inside_arena() {
    let mut w = world(GameMode::Classic);
    for i in 0..400 {
        let dir = if i < 200 { vec2(-ONE, -ONE) } else { vec2(ONE, ONE) };
        let ev = w.step(TickInput { dir, want_phase: true }, W, H);
        let p = w.player.pos;
        assert!(p.x >= PLAYER_RADIUS && p.x <= W - PLAYER_RADIUS);
        assert!(p.y >= PLAYER_RADIUS && p.y <= H - PLAYER_RADIUS);
        if ev.game_over {
            break;
        }
    }
}

fn ghost_of(samples: Vec<Vec2>, progress: u64) -> GhostEntity {
    GhostEntity { samples, progress, speed: ONE as u64, radius: 10 * ONE, ttl: 8 * ONE }
}

#[test]
fn ghost_position_at_sample_boundaries() {
    let s = vec![vec2(0, 0), vec2(10 * ONE, 0), vec2(10 * ONE, 20 * ONE)];
    assert_eq!(ghost_of(s.clone(), 0).current_pos(), vec2(0, 0));
    assert_eq!(ghost_of(s.clone(), ONE as u64).current_pos(), vec2(10 * ONE, 0));
    assert_eq!(ghost_of(s.clone(), 2 * ONE as u64).current_pos(), vec2(10 * ONE, 20 * ONE));
    // halfway between the first two samples
    assert_eq!(ghost_of(s.clone(), ONE as u64 / 2).current_pos(), vec2(5 * ONE, 0));
    // just before a boundary the position is close to the next sample
    let near = ghost_of(s.clone(), ONE as u64 - 1).current_pos();
    assert!(10 * ONE - near.x <= 10);
    // from the last sample back towards the first
    assert_eq!(ghost_of(s, 5 * ONE as u64 / 2).current_pos(), vec2(5 * ONE, 10 * ONE));
}

#[test]
fn ghost_playback_wraps_for_large_progress() {
    let s = vec![vec2(ONE, ONE), vec2(2 * ONE, ONE), vec2(3 * ONE, ONE), vec2(4 * ONE, ONE)];
    let n = s.len() as u64;
    let huge = u64::MAX - (u64::MAX % (n * ONE as u64));
    assert_eq!(ghost_of(s.clone(), huge).current_pos(), vec2(ONE, ONE));
    assert_eq!(ghost_of(s.clone(), huge - 2 * ONE as u64).current_pos(), vec2(3 * ONE, ONE));
    let mut g = ghost_of(s, 3 * ONE as u64);
    g.speed = 5 * ONE as u64;
    g.advance();
    assert_eq!(g.progress, 0);
    assert_eq!(g.ttl, 8 * ONE - TICK);
}

#[test]
fn purge_twice_is_purge_once() {
    let mut w = world(GameMode::Classic);
    let o = |x: i64, alive: bool| Orb { pos: vec2(x, 100 * ONE), radius: ORB_RADIUS, alive };
    w.orbs = vec![o(ONE, true), o(2 * ONE, false), o(3 * ONE, true), o(4 * ONE, false)];
    w.purge_orbs();
    let once: Vec<Orb> = w.orbs.clone();
    w.purge_orbs();
    assert_eq!(w.orbs, once);
    assert_eq!(once.len(), 2);
    assert!(once.iter().all(|o| o.alive));

    let mut g = ghost_of(vec![vec2(0, 0)], 0);
    g.ttl = TICK;
    w.ghosts = vec![g, ghost_of(vec![vec2(0, 0)], 0)];
    w.advance_ghosts();
    assert_eq!(w.ghosts.len(), 1);
    let ttl_after = w.ghosts[0].ttl;
    assert_eq!(ttl_after, 8 * ONE - TICK);
}

#[test]
fn spawn_ghost_with_empty_history_is_noop() {
    let mut w = world(GameMode::Classic);
    assert_eq!(w.history.len(), 0);
    w.spawn_ghost(5 * ONE);
    assert_eq!(w.ghosts.len(), 0);
    w.spawn_ghost(0);
    assert_eq!(w.ghosts.len(), 0);
}

#[test]
fn friction_slows_player_monotonically() {
    let mut p = Player::new(vec2(W / 2, H / 2));
    p.vel = vec2(300 * ONE, 0);
    let mut last = p.vel.x;
    for _ in 0..60 {
        p.integrate(vec2(0, 0), 100_000 * ONE, 100_000 * ONE);
        assert!(p.vel.x < last);
        assert!(p.vel.x > 0);
        assert_eq!(p.vel.y, 0);
        last = p.vel.x;
    }
    // (109/120)^60 of the start, up to rounding
    assert!(last < 300 * ONE / 100);
    // first tick exactly: 3_600_000 * 54500 / 60000
    let mut q = Player::new(vec2(W / 2, H / 2));
    q.vel = vec2(300 * ONE, 0);
    q.integrate(vec2(0, 0), W, H);
    assert_eq!(q.vel.x, 3_270_000);
    assert_eq!(q.pos.x, W / 2 + 3_270_000 / 60);
}

#[test]
fn classic_spawn_interval_at_zero_difficulty() {
    let w = world(GameMode::Classic);
    assert_eq!(w.difficulty, 0);
    assert_eq!(w.difficulty_spawn_interval(), ORB_SPAWN_BASE);
    assert_eq!(ORB_SPAWN_BASE, 3 * ONE / 2);
}

#[test]
fn spawn_interval_shrinks_to_floor() {
    let mut w = world(GameMode::Nightmare);
    w.difficulty = 4 * ONE as u64;
    // 1.5 / 2 / 1.35 s
    assert_eq!(w.difficulty_spawn_interval(), 864_000_000_000 / (96_000 * 1350));
    w.difficulty = 1000 * ONE as u64;
    assert_eq!(w.difficulty_spawn_interval(), 4200);
}

fn warmed_world(mode: GameMode, ticks: usize) -> World {
    let mut w = world(mode);
    for _ in 0..ticks {
        let ev = w.step(idle(), W, H);
        assert!(!ev.game_over);
    }
    w
}

#[test]
fn three_pickups_in_one_tick_spawn_three_ghosts() {
    let mut w = warmed_world(GameMode::Classic, 200);
    assert_eq!(w.ghosts.len(), 0);
    w.orbs.clear();
    w.orb_spawn_timer = ORB_SPAWN_BASE;
    let p = w.player.pos;
    for _ in 0..3 {
        w.orbs.push(Orb { pos: p, radius: ORB_RADIUS, alive: true });
    }
    let combo0 = w.combo;
    let score0 = w.score;
    let last0 = w.last_collect_time;
    let t = w.time_alive + TICK;
    let ev = w.step(idle(), W, H);
    assert!(!ev.game_over);
    assert_eq!(ev.orbs_collected, 3);
    assert_eq!(ev.ghosts_spawned, 3);
    assert_eq!(w.ghosts.len(), 3);
    assert_eq!(w.orbs.len(), 0);
    // three applications of the pickup rule, the first one cold
    let (c1, s1) = pickup(combo0, score0, t, last0);
    let (c2, s2) = pickup(c1, s1, t, t);
    let (c3, s3) = pickup(c2, s2, t, t);
    assert_eq!(c1, 12000 + 1800);
    assert_eq!(c2, c1 + COMBO_CHAIN_BONUS);
    assert_eq!(c3, c2 + COMBO_CHAIN_BONUS);
    assert_eq!(s1, score0 + 45 * c1);
    let (c, s) = passive_gain(c3, s3, w.difficulty);
    assert_eq!(w.combo, c);
    assert_eq!(w.score, s);
    assert_eq!(w.last_collect_time, t);
}

#[test]
fn time_attack_ends_exactly_at_sixty_seconds() {
    let mut w = world(GameMode::TimeAttack);
    let mut ticks = 0u64;
    loop {
        let ev = w.step(idle(), W, H);
        ticks += 1;
        if ev.game_over {
            break;
        }
        assert!(ticks < 4000);
    }
    assert_eq!(ticks, 3600);
    assert_eq!(w.time_alive, 60 * ONE);
}

#[test]
fn lethal_ghost_ends_run_unless_phasing() {
    let mut w = warmed_world(GameMode::Classic, 10);
    let p = w.player.pos;
    w.ghosts.push(ghost_of(vec![p, p], 0));
    let ev = w.step(TickInput { dir: vec2(0, 0), want_phase: true }, W, H);
    assert!(!ev.game_over);
    assert!(w.player.phase_active);
    let ev = w.step(idle(), W, H);
    assert!(ev.game_over);
    assert!(w.shake_amt == 8 * ONE);
}

#[test]
fn phase_drains_and_regenerates() {
    let mut p = Player::new(vec2(W / 2, H / 2));
    p.update_phase(true);
    assert!(p.phase_active);
    assert_eq!(p.phase_energy, PHASE_MAX - 320);
    p.update_phase(false);
    assert!(!p.phase_active);
    assert_eq!(p.phase_energy, PHASE_MAX - 200);
    p.phase_energy = 100;
    p.update_phase(true);
    assert!(!p.phase_active);
    assert_eq!(p.phase_energy, 0);
    // an empty reserve regenerates even while requested
    p.update_phase(true);
    assert!(!p.phase_active);
    assert_eq!(p.phase_energy, 120);
}

#[test]
fn pickup_rules() {
    // chained within 1.6 s
    assert_eq!(pickup(2 * ONE as u64, 0, 10 * ONE, 9 * ONE), (27000, 45 * 27000));
    // cold after 10 s: decay 2.5, floor 1.0, plus 0.15
    assert_eq!(pickup(2 * ONE as u64, 0, 20 * ONE, 10 * ONE), (13800, 45 * 13800));
    // cold after 2 s: 3.0 - 0.5 + 0.15
    assert_eq!(pickup(3 * ONE as u64, 7, 12 * ONE, 10 * ONE), (31800, 7 + 45 * 31800));
    // passive: combo 2.0 decays by 1/240, score gains (2 + 0.4 d) / 60 * combo
    assert_eq!(passive_gain(2 * ONE as u64, 0, 0), (23950, 120000 * 23950 / 3_600_000));
    assert_eq!(passive_gain(ONE as u64, 5, 0), (12000, 5 + 400));
    assert_eq!(passive_gain(u64::MAX, u64::MAX, 0).1, u64::MAX);
}

#[test]
fn difficulty_derived_quantities() {
    let mut w = world(GameMode::Nightmare);
    w.difficulty = 2 * ONE as u64;
    // (1 + 0.6) * 1.25 samples per tick
    assert_eq!(w.ghost_speed(), 24000);
    // 8 + 4 seconds
    assert_eq!(w.ghost_ttl(), 12 * ONE);
    // 2.6 + 0.4 seconds
    assert_eq!(w.replay_secs(), 3 * ONE);
    w.difficulty = 100 * ONE as u64;
    assert_eq!(w.ghost_ttl(), 18 * ONE);
    assert_eq!(w.replay_secs(), 5 * ONE);
    let mut c = world(GameMode::Classic);
    c.time_alive = 10 * ONE;
    c.score = 1000 * ONE as u64;
    // 0.2 * 10 + 0.002 * 1000
    assert_eq!(c.compute_difficulty(), 4 * ONE as u64);
}

#[test]
fn history_keeps_newest_samples() {
    let mut h = HistoryBuffer::new(3);
    for i in 0..5 {
        h.record(vec2(i, 0));
    }
    assert_eq!(h.len(), 3);
    assert_eq!(h.newest(3), vec![vec2(2, 0), vec2(3, 0), vec2(4, 0)]);
    assert_eq!(h.newest(1), vec![vec2(4, 0)]);
    assert_eq!(h.newest(0), Vec::<Vec2>::new());
}

#[test]
fn geometry_helpers() {
    assert!(circle_overlap(vec2(0, 0), 3, vec2(5, 0), 2));
    assert!(!circle_overlap(vec2(0, 0), 3, vec2(6, 0), 2));
    let (p, n) = clamp_rect(vec2(-5, 50), 10, 100, 40);
    assert_eq!(p, vec2(10, 30));
    assert_eq!(n, vec2(ONE, -ONE));
    assert_eq!(lerp(10, 20, ONE / 2), 15);
    assert_eq!(lerp(20, 10, ONE / 4), 18);
    assert_eq!(ceil_sqrt(0), 0);
    assert_eq!(ceil_sqrt(16), 4);
    assert_eq!(ceil_sqrt(17), 5);
    assert_eq!(cap_length(vec2(3 * ONE, 4 * ONE), ONE), vec2(7200, 9600));
    assert_eq!(cap_length(vec2(ONE, ONE), 2 * ONE), vec2(ONE, ONE));
    let d = cap_length(vec2(ONE, ONE), ONE);
    assert!(d.x * d.x + d.y * d.y <= ONE * ONE);
    assert!(d.x > 8000);
    assert!(MAX_SPEED == 300 * ONE);
}

#[test]
fn orb_placement() {
    let p = vec2(100 * ONE, 100 * ONE);
    let mut xs = Vec::new();
    for _ in 0..50 {
        let q = rand_pos_away_from(p, 80 * ONE, W, H);
        assert!(q.x >= 40 * ONE && q.x <= W - 40 * ONE);
        assert!(q.y >= 40 * ONE && q.y <= H - 40 * ONE);
        assert!(is_far_enough(q, p, 80 * ONE));
        xs.push(q.x);
    }
    assert!(xs.iter().any(|x| *x != xs[0]));
    assert!(xs.iter().any(|x| *x > 40 * ONE));
    // an arena too small for any far point: the fallback is used
    let small = 60 * ONE;
    let q = rand_pos_away_from(vec2(30 * ONE, 30 * ONE), 500 * ONE, small, small);
    assert_eq!(q, vec2(40 * ONE, 40 * ONE));
    assert_eq!(fallback_pos(vec2(0, 0), W, H), vec2(200 * ONE, 150 * ONE));
}

#[test]
fn modes_and_settings() {
    assert_eq!(GameMode::all(), vec![GameMode::Classic, GameMode::TimeAttack, GameMode::Nightmare]);
    assert_eq!(GameMode::TimeAttack.name(), "Time Attack");
    assert_eq!(GameMode::Nightmare.index(), 2);
    assert_eq!(GameMode::from_index(4), GameMode::TimeAttack);
    assert_eq!(mode_config(GameMode::TimeAttack).time_limit, Some(60 * ONE));
    assert_eq!(mode_config(GameMode::Classic).time_limit, None);
    assert!(mode_config(GameMode::Nightmare).ghost_flicker);
    let s = Settings::default();
    assert_eq!(s.master_volume, 60);
    assert!(s.audio_enabled && s.shake_enabled && !s.fullscreen);
}

#[test]
fn shake_and_camera_offset() {
    let mut w = world(GameMode::Classic);
    assert_eq!(w.camera_offset(), vec2(0, 0));
    w.add_shake(3 * ONE, 1440);
    assert_eq!(w.shake_amt, 3 * ONE);
    let mut seen = Vec::new();
    for _ in 0..50 {
        let o = w.camera_offset();
        assert!(o.x.abs() <= 3 * ONE && o.y.abs() <= 3 * ONE);
        seen.push(o.x);
    }
    // the offsets are drawn, not fixed at one end of the range
    assert!(seen.iter().any(|x| *x != seen[0]));
    w.settings.shake_enabled = false;
    w.add_shake(8 * ONE, 3000);
    assert_eq!(w.shake_amt, 3 * ONE);
}

#[test]
fn placement_takes_first_far_draw() {
    let p = vec2(100 * ONE, 100 * ONE);
    let near = vec2(120 * ONE, 100 * ONE);
    let far1 = vec2(400 * ONE, 300 * ONE);
    let far2 = vec2(500 * ONE, 300 * ONE);
    let outside = vec2(10 * ONE, 300 * ONE);
    assert_eq!(place_from_draws(&vec![near, outside, far1, far2], p, 80 * ONE, W, H), far1);
    assert_eq!(place_from_draws(&vec![far2, far1], p, 80 * ONE, W, H), far2);
    // no draw qualifies: the fallback offset from the player
    assert_eq!(place_from_draws(&vec![near, outside], p, 80 * ONE, W, H), vec2(300 * ONE, 250 * ONE));
    assert_eq!(place_from_draws(&Vec::new(), p, 80 * ONE, W, H), vec2(300 * ONE, 250 * ONE));
}

#[test]
fn shake_offset_from_draws() {
    assert_eq!(shake_offset(0, 6 * ONE, 3 * ONE), vec2(-3 * ONE, 3 * ONE));
    assert_eq!(shake_offset(ONE, 4 * ONE, 3 * ONE), vec2(-2 * ONE, ONE));
    assert_eq!(shake_offset(0, 0, 0), vec2(0, 0));
    let mut w = world(GameMode::Classic);
    // a request is taken as it is, never cut
    w.add_shake(10 * ONE, 10 * ONE);
    assert_eq!(w.shake_amt, 10 * ONE);
    assert_eq!(w.shake_t, 10 * ONE);
    w.add_shake(ONE, 100);
    assert_eq!(w.shake_amt, 10 * ONE);
    assert_eq!(w.shake_t, 10 * ONE);
}

#[test]
fn new_world_starts_at_rest() {
    let w = world(GameMode::Nightmare);
    assert_eq!(w.player.pos, vec2(W / 2, H / 2));
    assert_eq!(w.player.vel, vec2(0, 0));
    assert!(!w.player.phase_active);
    assert_eq!(w.player.phase_energy, PHASE_MAX);
    assert_eq!((w.shake_t, w.shake_amt), (0, 0));
    assert_eq!(w.history.capacity(), 720);
    assert_eq!(w.last_collect_time, -999 * ONE);
    assert_eq!(w.config, mode_config(GameMode::Nightmare));
}

#[test]
fn time_limit_tick_changes_only_the_clock() {
    let mut w = warmed_world(GameMode::TimeAttack, 100);
    w.time_alive = 60 * ONE - TICK;
    let score = w.score;
    let orbs = w.orbs.clone();
    let pos = w.player.pos;
    let hist = w.history.len();
    let ev = w.step(TickInput { dir: vec2(ONE, 0), want_phase: true }, W, H);
    assert!(ev.game_over);
    assert_eq!((ev.orbs_collected, ev.ghosts_spawned), (0, 0));
    assert_eq!(w.score, score);
    assert_eq!(w.orbs, orbs);
    assert_eq!(w.player.pos, pos);
    assert_eq!(w.history.len(), hist);
}

#[test]
fn accumulator_runs_whole_ticks() {
    assert_eq!(ticks_due(0, 0), (0, 0));
    assert_eq!(ticks_due(150, 60), (1, 10));
    // one 60 Hz frame of 1/60 s is exactly one tick
    assert_eq!(ticks_due(0, ONE / 60), (1, 0));
    // a slow frame of 0.1 s runs six ticks
    assert_eq!(ticks_due(10, 1200), (6, 10));
}

#[test]
fn shake_follows_pickup_and_counts_down() {
    let mut w = warmed_world(GameMode::Classic, 20);
    w.orbs.clear();
    w.orb_spawn_timer = ORB_SPAWN_BASE;
    let p = w.player.pos;
    w.orbs.push(Orb { pos: p, radius: ORB_RADIUS, alive: true });
    let ev = w.step(idle(), W, H);
    assert_eq!(ev.orbs_collected, 1);
    // raised to 3 px for 0.12 s, then one tick of countdown
    assert_eq!(w.shake_amt, 3 * ONE);
    assert_eq!(w.shake_t, 1440 - TICK);
    for _ in 0..6 {
        w.step(idle(), W, H);
    }
    assert_eq!(w.shake_t, 40);
    w.step(idle(), W, H);
    assert_eq!((w.shake_t, w.shake_amt), (0, 0));
}

#[test]
fn exhausted_clock_and_oversized_inputs() {
    let mut w = world(GameMode::Classic);
    w.time_alive = MAX_TIME;
    let ev = w.step(idle(), W, H);
    assert!(ev.game_over);
    assert_eq!(w.time_alive, MAX_TIME);
    assert_eq!(w.history.len(), 0);

    let mut w = world(GameMode::Classic);
    let huge = TickInput { dir: vec2(i64::MAX, i64::MIN), want_phase: false };
    for _ in 0..120 {
        let ev = w.step(huge, i64::MAX, -5);
        assert!(!ev.game_over);
    }
    // an arena side below zero is taken as zero; the player sits on its wall
    assert_eq!(w.player.pos.y, -PLAYER_RADIUS);
    assert!(w.player.vel.x * w.player.vel.x + w.player.vel.y * w.player.vel.y <= MAX_SPEED * MAX_SPEED);
}
