//! Game modes and their immutable per-run parameters.

use vstd::prelude::*;
use crate::geom::ONE;

verus! {

/// The closed set of game modes.
#[derive(Clone, Copy, Debug, PartialEq, Eq, Structural)]
pub enum GameMode {
    Classic,
    TimeAttack,
    Nightmare,
}

/// Display name of each mode.
pub open spec fn mode_name(m: GameMode) -> Seq<char> {
    match m {
        GameMode::Classic => "Classic"@,
        GameMode::TimeAttack => "Time Attack"@,
        GameMode::Nightmare => "Nightmare"@,
    }
}

/// Position of each mode in `GameMode::all`.
pub open spec fn mode_index(m: GameMode) -> int {
    match m {
        GameMode::Classic => 0,
        GameMode::TimeAttack => 1,
        GameMode::Nightmare => 2,
    }
}

/// The mode at a position of `GameMode::all`, counting modulo three.
pub open spec fn mode_at(i: int) -> GameMode {
    if i % 3 == 0 {
        GameMode::Classic
    } else if i % 3 == 1 {
        GameMode::TimeAttack
    } else {
        GameMode::Nightmare
    }
}

impl GameMode {
    pub fn all() -> (r: Vec<GameMode>)
        ensures
            r@ == seq![GameMode::Classic, GameMode::TimeAttack, GameMode::Nightmare],
    {
        let r = vec![GameMode::Classic, GameMode::TimeAttack, GameMode::Nightmare];
        assert(r@ =~= seq![GameMode::Classic, GameMode::TimeAttack, GameMode::Nightmare]);
        r
    }

    pub fn name(&self) -> (r: &'static str)
        ensures
            r@ == mode_name(*self),
    {
        match self {
            GameMode::Classic => "Classic",
            GameMode::TimeAttack => "Time Attack",
            GameMode::Nightmare => "Nightmare",
        }
    }

    pub fn index(&self) -> (r: usize)
        ensures
            r == mode_index(*self),
    {
        match self {
            GameMode::Classic => 0,
            GameMode::TimeAttack => 1,
            GameMode::Nightmare => 2,
        }
    }

    pub fn from_index(i: usize) -> (r: GameMode)
        ensures
            r == mode_at(i as int),
    {
        match i % 3 {
            0 => GameMode::Classic,
            1 => GameMode::TimeAttack,
            _ => GameMode::Nightmare,
        }
    }
}

/// Per-run parameters of a mode. Rates and multipliers are in thousandths;
/// the time limit is in `ONE` units of seconds.
#[derive(Clone, Copy, Debug, PartialEq, Eq, Structural)]
pub struct ModeConfig {
    pub time_limit: Option<i64>,
    pub ghost_speed_mul: u64,
    pub difficulty_rate: u64,
    pub spawn_rate_mul: u64,
    pub ghost_flicker: bool,
    pub ghost_invisible_far: bool,
}

/// The time limit of Time Attack: sixty seconds.
pub const TIME_ATTACK_LIMIT: i64 = 60 * ONE;

pub open spec fn mode_config_spec(mode: GameMode) -> ModeConfig {
    match mode {
        GameMode::Classic => ModeConfig {
            time_limit: None,
            ghost_speed_mul: 1000,
            difficulty_rate: 200,
            spawn_rate_mul: 1000,
            ghost_flicker: false,
            ghost_invisible_far: false,
        },
        GameMode::TimeAttack => ModeConfig {
            time_limit: Some(TIME_ATTACK_LIMIT),
            ghost_speed_mul: 1100,
            difficulty_rate: 280,
            spawn_rate_mul: 1200,
            ghost_flicker: false,
            ghost_invisible_far: false,
        },
        GameMode::Nightmare => ModeConfig {
            time_limit: None,
            ghost_speed_mul: 1250,
            difficulty_rate: 320,
            spawn_rate_mul: 1350,
            ghost_flicker: true,
            ghost_invisible_far: true,
        },
    }
}

/// Bounds that every configuration of `mode_config` meets.
pub open spec fn config_ok(c: ModeConfig) -> bool {
    &&& 1000 <= c.ghost_speed_mul <= 2000
    &&& 1000 <= c.spawn_rate_mul <= 2000
    &&& c.difficulty_rate <= 1000
    &&& (c.time_limit matches Some(l) ==> 0 < l)
}

pub fn mode_config(mode: GameMode) -> (r: ModeConfig)
    ensures
        r == mode_config_spec(mode),
        config_ok(r),
{
    match mode {
        GameMode::Classic => ModeConfig {
            time_limit: None,
            ghost_speed_mul: 1000,
            difficulty_rate: 200,
            spawn_rate_mul: 1000,
            ghost_flicker: false,
            ghost_invisible_far: false,
        },
        GameMode::TimeAttack => ModeConfig {
            time_limit: Some(TIME_ATTACK_LIMIT),
            ghost_speed_mul: 1100,
            difficulty_rate: 280,
            spawn_rate_mul: 1200,
            ghost_flicker: false,
            ghost_invisible_far: false,
        },
        GameMode::Nightmare => ModeConfig {
            time_limit: None,
            ghost_speed_mul: 1250,
            difficulty_rate: 320,
            spawn_rate_mul: 1350,
            ghost_flicker: true,
            ghost_invisible_far: true,
        },
    }
}

/// Presentation settings carried through a run. Volume and vignette are
/// percentages.
#[derive(Clone, Copy, Debug, PartialEq, Eq, Structural)]
pub struct Settings {
    pub audio_enabled: bool,
    pub master_volume: u64,
    pub shake_enabled: bool,
    pub vignette: u64,
    pub fullscreen: bool,
}

impl Default for Settings {
    fn default() -> (r: Settings)
        ensures
            r.audio_enabled,
            r.master_volume == 60,
            r.shake_enabled,
            r.vignette == 60,
            !r.fullscreen,
    {
        Settings {
            audio_enabled: true,
            master_volume: 60,
            shake_enabled: true,
            vignette: 60,
            fullscreen: false,
        }
    }
}

} // verus!
