//! Entity model: plain data records for the player, enemies, bullets,
//! treasures and particles, the enumerations that classify bullet and
//! treasure behavior, the run-scoped `Game` aggregate, and the derived
//! queries on them (collision rectangles, invincibility, bullet-mode
//! precedence, plane level from score).
use vstd::prelude::*;

use crate::geom::Recti;
use crate::geom::Vec2i;
use crate::save::PlayerProfile;

verus! {

/// Bound on the position coordinates of every live entity: entities are
/// pruned once they leave the play field by its margin, which keeps them
/// far inside this box.
pub const ENT_BOUND: i64 = 1_000_000;

/// Bound on the magnitude of every velocity component, in milli-pixels
/// per second.
pub const VEL_BOUND: i64 = 1_000_000;

/// Bound on entity extents and radii.
pub const SIZE_BOUND: i64 = 100_000;

/// Firing pattern currently in effect for the player.
#[derive(Clone, Copy, Debug, PartialEq, Eq, Structural)]
pub enum BulletMode {
    Normal,
    Double,
    Triple,
    Spread,
    Laser,
}

/// Visual and behavioral tag of a bullet.
#[derive(Clone, Copy, Debug, PartialEq, Eq, Structural)]
pub enum BulletKind {
    PlayerNormal,
    PlayerSpread,
    PlayerLaser,
    Enemy,
}

/// What a picked-up treasure does.
#[derive(Clone, Copy, Debug, PartialEq, Eq, Structural)]
pub enum TreasureKind {
    BulletUpgradePermanent,
    MaxLifePermanent,
    LifePlus,
    InvincibleTimed,
    SpreadTimed,
    LaserTimed,
}

/// The transient per-run player entity.
#[derive(Clone, Copy, Debug, PartialEq, Eq)]
pub struct Player {
    /// Center position, milli-pixels.
    pub pos: Vec2i,
    /// Full extents of the collision box, milli-pixels.
    pub size: Vec2i,
    pub lives: i32,
    pub max_lives: i32,
    /// Movement speed, milli-pixels per second.
    pub speed: i64,
    /// Absolute timestamp, ms: while `now < invincible_until` the player
    /// cannot take damage.
    pub invincible_until: u64,
    /// Delay between shots, ms.
    pub shot_cooldown: u32,
    /// Remaining delay until the next shot is allowed, ms.
    pub shot_timer: u32,
    /// Firing level copied from the profile at run start, 1 to 3.
    pub base_bullet_level: u8,
    /// Player-chosen firing pattern; overrides the base level while set.
    pub manual_mode: Option<BulletMode>,
    /// Timed pattern from a pickup with its absolute expiry, ms; highest
    /// precedence while unexpired.
    pub temp_mode: Option<(BulletMode, u64)>,
}

/// The firing pattern a given base level stands for: 1 is a single shot,
/// 2 a double shot, 3 and above a triple shot.
pub open spec fn spec_level_mode(level: u8) -> BulletMode {
    if level == 1 {
        BulletMode::Normal
    } else if level == 2 {
        BulletMode::Double
    } else {
        BulletMode::Triple
    }
}

/// The pattern ignoring any timed mode: the manual choice if set, else
/// the base level's pattern.
pub open spec fn spec_manual_or_base(p: Player) -> BulletMode {
    match p.manual_mode {
        Some(m) => m,
        None => spec_level_mode(p.base_bullet_level),
    }
}

/// The firing pattern in effect, as a function: an unexpired timed mode,
/// else the manual choice, else the base level's pattern.
pub open spec fn spec_bullet_mode(p: Player, now_ms: u64) -> BulletMode {
    match p.temp_mode {
        Some((m, until)) => if now_ms <= until {
            m
        } else {
            spec_manual_or_base(p)
        },
        None => spec_manual_or_base(p),
    }
}

/// Axis-aligned box of a centered entity: top-left corner at the center
/// minus half the extents.
pub open spec fn spec_center_rect(pos: Vec2i, size: Vec2i) -> Recti {
    Recti {
        x: (pos.x - size.x / 2) as i64,
        y: (pos.y - size.y / 2) as i64,
        w: size.x,
        h: size.y,
    }
}

/// Well-formed player: lives within the permitted band, bounded position,
/// sizes and timers.
pub open spec fn spec_player_wf(p: Player) -> bool {
    &&& 0 <= p.lives <= p.max_lives
    &&& 1 <= p.max_lives <= 9
    &&& 1 <= p.base_bullet_level <= 3
    &&& 24_000 <= p.pos.x <= 456_000
    &&& 40_000 <= p.pos.y <= 694_000
    &&& 0 <= p.size.x <= SIZE_BOUND
    &&& 0 <= p.size.y <= SIZE_BOUND
    &&& 0 <= p.speed <= VEL_BOUND
    &&& 0 < p.shot_cooldown <= 10_000
    &&& p.shot_timer <= 10_000
}

impl Player {
    /// The player's collision rectangle.
    pub fn rect(&self) -> (r: Recti)
        requires
            spec_player_wf(*self),
        ensures
            r == spec_center_rect(self.pos, self.size),
    {
        Recti { x: self.pos.x - self.size.x / 2, y: self.pos.y - self.size.y / 2, w: self.size.x, h: self.size.y }
    }

    /// Whether the player cannot take damage at time `now_ms`.
    pub fn is_invincible(&self, now_ms: u64) -> (r: bool)
        ensures
            r == (now_ms < self.invincible_until),
    {
        now_ms < self.invincible_until
    }

    /// The firing pattern in effect at time `now_ms`, in strict priority
    /// order: an unexpired timed mode wins; else a manual choice wins;
    /// else the pattern derived from the base level.
    pub fn bullet_mode(&self, now_ms: u64) -> (r: BulletMode)
        ensures
            r == spec_bullet_mode(*self, now_ms),
            (match self.temp_mode {
                Some((m, until)) => now_ms <= until ==> r == m,
                None => true,
            }),
            (self.temp_mode matches Some((m, until)) ==> now_ms <= until) || (
            match self.manual_mode {
                Some(m) => r == m,
                None => r == spec_level_mode(self.base_bullet_level),
            }),
    {
        if let Some((mode, until)) = self.temp_mode {
            if now_ms <= until {
                return mode;
            }
        }
        if let Some(mode) = self.manual_mode {
            return mode;
        }
        if self.base_bullet_level == 1 {
            BulletMode::Normal
        } else if self.base_bullet_level == 2 {
            BulletMode::Double
        } else {
            BulletMode::Triple
        }
    }
}

/// An enemy plane.
#[derive(Clone, Copy, Debug, PartialEq, Eq)]
pub struct Enemy {
    pub pos: Vec2i,
    pub size: Vec2i,
    /// Linear velocity, milli-pixels per second.
    pub vel: Vec2i,
    pub hp: i32,
    /// Remaining delay until this enemy may fire, ms.
    pub shot_timer: u32,
}

/// Well-formed live enemy: at least one hit point, bounded position,
/// extents and velocity.
pub open spec fn spec_enemy_wf(e: Enemy) -> bool {
    &&& e.hp >= 1
    &&& -ENT_BOUND <= e.pos.x <= ENT_BOUND
    &&& -ENT_BOUND <= e.pos.y <= ENT_BOUND
    &&& 0 <= e.size.x <= SIZE_BOUND
    &&& 0 <= e.size.y <= SIZE_BOUND
    &&& -VEL_BOUND <= e.vel.x <= VEL_BOUND
    &&& 0 <= e.vel.y <= VEL_BOUND
    &&& e.shot_timer <= 10_000
}

impl Enemy {
    /// The enemy's collision rectangle.
    pub fn rect(&self) -> (r: Recti)
        requires
            -ENT_BOUND <= self.pos.x <= ENT_BOUND,
            -ENT_BOUND <= self.pos.y <= ENT_BOUND,
            0 <= self.size.x <= SIZE_BOUND,
            0 <= self.size.y <= SIZE_BOUND,
        ensures
            r == spec_center_rect(self.pos, self.size),
    {
        Recti { x: self.pos.x - self.size.x / 2, y: self.pos.y - self.size.y / 2, w: self.size.x, h: self.size.y }
    }
}

/// A projectile in flight.
#[derive(Clone, Copy, Debug, PartialEq, Eq)]
pub struct Bullet {
    pub pos: Vec2i,
    pub vel: Vec2i,
    pub radius: i64,
    pub damage: i32,
    /// Ownership tag: true for bullets the player fired.
    pub from_player: bool,
    pub kind: BulletKind,
}

/// Well-formed bullet: positive bounded damage, bounded position,
/// radius and velocity.
pub open spec fn spec_bullet_wf(b: Bullet) -> bool {
    &&& 1 <= b.damage <= 100
    &&& -ENT_BOUND <= b.pos.x <= ENT_BOUND
    &&& -ENT_BOUND <= b.pos.y <= ENT_BOUND
    &&& 0 <= b.radius <= SIZE_BOUND
    &&& -VEL_BOUND <= b.vel.x <= VEL_BOUND
    &&& -VEL_BOUND <= b.vel.y <= VEL_BOUND
}

/// A pickup falling down the field.
#[derive(Clone, Copy, Debug, PartialEq, Eq)]
pub struct Treasure {
    pub pos: Vec2i,
    pub vel: Vec2i,
    pub kind: TreasureKind,
    pub radius: i64,
}

/// Well-formed treasure: bounded position, radius and velocity.
pub open spec fn spec_treasure_wf(t: Treasure) -> bool {
    &&& -ENT_BOUND <= t.pos.x <= ENT_BOUND
    &&& -ENT_BOUND <= t.pos.y <= ENT_BOUND
    &&& 0 <= t.radius <= SIZE_BOUND
    &&& t.vel.x == 0
    &&& 0 <= t.vel.y <= VEL_BOUND
}

impl Treasure {
    /// Short tag shown on the pickup.
    pub fn label(&self) -> (r: &'static str)
        ensures
            r@ == spec_treasure_label(self.kind),
    {
        match self.kind {
            TreasureKind::BulletUpgradePermanent => "B+",
            TreasureKind::MaxLifePermanent => "HP+",
            TreasureKind::LifePlus => "HP",
            TreasureKind::InvincibleTimed => "I",
            TreasureKind::SpreadTimed => "S",
            TreasureKind::LaserTimed => "L",
        }
    }
}

/// The tag text for each treasure kind.
pub open spec fn spec_treasure_label(k: TreasureKind) -> Seq<char> {
    match k {
        TreasureKind::BulletUpgradePermanent => "B+"@,
        TreasureKind::MaxLifePermanent => "HP+"@,
        TreasureKind::LifePlus => "HP"@,
        TreasureKind::InvincibleTimed => "I"@,
        TreasureKind::SpreadTimed => "S"@,
        TreasureKind::LaserTimed => "L"@,
    }
}

/// A purely cosmetic spark.
#[derive(Clone, Copy, Debug, PartialEq, Eq)]
pub struct Particle {
    pub pos: Vec2i,
    pub vel: Vec2i,
    pub radius: i64,
    /// Remaining lifetime, ms.
    pub life: u32,
}

/// Well-formed particle: bounded position, radius, velocity and lifetime.
pub open spec fn spec_particle_wf(p: Particle) -> bool {
    &&& p.life <= 500
    &&& -ENT_BOUND + 50 * p.life <= p.pos.x <= ENT_BOUND - 50 * p.life
    &&& -ENT_BOUND + 50 * p.life <= p.pos.y <= ENT_BOUND - 50 * p.life
    &&& 0 <= p.radius <= SIZE_BOUND
    &&& -50_000 <= p.vel.x <= 50_000
    &&& -50_000 <= p.vel.y <= 50_000
}

/// The run-scoped aggregate: the player and every transient collection,
/// the run's score, spawn pacing, and the guard that keeps a finished run
/// from being recorded twice.
#[derive(Clone, Debug, PartialEq, Eq)]
pub struct Game {
    pub player: Player,
    pub bullets: Vec<Bullet>,
    pub enemies: Vec<Enemy>,
    pub treasures: Vec<Treasure>,
    pub particles: Vec<Particle>,
    pub score: u32,
    /// Accumulated time toward the next enemy spawn, ms.
    pub enemy_spawn_timer: u32,
    /// Current spawn interval, ms; shrinks geometrically toward a floor.
    pub enemy_spawn_interval: u32,
    /// Input-bounce cooldown after the run ends, ms.
    pub game_over_cooldown: u32,
    /// Set once the finished run's score has been recorded.
    pub just_saved_score: bool,
    pub auto_fire: bool,
}

/// Well-formed game: every entity in every collection is well formed and
/// the spawn pacing stays within its band.
pub open spec fn spec_game_wf(g: Game) -> bool {
    &&& spec_player_wf(g.player)
    &&& forall|i: int| 0 <= i < g.enemies@.len() ==> spec_enemy_wf(#[trigger] g.enemies@[i])
    &&& forall|i: int| 0 <= i < g.bullets@.len() ==> spec_bullet_wf(#[trigger] g.bullets@[i])
    &&& forall|i: int| 0 <= i < g.treasures@.len() ==> spec_treasure_wf(#[trigger] g.treasures@[i])
    &&& forall|i: int| 0 <= i < g.particles@.len() ==> spec_particle_wf(#[trigger] g.particles@[i])
    &&& 349 <= g.enemy_spawn_interval <= 10_000
    &&& g.enemy_spawn_timer <= 10_000
}

impl Game {
    /// A fresh run built from the profile: full lives at the profile's
    /// (clamped) maximum, the profile's (clamped) bullet level, empty
    /// collections, zero score and the initial spawn pacing.
    pub fn new(profile: &PlayerProfile) -> (g: Game)
        ensures
            spec_game_wf(g),
            g.player.pos == (Vec2i { x: 240_000, y: 660_000 }),
            g.player.size == (Vec2i { x: 32_000, y: 40_000 }),
            g.player.speed == 320_000,
            g.player.shot_cooldown == 140,
            g.player.shot_timer == 0,
            g.player.max_lives == spec_clamp_u8(profile.permanent.max_lives, 1, 9),
            g.player.lives == g.player.max_lives,
            g.player.base_bullet_level == spec_clamp_u8(profile.permanent.bullet_level, 1, 3),
            g.player.manual_mode is None,
            g.player.temp_mode is None,
            g.player.invincible_until == 0,
            g.bullets@.len() == 0,
            g.enemies@.len() == 0,
            g.treasures@.len() == 0,
            g.particles@.len() == 0,
            g.score == 0,
            g.enemy_spawn_interval == 850,
            g.enemy_spawn_timer == 0,
            g.game_over_cooldown == 0,
            !g.just_saved_score,
            !g.auto_fire,
    {
        let max_lives_u8 = clamp_u8(profile.permanent.max_lives, 1, 9);
        let max_lives = max_lives_u8 as i32;
        let player = Player {
            pos: Vec2i { x: 240_000, y: 660_000 },
            size: Vec2i { x: 32_000, y: 40_000 },
            lives: max_lives,
            max_lives,
            speed: 320_000,
            invincible_until: 0,
            shot_cooldown: 140,
            shot_timer: 0,
            base_bullet_level: clamp_u8(profile.permanent.bullet_level, 1, 3),
            manual_mode: None,
            temp_mode: None,
        };
        Game {
            player,
            bullets: Vec::new(),
            enemies: Vec::new(),
            treasures: Vec::new(),
            particles: Vec::new(),
            score: 0,
            enemy_spawn_timer: 0,
            enemy_spawn_interval: 850,
            game_over_cooldown: 0,
            just_saved_score: false,
            auto_fire: false,
        }
    }
}

/// `v` forced into `[lo, hi]`.
pub open spec fn spec_clamp_u8(v: u8, lo: u8, hi: u8) -> u8 {
    if v < lo {
        lo
    } else if v > hi {
        hi
    } else {
        v
    }
}

/// Clamp a byte into the closed interval `[lo, hi]`.
pub fn clamp_u8(v: u8, lo: u8, hi: u8) -> (r: u8)
    requires
        lo <= hi,
    ensures
        r == spec_clamp_u8(v, lo, hi),
{
    if v < lo {
        lo
    } else if v > hi {
        hi
    } else {
        v
    }
}

/// Number of distinct plane levels the score can reach.
pub const PLANE_LEVELS: u32 = 15;

/// Score needed to advance one plane level.
pub const SCORE_PER_LEVEL: u32 = 100;

/// The plane level a score corresponds to: one level per
/// `SCORE_PER_LEVEL` points, capped at the last level.
pub fn plane_level_from_score(score: u32) -> (r: usize)
    ensures
        r == if score / SCORE_PER_LEVEL < (PLANE_LEVELS - 1) {
            (score / SCORE_PER_LEVEL) as usize
        } else {
            (PLANE_LEVELS - 1) as usize
        },
{
    let idx = score / SCORE_PER_LEVEL;
    if idx < PLANE_LEVELS - 1 {
        idx as usize
    } else {
        (PLANE_LEVELS - 1) as usize
    }
}

/// The display name of each plane level, clamped at the last one.
pub open spec fn spec_plane_level_name(level: int) -> Seq<char> {
    if level <= 0 {
        "炼气期·初期"@
    } else if level == 1 {
        "炼气期·中期"@
    } else if level == 2 {
        "炼气期·后期"@
    } else if level == 3 {
        "筑基期·初期"@
    } else if level == 4 {
        "筑基期·中期"@
    } else if level == 5 {
        "筑基期·后期"@
    } else if level == 6 {
        "结丹期·初期"@
    } else if level == 7 {
        "结丹期·中期"@
    } else if level == 8 {
        "结丹期·后期"@
    } else if level == 9 {
        "元婴期·初期"@
    } else if level == 10 {
        "元婴期·中期"@
    } else if level == 11 {
        "元婴期·后期"@
    } else if level == 12 {
        "化神期·初期"@
    } else if level == 13 {
        "化神期·中期"@
    } else {
        "化神期·后期"@
    }
}

/// The display name of a plane level, clamped at the last one.
pub fn plane_level_name(level: usize) -> (r: &'static str)
    ensures
        r@ == spec_plane_level_name(level as int),
{
    if level == 0 {
        "炼气期·初期"
    } else if level == 1 {
        "炼气期·中期"
    } else if level == 2 {
        "炼气期·后期"
    } else if level == 3 {
        "筑基期·初期"
    } else if level == 4 {
        "筑基期·中期"
    } else if level == 5 {
        "筑基期·后期"
    } else if level == 6 {
        "结丹期·初期"
    } else if level == 7 {
        "结丹期·中期"
    } else if level == 8 {
        "结丹期·后期"
    } else if level == 9 {
        "元婴期·初期"
    } else if level == 10 {
        "元婴期·中期"
    } else if level == 11 {
        "元婴期·后期"
    } else if level == 12 {
        "化神期·初期"
    } else if level == 13 {
        "化神期·中期"
    } else {
        "化神期·后期"
    }
}

} // verus!
