//! The per-frame simulation step. Each stage is a function of its own
//! with an exact contract; `update_playing` runs them in the fixed order
//! the frame demands. Chance enters only through the draws of `rng`, and
//! every contract states what holds for every possible draw.
use vstd::prelude::*;

use crate::geom::COORD_BOUND;
use crate::geom::Recti;
use crate::geom::Vec2i;
use crate::geom::circle_hits_rect;
use crate::geom::clamp_i64;
use crate::geom::spec_circle_hits_rect;
use crate::geom::rects_overlap;
use crate::geom::spec_clamp_i64;
use crate::geom::spec_rects_overlap;
use crate::model::Bullet;
use crate::model::BulletKind;
use crate::model::BulletMode;
use crate::model::ENT_BOUND;
use crate::model::Enemy;
use crate::model::Game;
use crate::model::Particle;
use crate::model::Player;
use crate::model::SIZE_BOUND;
use crate::model::Treasure;
use crate::model::VEL_BOUND;
use crate::model::spec_bullet_wf;
use crate::model::spec_center_rect;
use crate::model::spec_enemy_wf;
use crate::model::spec_game_wf;
use crate::model::spec_bullet_mode;
use crate::model::spec_particle_wf;
use crate::model::spec_player_wf;
use crate::model::spec_treasure_wf;
use crate::save::Leaderboard;
use crate::save::PlayerProfile;
use crate::save::record_score;
use crate::save::spec_lb_view;
use crate::save::spec_leaderboard_wf;
use crate::save::spec_profile_wf;
use crate::save::spec_record;
use crate::progression::MAX_TIME_MS;
use crate::progression::apply_treasure;
use crate::progression::maybe_drop_treasure;
use crate::progression::spec_apply_treasure;
use crate::progression::spec_drop_result;
use crate::rng::rand_range_u32;

verus! {

/// Longest frame time the step accepts, ms; it keeps every product of a
/// velocity and an elapsed time well inside `i64`.
pub const MAX_DT_MS: u32 = 60_000;

/// Horizontal interior the player is clamped into, milli-pixels.
pub const PLAYER_MIN_X: i64 = 24_000;

/// Right edge of the player's interior.
pub const PLAYER_MAX_X: i64 = 456_000;

/// Top edge of the player's interior.
pub const PLAYER_MIN_Y: i64 = 40_000;

/// Bottom edge of the player's interior.
pub const PLAYER_MAX_Y: i64 = 694_000;

/// The held movement keys of one frame, and the discrete commands that
/// arrived with it. The hosting loop fills this from its input facility.
#[derive(Clone, Copy, Debug, PartialEq, Eq, Structural)]
pub struct InputFrame {
    pub left: bool,
    pub right: bool,
    pub up: bool,
    pub down: bool,
    /// A fire key or button is held.
    pub fire_held: bool,
    /// The auto-fire toggle was pressed this frame.
    pub toggle_auto_fire: bool,
    /// A firing pattern was chosen by hand this frame.
    pub select_mode: Option<BulletMode>,
    /// The manual pattern choice was cleared this frame.
    pub clear_mode: bool,
    /// The invincibility cheat was pressed this frame.
    pub cheat_invincible: bool,
}

impl InputFrame {
    /// A frame with nothing held and nothing pressed.
    pub fn none() -> (r: InputFrame)
        ensures
            r == (InputFrame {
                left: false,
                right: false,
                up: false,
                down: false,
                fire_held: false,
                toggle_auto_fire: false,
                select_mode: None::<BulletMode>,
                clear_mode: false,
                cheat_invincible: false,
            }),
    {
        InputFrame {
            left: false,
            right: false,
            up: false,
            down: false,
            fire_held: false,
            toggle_auto_fire: false,
            select_mode: None,
            clear_mode: false,
            cheat_invincible: false,
        }
    }
}

/// Clear the timed mode once its expiry has passed; leave everything
/// else alone.
pub fn expire_temp_mode(player: &mut Player, now_ms: u64)
    ensures
        final(player).temp_mode == (match old(player).temp_mode {
            Some((m, until)) => if now_ms > until {
                None::<(BulletMode, u64)>
            } else {
                Some((m, until))
            },
            None => None::<(BulletMode, u64)>,
        }),
        *final(player) == (Player { temp_mode: final(player).temp_mode, ..*old(player) }),
{
    if let Some((_, until)) = player.temp_mode {
        if now_ms > until {
            player.temp_mode = None;
        }
    }
}

/// Where the player ends up: held keys combine into a direction (opposed
/// keys cancel), a diagonal is scaled by 707/1000, the player moves by
/// direction times speed times elapsed time, and the result is clamped
/// into the field's interior margins.
pub open spec fn spec_moved_pos(p: Player, left: bool, right: bool, up: bool, down: bool, dt_ms: u32) -> Vec2i {
    let sx: int = (if right { 1int } else { 0int }) - (if left { 1int } else { 0int });
    let sy: int = (if down { 1int } else { 0int }) - (if up { 1int } else { 0int });
    let f: int = if sx != 0 && sy != 0 { 707 } else { 1000 };
    let step: int = (p.speed * (dt_ms as int) * f) / 1_000_000;
    Vec2i {
        x: spec_clamp_i64(p.pos.x + sx * step, PLAYER_MIN_X as int, PLAYER_MAX_X as int) as i64,
        y: spec_clamp_i64(p.pos.y + sy * step, PLAYER_MIN_Y as int, PLAYER_MAX_Y as int) as i64,
    }
}

/// Move the player by the held keys and clamp it into the interior.
pub fn move_player(player: &mut Player, left: bool, right: bool, up: bool, down: bool, dt_ms: u32)
    requires
        spec_player_wf(*old(player)),
        dt_ms <= MAX_DT_MS,
    ensures
        final(player).pos == spec_moved_pos(*old(player), left, right, up, down, dt_ms),
        *final(player) == (Player { pos: final(player).pos, ..*old(player) }),
        spec_player_wf(*final(player)),
{
    let sx: i64 = (if right { 1i64 } else { 0i64 }) - (if left { 1i64 } else { 0i64 });
    let sy: i64 = (if down { 1i64 } else { 0i64 }) - (if up { 1i64 } else { 0i64 });
    let f: i64 = if sx != 0 && sy != 0 { 707 } else { 1000 };
    proof {
        assert(0 <= player.speed * (dt_ms as i64) <= 60_000_000_000) by (nonlinear_arith)
            requires
                0 <= player.speed <= 1_000_000,
                0 <= dt_ms <= 60_000,
        ;
        assert(0 <= player.speed * (dt_ms as i64) * f <= 60_000_000_000_000) by (nonlinear_arith)
            requires
                0 <= player.speed * (dt_ms as i64) <= 60_000_000_000,
                0 < f <= 1000,
        ;
    }
    let step: i64 = (player.speed * (dt_ms as i64) * f) / 1_000_000;
    proof {
        assert(0 <= step <= 60_000_000);
        assert(sx == -1 || sx == 0 || sx == 1);
        assert(sy == -1 || sy == 0 || sy == 1);
        assert(-60_000_000 <= sx * step <= 60_000_000) by (nonlinear_arith)
            requires
                0 <= step <= 60_000_000,
                sx == -1 || sx == 0 || sx == 1,
        ;
        assert(-60_000_000 <= sy * step <= 60_000_000) by (nonlinear_arith)
            requires
                0 <= step <= 60_000_000,
                sy == -1 || sy == 0 || sy == 1,
        ;
    }
    let x = clamp_i64(player.pos.x + sx * step, PLAYER_MIN_X, PLAYER_MAX_X);
    let y = clamp_i64(player.pos.y + sy * step, PLAYER_MIN_Y, PLAYER_MAX_Y);
    player.pos = Vec2i { x, y };
}

/// The bullets one trigger pull emits, by pattern: one forward bullet;
/// two parallel bullets offset laterally; three fanned with the center
/// straight ahead; three with diverging lateral velocity; or one faster,
/// larger, higher-damage laser bolt.
pub open spec fn spec_fired_bullets(p: Player, mode: BulletMode) -> Seq<Bullet> {
    match mode {
        BulletMode::Normal => seq![spec_player_bullet(p, 0, 0)],
        BulletMode::Double => seq![
            spec_player_bullet(p, -9_000i64, 0),
            spec_player_bullet(p, 9_000, 0),
        ],
        BulletMode::Triple => seq![
            spec_player_bullet(p, -12_000i64, 0),
            spec_player_bullet(p, 0, 0),
            spec_player_bullet(p, 12_000, 0),
        ],
        BulletMode::Spread => seq![
            spec_spread_bullet(p, -10_000i64, -120_000i64),
            spec_spread_bullet(p, 0, 0),
            spec_spread_bullet(p, 10_000, 120_000),
        ],
        BulletMode::Laser => seq![
            Bullet {
                pos: Vec2i { x: p.pos.x, y: (p.pos.y - 30_000) as i64 },
                vel: Vec2i { x: 0, y: -624_000i64 },
                radius: 7_000,
                damage: 3,
                from_player: true,
                kind: BulletKind::PlayerLaser,
            },
        ],
    }
}

/// One straight player bullet offset laterally by `dx`.
pub open spec fn spec_player_bullet(p: Player, dx: i64, vx: i64) -> Bullet {
    Bullet {
        pos: Vec2i { x: (p.pos.x + dx) as i64, y: (p.pos.y - 26_000) as i64 },
        vel: Vec2i { x: vx, y: -520_000i64 },
        radius: 4_000,
        damage: 1,
        from_player: true,
        kind: BulletKind::PlayerNormal,
    }
}

/// One spread bullet offset by `dx` with lateral velocity `vx`.
pub open spec fn spec_spread_bullet(p: Player, dx: i64, vx: i64) -> Bullet {
    Bullet {
        pos: Vec2i { x: (p.pos.x + dx) as i64, y: (p.pos.y - 26_000) as i64 },
        vel: Vec2i { x: vx, y: -520_000i64 },
        radius: 4_000,
        damage: 1,
        from_player: true,
        kind: BulletKind::PlayerSpread,
    }
}

/// Emit the bullets of the pattern in effect at `now_ms`, appended in
/// pattern order.
pub fn shoot_player(game: &mut Game, now_ms: u64)
    requires
        spec_player_wf(old(game).player),
        forall|i: int|
            0 <= i < old(game).bullets@.len() ==> spec_bullet_wf(#[trigger] old(game).bullets@[i]),
    ensures
        final(game).bullets@ == old(game).bullets@ + spec_fired_bullets(
            old(game).player,
            spec_bullet_mode(old(game).player, now_ms),
        ),
        *final(game) == (Game { bullets: final(game).bullets, ..*old(game) }),
        forall|i: int|
            0 <= i < final(game).bullets@.len() ==> spec_bullet_wf(#[trigger] final(game).bullets@[i]),
{
    let ghost b0 = game.bullets@;
    let mode = game.player.bullet_mode(now_ms);
    proof {
        assert(mode == spec_bullet_mode(game.player, now_ms));
    }
    let p = game.player.pos;
    match mode {
        BulletMode::Normal => {
            game.bullets.push(Bullet {
                pos: Vec2i { x: p.x, y: p.y - 26_000 },
                vel: Vec2i { x: 0, y: -520_000 },
                radius: 4_000,
                damage: 1,
                from_player: true,
                kind: BulletKind::PlayerNormal,
            });
        },
        BulletMode::Double => {
            game.bullets.push(Bullet {
                pos: Vec2i { x: p.x - 9_000, y: p.y - 26_000 },
                vel: Vec2i { x: 0, y: -520_000 },
                radius: 4_000,
                damage: 1,
                from_player: true,
                kind: BulletKind::PlayerNormal,
            });
            game.bullets.push(Bullet {
                pos: Vec2i { x: p.x + 9_000, y: p.y - 26_000 },
                vel: Vec2i { x: 0, y: -520_000 },
                radius: 4_000,
                damage: 1,
                from_player: true,
                kind: BulletKind::PlayerNormal,
            });
        },
        BulletMode::Triple => {
            game.bullets.push(Bullet {
                pos: Vec2i { x: p.x - 12_000, y: p.y - 26_000 },
                vel: Vec2i { x: 0, y: -520_000 },
                radius: 4_000,
                damage: 1,
                from_player: true,
                kind: BulletKind::PlayerNormal,
            });
            game.bullets.push(Bullet {
                pos: Vec2i { x: p.x, y: p.y - 26_000 },
                vel: Vec2i { x: 0, y: -520_000 },
                radius: 4_000,
                damage: 1,
                from_player: true,
                kind: BulletKind::PlayerNormal,
            });
            game.bullets.push(Bullet {
                pos: Vec2i { x: p.x + 12_000, y: p.y - 26_000 },
                vel: Vec2i { x: 0, y: -520_000 },
                radius: 4_000,
                damage: 1,
                from_player: true,
                kind: BulletKind::PlayerNormal,
            });
        },
        BulletMode::Spread => {
            game.bullets.push(Bullet {
                pos: Vec2i { x: p.x - 10_000, y: p.y - 26_000 },
                vel: Vec2i { x: -120_000, y: -520_000 },
                radius: 4_000,
                damage: 1,
                from_player: true,
                kind: BulletKind::PlayerSpread,
            });
            game.bullets.push(Bullet {
                pos: Vec2i { x: p.x, y: p.y - 26_000 },
                vel: Vec2i { x: 0, y: -520_000 },
                radius: 4_000,
                damage: 1,
                from_player: true,
                kind: BulletKind::PlayerSpread,
            });
            game.bullets.push(Bullet {
                pos: Vec2i { x: p.x + 10_000, y: p.y - 26_000 },
                vel: Vec2i { x: 120_000, y: -520_000 },
                radius: 4_000,
                damage: 1,
                from_player: true,
                kind: BulletKind::PlayerSpread,
            });
        },
        BulletMode::Laser => {
            game.bullets.push(Bullet {
                pos: Vec2i { x: p.x, y: p.y - 30_000 },
                vel: Vec2i { x: 0, y: -624_000i64 },
                radius: 7_000,
                damage: 3,
                from_player: true,
                kind: BulletKind::PlayerLaser,
            });
        },
    }
    proof {
        assert(game.bullets@ =~= b0 + spec_fired_bullets(
            old(game).player,
            spec_bullet_mode(old(game).player, now_ms),
        ));
    }
}

/// Whether a trigger pull happens this frame: a fire input is active and
/// the cooled-down shot timer has reached zero.
pub open spec fn spec_fires(p: Player, auto_fire: bool, fire_held: bool, dt_ms: u32) -> bool {
    (auto_fire || fire_held) && spec_sat_sub_u32(p.shot_timer, dt_ms) == 0
}

/// Subtraction floored at zero.
pub open spec fn spec_sat_sub_u32(a: u32, b: u32) -> u32 {
    if a >= b {
        (a - b) as u32
    } else {
        0u32
    }
}

/// Cool the shot timer down by the elapsed time; if a fire input is
/// active and the timer has run out, emit the pattern's bullets and
/// reset the timer to the full cooldown.
pub fn update_player_fire(game: &mut Game, fire_held: bool, now_ms: u64, dt_ms: u32)
    requires
        spec_player_wf(old(game).player),
        forall|i: int|
            0 <= i < old(game).bullets@.len() ==> spec_bullet_wf(#[trigger] old(game).bullets@[i]),
    ensures
        spec_player_wf(final(game).player),
        final(game).player == (Player {
            shot_timer: final(game).player.shot_timer,
            ..old(game).player
        }),
        final(game).player.shot_timer == (if spec_fires(
            old(game).player,
            old(game).auto_fire,
            fire_held,
            dt_ms,
        ) {
            old(game).player.shot_cooldown
        } else {
            spec_sat_sub_u32(old(game).player.shot_timer, dt_ms)
        }),
        final(game).bullets@ == (if spec_fires(
            old(game).player,
            old(game).auto_fire,
            fire_held,
            dt_ms,
        ) {
            old(game).bullets@ + spec_fired_bullets(
                old(game).player,
                spec_bullet_mode(old(game).player, now_ms),
            )
        } else {
            old(game).bullets@
        }),
        *final(game) == (Game {
            player: final(game).player,
            bullets: final(game).bullets,
            ..*old(game)
        }),
        forall|i: int|
            0 <= i < final(game).bullets@.len() ==> spec_bullet_wf(#[trigger] final(game).bullets@[i]),
{
    let t = game.player.shot_timer;
    game.player.shot_timer = if t >= dt_ms {
        t - dt_ms
    } else {
        0
    };
    if (game.auto_fire || fire_held) && game.player.shot_timer == 0 {
        shoot_player(game, now_ms);
        game.player.shot_timer = game.player.shot_cooldown;
    }
}


/// How far a velocity carries in `dt_ms` milliseconds: the product
/// scaled down to milli-pixels, rounded toward zero.
pub open spec fn spec_scaled(v: i64, dt_ms: u32) -> int {
    if v >= 0 {
        v * (dt_ms as int) / 1000
    } else {
        -((-v) * (dt_ms as int) / 1000)
    }
}

/// The distance a bounded velocity covers in a bounded frame.
pub fn scaled_delta(v: i64, dt_ms: u32) -> (r: i64)
    requires
        -VEL_BOUND <= v <= VEL_BOUND,
        dt_ms <= MAX_DT_MS,
    ensures
        r == spec_scaled(v, dt_ms),
        -60_000_000 <= r <= 60_000_000,
{
    proof {
        assert(0 <= (if v >= 0 { v as int } else { -(v as int) }) * (dt_ms as int) <= 60_000_000_000)
            by (nonlinear_arith)
            requires
                0 <= (if v >= 0 { v as int } else { -(v as int) }) <= 1_000_000,
                0 <= dt_ms <= 60_000,
        ;
    }
    if v >= 0 {
        v * (dt_ms as i64) / 1000
    } else {
        -((-v) * (dt_ms as i64) / 1000)
    }
}

/// A position advanced by its velocity over the elapsed time.
pub open spec fn spec_integrated(pos: Vec2i, vel: Vec2i, dt_ms: u32) -> Vec2i {
    Vec2i {
        x: (pos.x + spec_scaled(vel.x, dt_ms)) as i64,
        y: (pos.y + spec_scaled(vel.y, dt_ms)) as i64,
    }
}

/// Advance every bullet by its velocity; nothing else changes.
pub fn integrate_bullets(game: &mut Game, dt_ms: u32)
    requires
        dt_ms <= MAX_DT_MS,
        forall|i: int|
            0 <= i < old(game).bullets@.len() ==> spec_bullet_wf(#[trigger] old(game).bullets@[i]),
    ensures
        final(game).bullets@.len() == old(game).bullets@.len(),
        forall|i: int|
            0 <= i < old(game).bullets@.len() ==> #[trigger] final(game).bullets@[i] == (Bullet {
                pos: spec_integrated(old(game).bullets@[i].pos, old(game).bullets@[i].vel, dt_ms),
                ..old(game).bullets@[i]
            }),
        *final(game) == (Game { bullets: final(game).bullets, ..*old(game) }),
{
    let ghost b0 = game.bullets@;
    let n = game.bullets.len();
    let mut out: Vec<Bullet> = Vec::new();
    let mut i: usize = 0;
    while i < n
        invariant
            n == b0.len(),
            game.bullets@ == b0,
            dt_ms <= MAX_DT_MS,
            forall|k: int| 0 <= k < n ==> spec_bullet_wf(#[trigger] b0[k]),
            0 <= i <= n,
            out@.len() == i,
            forall|k: int|
                0 <= k < i ==> #[trigger] out@[k] == (Bullet {
                    pos: spec_integrated(b0[k].pos, b0[k].vel, dt_ms),
                    ..b0[k]
                }),
        decreases n - i,
    {
        let b = game.bullets[i];
        let pos = Vec2i {
            x: b.pos.x + scaled_delta(b.vel.x, dt_ms),
            y: b.pos.y + scaled_delta(b.vel.y, dt_ms),
        };
        out.push(Bullet { pos, ..b });
        i = i + 1;
    }
    game.bullets = out;
}

/// Advance every treasure by its velocity; nothing else changes.
pub fn integrate_treasures(game: &mut Game, dt_ms: u32)
    requires
        dt_ms <= MAX_DT_MS,
        forall|i: int|
            0 <= i < old(game).treasures@.len() ==> spec_treasure_wf(
                #[trigger] old(game).treasures@[i],
            ),
    ensures
        final(game).treasures@.len() == old(game).treasures@.len(),
        forall|i: int|
            0 <= i < old(game).treasures@.len() ==> #[trigger] final(game).treasures@[i]
                == (Treasure {
                pos: spec_integrated(
                    old(game).treasures@[i].pos,
                    old(game).treasures@[i].vel,
                    dt_ms,
                ),
                ..old(game).treasures@[i]
            }),
        *final(game) == (Game { treasures: final(game).treasures, ..*old(game) }),
{
    let ghost t0 = game.treasures@;
    let n = game.treasures.len();
    let mut out: Vec<Treasure> = Vec::new();
    let mut i: usize = 0;
    while i < n
        invariant
            n == t0.len(),
            game.treasures@ == t0,
            dt_ms <= MAX_DT_MS,
            forall|k: int| 0 <= k < n ==> spec_treasure_wf(#[trigger] t0[k]),
            0 <= i <= n,
            out@.len() == i,
            forall|k: int|
                0 <= k < i ==> #[trigger] out@[k] == (Treasure {
                    pos: spec_integrated(t0[k].pos, t0[k].vel, dt_ms),
                    ..t0[k]
                }),
        decreases n - i,
    {
        let t = game.treasures[i];
        let pos = Vec2i {
            x: t.pos.x + scaled_delta(t.vel.x, dt_ms),
            y: t.pos.y + scaled_delta(t.vel.y, dt_ms),
        };
        out.push(Treasure { pos, ..t });
        i = i + 1;
    }
    game.treasures = out;
}


/// The floor the spawn interval shrinks toward, ms. One decay step from
/// just above the threshold can land one millisecond below it and then
/// never decays again, exactly as repeated scaling would.
pub const SPAWN_INTERVAL_FLOOR: u32 = 349;

/// One difficulty-ramp step: intervals above 350 ms shrink by the factor
/// 995/1000; at or below that they stay.
pub open spec fn spec_decay_interval(interval: u32) -> u32 {
    if interval > 350 {
        ((interval * 995) / 1000) as u32
    } else {
        interval
    }
}

/// The enemy one set of draws produces: a random horizontal position
/// just above the field, random downward and lateral velocity, two hit
/// points with one-in-ten chance (else one), and a random first reload.
pub open spec fn spec_spawned_enemy(d: (u32, u32, u32, u32, u32)) -> Enemy {
    Enemy {
        pos: Vec2i { x: (40_000 + d.0) as i64, y: -20_000i64 },
        size: Vec2i { x: 34_000, y: 28_000 },
        vel: Vec2i { x: (d.1 - 20_000) as i64, y: (90_000 + d.2) as i64 },
        hp: if d.3 == 0 {
            2
        } else {
            1
        },
        shot_timer: (600 + d.4) as u32,
    }
}

/// Whether one set of spawn draws is within the documented ranges.
pub open spec fn spec_spawn_draws_ok(d: (u32, u32, u32, u32, u32)) -> bool {
    &&& d.0 <= 400_000
    &&& d.1 <= 40_000
    &&& d.2 <= 60_000
    &&& d.3 <= 10
    &&& d.4 <= 800
}

/// Spawn one enemy at the top of the play field. The ghost result names
/// the five draws chance supplied.
pub fn spawn_enemy(game: &mut Game) -> (d: Ghost<(u32, u32, u32, u32, u32)>)
    ensures
        spec_spawn_draws_ok(d@),
        final(game).enemies@ == old(game).enemies@ + seq![spec_spawned_enemy(d@)],
        spec_enemy_wf(spec_spawned_enemy(d@)),
        *final(game) == (Game { enemies: final(game).enemies, ..*old(game) }),
{
    let ghost e0 = game.enemies@;
    let rx = rand_range_u32(0, 400_000);
    let rvx = rand_range_u32(0, 40_000);
    let rvy = rand_range_u32(0, 60_000);
    let rhp = rand_range_u32(0, 10);
    let rst = rand_range_u32(0, 800);
    let hp: i32 = if rhp == 0 {
        2
    } else {
        1
    };
    let vx: i64 = rvx as i64 - 20_000;
    proof {
        assert(vx == (rvx - 20_000) as i64);
    }
    game.enemies.push(Enemy {
        pos: Vec2i { x: 40_000 + rx as i64, y: -20_000 },
        size: Vec2i { x: 34_000, y: 28_000 },
        vel: Vec2i { x: vx, y: 90_000 + rvy as i64 },
        hp,
        shot_timer: 600 + rst,
    });
    proof {
        assert(game.enemies@ =~= e0 + seq![spec_spawned_enemy((rx, rvx, rvy, rhp, rst))]);
    }
    Ghost((rx, rvx, rvy, rhp, rst))
}

/// Accumulate frame time toward the next spawn; when it reaches the
/// interval, reset the accumulator, spawn one enemy, and shrink the
/// interval one decay step (never below its floor).
pub fn advance_spawning(game: &mut Game, dt_ms: u32) -> (d: Ghost<
    Option<(u32, u32, u32, u32, u32)>,
>)
    requires
        dt_ms <= MAX_DT_MS,
        SPAWN_INTERVAL_FLOOR <= old(game).enemy_spawn_interval <= 10_000,
        old(game).enemy_spawn_timer <= 10_000,
    ensures
        d@ is Some <==> old(game).enemy_spawn_timer + dt_ms >= old(game).enemy_spawn_interval,
        (match d@ {
            Some(draws) => {
                &&& spec_spawn_draws_ok(draws)
                &&& final(game).enemies@ == old(game).enemies@ + seq![spec_spawned_enemy(draws)]
                &&& spec_enemy_wf(spec_spawned_enemy(draws))
                &&& final(game).enemy_spawn_timer == 0
                &&& final(game).enemy_spawn_interval == spec_decay_interval(
                    old(game).enemy_spawn_interval,
                )
            },
            None => {
                &&& final(game).enemies@ == old(game).enemies@
                &&& final(game).enemy_spawn_timer == old(game).enemy_spawn_timer + dt_ms
                &&& final(game).enemy_spawn_interval == old(game).enemy_spawn_interval
            },
        }),
        *final(game) == (Game {
            enemies: final(game).enemies,
            enemy_spawn_timer: final(game).enemy_spawn_timer,
            enemy_spawn_interval: final(game).enemy_spawn_interval,
            ..*old(game)
        }),
        SPAWN_INTERVAL_FLOOR <= final(game).enemy_spawn_interval <= 10_000,
        final(game).enemy_spawn_timer <= 10_000,
{
    let acc = game.enemy_spawn_timer + dt_ms;
    if acc >= game.enemy_spawn_interval {
        game.enemy_spawn_timer = 0;
        let d = spawn_enemy(game);
        if game.enemy_spawn_interval > 350 {
            game.enemy_spawn_interval = game.enemy_spawn_interval * 995 / 1000;
        }
        Ghost(Some(d@))
    } else {
        game.enemy_spawn_timer = acc;
        Ghost(None)
    }
}

/// Left edge enemies are clamped to.
pub const ENEMY_MIN_X: i64 = 20_000;

/// Right edge enemies are clamped to.
pub const ENEMY_MAX_X: i64 = 460_000;

/// Top of the band within which an enemy may fire.
pub const ENEMY_FIRE_MIN_Y: i64 = 20_000;

/// Bottom of the band within which an enemy may fire.
pub const ENEMY_FIRE_MAX_Y: i64 = 612_000;

/// An enemy advanced one frame: position integrated with the horizontal
/// clamped into the field, reload timer cooled by the elapsed time.
pub open spec fn spec_enemy_moved(e: Enemy, dt_ms: u32) -> Enemy {
    Enemy {
        pos: Vec2i {
            x: spec_clamp_i64(
                e.pos.x + spec_scaled(e.vel.x, dt_ms),
                ENEMY_MIN_X as int,
                ENEMY_MAX_X as int,
            ) as i64,
            y: (e.pos.y + spec_scaled(e.vel.y, dt_ms)) as i64,
        },
        shot_timer: spec_sat_sub_u32(e.shot_timer, dt_ms),
        ..e
    }
}

/// Whether the enemy fires this frame: its reload has run out and its
/// new position lies within the firing band.
pub open spec fn spec_enemy_fires(e: Enemy, dt_ms: u32) -> bool {
    let moved = spec_enemy_moved(e, dt_ms);
    &&& moved.shot_timer == 0
    &&& moved.pos.y > ENEMY_FIRE_MIN_Y
    &&& moved.pos.y < ENEMY_FIRE_MAX_Y
}

/// The downward bullet an enemy fires from just under its nose.
pub open spec fn spec_enemy_bullet(at: Vec2i, vy: i64) -> Bullet {
    Bullet {
        pos: Vec2i { x: at.x, y: (at.y + 14_000) as i64 },
        vel: Vec2i { x: 0, y: vy },
        radius: 4_000,
        damage: 1,
        from_player: false,
        kind: BulletKind::Enemy,
    }
}

/// The bullets the first `k` enemies fire this frame, in enemy order;
/// `w[i]` holds the reload and bullet speed chance supplied for enemy
/// `i` (read only where that enemy fires).
pub open spec fn spec_enemy_shots_upto(
    enemies: Seq<Enemy>,
    dt_ms: u32,
    w: Seq<(u32, i64)>,
    k: int,
) -> Seq<Bullet>
    decreases k,
{
    if k <= 0 {
        Seq::empty()
    } else {
        spec_enemy_shots_upto(enemies, dt_ms, w, k - 1) + (if spec_enemy_fires(
            enemies[k - 1],
            dt_ms,
        ) {
            seq![spec_enemy_bullet(spec_enemy_moved(enemies[k - 1], dt_ms).pos, w[k - 1].1)]
        } else {
            Seq::empty()
        })
    }
}

/// Advance every enemy and let each whose reload has elapsed, while in
/// the firing band, fire one downward bullet and start a fresh random
/// reload. The ghost result holds each enemy's draws.
pub fn move_enemies_and_fire(game: &mut Game, dt_ms: u32) -> (w: Ghost<Seq<(u32, i64)>>)
    requires
        dt_ms <= MAX_DT_MS,
        forall|i: int|
            0 <= i < old(game).enemies@.len() ==> spec_enemy_wf(#[trigger] old(game).enemies@[i]),
        forall|i: int|
            0 <= i < old(game).bullets@.len() ==> spec_bullet_wf(#[trigger] old(game).bullets@[i]),
    ensures
        w@.len() == old(game).enemies@.len(),
        forall|i: int|
            0 <= i < w@.len() ==> (900 <= (#[trigger] w@[i]).0 <= 1600 && 240_000 <= w@[i].1
                <= 320_000),
        final(game).enemies@.len() == old(game).enemies@.len(),
        forall|i: int|
            0 <= i < old(game).enemies@.len() ==> #[trigger] final(game).enemies@[i] == (if
            spec_enemy_fires(old(game).enemies@[i], dt_ms) {
                Enemy {
                    shot_timer: w@[i].0,
                    ..spec_enemy_moved(old(game).enemies@[i], dt_ms)
                }
            } else {
                spec_enemy_moved(old(game).enemies@[i], dt_ms)
            }),
        final(game).bullets@ == old(game).bullets@ + spec_enemy_shots_upto(
            old(game).enemies@,
            dt_ms,
            w@,
            old(game).enemies@.len() as int,
        ),
        forall|i: int|
            0 <= i < final(game).bullets@.len() ==> spec_bullet_wf(
                #[trigger] final(game).bullets@[i],
            ),
        forall|i: int|
            0 <= i < final(game).enemies@.len() ==> spec_enemy_in_flight(
                #[trigger] final(game).enemies@[i],
            ),
        *final(game) == (Game {
            enemies: final(game).enemies,
            bullets: final(game).bullets,
            ..*old(game)
        }),
{
    let ghost e0 = game.enemies@;
    let ghost b0 = game.bullets@;
    let ghost mut w: Seq<(u32, i64)> = Seq::empty();
    let n = game.enemies.len();
    let mut out: Vec<Enemy> = Vec::new();
    let mut i: usize = 0;
    while i < n
        invariant
            n == e0.len(),
            game.enemies@ == e0,
            *game == (Game { bullets: game.bullets, ..*old(game) }),
            game.bullets@ == b0 + spec_enemy_shots_upto(e0, dt_ms, w, i as int),
            dt_ms <= MAX_DT_MS,
            forall|k: int| 0 <= k < n ==> spec_enemy_wf(#[trigger] e0[k]),
            forall|k: int| 0 <= k < b0.len() ==> spec_bullet_wf(#[trigger] b0[k]),
            forall|k: int|
                0 <= k < game.bullets@.len() ==> spec_bullet_wf(#[trigger] game.bullets@[k]),
            0 <= i <= n,
            out@.len() == i,
            w.len() == i,
            forall|k: int|
                0 <= k < i ==> (900 <= (#[trigger] w[k]).0 <= 1600 && 240_000 <= w[k].1
                    <= 320_000),
            forall|k: int|
                0 <= k < i ==> #[trigger] out@[k] == (if spec_enemy_fires(e0[k], dt_ms) {
                    Enemy { shot_timer: w[k].0, ..spec_enemy_moved(e0[k], dt_ms) }
                } else {
                    spec_enemy_moved(e0[k], dt_ms)
                }),
            forall|k: int| 0 <= k < i ==> spec_enemy_in_flight(#[trigger] out@[k]),
        decreases n - i,
    {
        let e = game.enemies[i];
        let nx = clamp_i64(e.pos.x + scaled_delta(e.vel.x, dt_ms), ENEMY_MIN_X, ENEMY_MAX_X);
        let ny = e.pos.y + scaled_delta(e.vel.y, dt_ms);
        let nt = if e.shot_timer >= dt_ms {
            e.shot_timer - dt_ms
        } else {
            0
        };
        let mut moved = Enemy { pos: Vec2i { x: nx, y: ny }, shot_timer: nt, ..e };
        proof {
            assert(moved == spec_enemy_moved(e0[i as int], dt_ms));
        }
        if nt == 0 && ny > ENEMY_FIRE_MIN_Y && ny < ENEMY_FIRE_MAX_Y {
            let vy_draw = rand_range_u32(240_000, 320_000);
            let reset = rand_range_u32(900, 1600);
            game.bullets.push(Bullet {
                pos: Vec2i { x: nx, y: ny + 14_000 },
                vel: Vec2i { x: 0, y: vy_draw as i64 },
                radius: 4_000,
                damage: 1,
                from_player: false,
                kind: BulletKind::Enemy,
            });
            moved.shot_timer = reset;
            proof {
                let w_old = w;
                w = w.push((reset, vy_draw as i64));
                lemma_shots_agree(e0, dt_ms, w_old, w, i as int);
                assert(game.bullets@ =~= b0 + spec_enemy_shots_upto(e0, dt_ms, w, i + 1));
            }
        } else {
            proof {
                let w_old = w;
                w = w.push((900u32, 240_000i64));
                lemma_shots_agree(e0, dt_ms, w_old, w, i as int);
                assert(game.bullets@ =~= b0 + spec_enemy_shots_upto(e0, dt_ms, w, i + 1));
            }
        }
        out.push(moved);
        i = i + 1;
    }
    game.enemies = out;
    Ghost(w)
}

/// The fired-bullet sequence over the first `k` enemies reads only the
/// first `k` draws, so extending the draw list does not change it.
proof fn lemma_shots_agree(
    enemies: Seq<Enemy>,
    dt_ms: u32,
    w1: Seq<(u32, i64)>,
    w2: Seq<(u32, i64)>,
    k: int,
)
    requires
        0 <= k,
        forall|j: int| 0 <= j < k ==> w1[j] == w2[j],
    ensures
        spec_enemy_shots_upto(enemies, dt_ms, w1, k) == spec_enemy_shots_upto(
            enemies,
            dt_ms,
            w2,
            k,
        ),
    decreases k,
{
    if k > 0 {
        lemma_shots_agree(enemies, dt_ms, w1, w2, k - 1);
    }
}

/// Bounds every enemy satisfies between its integration and the pruning
/// pass that restores full well-formedness: all the well-formedness
/// bounds except that its position may have left the play field.
pub open spec fn spec_enemy_in_flight(e: Enemy) -> bool {
    &&& e.hp >= 1
    &&& ENEMY_MIN_X <= e.pos.x <= ENEMY_MAX_X
    &&& -1_000_000 <= e.pos.y <= FLIGHT_BOUND
    &&& 0 <= e.size.x <= SIZE_BOUND
    &&& 0 <= e.size.y <= SIZE_BOUND
    &&& -VEL_BOUND <= e.vel.x <= VEL_BOUND
    &&& 0 <= e.vel.y <= VEL_BOUND
    &&& e.shot_timer <= 10_000
}



/// The spark one set of draws produces: a short-lived dot near the
/// player with a small random drift.
pub open spec fn spec_spark(at: Vec2i, d: (i64, i64, i64, i64, i64, u32)) -> Particle {
    Particle {
        pos: Vec2i { x: (at.x + d.0) as i64, y: (at.y + d.1) as i64 },
        vel: Vec2i { x: d.2, y: d.3 },
        radius: d.4,
        life: d.5,
    }
}

/// Whether one set of spark draws is within the documented ranges.
pub open spec fn spec_spark_draws_ok(d: (i64, i64, i64, i64, i64, u32)) -> bool {
    &&& -26_000 <= d.0 <= 26_000
    &&& -26_000 <= d.1 <= 26_000
    &&& -20_000 <= d.2 <= 20_000
    &&& -20_000 <= d.3 <= 20_000
    &&& 1_000 <= d.4 <= 2_400
    &&& 200 <= d.5 <= 450
}

/// The sparks a list of draws produces at `at`.
pub open spec fn spec_sparks(at: Vec2i, ds: Seq<(i64, i64, i64, i64, i64, u32)>) -> Seq<Particle>
    decreases ds.len(),
{
    if ds.len() == 0 {
        Seq::empty()
    } else {
        seq![spec_spark(at, ds[0])] + spec_sparks(at, ds.drop_first())
    }
}

/// While the player is invincible, emit three short-lived sparks at
/// random offsets around it; otherwise change nothing. The ghost result
/// holds the draws.
pub fn spawn_sparks(game: &mut Game, now_ms: u64) -> (ds: Ghost<
    Seq<(i64, i64, i64, i64, i64, u32)>,
>)
    requires
        spec_player_wf(old(game).player),
        forall|i: int|
            0 <= i < old(game).particles@.len() ==> spec_particle_wf(
                #[trigger] old(game).particles@[i],
            ),
    ensures
        ds@.len() == (if now_ms < old(game).player.invincible_until {
            3int
        } else {
            0int
        }),
        forall|i: int| 0 <= i < ds@.len() ==> spec_spark_draws_ok(#[trigger] ds@[i]),
        final(game).particles@ == old(game).particles@ + spec_sparks(
            old(game).player.pos,
            ds@,
        ),
        forall|i: int|
            0 <= i < final(game).particles@.len() ==> spec_particle_wf(
                #[trigger] final(game).particles@[i],
            ),
        *final(game) == (Game { particles: final(game).particles, ..*old(game) }),
{
    let ghost p0 = game.particles@;
    let ghost mut ds: Seq<(i64, i64, i64, i64, i64, u32)> = Seq::empty();
    if game.player.is_invincible(now_ms) {
        let base = game.player.pos;
        let mut k: usize = 0;
        while k < 3
            invariant
                spec_player_wf(old(game).player),
                base == old(game).player.pos,
                *game == (Game { particles: game.particles, ..*old(game) }),
                0 <= k <= 3,
                ds.len() == k,
                forall|i: int| 0 <= i < k ==> spec_spark_draws_ok(#[trigger] ds[i]),
                game.particles@ == p0 + spec_sparks(base, ds),
                forall|i: int| 0 <= i < p0.len() ==> spec_particle_wf(#[trigger] p0[i]),
                forall|i: int|
                    0 <= i < game.particles@.len() ==> spec_particle_wf(
                        #[trigger] game.particles@[i],
                    ),
            decreases 3 - k,
        {
            let dx = rand_range_u32(0, 52_000) as i64 - 26_000;
            let dy = rand_range_u32(0, 52_000) as i64 - 26_000;
            let vx = rand_range_u32(0, 40_000) as i64 - 20_000;
            let vy = rand_range_u32(0, 40_000) as i64 - 20_000;
            let radius = rand_range_u32(1_000, 2_400) as i64;
            let life = rand_range_u32(200, 450);
            let ghost d = (dx, dy, vx, vy, radius, life);
            game.particles.push(Particle {
                pos: Vec2i { x: base.x + dx, y: base.y + dy },
                vel: Vec2i { x: vx, y: vy },
                radius,
                life,
            });
            proof {
                let ds_old = ds;
                ds = ds.push(d);
                lemma_sparks_snoc(base, ds_old, d);
            }
            k = k + 1;
        }
    }
    Ghost(ds)
}

/// Appending one draw appends exactly its spark.
proof fn lemma_sparks_snoc(at: Vec2i, ds: Seq<(i64, i64, i64, i64, i64, u32)>, d: (i64, i64, i64, i64, i64, u32))
    ensures
        spec_sparks(at, ds.push(d)) == spec_sparks(at, ds) + seq![spec_spark(at, d)],
    decreases ds.len(),
{
    let whole = ds.push(d);
    if ds.len() == 0 {
        assert(whole.drop_first() =~= Seq::<(i64, i64, i64, i64, i64, u32)>::empty());
        assert(spec_sparks(at, whole.drop_first()) =~= Seq::<Particle>::empty());
        assert(spec_sparks(at, whole) =~= spec_sparks(at, ds) + seq![spec_spark(at, d)]);
    } else {
        assert(whole.drop_first() =~= ds.drop_first().push(d));
        lemma_sparks_snoc(at, ds.drop_first(), d);
        assert(whole[0] == ds[0]);
        assert(spec_sparks(at, whole) == seq![spec_spark(at, ds[0])] + spec_sparks(
            at,
            ds.drop_first().push(d),
        ));
        assert(spec_sparks(at, ds.drop_first().push(d)) == spec_sparks(at, ds.drop_first())
            + seq![spec_spark(at, d)]);
        assert(spec_sparks(at, ds) == seq![spec_spark(at, ds[0])] + spec_sparks(
            at,
            ds.drop_first(),
        ));
        assert(spec_sparks(at, whole) =~= spec_sparks(at, ds) + seq![spec_spark(at, d)]);
    }
}

/// A particle aged one frame: lifetime cooled by the elapsed time,
/// position advanced by its drift.
pub open spec fn spec_particle_aged(p: Particle, dt_ms: u32) -> Particle {
    Particle {
        pos: Vec2i {
            x: (p.pos.x + spec_scaled(p.vel.x, dt_ms)) as i64,
            y: (p.pos.y + spec_scaled(p.vel.y, dt_ms)) as i64,
        },
        life: spec_sat_sub_u32(p.life, dt_ms),
        ..p
    }
}

/// The particles of the first `k` that survive aging, aged.
pub open spec fn spec_aged_upto(particles: Seq<Particle>, dt_ms: u32, k: int) -> Seq<Particle>
    decreases k,
{
    if k <= 0 {
        Seq::empty()
    } else {
        spec_aged_upto(particles, dt_ms, k - 1) + (if spec_sat_sub_u32(particles[k - 1].life, dt_ms)
            > 0 {
            seq![spec_particle_aged(particles[k - 1], dt_ms)]
        } else {
            Seq::empty()
        })
    }
}

/// Age every particle by the elapsed time and drop the ones whose
/// lifetime has run out.
pub fn age_particles(game: &mut Game, dt_ms: u32)
    requires
        dt_ms <= MAX_DT_MS,
        forall|i: int|
            0 <= i < old(game).particles@.len() ==> spec_particle_wf(
                #[trigger] old(game).particles@[i],
            ),
    ensures
        final(game).particles@ == spec_aged_upto(
            old(game).particles@,
            dt_ms,
            old(game).particles@.len() as int,
        ),
        forall|i: int|
            0 <= i < final(game).particles@.len() ==> spec_particle_wf(
                #[trigger] final(game).particles@[i],
            ),
        *final(game) == (Game { particles: final(game).particles, ..*old(game) }),
{
    let ghost p0 = game.particles@;
    let n = game.particles.len();
    let mut out: Vec<Particle> = Vec::new();
    let mut i: usize = 0;
    while i < n
        invariant
            n == p0.len(),
            game.particles@ == p0,
            dt_ms <= MAX_DT_MS,
            forall|k: int| 0 <= k < n ==> spec_particle_wf(#[trigger] p0[k]),
            0 <= i <= n,
            out@ == spec_aged_upto(p0, dt_ms, i as int),
            forall|k: int|
                0 <= k < out@.len() ==> spec_particle_wf(#[trigger] out@[k]),
        decreases n - i,
    {
        let p = game.particles[i];
        let life = if p.life >= dt_ms {
            p.life - dt_ms
        } else {
            0
        };
        if life > 0 {
            proof {
                lemma_spark_drift(p.vel.x, dt_ms);
                lemma_spark_drift(p.vel.y, dt_ms);
            }
            let pos = Vec2i {
                x: p.pos.x + scaled_delta(p.vel.x, dt_ms),
                y: p.pos.y + scaled_delta(p.vel.y, dt_ms),
            };
            out.push(Particle { pos, life, ..p });
        }
        proof {
            assert(out@ =~= spec_aged_upto(p0, dt_ms, i + 1));
        }
        i = i + 1;
    }
    game.particles = out;
}

/// A particle's drift over one frame is at most fifty milli-pixels per
/// millisecond of that frame, which keeps an aged particle inside the
/// band its remaining lifetime reserves.
proof fn lemma_spark_drift(v: i64, dt_ms: u32)
    requires
        -50_000 <= v <= 50_000,
    ensures
        -50 * (dt_ms as int) <= spec_scaled(v, dt_ms) <= 50 * (dt_ms as int),
{
    if v >= 0 {
        assert(v * (dt_ms as int) <= 50_000 * (dt_ms as int)) by (nonlinear_arith)
            requires
                0 <= v <= 50_000,
        ;
        assert(0 <= v * (dt_ms as int));
        assert(v * (dt_ms as int) / 1000 <= 50_000 * (dt_ms as int) / 1000);
        assert(50_000 * (dt_ms as int) / 1000 == 50 * (dt_ms as int));
    } else {
        assert((-v) * (dt_ms as int) <= 50_000 * (dt_ms as int)) by (nonlinear_arith)
            requires
                0 <= -(v as int) <= 50_000,
        ;
        assert(0 <= (-v) * (dt_ms as int));
        assert((-v) * (dt_ms as int) / 1000 <= 50_000 * (dt_ms as int) / 1000);
        assert(50_000 * (dt_ms as int) / 1000 == 50 * (dt_ms as int));
    }
}


/// Magnitude bound on every entity position between integration and the
/// pruning passes: the farthest a bounded velocity can carry a bounded
/// position in one frame, with slack.
pub const FLIGHT_BOUND: i64 = 70_000_000;

/// Bounds a bullet satisfies between integration and pruning.
pub open spec fn spec_bullet_in_flight(b: Bullet) -> bool {
    &&& 1 <= b.damage <= 100
    &&& -FLIGHT_BOUND <= b.pos.x <= FLIGHT_BOUND
    &&& -FLIGHT_BOUND <= b.pos.y <= FLIGHT_BOUND
    &&& 0 <= b.radius <= SIZE_BOUND
    &&& -VEL_BOUND <= b.vel.x <= VEL_BOUND
    &&& -VEL_BOUND <= b.vel.y <= VEL_BOUND
}

/// Bounds an enemy satisfies after a collision pass: as in flight, but
/// its hit points may have been driven to zero or below (never beneath
/// the damage floor).
pub open spec fn spec_enemy_post_hit(e: Enemy) -> bool {
    &&& -1_000_000 <= e.hp
    &&& ENEMY_MIN_X <= e.pos.x <= ENEMY_MAX_X
    &&& -1_000_000 <= e.pos.y <= FLIGHT_BOUND
    &&& 0 <= e.size.x <= SIZE_BOUND
    &&& 0 <= e.size.y <= SIZE_BOUND
    &&& -VEL_BOUND <= e.vel.x <= VEL_BOUND
    &&& 0 <= e.vel.y <= VEL_BOUND
    &&& e.shot_timer <= 10_000
}

/// The first enemy at or after index `i` whose rectangle the bullet's
/// circle touches.
pub open spec fn spec_first_hit_from(b: Bullet, enemies: Seq<Enemy>, i: int) -> Option<int>
    decreases enemies.len() - i,
{
    if i < 0 || i >= enemies.len() {
        None
    } else if spec_circle_hits_rect(
        b.pos,
        b.radius,
        spec_center_rect(enemies[i].pos, enemies[i].size),
    ) {
        Some(i)
    } else {
        spec_first_hit_from(b, enemies, i + 1)
    }
}

/// The first enemy the bullet touches, in collection order.
pub open spec fn spec_first_hit(b: Bullet, enemies: Seq<Enemy>) -> Option<int> {
    spec_first_hit_from(b, enemies, 0)
}

/// Hit points after taking damage, floored far below zero so repeated
/// damage cannot wrap.
pub open spec fn spec_hp_after(hp: i32, damage: i32) -> i32 {
    if hp - damage >= -1_000_000 {
        (hp - damage) as i32
    } else {
        -1_000_000i32
    }
}

/// What one bullet does to the pass state `(enemies, consumed so far,
/// player hit)`: a player bullet damages the first enemy it touches and
/// is consumed, touching no further enemy; an enemy bullet consumed by
/// the player's rectangle marks the player hit; any other bullet stays.
pub open spec fn spec_bullet_step(
    st: (Seq<Enemy>, Seq<bool>, bool),
    b: Bullet,
    pr: Recti,
) -> (Seq<Enemy>, Seq<bool>, bool) {
    if b.from_player {
        match spec_first_hit(b, st.0) {
            Some(ei) => (
                st.0.update(ei, Enemy { hp: spec_hp_after(st.0[ei].hp, b.damage), ..st.0[ei] }),
                st.1.push(false),
                st.2,
            ),
            None => (st.0, st.1.push(true), st.2),
        }
    } else if spec_circle_hits_rect(b.pos, b.radius, pr) {
        (st.0, st.1.push(false), true)
    } else {
        (st.0, st.1.push(true), st.2)
    }
}

/// The pass state after the first `k` bullets, in collection order.
pub open spec fn spec_resolve_upto(
    bullets: Seq<Bullet>,
    enemies: Seq<Enemy>,
    pr: Recti,
    k: int,
) -> (Seq<Enemy>, Seq<bool>, bool)
    decreases k,
{
    if k <= 0 {
        (enemies, Seq::<bool>::empty(), false)
    } else {
        spec_bullet_step(spec_resolve_upto(bullets, enemies, pr, k - 1), bullets[k - 1], pr)
    }
}

/// The index of the first enemy this bullet touches, if any.
pub fn find_first_hit(b: &Bullet, enemies: &Vec<Enemy>) -> (r: Option<usize>)
    requires
        spec_bullet_in_flight(*b),
        forall|i: int|
            0 <= i < enemies@.len() ==> spec_enemy_post_hit(#[trigger] enemies@[i]),
    ensures
        (match r {
            Some(ei) => ei < enemies@.len() && spec_first_hit(*b, enemies@) == Some(ei as int),
            None => spec_first_hit(*b, enemies@) is None,
        }),
{
    let n = enemies.len();
    let mut i: usize = 0;
    while i < n
        invariant
            n == enemies@.len(),
            spec_bullet_in_flight(*b),
            forall|k: int| 0 <= k < n ==> spec_enemy_post_hit(#[trigger] enemies@[k]),
            0 <= i <= n,
            spec_first_hit(*b, enemies@) == spec_first_hit_from(*b, enemies@, i as int),
        decreases n - i,
    {
        let e = enemies[i];
        let er = Recti {
            x: e.pos.x - e.size.x / 2,
            y: e.pos.y - e.size.y / 2,
            w: e.size.x,
            h: e.size.y,
        };
        if circle_hits_rect(b.pos, b.radius, er) {
            return Some(i);
        }
        i = i + 1;
    }
    None
}

/// Resolve the frame's collisions in one pass over the bullets, in
/// collection order: each player bullet damages at most the first enemy
/// whose rectangle it touches and is consumed there; each enemy bullet
/// that touches the player's rectangle is consumed and marks the player
/// hit. The returned flags say which bullets survive.
pub fn resolve_collisions(game: &mut Game) -> (r: (Vec<bool>, bool))
    requires
        spec_player_wf(old(game).player),
        forall|i: int|
            0 <= i < old(game).bullets@.len() ==> spec_bullet_in_flight(
                #[trigger] old(game).bullets@[i],
            ),
        forall|i: int|
            0 <= i < old(game).enemies@.len() ==> spec_enemy_in_flight(
                #[trigger] old(game).enemies@[i],
            ),
    ensures
        (final(game).enemies@, r.0@, r.1) == spec_resolve_upto(
            old(game).bullets@,
            old(game).enemies@,
            spec_center_rect(old(game).player.pos, old(game).player.size),
            old(game).bullets@.len() as int,
        ),
        r.0@.len() == old(game).bullets@.len(),
        final(game).enemies@.len() == old(game).enemies@.len(),
        forall|i: int|
            0 <= i < final(game).enemies@.len() ==> spec_enemy_post_hit(
                #[trigger] final(game).enemies@[i],
            ),
        forall|i: int|
            0 <= i < final(game).enemies@.len() ==> (#[trigger] final(game).enemies@[i]
                == old(game).enemies@[i] || final(game).enemies@[i] == (Enemy {
                hp: final(game).enemies@[i].hp,
                ..old(game).enemies@[i]
            })),
        *final(game) == (Game { enemies: final(game).enemies, ..*old(game) }),
{
    let ghost b0 = game.bullets@;
    let ghost e0 = game.enemies@;
    let ghost pr_spec = spec_center_rect(game.player.pos, game.player.size);
    let pr = game.player.rect();
    let n = game.bullets.len();
    let mut alive: Vec<bool> = Vec::new();
    let mut hit = false;
    let mut bi: usize = 0;
    while bi < n
        invariant
            n == b0.len(),
            game.bullets@ == b0,
            pr == pr_spec,
            spec_player_wf(old(game).player),
            pr == spec_center_rect(old(game).player.pos, old(game).player.size),
            *game == (Game { enemies: game.enemies, ..*old(game) }),
            forall|k: int| 0 <= k < n ==> spec_bullet_in_flight(#[trigger] b0[k]),
            forall|k: int| 0 <= k < e0.len() ==> spec_enemy_in_flight(#[trigger] e0[k]),
            0 <= bi <= n,
            alive@.len() == bi,
            game.enemies@ == spec_resolve_upto(b0, e0, pr_spec, bi as int).0,
            alive@ == spec_resolve_upto(b0, e0, pr_spec, bi as int).1,
            hit == spec_resolve_upto(b0, e0, pr_spec, bi as int).2,
            game.enemies@.len() == e0.len(),
            forall|k: int|
                0 <= k < game.enemies@.len() ==> spec_enemy_post_hit(
                    #[trigger] game.enemies@[k],
                ),
            forall|k: int|
                0 <= k < game.enemies@.len() ==> (#[trigger] game.enemies@[k] == e0[k]
                    || game.enemies@[k] == (Enemy { hp: game.enemies@[k].hp, ..e0[k] })),
        decreases n - bi,
    {
        let b = game.bullets[bi];
        proof {
            assert(spec_player_wf(old(game).player));
            assert(pr == spec_center_rect(old(game).player.pos, old(game).player.size));
            assert(-26_000 <= pr.x <= 456_000);
            assert(-10_000 <= pr.y <= 694_000);
            assert(0 <= pr.w <= 100_000);
            assert(0 <= pr.h <= 100_000);
        }
        if b.from_player {
            match find_first_hit(&b, &game.enemies) {
                Some(ei) => {
                    let hp0 = game.enemies[ei].hp;
                    let nh: i32 = if hp0 - b.damage >= -1_000_000 {
                        hp0 - b.damage
                    } else {
                        -1_000_000
                    };
                    let em = vstd::std_specs::vec::vec_index_mut(&mut game.enemies, ei);
                    em.hp = nh;
                    alive.push(false);
                },
                None => {
                    alive.push(true);
                },
            }
        } else if circle_hits_rect(b.pos, b.radius, pr) {
            hit = true;
            alive.push(false);
        } else {
            alive.push(true);
        }
        bi = bi + 1;
    }
    (alive, hit)
}

/// Whether a bullet is still within the field's generous margins.
pub open spec fn spec_bullet_in_field(b: Bullet) -> bool {
    &&& -40_000 <= b.pos.x <= 520_000
    &&& -40_000 <= b.pos.y <= 760_000
}

/// The bullets of the first `k` that survive: not consumed, and still
/// within the field margins.
pub open spec fn spec_kept_bullets_upto(
    bullets: Seq<Bullet>,
    alive: Seq<bool>,
    k: int,
) -> Seq<Bullet>
    decreases k,
{
    if k <= 0 {
        Seq::empty()
    } else {
        spec_kept_bullets_upto(bullets, alive, k - 1) + (if alive[k - 1] && spec_bullet_in_field(
            bullets[k - 1],
        ) {
            seq![bullets[k - 1]]
        } else {
            Seq::empty()
        })
    }
}

/// Drop the consumed bullets and those that left the field margins.
pub fn prune_bullets(game: &mut Game, alive: &Vec<bool>)
    requires
        alive@.len() == old(game).bullets@.len(),
        forall|i: int|
            0 <= i < old(game).bullets@.len() ==> spec_bullet_in_flight(
                #[trigger] old(game).bullets@[i],
            ),
    ensures
        final(game).bullets@ == spec_kept_bullets_upto(
            old(game).bullets@,
            alive@,
            old(game).bullets@.len() as int,
        ),
        forall|i: int|
            0 <= i < final(game).bullets@.len() ==> spec_bullet_wf(
                #[trigger] final(game).bullets@[i],
            ),
        *final(game) == (Game { bullets: final(game).bullets, ..*old(game) }),
{
    let ghost b0 = game.bullets@;
    let n = game.bullets.len();
    let mut out: Vec<Bullet> = Vec::new();
    let mut i: usize = 0;
    while i < n
        invariant
            n == b0.len(),
            game.bullets@ == b0,
            alive@.len() == n,
            forall|k: int| 0 <= k < n ==> spec_bullet_in_flight(#[trigger] b0[k]),
            0 <= i <= n,
            out@ == spec_kept_bullets_upto(b0, alive@, i as int),
            forall|k: int| 0 <= k < out@.len() ==> spec_bullet_wf(#[trigger] out@[k]),
        decreases n - i,
    {
        let b = game.bullets[i];
        if alive[i] && b.pos.x >= -40_000 && b.pos.x <= 520_000 && b.pos.y >= -40_000 && b.pos.y
            <= 760_000 {
            out.push(b);
        }
        proof {
            assert(out@ =~= spec_kept_bullets_upto(b0, alive@, i + 1));
        }
        i = i + 1;
    }
    game.bullets = out;
}


/// Entities past this are below the field and despawn.
pub const OFF_BOTTOM_Y: i64 = 770_000;

/// Score for destroying one enemy.
pub const KILL_SCORE: u32 = 10;

/// Score for picking up one treasure.
pub const PICKUP_SCORE: u32 = 2;

/// Addition capped at the top of `u32`.
pub open spec fn spec_sat_add_u32(a: u32, b: int) -> u32 {
    if a + b <= u32::MAX {
        (a + b) as u32
    } else {
        u32::MAX
    }
}

/// The enemy pass over the first `k` enemies: an enemy below the field
/// is dropped without reward; one whose rectangle overlaps the player's
/// rams (its position joins the kill list and the ram flag is set); one
/// already out of hit points joins the kill list; the rest are kept, in
/// order. The result is `(kept, kill positions, rammed)`.
pub open spec fn spec_enemy_pass_upto(
    enemies: Seq<Enemy>,
    pr: Recti,
    k: int,
) -> (Seq<Enemy>, Seq<Vec2i>, bool)
    decreases k,
{
    if k <= 0 {
        (Seq::<Enemy>::empty(), Seq::<Vec2i>::empty(), false)
    } else {
        let st = spec_enemy_pass_upto(enemies, pr, k - 1);
        let e = enemies[k - 1];
        if e.pos.y > OFF_BOTTOM_Y {
            st
        } else {
            let rammed = spec_rects_overlap(spec_center_rect(e.pos, e.size), pr);
            if rammed || e.hp <= 0 {
                (st.0, st.1.push(e.pos), st.2 || rammed)
            } else {
                (st.0.push(e), st.1, st.2)
            }
        }
    }
}

/// The treasures the drop rolls produce at the first `k` kill positions.
pub open spec fn spec_drops_upto(killed: Seq<Vec2i>, rolls: Seq<(u32, i64)>, k: int) -> Seq<
    Treasure,
>
    decreases k,
{
    if k <= 0 {
        Seq::empty()
    } else {
        spec_drops_upto(killed, rolls, k - 1) + spec_drop_result(
            killed[k - 1],
            rolls[k - 1].0,
            rolls[k - 1].1,
        )
    }
}

/// Walk the enemies once: drop those below the field, force rammers to
/// zero hit points and mark the player hit, award the kill score for
/// each dead enemy and roll its treasure drop, keep the rest. The ghost
/// result holds one drop roll per kill, in kill order.
pub fn prune_enemies(game: &mut Game) -> (r: (Ghost<Seq<(u32, i64)>>, bool))
    requires
        spec_player_wf(old(game).player),
        forall|i: int|
            0 <= i < old(game).enemies@.len() ==> spec_enemy_post_hit(
                #[trigger] old(game).enemies@[i],
            ),
        forall|i: int|
            0 <= i < old(game).treasures@.len() ==> spec_treasure_in_flight(
                #[trigger] old(game).treasures@[i],
            ),
    ensures
        ({
            let st = spec_enemy_pass_upto(
                old(game).enemies@,
                spec_center_rect(old(game).player.pos, old(game).player.size),
                old(game).enemies@.len() as int,
            );
            &&& final(game).enemies@ == st.0
            &&& r.1 == st.2
            &&& r.0@.len() == st.1.len()
            &&& (forall|i: int|
                0 <= i < r.0@.len() ==> 0 <= (#[trigger] r.0@[i]).0 <= 100 && 90_000 <= r.0@[i].1
                    <= 150_000)
            &&& final(game).treasures@ == old(game).treasures@ + spec_drops_upto(
                st.1,
                r.0@,
                st.1.len() as int,
            )
            &&& final(game).score == spec_sat_add_u32(old(game).score, KILL_SCORE * st.1.len())
        }),
        final(game).score >= old(game).score,
        forall|i: int|
            0 <= i < final(game).enemies@.len() ==> spec_enemy_wf(
                #[trigger] final(game).enemies@[i],
            ),
        forall|i: int|
            0 <= i < final(game).treasures@.len() ==> spec_treasure_in_flight(
                #[trigger] final(game).treasures@[i],
            ),
        *final(game) == (Game {
            enemies: final(game).enemies,
            treasures: final(game).treasures,
            score: final(game).score,
            ..*old(game)
        }),
{
    let ghost e0 = game.enemies@;
    let ghost t0 = game.treasures@;
    let ghost score0 = game.score;
    let ghost pr_spec = spec_center_rect(game.player.pos, game.player.size);
    let pr = game.player.rect();
    let n = game.enemies.len();
    let mut out: Vec<Enemy> = Vec::new();
    let mut ram = false;
    let ghost mut rolls: Seq<(u32, i64)> = Seq::empty();
    let mut i: usize = 0;
    while i < n
        invariant
            n == e0.len(),
            game.enemies@ == e0,
            spec_player_wf(old(game).player),
            pr == pr_spec,
            pr_spec == spec_center_rect(old(game).player.pos, old(game).player.size),
            forall|k: int| 0 <= k < n ==> spec_enemy_post_hit(#[trigger] e0[k]),
            forall|k: int| 0 <= k < t0.len() ==> spec_treasure_in_flight(#[trigger] t0[k]),
            0 <= i <= n,
            ({
                let st = spec_enemy_pass_upto(e0, pr_spec, i as int);
                &&& out@ == st.0
                &&& ram == st.2
                &&& rolls.len() == st.1.len()
                &&& (forall|k: int|
                    0 <= k < rolls.len() ==> 0 <= (#[trigger] rolls[k]).0 <= 100 && 90_000
                        <= rolls[k].1 <= 150_000)
                &&& game.treasures@ == t0 + spec_drops_upto(st.1, rolls, st.1.len() as int)
                &&& game.score == spec_sat_add_u32(score0, KILL_SCORE * st.1.len())
            }),
            game.score >= score0,
            forall|k: int| 0 <= k < out@.len() ==> spec_enemy_wf(#[trigger] out@[k]),
            forall|k: int|
                0 <= k < game.treasures@.len() ==> spec_treasure_in_flight(
                    #[trigger] game.treasures@[k],
                ),
            *game == (Game {
                treasures: game.treasures,
                score: game.score,
                ..*old(game)
            }),
        decreases n - i,
    {
        let e = game.enemies[i];
        let ghost st_pre = spec_enemy_pass_upto(e0, pr_spec, i as int);
        if e.pos.y > OFF_BOTTOM_Y {
        } else {
            let er = Recti {
                x: e.pos.x - e.size.x / 2,
                y: e.pos.y - e.size.y / 2,
                w: e.size.x,
                h: e.size.y,
            };
            let rammed = rects_overlap(er, pr);
            if rammed || e.hp <= 0 {
                game.score = if game.score <= u32::MAX - KILL_SCORE {
                    game.score + KILL_SCORE
                } else {
                    u32::MAX
                };
                let d = maybe_drop_treasure(&mut game.treasures, e.pos);
                ram = ram || rammed;
                proof {
                    let rolls_old = rolls;
                    rolls = rolls.push(d@);
                    let st = spec_enemy_pass_upto(e0, pr_spec, i + 1);
                    assert(st.1 =~= st_pre.1.push(e.pos));
                    lemma_drops_agree(st_pre.1, st.1, rolls_old, rolls);
                    assert(spec_drops_upto(st_pre.1, rolls_old, st_pre.1.len() as int)
                        == spec_drops_upto(st.1, rolls, st_pre.1.len() as int));
                    assert(st.1.len() == st_pre.1.len() + 1);
                    assert(st.1[st.1.len() - 1] == e.pos);
                    assert(rolls[st.1.len() - 1] == d@);
                    assert(spec_drops_upto(st.1, rolls, st.1.len() as int) == spec_drops_upto(
                        st.1,
                        rolls,
                        st.1.len() - 1,
                    ) + spec_drop_result(e.pos, d@.0, d@.1));
                    assert(game.treasures@ =~= t0 + spec_drops_upto(st.1, rolls, st.1.len() as int));
                }
            } else {
                out.push(e);
            }
        }
        i = i + 1;
    }
    game.enemies = out;
    (Ghost(rolls), ram)
}

/// The drop list over `k` kills reads only the first `k` positions and
/// rolls, so extending either list leaves it unchanged.
proof fn lemma_drops_agree(
    k1: Seq<Vec2i>,
    k2: Seq<Vec2i>,
    r1: Seq<(u32, i64)>,
    r2: Seq<(u32, i64)>,
)
    requires
        k1.len() <= k2.len(),
        r1.len() == k1.len(),
        forall|j: int| 0 <= j < k1.len() ==> k1[j] == k2[j],
        forall|j: int| 0 <= j < k1.len() ==> r1[j] == r2[j],
    ensures
        spec_drops_upto(k1, r1, k1.len() as int) == spec_drops_upto(k2, r2, k1.len() as int),
    decreases k1.len(),
{
    if k1.len() > 0 {
        lemma_drops_agree(k1.drop_last(), k2, r1.drop_last(), r2);
        assert(spec_drops_upto(k1, r1, k1.len() - 1) == spec_drops_upto(
            k1.drop_last(),
            r1.drop_last(),
            k1.len() - 1,
        )) by {
            lemma_drops_agree(k1.drop_last(), k1, r1.drop_last(), r1);
        }
    }
}

/// Bounds a treasure satisfies between integration and pruning.
pub open spec fn spec_treasure_in_flight(t: Treasure) -> bool {
    &&& -ENT_BOUND <= t.pos.x <= ENT_BOUND
    &&& -1_000_000 <= t.pos.y <= FLIGHT_BOUND
    &&& 0 <= t.radius <= SIZE_BOUND
    &&& t.vel.x == 0
    &&& 0 <= t.vel.y <= VEL_BOUND
}

/// Whether the treasure lies within pickup distance of the player: the
/// squared center distance is at most the squared pickup radius.
pub open spec fn spec_pickup(t: Treasure, p: Player) -> bool {
    let dx = t.pos.x - p.pos.x;
    let dy = t.pos.y - p.pos.y;
    dx * dx + dy * dy <= (t.radius + 18_000) * (t.radius + 18_000)
}

/// The treasure pass over the first `k` treasures: one below the field
/// is dropped; one within pickup distance is applied to the player and
/// profile (counted, with the persistence demands of its kind); the
/// rest are kept, in order. The result is `(profile, player, kept,
/// picked count, must persist)`.
pub open spec fn spec_treasure_pass_upto(
    treasures: Seq<Treasure>,
    profile: PlayerProfile,
    player: Player,
    now_ms: u64,
    k: int,
) -> (PlayerProfile, Player, Seq<Treasure>, int, bool)
    decreases k,
{
    if k <= 0 {
        (profile, player, Seq::<Treasure>::empty(), 0int, false)
    } else {
        let st = spec_treasure_pass_upto(treasures, profile, player, now_ms, k - 1);
        let t = treasures[k - 1];
        if t.pos.y > OFF_BOTTOM_Y {
            st
        } else if spec_pickup(t, st.1) {
            let applied = spec_apply_treasure(st.0, st.1, t.kind, now_ms);
            (applied.0, applied.1, st.2, st.3 + 1, st.4 || applied.2)
        } else {
            (st.0, st.1, st.2.push(t), st.3, st.4)
        }
    }
}

/// Walk the treasures once: drop those below the field, apply those the
/// player touches (awarding the pickup score each), keep the rest. The
/// result says whether a permanent pickup demands persisting the
/// profile.
pub fn collect_treasures(
    game: &mut Game,
    profile: &mut PlayerProfile,
    now_ms: u64,
) -> (persist: bool)
    requires
        spec_profile_wf(*old(profile)),
        spec_player_wf(old(game).player),
        now_ms < MAX_TIME_MS,
        forall|i: int|
            0 <= i < old(game).treasures@.len() ==> spec_treasure_in_flight(
                #[trigger] old(game).treasures@[i],
            ),
    ensures
        ({
            let st = spec_treasure_pass_upto(
                old(game).treasures@,
                *old(profile),
                old(game).player,
                now_ms,
                old(game).treasures@.len() as int,
            );
            &&& *final(profile) == st.0
            &&& final(game).player == st.1
            &&& final(game).treasures@ == st.2
            &&& final(game).score == spec_sat_add_u32(old(game).score, PICKUP_SCORE * st.3)
            &&& persist == st.4
        }),
        final(game).score >= old(game).score,
        spec_profile_wf(*final(profile)),
        spec_player_wf(final(game).player),
        forall|i: int|
            0 <= i < final(game).treasures@.len() ==> spec_treasure_wf(
                #[trigger] final(game).treasures@[i],
            ),
        final(profile).username@ == old(profile).username@,
        final(profile).plane_style == old(profile).plane_style,
        final(profile).permanent.bullet_level >= old(profile).permanent.bullet_level,
        final(profile).permanent.max_lives >= old(profile).permanent.max_lives,
        final(game).player.pos == old(game).player.pos,
        final(game).player.shot_timer == old(game).player.shot_timer,
        final(game).player.shot_cooldown == old(game).player.shot_cooldown,
        *final(game) == (Game {
            player: final(game).player,
            treasures: final(game).treasures,
            score: final(game).score,
            ..*old(game)
        }),
{
    let ghost t0 = game.treasures@;
    let ghost score0 = game.score;
    let n = game.treasures.len();
    let mut out: Vec<Treasure> = Vec::new();
    let ghost mut picked_total: int = 0;
    let mut persist = false;
    let mut i: usize = 0;
    while i < n
        invariant
            n == t0.len(),
            game.treasures@ == t0,
            spec_profile_wf(*old(profile)),
            spec_player_wf(old(game).player),
            now_ms < MAX_TIME_MS,
            forall|k: int| 0 <= k < n ==> spec_treasure_in_flight(#[trigger] t0[k]),
            0 <= i <= n,
            ({
                let st = spec_treasure_pass_upto(t0, *old(profile), old(game).player, now_ms, i as int);
                &&& *profile == st.0
                &&& game.player == st.1
                &&& out@ == st.2
                &&& picked_total == st.3
                &&& persist == st.4
            }),
            picked_total >= 0,
            game.score == spec_sat_add_u32(score0, PICKUP_SCORE * picked_total),
            game.score >= score0,
            spec_profile_wf(*profile),
            spec_player_wf(game.player),
            forall|k: int| 0 <= k < out@.len() ==> spec_treasure_wf(#[trigger] out@[k]),
            profile.username@ == old(profile).username@,
            profile.plane_style == old(profile).plane_style,
            profile.permanent.bullet_level >= old(profile).permanent.bullet_level,
            profile.permanent.max_lives >= old(profile).permanent.max_lives,
            game.player.pos == old(game).player.pos,
            game.player.shot_timer == old(game).player.shot_timer,
            game.player.shot_cooldown == old(game).player.shot_cooldown,
            *game == (Game {
                player: game.player,
                score: game.score,
                ..*old(game)
            }),
        decreases n - i,
    {
        let t = game.treasures[i];
        if t.pos.y > OFF_BOTTOM_Y {
        } else {
            let dx = t.pos.x - game.player.pos.x;
            let dy = t.pos.y - game.player.pos.y;
            let reach = t.radius + 18_000;
            proof {
                assert(dx * dx <= 4_000_000_000_000) by (nonlinear_arith)
                    requires
                        -2_000_000 <= dx <= 2_000_000,
                ;
                assert(dy * dy <= 4_000_000_000_000) by (nonlinear_arith)
                    requires
                        -2_000_000 <= dy <= 2_000_000,
                ;
                assert(0 <= dx * dx) by (nonlinear_arith);
                assert(0 <= dy * dy) by (nonlinear_arith);
                assert(0 <= reach * reach <= 100_000_000_000) by (nonlinear_arith)
                    requires
                        0 <= reach <= 200_000,
                ;
            }
            if dx * dx + dy * dy <= reach * reach {
                let p = apply_treasure(profile, &mut game.player, t.kind, now_ms);
                persist = persist || p;
                let ghost pre_score = game.score;
                game.score = if game.score <= u32::MAX - PICKUP_SCORE {
                    game.score + PICKUP_SCORE
                } else {
                    u32::MAX
                };
                proof {
                    picked_total = picked_total + 1;
                    lemma_sat_add_step(score0, pre_score, game.score, picked_total);
                }
            } else {
                out.push(t);
            }
        }
        i = i + 1;
    }
    game.treasures = out;
    persist
}


/// One saturated step of the pickup score: adding the bonus to a
/// saturated sum saturates the extended sum.
proof fn lemma_sat_add_step(score0: u32, pre: u32, newv: u32, pt: int)
    requires
        pt >= 1,
        pre == spec_sat_add_u32(score0, PICKUP_SCORE * (pt - 1)),
        newv == (if pre <= u32::MAX - PICKUP_SCORE {
            (pre + PICKUP_SCORE) as u32
        } else {
            u32::MAX
        }),
    ensures
        newv == spec_sat_add_u32(score0, PICKUP_SCORE * pt),
{
    assert(PICKUP_SCORE * pt == PICKUP_SCORE * (pt - 1) + PICKUP_SCORE) by (nonlinear_arith);
}


/// Invincibility granted after an absorbed hit, ms.
pub const HIT_INVINCIBLE_MS: u64 = 900;

/// Invincibility granted by the cheat command, ms.
pub const CHEAT_INVINCIBLE_MS: u64 = 6_000;

/// What the run-end finalize step does: once the run is over, append the
/// run's score to the rows exactly once — the guard flag makes a second
/// finalize of the same run leave the rows alone.
pub open spec fn spec_finalize(g: Game, rows: Seq<(Seq<char>, u32)>, name: Seq<char>) -> (
    Game,
    Seq<(Seq<char>, u32)>,
) {
    if g.just_saved_score {
        (g, rows)
    } else {
        (Game { just_saved_score: true, ..g }, spec_record(rows, (name, g.score)))
    }
}

/// Record the finished run's score on the leaderboard, exactly once per
/// run: a repeated call finds the guard flag set and changes nothing.
pub fn finalize_run(game: &mut Game, leaderboard: &mut Leaderboard, username: &str)
    requires
        spec_leaderboard_wf(*old(leaderboard)),
    ensures
        spec_leaderboard_wf(*final(leaderboard)),
        (*final(game), spec_lb_view(*final(leaderboard))) == spec_finalize(
            *old(game),
            spec_lb_view(*old(leaderboard)),
            username@,
        ),
        old(game).just_saved_score ==> *final(leaderboard) == *old(leaderboard) && *final(game)
            == *old(game),
        final(game).just_saved_score,
{
    if !game.just_saved_score {
        record_score(leaderboard, username, game.score);
        game.just_saved_score = true;
    }
}

/// Finalizing a finished run twice is the same as finalizing it once:
/// the second step sees the guard flag and appends nothing, so one run
/// never yields two leaderboard rows.
pub proof fn lemma_finalize_idempotent(g: Game, rows: Seq<(Seq<char>, u32)>, name: Seq<char>)
    ensures
        ({
            let once = spec_finalize(g, rows, name);
            spec_finalize(once.0, once.1, name) == once
        }),
{
}

/// A player bullet reduces at most one enemy's hit points, whatever its
/// path overlaps: the step for bullet `k` changes the enemy list at no
/// index or at exactly the first touched index, so no two distinct
/// indices both change.
pub proof fn lemma_bullet_damages_at_most_one(
    bullets: Seq<Bullet>,
    enemies: Seq<Enemy>,
    pr: Recti,
    k: int,
)
    requires
        0 <= k < bullets.len(),
    ensures
        ({
            let pre = spec_resolve_upto(bullets, enemies, pr, k);
            let post = spec_resolve_upto(bullets, enemies, pr, k + 1);
            &&& post.0.len() == pre.0.len()
            &&& forall|i: int, j: int|
                0 <= i < j < pre.0.len() ==> #[trigger] post.0[i] == pre.0[i] || #[trigger] post.0[j]
                    == pre.0[j]
        }),
{
    let pre = spec_resolve_upto(bullets, enemies, pr, k);
    let post = spec_resolve_upto(bullets, enemies, pr, k + 1);
    assert(post == spec_bullet_step(pre, bullets[k], pr));
    let b = bullets[k];
    if b.from_player {
        match spec_first_hit(b, pre.0) {
            Some(ei) => {
                lemma_first_hit_in_range(b, pre.0, 0);
                assert(post.0 == pre.0.update(
                    ei,
                    Enemy { hp: spec_hp_after(pre.0[ei].hp, b.damage), ..pre.0[ei] },
                ));
                assert forall|i: int, j: int| 0 <= i < j < pre.0.len() implies #[trigger] post.0[i]
                    == pre.0[i] || #[trigger] post.0[j] == pre.0[j] by {
                    if i != ei {
                        assert(post.0[i] == pre.0[i]);
                    } else {
                        assert(j != ei);
                        assert(post.0[j] == pre.0[j]);
                    }
                }
            },
            None => {},
        }
    }
}

/// A found first hit lies within the enemy list.
proof fn lemma_first_hit_in_range(b: Bullet, enemies: Seq<Enemy>, i: int)
    requires
        0 <= i,
    ensures
        (match spec_first_hit_from(b, enemies, i) {
            Some(ei) => i <= ei < enemies.len(),
            None => true,
        }),
    decreases enemies.len() - i,
{
    if i < enemies.len() {
        lemma_first_hit_in_range(b, enemies, i + 1);
    }
}

/// The scaled distance of any admissible velocity over any admissible
/// frame stays within the one-frame flight margin.
proof fn lemma_scaled_bound(v: i64, dt_ms: u32)
    requires
        -VEL_BOUND <= v <= VEL_BOUND,
        dt_ms <= MAX_DT_MS,
    ensures
        -60_000_000 <= spec_scaled(v, dt_ms) <= 60_000_000,
{
    assert(0 <= (if v >= 0 { v as int } else { -(v as int) }) * (dt_ms as int)
        <= 60_000_000_000) by (nonlinear_arith)
        requires
            0 <= (if v >= 0 { v as int } else { -(v as int) }) <= 1_000_000,
            0 <= dt_ms <= 60_000,
    ;
}

/// What one frame reports to the hosting loop: whether the run ended,
/// and which stores must now be durably persisted.
#[derive(Clone, Copy, Debug, PartialEq, Eq, Structural)]
pub struct StepResult {
    /// The run ended this frame (or had already ended).
    pub run_over: bool,
    /// A permanent upgrade was picked up: persist the profile.
    pub profile_dirty: bool,
    /// The run's score was recorded: persist the leaderboard.
    pub leaderboard_dirty: bool,
}

/// Apply the frame's damage: a hit that lands on a vulnerable player
/// costs one life and grants a short invincibility window; when the
/// lives run out the run is finalized (its score recorded exactly once)
/// and the caller is told the run is over.
pub fn apply_damage(
    game: &mut Game,
    leaderboard: &mut Leaderboard,
    username: &str,
    player_hit: bool,
    now_ms: u64,
) -> (r: (bool, bool))
    requires
        spec_player_wf(old(game).player),
        spec_leaderboard_wf(*old(leaderboard)),
        now_ms < MAX_TIME_MS,
    ensures
        spec_player_wf(final(game).player),
        spec_leaderboard_wf(*final(leaderboard)),
        ({
            let lands = player_hit && now_ms >= old(game).player.invincible_until;
            if !lands {
                &&& *final(game) == *old(game)
                &&& *final(leaderboard) == *old(leaderboard)
                &&& r == (false, false)
            } else {
                let lives = if old(game).player.lives > 0 {
                    (old(game).player.lives - 1) as i32
                } else {
                    0i32
                };
                let damaged = Game {
                    player: Player {
                        lives,
                        invincible_until: (now_ms + HIT_INVINCIBLE_MS) as u64,
                        ..old(game).player
                    },
                    ..*old(game)
                };
                if lives > 0 {
                    &&& *final(game) == damaged
                    &&& *final(leaderboard) == *old(leaderboard)
                    &&& r == (false, false)
                } else {
                    &&& (*final(game), spec_lb_view(*final(leaderboard))) == spec_finalize(
                        damaged,
                        spec_lb_view(*old(leaderboard)),
                        username@,
                    )
                    &&& r.0 == true
                    &&& r.1 == !old(game).just_saved_score
                }
            }
        }),
        r.0 ==> final(game).just_saved_score,
        r.1 ==> !old(game).just_saved_score && final(game).just_saved_score,
        !r.1 ==> *final(leaderboard) == *old(leaderboard),
        final(game).score == old(game).score,
{
    if player_hit && !game.player.is_invincible(now_ms) {
        if game.player.lives > 0 {
            game.player.lives = game.player.lives - 1;
        }
        game.player.invincible_until = now_ms + HIT_INVINCIBLE_MS;
        if game.player.lives == 0 {
            let recorded = !game.just_saved_score;
            finalize_run(game, leaderboard, username);
            return (true, recorded);
        }
    }
    (false, false)
}

/// The mathematical content of the run state: every collection as a
/// sequence. The frame specification below is written over this view.
pub struct GameView {
    pub player: Player,
    pub bullets: Seq<Bullet>,
    pub enemies: Seq<Enemy>,
    pub treasures: Seq<Treasure>,
    pub particles: Seq<Particle>,
    pub score: u32,
    pub enemy_spawn_timer: u32,
    pub enemy_spawn_interval: u32,
    pub game_over_cooldown: u32,
    pub just_saved_score: bool,
    pub auto_fire: bool,
}

/// The view of a run state.
pub open spec fn spec_game_view(g: Game) -> GameView {
    GameView {
        player: g.player,
        bullets: g.bullets@,
        enemies: g.enemies@,
        treasures: g.treasures@,
        particles: g.particles@,
        score: g.score,
        enemy_spawn_timer: g.enemy_spawn_timer,
        enemy_spawn_interval: g.enemy_spawn_interval,
        game_over_cooldown: g.game_over_cooldown,
        just_saved_score: g.just_saved_score,
        auto_fire: g.auto_fire,
    }
}

/// Everything chance supplied to one frame, in stage order.
pub struct FrameDraws {
    /// The spawn stage's draws, present exactly when a spawn was due.
    pub spawn: Option<(u32, u32, u32, u32, u32)>,
    /// One reload-and-speed pair per enemy of the enemy stage (read only
    /// where that enemy fires).
    pub enemy_fire: Seq<(u32, i64)>,
    /// The spark draws of the particle stage.
    pub sparks: Seq<(i64, i64, i64, i64, i64, u32)>,
    /// One drop roll per kill of the pruning stage, in kill order.
    pub drops: Seq<(u32, i64)>,
}

/// The frame's discrete commands applied to the state: the auto-fire
/// toggle, a manual pattern choice (a clear wins over a choice made the
/// same frame), and the invincibility cheat.
#[verifier::opaque]
pub open spec fn spec_commands_stage(v: GameView, input: InputFrame, now_ms: u64) -> GameView {
    let auto = if input.toggle_auto_fire {
        !v.auto_fire
    } else {
        v.auto_fire
    };
    let chosen = match input.select_mode {
        Some(m) => Some(m),
        None => v.player.manual_mode,
    };
    let manual = if input.clear_mode {
        None
    } else {
        chosen
    };
    let inv = if input.cheat_invincible {
        (now_ms + CHEAT_INVINCIBLE_MS) as u64
    } else {
        v.player.invincible_until
    };
    GameView {
        player: Player { manual_mode: manual, invincible_until: inv, ..v.player },
        auto_fire: auto,
        ..v
    }
}

/// A player whose timed mode has been cleared if expired.
pub open spec fn spec_expired_temp(p: Player, now_ms: u64) -> Player {
    match p.temp_mode {
        Some((m, until)) => if now_ms > until {
            Player { temp_mode: None, ..p }
        } else {
            p
        },
        None => p,
    }
}

/// The player stage: expire the timed mode, move by the held keys, cool
/// the shot timer, and — if a fire input is active and the timer ran
/// out — emit the pattern's bullets and reset the timer.
#[verifier::opaque]
pub open spec fn spec_player_stage(v: GameView, input: InputFrame, now_ms: u64, dt_ms: u32) -> GameView {
    let p1 = spec_expired_temp(v.player, now_ms);
    let p2 = Player {
        pos: spec_moved_pos(p1, input.left, input.right, input.up, input.down, dt_ms),
        ..p1
    };
    let fires = spec_fires(p2, v.auto_fire, input.fire_held, dt_ms);
    let p3 = Player {
        shot_timer: if fires {
            p2.shot_cooldown
        } else {
            spec_sat_sub_u32(p2.shot_timer, dt_ms)
        },
        ..p2
    };
    let bullets = if fires {
        v.bullets + spec_fired_bullets(p2, spec_bullet_mode(p2, now_ms))
    } else {
        v.bullets
    };
    GameView { player: p3, bullets, ..v }
}

/// Whether the spawn stage spawns this frame.
pub open spec fn spec_spawn_due(v: GameView, dt_ms: u32) -> bool {
    v.enemy_spawn_timer + dt_ms >= v.enemy_spawn_interval
}

/// The spawn stage: accumulate frame time; when it reaches the interval,
/// spawn the enemy the draws describe and take one decay step.
#[verifier::opaque]
pub open spec fn spec_spawn_stage(v: GameView, dt_ms: u32, d: Option<(u32, u32, u32, u32, u32)>) -> GameView {
    if spec_spawn_due(v, dt_ms) {
        match d {
            Some(dr) => GameView {
                enemies: v.enemies + seq![spec_spawned_enemy(dr)],
                enemy_spawn_timer: 0,
                enemy_spawn_interval: spec_decay_interval(v.enemy_spawn_interval),
                ..v
            },
            None => v,
        }
    } else {
        GameView { enemy_spawn_timer: (v.enemy_spawn_timer + dt_ms) as u32, ..v }
    }
}

/// The enemy stage: every enemy advances (horizontal clamped, reload
/// cooled); each whose reload ran out inside the firing band fires one
/// bullet and takes the drawn fresh reload.
#[verifier::opaque]
pub open spec fn spec_enemy_stage(v: GameView, dt_ms: u32, w: Seq<(u32, i64)>) -> GameView {
    GameView {
        enemies: Seq::new(
            v.enemies.len(),
            |i: int|
                if spec_enemy_fires(v.enemies[i], dt_ms) {
                    Enemy { shot_timer: w[i].0, ..spec_enemy_moved(v.enemies[i], dt_ms) }
                } else {
                    spec_enemy_moved(v.enemies[i], dt_ms)
                },
        ),
        bullets: v.bullets + spec_enemy_shots_upto(v.enemies, dt_ms, w, v.enemies.len() as int),
        ..v
    }
}

/// The integration stage: every bullet and treasure advances by its
/// velocity.
#[verifier::opaque]
pub open spec fn spec_integrate_stage(v: GameView, dt_ms: u32) -> GameView {
    GameView {
        bullets: Seq::new(
            v.bullets.len(),
            |i: int| Bullet { pos: spec_integrated(v.bullets[i].pos, v.bullets[i].vel, dt_ms), ..v.bullets[i] },
        ),
        treasures: Seq::new(
            v.treasures.len(),
            |i: int| Treasure {
                pos: spec_integrated(v.treasures[i].pos, v.treasures[i].vel, dt_ms),
                ..v.treasures[i]
            },
        ),
        ..v
    }
}

/// The particle stage: the drawn sparks appear (three while the player
/// is invincible, none otherwise), then every particle ages and the
/// spent ones vanish.
#[verifier::opaque]
pub open spec fn spec_particles_stage(
    v: GameView,
    dt_ms: u32,
    ds: Seq<(i64, i64, i64, i64, i64, u32)>,
) -> GameView {
    let with_sparks = v.particles + spec_sparks(v.player.pos, ds);
    GameView {
        particles: spec_aged_upto(with_sparks, dt_ms, with_sparks.len() as int),
        ..v
    }
}

/// The collision stage: the one pass of `spec_resolve_upto` over the
/// bullets; the result carries the damaged enemies, which bullets
/// survive, and whether an enemy bullet hit the player.
#[verifier::opaque]
pub open spec fn spec_collision_stage(v: GameView) -> (GameView, Seq<bool>, bool) {
    let st = spec_resolve_upto(
        v.bullets,
        v.enemies,
        spec_center_rect(v.player.pos, v.player.size),
        v.bullets.len() as int,
    );
    (GameView { enemies: st.0, ..v }, st.1, st.2)
}

/// The bullet-pruning stage: consumed bullets and those beyond the
/// field margins vanish.
#[verifier::opaque]
pub open spec fn spec_prune_bullets_stage(v: GameView, alive: Seq<bool>) -> GameView {
    GameView { bullets: spec_kept_bullets_upto(v.bullets, alive, v.bullets.len() as int), ..v }
}

/// The kill positions of the enemy pass on this state.
pub open spec fn spec_frame_kills(v: GameView) -> Seq<Vec2i> {
    spec_enemy_pass_upto(
        v.enemies,
        spec_center_rect(v.player.pos, v.player.size),
        v.enemies.len() as int,
    ).1
}

/// The enemy-pruning stage: enemies below the field vanish unrewarded,
/// rammers are forced dead and mark the player hit, every kill scores
/// and rolls one drop; the result also says whether a ram happened.
#[verifier::opaque]
pub open spec fn spec_prune_enemies_stage(v: GameView, rolls: Seq<(u32, i64)>) -> (GameView, bool) {
    let st = spec_enemy_pass_upto(
        v.enemies,
        spec_center_rect(v.player.pos, v.player.size),
        v.enemies.len() as int,
    );
    (
        GameView {
            enemies: st.0,
            treasures: v.treasures + spec_drops_upto(st.1, rolls, st.1.len() as int),
            score: spec_sat_add_u32(v.score, KILL_SCORE * st.1.len()),
            ..v
        },
        st.2,
    )
}

/// The pickup stage: treasures below the field vanish, each within
/// pickup distance applies once and scores the bonus, the rest stay;
/// the results carry the new profile and the persistence demand.
#[verifier::opaque]
pub open spec fn spec_treasure_stage(v: GameView, profile: PlayerProfile, now_ms: u64) -> (
    GameView,
    PlayerProfile,
    bool,
) {
    let st = spec_treasure_pass_upto(v.treasures, profile, v.player, now_ms, v.treasures.len() as int);
    (
        GameView {
            player: st.1,
            treasures: st.2,
            score: spec_sat_add_u32(v.score, PICKUP_SCORE * st.3),
            ..v
        },
        st.0,
        st.4,
    )
}

/// The damage stage: a hit that lands on a vulnerable player costs one
/// life (floored at none) and grants the short window; when the lives
/// run out the run is over and its score is recorded exactly once. The
/// result is `(state, rows, run over, recorded)`.
#[verifier::opaque]
pub open spec fn spec_damage_stage(
    v: GameView,
    rows: Seq<(Seq<char>, u32)>,
    name: Seq<char>,
    hit: bool,
    now_ms: u64,
) -> (GameView, Seq<(Seq<char>, u32)>, bool, bool) {
    let lands = hit && now_ms >= v.player.invincible_until;
    if !lands {
        (v, rows, false, false)
    } else {
        let lives = if v.player.lives > 0 {
            (v.player.lives - 1) as i32
        } else {
            0i32
        };
        let v2 = GameView {
            player: Player {
                lives,
                invincible_until: (now_ms + HIT_INVINCIBLE_MS) as u64,
                ..v.player
            },
            ..v
        };
        if lives > 0 {
            (v2, rows, false, false)
        } else if v2.just_saved_score {
            (v2, rows, true, false)
        } else {
            (
                GameView { just_saved_score: true, ..v2 },
                spec_record(rows, (name, v2.score)),
                true,
                true,
            )
        }
    }
}

/// One whole frame as a function of the starting state, the inputs and
/// the draws: the stages above composed in frame order. The result is
/// `(state, profile, leaderboard rows, report)`.
pub open spec fn spec_frame(
    v: GameView,
    profile: PlayerProfile,
    rows: Seq<(Seq<char>, u32)>,
    input: InputFrame,
    now_ms: u64,
    dt_ms: u32,
    d: FrameDraws,
) -> (GameView, PlayerProfile, Seq<(Seq<char>, u32)>, StepResult) {
    let v1 = spec_commands_stage(v, input, now_ms);
    let v2 = spec_player_stage(v1, input, now_ms, dt_ms);
    let v3 = spec_spawn_stage(v2, dt_ms, d.spawn);
    let v4 = spec_enemy_stage(v3, dt_ms, d.enemy_fire);
    let v5 = spec_integrate_stage(v4, dt_ms);
    let v6 = spec_particles_stage(v5, dt_ms, d.sparks);
    let c = spec_collision_stage(v6);
    let v8 = spec_prune_bullets_stage(c.0, c.1);
    let pe = spec_prune_enemies_stage(v8, d.drops);
    let tr = spec_treasure_stage(pe.0, profile, now_ms);
    let hit = c.2 || pe.1;
    let dmg = spec_damage_stage(tr.0, rows, profile.username@, hit, now_ms);
    (
        dmg.0,
        tr.1,
        dmg.1,
        StepResult { run_over: dmg.2, profile_dirty: tr.2, leaderboard_dirty: dmg.3 },
    )
}

/// Whether one frame's draws lie in the ranges chance supplies: spawn
/// draws within the spawn bands, every reload-and-speed pair within the
/// enemy bands, every spark draw within the spark bands, and every drop
/// roll within the table's range.
pub open spec fn spec_frame_draws_ok(d: FrameDraws) -> bool {
    &&& (match d.spawn {
        Some(dr) => spec_spawn_draws_ok(dr),
        None => true,
    })
    &&& (forall|i: int|
        0 <= i < d.enemy_fire.len() ==> (900 <= (#[trigger] d.enemy_fire[i]).0 <= 1600 && 240_000
            <= d.enemy_fire[i].1 <= 320_000))
    &&& (forall|i: int| 0 <= i < d.sparks.len() ==> spec_spark_draws_ok(#[trigger] d.sparks[i]))
    &&& (forall|i: int|
        0 <= i < d.drops.len() ==> (0 <= (#[trigger] d.drops[i]).0 <= 100 && 90_000
            <= d.drops[i].1 <= 150_000))
}

/// One frame of the simulation while the application is in its playing
/// state. The stages run in a fixed order: apply the frame's discrete
/// commands, expire the timed mode, move and fire the player, pace enemy
/// spawning, advance and fire the enemies, advance projectiles and
/// pickups, tend the cosmetic sparks, resolve collisions, prune and
/// reward, apply pickups, then apply damage and — once the lives run
/// out — finalize the run. The whole frame is pinned down: the final
/// state, profile, leaderboard and report equal `spec_frame` of the
/// starting state and the returned draws. The report says whether the
/// run ended and which stores must be persisted; the caller performs
/// that I/O.
#[verifier::rlimit(100)]
#[verifier::spinoff_prover]
pub fn update_playing(
    profile: &mut PlayerProfile,
    leaderboard: &mut Leaderboard,
    game: &mut Game,
    input: &InputFrame,
    now_ms: u64,
    dt_ms: u32,
) -> (r: (StepResult, Ghost<FrameDraws>))
    requires
        spec_game_wf(*old(game)),
        spec_profile_wf(*old(profile)),
        spec_leaderboard_wf(*old(leaderboard)),
        now_ms < MAX_TIME_MS,
        dt_ms <= MAX_DT_MS,
    ensures
        spec_frame_draws_ok(r.1@),
        ({
            let fr = spec_frame(
                spec_game_view(*old(game)),
                *old(profile),
                spec_lb_view(*old(leaderboard)),
                *input,
                now_ms,
                dt_ms,
                r.1@,
            );
            &&& spec_game_view(*final(game)) == fr.0
            &&& *final(profile) == fr.1
            &&& spec_lb_view(*final(leaderboard)) == fr.2
            &&& r.0 == fr.3
        }),
        spec_game_wf(*final(game)),
        spec_profile_wf(*final(profile)),
        spec_leaderboard_wf(*final(leaderboard)),
        final(profile).username@ == old(profile).username@,
        final(profile).plane_style == old(profile).plane_style,
        final(profile).permanent.bullet_level >= old(profile).permanent.bullet_level,
        final(profile).permanent.max_lives >= old(profile).permanent.max_lives,
        final(game).score >= old(game).score,
        final(game).enemy_spawn_interval <= old(game).enemy_spawn_interval,
        final(game).enemy_spawn_interval >= SPAWN_INTERVAL_FLOOR,
        r.0.leaderboard_dirty ==> !old(game).just_saved_score && final(game).just_saved_score
            && spec_lb_view(*final(leaderboard)) == spec_record(
            spec_lb_view(*old(leaderboard)),
            (old(profile).username@, final(game).score),
        ),
        !r.0.leaderboard_dirty ==> *final(leaderboard) == *old(leaderboard),
        r.0.run_over ==> final(game).just_saved_score && final(game).player.lives == 0,
        old(game).just_saved_score ==> final(game).just_saved_score,
{
    let ghost w0 = spec_game_view(*game);
    if input.toggle_auto_fire {
        game.auto_fire = !game.auto_fire;
    }
    if let Some(m) = input.select_mode {
        game.player.manual_mode = Some(m);
    }
    if input.clear_mode {
        game.player.manual_mode = None;
    }
    if input.cheat_invincible {
        game.player.invincible_until = now_ms + CHEAT_INVINCIBLE_MS;
    }
    let ghost w1 = spec_commands_stage(w0, *input, now_ms);
    proof {
        assert(spec_game_view(*game) == w1) by {
            reveal(spec_commands_stage);
        }
    }
    expire_temp_mode(&mut game.player, now_ms);
    move_player(&mut game.player, input.left, input.right, input.up, input.down, dt_ms);
    update_player_fire(game, input.fire_held, now_ms, dt_ms);
    let ghost w2 = spec_player_stage(w1, *input, now_ms, dt_ms);
    proof {
        assert(spec_game_view(*game) == w2) by {
            reveal(spec_player_stage);
        }
    }
    let spawn_draws = advance_spawning(game, dt_ms);
    let ghost w3 = spec_spawn_stage(w2, dt_ms, spawn_draws@);
    proof {
        assert(spec_game_view(*game) == w3) by {
            reveal(spec_spawn_stage);
            if spawn_draws@ is Some {
                assert(game.enemies@ =~= w2.enemies + seq![
                    spec_spawned_enemy(spawn_draws@->Some_0),
                ]);
            }
        }
    }
    let fire_draws = move_enemies_and_fire(game, dt_ms);
    proof {
        assert(game.enemy_spawn_interval <= w2.enemy_spawn_interval) by {
            if game.enemy_spawn_interval != w2.enemy_spawn_interval {
                assert((w2.enemy_spawn_interval * 995) / 1000 <= w2.enemy_spawn_interval)
                    by (nonlinear_arith)
                    requires
                        w2.enemy_spawn_interval >= 0,
                ;
            }
        }
    }
    let ghost w4 = spec_enemy_stage(w3, dt_ms, fire_draws@);
    proof {
        assert(spec_game_view(*game) == w4) by {
            reveal(spec_enemy_stage);
            assert(game.enemies@ =~= Seq::new(
                w3.enemies.len(),
                |i: int|
                    if spec_enemy_fires(w3.enemies[i], dt_ms) {
                        Enemy { shot_timer: fire_draws@[i].0, ..spec_enemy_moved(w3.enemies[i], dt_ms) }
                    } else {
                        spec_enemy_moved(w3.enemies[i], dt_ms)
                    },
            ));
        }
    }
    let ghost bullets_pre_integrate = game.bullets@;
    integrate_bullets(game, dt_ms);
    proof {
        assert forall|i: int| 0 <= i < game.bullets@.len() implies spec_bullet_in_flight(
            #[trigger] game.bullets@[i],
        ) by {
            lemma_scaled_bound(bullets_pre_integrate[i].vel.x, dt_ms);
            lemma_scaled_bound(bullets_pre_integrate[i].vel.y, dt_ms);
        }
    }
    let ghost treasures_pre_integrate = game.treasures@;
    integrate_treasures(game, dt_ms);
    proof {
        assert forall|i: int| 0 <= i < game.treasures@.len() implies spec_treasure_in_flight(
            #[trigger] game.treasures@[i],
        ) by {
            lemma_scaled_bound(treasures_pre_integrate[i].vel.x, dt_ms);
            lemma_scaled_bound(treasures_pre_integrate[i].vel.y, dt_ms);
            assert(spec_scaled(0i64, dt_ms) == 0);
        }
    }
    let ghost w5 = spec_integrate_stage(w4, dt_ms);
    proof {
        assert(spec_game_view(*game) == w5) by {
            reveal(spec_integrate_stage);
            assert(game.bullets@ =~= Seq::new(
                w4.bullets.len(),
                |i: int| Bullet {
                    pos: spec_integrated(w4.bullets[i].pos, w4.bullets[i].vel, dt_ms),
                    ..w4.bullets[i]
                },
            ));
            assert(game.treasures@ =~= Seq::new(
                w4.treasures.len(),
                |i: int| Treasure {
                    pos: spec_integrated(w4.treasures[i].pos, w4.treasures[i].vel, dt_ms),
                    ..w4.treasures[i]
                },
            ));
        }
    }
    let spark_draws = spawn_sparks(game, now_ms);
    age_particles(game, dt_ms);
    let ghost w6 = spec_particles_stage(w5, dt_ms, spark_draws@);
    proof {
        assert(spec_game_view(*game) == w6) by {
            reveal(spec_particles_stage);
        }
    }
    let collision = resolve_collisions(game);
    let alive = collision.0;
    let bullet_hit = collision.1;
    let ghost c7 = spec_collision_stage(w6);
    proof {
        assert(spec_game_view(*game) == c7.0 && alive@ == c7.1 && bullet_hit == c7.2) by {
            reveal(spec_collision_stage);
        }
    }
    prune_bullets(game, &alive);
    let ghost w8 = spec_prune_bullets_stage(c7.0, alive@);
    proof {
        assert(spec_game_view(*game) == w8) by {
            reveal(spec_prune_bullets_stage);
        }
    }
    let pruned = prune_enemies(game);
    let ram_hit = pruned.1;
    let ghost pe9 = spec_prune_enemies_stage(w8, pruned.0@);
    proof {
        assert(spec_game_view(*game) == pe9.0 && ram_hit == pe9.1) by {
            reveal(spec_prune_enemies_stage);
        }
    }
    let ghost profile0 = *profile;
    let profile_dirty = collect_treasures(game, profile, now_ms);
    let ghost tr10 = spec_treasure_stage(pe9.0, profile0, now_ms);
    proof {
        assert(spec_game_view(*game) == tr10.0 && *profile == tr10.1 && profile_dirty == tr10.2)
            by {
            reveal(spec_treasure_stage);
        }
    }
    let player_hit = bullet_hit || ram_hit;
    let ghost rows0 = spec_lb_view(*leaderboard);
    let damage = apply_damage(game, leaderboard, profile.username.as_str(), player_hit, now_ms);
    let ghost dmg = spec_damage_stage(tr10.0, rows0, profile0.username@, player_hit, now_ms);
    proof {
        assert(spec_game_view(*game) == dmg.0 && spec_lb_view(*leaderboard) == dmg.1 && damage.0
            == dmg.2 && damage.1 == dmg.3) by {
            reveal(spec_damage_stage);
        }
    }
    let ghost draws = FrameDraws {
        spawn: spawn_draws@,
        enemy_fire: fire_draws@,
        sparks: spark_draws@,
        drops: pruned.0@,
    };
    (
        StepResult { run_over: damage.0, profile_dirty, leaderboard_dirty: damage.1 },
        Ghost(draws),
    )
}

} // verus!
