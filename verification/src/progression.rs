//! Progression rules: what a picked-up treasure does to the live player
//! and the durable profile, when the profile must be persisted, and the
//! weighted drop table rolled when an enemy dies.
use vstd::prelude::*;

use crate::geom::Vec2i;
use crate::model::BulletMode;
use crate::model::Player;
use crate::model::Treasure;
use crate::model::TreasureKind;
use crate::model::spec_player_wf;
use crate::rng::rand_range_u32;
use crate::save::PlayerProfile;
use crate::save::PermanentUpgrades;
use crate::save::spec_profile_wf;

verus! {

/// Every absolute timestamp the simulation accepts stays below this, so
/// that adding any of the fixed durations cannot overflow.
pub const MAX_TIME_MS: u64 = 0x4000_0000_0000_0000;

/// Invincibility granted by the timed pickup, ms.
pub const INVINCIBLE_PICKUP_MS: u64 = 5_000;

/// Lifetime of the timed spread-fire mode, ms.
pub const SPREAD_MODE_MS: u64 = 9_000;

/// Lifetime of the timed laser-fire mode, ms.
pub const LASER_MODE_MS: u64 = 6_000;

/// What applying a treasure yields: the new profile, the new player, and
/// whether the profile must be durably persisted.
pub open spec fn spec_apply_treasure(
    profile: PlayerProfile,
    player: Player,
    kind: TreasureKind,
    now_ms: u64,
) -> (PlayerProfile, Player, bool) {
    match kind {
        TreasureKind::BulletUpgradePermanent => {
            let lvl = if profile.permanent.bullet_level >= 3 {
                3u8
            } else {
                (profile.permanent.bullet_level + 1) as u8
            };
            (
                PlayerProfile {
                    permanent: PermanentUpgrades { bullet_level: lvl, ..profile.permanent },
                    ..profile
                },
                Player { base_bullet_level: lvl, ..player },
                true,
            )
        },
        TreasureKind::MaxLifePermanent => {
            let ml = if profile.permanent.max_lives >= 9 {
                9u8
            } else {
                (profile.permanent.max_lives + 1) as u8
            };
            let lives = if player.lives + 1 <= ml as i32 {
                (player.lives + 1) as i32
            } else {
                ml as i32
            };
            (
                PlayerProfile {
                    permanent: PermanentUpgrades { max_lives: ml, ..profile.permanent },
                    ..profile
                },
                Player { max_lives: ml as i32, lives, ..player },
                true,
            )
        },
        TreasureKind::LifePlus => {
            let lives = if player.lives + 1 <= player.max_lives {
                (player.lives + 1) as i32
            } else {
                player.max_lives
            };
            (profile, Player { lives, ..player }, false)
        },
        TreasureKind::InvincibleTimed => (
            profile,
            Player { invincible_until: (now_ms + INVINCIBLE_PICKUP_MS) as u64, ..player },
            false,
        ),
        TreasureKind::SpreadTimed => (
            profile,
            Player {
                temp_mode: Some((BulletMode::Spread, (now_ms + SPREAD_MODE_MS) as u64)),
                ..player
            },
            false,
        ),
        TreasureKind::LaserTimed => (
            profile,
            Player {
                temp_mode: Some((BulletMode::Laser, (now_ms + LASER_MODE_MS) as u64)),
                ..player
            },
            false,
        ),
    }
}

/// Apply a picked-up treasure at time `now_ms`, dispatched by kind:
/// permanent kinds raise the profile's capped upgrade and mirror it into
/// the live player (and must be persisted); the rest touch only the live
/// player. A new timed mode replaces any existing one outright.
pub fn apply_treasure(
    profile: &mut PlayerProfile,
    player: &mut Player,
    kind: TreasureKind,
    now_ms: u64,
) -> (persist: bool)
    requires
        spec_profile_wf(*old(profile)),
        spec_player_wf(*old(player)),
        now_ms < MAX_TIME_MS,
    ensures
        (*final(profile), *final(player), persist) == spec_apply_treasure(
            *old(profile),
            *old(player),
            kind,
            now_ms,
        ),
        spec_profile_wf(*final(profile)),
        spec_player_wf(*final(player)),
        persist == (kind == TreasureKind::BulletUpgradePermanent || kind
            == TreasureKind::MaxLifePermanent),
        final(profile).permanent.bullet_level >= old(profile).permanent.bullet_level,
        final(profile).permanent.max_lives >= old(profile).permanent.max_lives,
        final(profile).username@ == old(profile).username@,
        final(player).pos == old(player).pos,
        final(player).shot_timer == old(player).shot_timer,
{
    match kind {
        TreasureKind::BulletUpgradePermanent => {
            let lvl: u8 = if profile.permanent.bullet_level >= 3 {
                3
            } else {
                profile.permanent.bullet_level + 1
            };
            profile.permanent.bullet_level = lvl;
            player.base_bullet_level = lvl;
            true
        },
        TreasureKind::MaxLifePermanent => {
            let ml: u8 = if profile.permanent.max_lives >= 9 {
                9
            } else {
                profile.permanent.max_lives + 1
            };
            profile.permanent.max_lives = ml;
            player.max_lives = ml as i32;
            player.lives = if player.lives + 1 <= ml as i32 {
                player.lives + 1
            } else {
                ml as i32
            };
            true
        },
        TreasureKind::LifePlus => {
            player.lives = if player.lives + 1 <= player.max_lives {
                player.lives + 1
            } else {
                player.max_lives
            };
            false
        },
        TreasureKind::InvincibleTimed => {
            player.invincible_until = now_ms + INVINCIBLE_PICKUP_MS;
            false
        },
        TreasureKind::SpreadTimed => {
            player.temp_mode = Some((BulletMode::Spread, now_ms + SPREAD_MODE_MS));
            false
        },
        TreasureKind::LaserTimed => {
            player.temp_mode = Some((BulletMode::Laser, now_ms + LASER_MODE_MS));
            false
        },
    }
}

/// The weighted drop table: one roll in `[0, 100)` either selects no drop
/// (the majority band, 30 and above) or one treasure kind from fixed
/// disjoint bands; the two permanent upgrades are strictly the rarest
/// (three and four values of a hundred, every timed or life kind five
/// or more).
pub open spec fn spec_treasure_for_roll(roll: u32) -> Option<TreasureKind> {
    if roll < 3 {
        Some(TreasureKind::MaxLifePermanent)
    } else if roll < 7 {
        Some(TreasureKind::BulletUpgradePermanent)
    } else if roll < 13 {
        Some(TreasureKind::InvincibleTimed)
    } else if roll < 19 {
        Some(TreasureKind::LaserTimed)
    } else if roll < 25 {
        Some(TreasureKind::SpreadTimed)
    } else if roll < 30 {
        Some(TreasureKind::LifePlus)
    } else {
        None
    }
}

/// The treasure kind a given roll selects, if any.
pub fn treasure_for_roll(roll: u32) -> (r: Option<TreasureKind>)
    ensures
        r == spec_treasure_for_roll(roll),
{
    if roll < 3 {
        Some(TreasureKind::MaxLifePermanent)
    } else if roll < 7 {
        Some(TreasureKind::BulletUpgradePermanent)
    } else if roll < 13 {
        Some(TreasureKind::InvincibleTimed)
    } else if roll < 19 {
        Some(TreasureKind::LaserTimed)
    } else if roll < 25 {
        Some(TreasureKind::SpreadTimed)
    } else if roll < 30 {
        Some(TreasureKind::LifePlus)
    } else {
        None
    }
}

/// What one drop roll adds at `at`: nothing, or a single treasure of the
/// selected kind falling straight down at `vy` milli-pixels per second.
pub open spec fn spec_drop_result(at: Vec2i, roll: u32, vy: i64) -> Seq<Treasure> {
    match spec_treasure_for_roll(roll) {
        Some(kind) => seq![
            Treasure { pos: at, vel: Vec2i { x: 0, y: vy }, kind, radius: 12_000 },
        ],
        None => Seq::empty(),
    }
}

/// Roll the drop table once for a dead enemy at `at` and append the
/// selected treasure, if any. The ghost result tells which roll and fall
/// speed chance supplied.
pub fn maybe_drop_treasure(treasures: &mut Vec<Treasure>, at: Vec2i) -> (draws: Ghost<(u32, i64)>)
    ensures
        0 <= draws@.0 <= 100,
        90_000 <= draws@.1 <= 150_000,
        final(treasures)@ == old(treasures)@ + spec_drop_result(at, draws@.0, draws@.1),
{
    let ghost t0 = treasures@;
    let roll = rand_range_u32(0, 100);
    let vy_draw = rand_range_u32(90_000, 150_000);
    let vy = vy_draw as i64;
    match treasure_for_roll(roll) {
        Some(kind) => {
            treasures.push(Treasure { pos: at, vel: Vec2i { x: 0, y: vy }, kind, radius: 12_000 });
            proof {
                assert(treasures@ =~= t0 + spec_drop_result(at, roll, vy));
            }
            Ghost((roll, vy))
        },
        None => {
            proof {
                assert(treasures@ =~= t0 + spec_drop_result(at, roll, vy));
            }
            Ghost((roll, vy))
        },
    }
}

} // verus!
