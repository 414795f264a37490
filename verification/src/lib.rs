//! Simulation core of a top-down arcade shooter: per-frame updates of the
//! player, enemies, projectiles, pickups and particles, collision resolution,
//! a layered bullet-mode precedence system, durable player progression with a
//! leaderboard, and the coarse application-mode state machine.
//!
//! All coordinates and sizes are integers in thousandths of a pixel
//! (milli-pixels); all times and durations are integers in milliseconds.
//! The hosting frame loop polls input, measures elapsed time and performs
//! file I/O; this crate holds the rules.
use vstd::prelude::*;

mod appmode;
mod codec;
mod geom;
mod model;
mod progression;
mod rng;
mod save;
mod sim;
mod store;

pub use appmode::AppEvent;
pub use appmode::AppMode;
pub use appmode::ModeCommand;
pub use appmode::initial_mode;
pub use appmode::name_char_accepted;
pub use appmode::next_mode;
pub use appmode::validate_name;
pub use geom::Recti;
pub use geom::Vec2i;
pub use geom::circle_hits_rect;
pub use geom::clamp_i64;
pub use geom::rects_overlap;
pub use model::Bullet;
pub use model::BulletKind;
pub use model::BulletMode;
pub use model::Enemy;
pub use model::Game;
pub use model::Particle;
pub use model::Player;
pub use model::Treasure;
pub use model::TreasureKind;
pub use model::plane_level_from_score;
pub use model::plane_level_name;
pub use progression::apply_treasure;
pub use sim::InputFrame;
pub use sim::FrameDraws;
pub use sim::GameView;
pub use sim::StepResult;
pub use sim::spec_frame;
pub use sim::spec_frame_draws_ok;
pub use sim::spec_game_view;
pub use sim::MAX_DT_MS;
pub use sim::advance_spawning;
pub use sim::age_particles;
pub use sim::apply_damage;
pub use sim::collect_treasures;
pub use sim::expire_temp_mode;
pub use sim::finalize_run;
pub use sim::integrate_bullets;
pub use sim::integrate_treasures;
pub use sim::lemma_bullet_damages_at_most_one;
pub use sim::lemma_finalize_idempotent;
pub use sim::move_enemies_and_fire;
pub use sim::move_player;
pub use sim::prune_bullets;
pub use sim::prune_enemies;
pub use sim::resolve_collisions;
pub use sim::shoot_player;
pub use sim::spawn_enemy;
pub use sim::spawn_sparks;
pub use sim::update_player_fire;
pub use sim::update_playing;
pub use progression::MAX_TIME_MS;
pub use progression::maybe_drop_treasure;
pub use progression::treasure_for_roll;
pub use store::StagedFile;
pub use store::lemma_profile_save_round;
pub use store::lemma_staged_write_atomic;
pub use codec::encode_leaderboard;
pub use codec::lemma_leaderboard_roundtrip;
pub use codec::lemma_profile_roundtrip;
pub use codec::parse_leaderboard;
pub use codec::parse_profile;
pub use codec::encode_profile;
pub use save::Leaderboard;
pub use save::PermanentUpgrades;
pub use save::PlayerProfile;
pub use save::SaveStore;
pub use save::ScoreEntry;
pub use save::record_score;

verus! {

/// Width of the play field in milli-pixels.
pub const FIELD_W: i64 = 480_000;

/// Height of the play field in milli-pixels.
pub const FIELD_H: i64 = 720_000;

} // verus!
