use plane_battle::{
    apply_treasure, maybe_drop_treasure, treasure_for_roll, BulletMode, Game, PermanentUpgrades,
    PlayerProfile, TreasureKind, Vec2i,
};

fn profile(bullet_level: u8, max_lives: u8) -> PlayerProfile {
    PlayerProfile {
        username: String::from("ace"),
        plane_style: 0,
        permanent: PermanentUpgrades { bullet_level, max_lives },
    }
}

#[test]
fn bullet_upgrade_increments_and_caps() {
    let mut p = profile(1, 3);
    let mut player = Game::new(&p).player;
    let persist = apply_treasure(&mut p, &mut player, TreasureKind::BulletUpgradePermanent, 0);
    assert!(persist);
    assert_eq!(p.permanent.bullet_level, 2);
    assert_eq!(player.base_bullet_level, 2);
    let mut p3 = profile(3, 3);
    let mut player3 = Game::new(&p3).player;
    assert!(apply_treasure(&mut p3, &mut player3, TreasureKind::BulletUpgradePermanent, 0));
    assert_eq!(p3.permanent.bullet_level, 3);
}

#[test]
fn max_life_upgrade_increments_caps_and_grants_a_life() {
    let mut p = profile(1, 3);
    let mut player = Game::new(&p).player;
    player.lives = 1;
    assert!(apply_treasure(&mut p, &mut player, TreasureKind::MaxLifePermanent, 0));
    assert_eq!(p.permanent.max_lives, 4);
    assert_eq!(player.max_lives, 4);
    assert_eq!(player.lives, 2);
    let mut p9 = profile(1, 9);
    let mut player9 = Game::new(&p9).player;
    assert!(apply_treasure(&mut p9, &mut player9, TreasureKind::MaxLifePermanent, 0));
    assert_eq!(p9.permanent.max_lives, 9);
    assert_eq!(player9.max_lives, 9);
    assert_eq!(player9.lives, 9);
}

#[test]
fn life_plus_caps_at_max_and_needs_no_persist() {
    let mut p = profile(1, 3);
    let mut player = Game::new(&p).player;
    assert_eq!(player.lives, 3);
    assert!(!apply_treasure(&mut p, &mut player, TreasureKind::LifePlus, 0));
    assert_eq!(player.lives, 3);
    player.lives = 1;
    assert!(!apply_treasure(&mut p, &mut player, TreasureKind::LifePlus, 0));
    assert_eq!(player.lives, 2);
}

#[test]
fn invincibility_pickup_sets_the_window() {
    let mut p = profile(1, 3);
    let mut player = Game::new(&p).player;
    assert!(!apply_treasure(&mut p, &mut player, TreasureKind::InvincibleTimed, 10_000));
    assert_eq!(player.invincible_until, 15_000);
}

#[test]
fn laser_pickup_replaces_a_running_spread_timer() {
    // A timed laser fully replaces the spread timer: temp_mode holds one
    // pattern at a time.
    let mut p = profile(1, 3);
    let mut player = Game::new(&p).player;
    assert!(!apply_treasure(&mut p, &mut player, TreasureKind::SpreadTimed, 1_000));
    assert_eq!(player.temp_mode, Some((BulletMode::Spread, 10_000)));
    assert!(!apply_treasure(&mut p, &mut player, TreasureKind::LaserTimed, 2_000));
    assert_eq!(player.temp_mode, Some((BulletMode::Laser, 8_000)));
}

#[test]
fn drop_table_bands_are_exact() {
    assert_eq!(treasure_for_roll(0), Some(TreasureKind::MaxLifePermanent));
    assert_eq!(treasure_for_roll(2), Some(TreasureKind::MaxLifePermanent));
    assert_eq!(treasure_for_roll(3), Some(TreasureKind::BulletUpgradePermanent));
    assert_eq!(treasure_for_roll(6), Some(TreasureKind::BulletUpgradePermanent));
    assert_eq!(treasure_for_roll(7), Some(TreasureKind::InvincibleTimed));
    assert_eq!(treasure_for_roll(12), Some(TreasureKind::InvincibleTimed));
    assert_eq!(treasure_for_roll(13), Some(TreasureKind::LaserTimed));
    assert_eq!(treasure_for_roll(18), Some(TreasureKind::LaserTimed));
    assert_eq!(treasure_for_roll(19), Some(TreasureKind::SpreadTimed));
    assert_eq!(treasure_for_roll(24), Some(TreasureKind::SpreadTimed));
    assert_eq!(treasure_for_roll(25), Some(TreasureKind::LifePlus));
    assert_eq!(treasure_for_roll(29), Some(TreasureKind::LifePlus));
    assert_eq!(treasure_for_roll(30), None);
    assert_eq!(treasure_for_roll(99), None);
}

#[test]
fn dropped_treasures_fall_straight_down_within_speed_band() {
    let at = Vec2i { x: 123_000, y: 456_000 };
    let mut treasures = Vec::new();
    for _ in 0..200 {
        let _ = maybe_drop_treasure(&mut treasures, at);
    }
    assert!(treasures.len() <= 200);
    // Drops do appear over 200 rolls with overwhelming likelihood.
    assert!(!treasures.is_empty());
    for t in &treasures {
        assert_eq!(t.pos, at);
        assert_eq!(t.vel.x, 0);
        assert!(t.vel.y >= 90_000 && t.vel.y <= 150_000);
        assert_eq!(t.radius, 12_000);
    }
}
