use plane_battle::{
    circle_hits_rect, clamp_i64, plane_level_from_score, plane_level_name, rects_overlap, Bullet,
    BulletKind, BulletMode, Game, PermanentUpgrades, PlayerProfile, Player, Recti, Treasure,
    TreasureKind, Vec2i,
};

fn profile(bullet_level: u8, max_lives: u8) -> PlayerProfile {
    PlayerProfile {
        username: String::from("ace"),
        plane_style: 0,
        permanent: PermanentUpgrades { bullet_level, max_lives },
    }
}

fn base_player() -> Player {
    Game::new(&profile(1, 3)).player
}

#[test]
fn bullet_mode_temp_wins_over_everything() {
    let mut p = base_player();
    p.base_bullet_level = 3;
    p.manual_mode = Some(BulletMode::Double);
    p.temp_mode = Some((BulletMode::Laser, 5_000));
    assert_eq!(p.bullet_mode(4_999), BulletMode::Laser);
    assert_eq!(p.bullet_mode(5_000), BulletMode::Laser);
}

#[test]
fn bullet_mode_manual_wins_when_temp_expired() {
    let mut p = base_player();
    p.base_bullet_level = 1;
    p.manual_mode = Some(BulletMode::Spread);
    p.temp_mode = Some((BulletMode::Laser, 5_000));
    assert_eq!(p.bullet_mode(5_001), BulletMode::Spread);
    p.temp_mode = None;
    assert_eq!(p.bullet_mode(0), BulletMode::Spread);
}

#[test]
fn bullet_mode_level_mapping() {
    let mut p = base_player();
    p.manual_mode = None;
    p.temp_mode = None;
    p.base_bullet_level = 1;
    assert_eq!(p.bullet_mode(0), BulletMode::Normal);
    p.base_bullet_level = 2;
    assert_eq!(p.bullet_mode(0), BulletMode::Double);
    p.base_bullet_level = 3;
    assert_eq!(p.bullet_mode(0), BulletMode::Triple);
}

#[test]
fn invincibility_is_a_strict_deadline() {
    let mut p = base_player();
    p.invincible_until = 1_000;
    assert!(p.is_invincible(999));
    assert!(!p.is_invincible(1_000));
}

#[test]
fn plane_levels_from_score() {
    assert_eq!(plane_level_from_score(0), 0);
    assert_eq!(plane_level_from_score(99), 0);
    assert_eq!(plane_level_from_score(100), 1);
    assert_eq!(plane_level_from_score(1_399), 13);
    assert_eq!(plane_level_from_score(1_400), 14);
    assert_eq!(plane_level_from_score(u32::MAX), 14);
}

#[test]
fn plane_level_names_clamp() {
    assert_eq!(plane_level_name(0), "炼气期·初期");
    assert_eq!(plane_level_name(14), "化神期·后期");
    assert_eq!(plane_level_name(99), "化神期·后期");
}

#[test]
fn clamp_behaves() {
    assert_eq!(clamp_i64(5, 0, 10), 5);
    assert_eq!(clamp_i64(-5, 0, 10), 0);
    assert_eq!(clamp_i64(15, 0, 10), 10);
}

#[test]
fn circle_rect_overlap_exact() {
    let rect = Recti { x: 3_000, y: 0, w: 10_000, h: 10_000 };
    // Closest point to the center (0, 0) is (3000, 0): distance 3000.
    assert!(circle_hits_rect(Vec2i { x: 0, y: 0 }, 3_000, rect));
    assert!(!circle_hits_rect(Vec2i { x: 0, y: 0 }, 2_999, rect));
}

#[test]
fn rect_overlap_is_strict() {
    let a = Recti { x: 0, y: 0, w: 10, h: 10 };
    let b = Recti { x: 10, y: 0, w: 10, h: 10 };
    assert!(!rects_overlap(a, b));
    let c = Recti { x: 9, y: 9, w: 10, h: 10 };
    assert!(rects_overlap(a, c));
}

#[test]
fn new_game_clamps_profile_fields() {
    let g = Game::new(&profile(7, 0));
    assert_eq!(g.player.base_bullet_level, 3);
    assert_eq!(g.player.max_lives, 1);
    assert_eq!(g.player.lives, 1);
    let g2 = Game::new(&profile(0, 200));
    assert_eq!(g2.player.base_bullet_level, 1);
    assert_eq!(g2.player.max_lives, 9);
    assert_eq!(g2.player.lives, 9);
    assert_eq!(g2.score, 0);
    assert!(g2.bullets.is_empty());
    assert!(g2.enemies.is_empty());
    assert!(!g2.just_saved_score);
    assert_eq!(g2.enemy_spawn_interval, 850);
}

#[test]
fn treasure_labels() {
    let t = |kind| Treasure { pos: Vec2i { x: 0, y: 0 }, vel: Vec2i { x: 0, y: 0 }, kind, radius: 12_000 };
    assert_eq!(t(TreasureKind::BulletUpgradePermanent).label(), "B+");
    assert_eq!(t(TreasureKind::MaxLifePermanent).label(), "HP+");
    assert_eq!(t(TreasureKind::LifePlus).label(), "HP");
    assert_eq!(t(TreasureKind::InvincibleTimed).label(), "I");
    assert_eq!(t(TreasureKind::SpreadTimed).label(), "S");
    assert_eq!(t(TreasureKind::LaserTimed).label(), "L");
}

#[test]
fn bullet_fields_carry_over() {
    let b = Bullet {
        pos: Vec2i { x: 1, y: 2 },
        vel: Vec2i { x: 3, y: 4 },
        radius: 5,
        damage: 6,
        from_player: true,
        kind: BulletKind::PlayerNormal,
    };
    let c = b;
    assert_eq!(b, c);
}
