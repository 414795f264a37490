use plane_battle::{
    apply_damage, finalize_run, prune_enemies, resolve_collisions, update_playing, Bullet,
    BulletKind, BulletMode, Enemy, Game, InputFrame, Leaderboard, PermanentUpgrades, PlayerProfile,
    Vec2i,
};

fn profile(name: &str) -> PlayerProfile {
    PlayerProfile {
        username: String::from(name),
        plane_style: 0,
        permanent: PermanentUpgrades { bullet_level: 1, max_lives: 3 },
    }
}

fn player_bullet(x: i64, y: i64, damage: i32) -> Bullet {
    Bullet {
        pos: Vec2i { x, y },
        vel: Vec2i { x: 0, y: -520_000 },
        radius: 4_000,
        damage,
        from_player: true,
        kind: BulletKind::PlayerNormal,
    }
}

fn enemy_at(x: i64, y: i64, hp: i32) -> Enemy {
    Enemy {
        pos: Vec2i { x, y },
        size: Vec2i { x: 34_000, y: 28_000 },
        vel: Vec2i { x: 0, y: 100_000 },
        hp,
        shot_timer: 5_000,
    }
}

#[test]
fn idle_frame_changes_little() {
    let p = profile("ace");
    let mut prof = p.clone();
    let mut lb = Leaderboard { entries: Vec::new() };
    let mut game = Game::new(&prof);
    let input = InputFrame::none();
    let (r, _) = update_playing(&mut prof, &mut lb, &mut game, &input, 1_000, 16);
    assert!(!r.run_over);
    assert!(!r.profile_dirty);
    assert!(!r.leaderboard_dirty);
    assert_eq!(prof, p);
    assert!(lb.entries.is_empty());
    assert_eq!(game.enemy_spawn_timer, 16);
    assert!(game.bullets.is_empty());
}

#[test]
fn held_fire_emits_the_pattern() {
    let mut prof = profile("ace");
    let mut lb = Leaderboard { entries: Vec::new() };
    let mut game = Game::new(&prof);
    let mut input = InputFrame::none();
    input.fire_held = true;
    let px = game.player.pos.x;
    let py = game.player.pos.y;
    let (r, _) = update_playing(&mut prof, &mut lb, &mut game, &input, 1_000, 16);
    assert!(!r.run_over);
    assert_eq!(game.bullets.len(), 1);
    // One straight bullet, spawned above the nose and then advanced one
    // frame by its own velocity.
    let b = &game.bullets[0];
    assert_eq!(b.pos.x, px);
    assert_eq!(b.pos.y, py - 26_000 + (-520_000i64 * 16 / 1_000));
    assert_eq!(b.vel, Vec2i { x: 0, y: -520_000 });
    assert!(b.from_player);
    // The trigger reset the timer to the full cooldown.
    assert_eq!(game.player.shot_timer, 140);
}

#[test]
fn spread_mode_fires_three_diverging_bullets() {
    let mut prof = profile("ace");
    let mut lb = Leaderboard { entries: Vec::new() };
    let mut game = Game::new(&prof);
    game.player.manual_mode = Some(BulletMode::Spread);
    let mut input = InputFrame::none();
    input.fire_held = true;
    let (r, _) = update_playing(&mut prof, &mut lb, &mut game, &input, 1_000, 0);
    assert!(!r.run_over);
    assert_eq!(game.bullets.len(), 3);
    assert_eq!(game.bullets[0].vel.x, -120_000);
    assert_eq!(game.bullets[1].vel.x, 0);
    assert_eq!(game.bullets[2].vel.x, 120_000);
}

#[test]
fn movement_integrates_and_clamps() {
    let mut prof = profile("ace");
    let mut lb = Leaderboard { entries: Vec::new() };
    let mut game = Game::new(&prof);
    let x0 = game.player.pos.x;
    let mut input = InputFrame::none();
    input.left = true;
    let _ = update_playing(&mut prof, &mut lb, &mut game, &input, 1_000, 100);
    // 320 px/s for 100 ms is 32 px.
    assert_eq!(game.player.pos.x, x0 - 32_000);
    for _ in 0..100 {
        let _ = update_playing(&mut prof, &mut lb, &mut game, &input, 1_000, 100);
    }
    assert_eq!(game.player.pos.x, 24_000);
}

#[test]
fn one_bullet_damages_at_most_one_enemy() {
    // The bullet's circle overlaps both enemy rectangles; only the first
    // in collection order takes damage.
    let prof = profile("ace");
    let mut game = Game::new(&prof);
    game.enemies.push(enemy_at(100_000, 100_000, 1));
    game.enemies.push(enemy_at(101_000, 100_000, 1));
    game.bullets.push(player_bullet(100_000, 100_000, 1));
    let (alive, player_hit) = resolve_collisions(&mut game);
    assert!(!player_hit);
    assert_eq!(alive, vec![false]);
    assert_eq!(game.enemies[0].hp, 0);
    assert_eq!(game.enemies[1].hp, 1);
}

#[test]
fn two_bullets_finish_a_two_hp_enemy_in_one_frame() {
    // Both bullets test collision before pruning: the enemy ends at zero
    // hit points and is removed with one reward and at most one drop.
    let prof = profile("ace");
    let mut game = Game::new(&prof);
    game.enemies.push(enemy_at(100_000, 100_000, 2));
    game.bullets.push(player_bullet(99_000, 100_000, 1));
    game.bullets.push(player_bullet(101_000, 100_000, 1));
    let (alive, player_hit) = resolve_collisions(&mut game);
    assert!(!player_hit);
    assert_eq!(alive, vec![false, false]);
    assert_eq!(game.enemies[0].hp, 0);
    let treasures_before = game.treasures.len();
    let (_draws, ram) = prune_enemies(&mut game);
    assert!(!ram);
    assert!(game.enemies.is_empty());
    assert_eq!(game.score, 10);
    assert!(game.treasures.len() <= treasures_before + 1);
}

#[test]
fn ramming_enemy_fells_player_and_enemy() {
    let prof = profile("ace");
    let mut game = Game::new(&prof);
    let e = enemy_at(game.player.pos.x, game.player.pos.y, 2);
    game.enemies.push(e);
    let (_alive, hit_by_bullet) = resolve_collisions(&mut game);
    assert!(!hit_by_bullet);
    let (_draws, ram) = prune_enemies(&mut game);
    assert!(ram);
    assert!(game.enemies.is_empty());
    assert_eq!(game.score, 10);
}

#[test]
fn three_unabsorbed_hits_end_the_run_with_one_record() {
    // Full three lives, three hits with the invincibility window expired
    // before each: the lives reach zero and the final score is recorded
    // exactly once.
    let prof = profile("ace");
    let mut lb = Leaderboard { entries: Vec::new() };
    let mut game = Game::new(&prof);
    game.score = 170;
    assert_eq!(game.player.lives, 3);

    let r1 = apply_damage(&mut game, &mut lb, "ace", true, 1_000);
    assert_eq!(r1, (false, false));
    assert_eq!(game.player.lives, 2);
    assert_eq!(game.player.invincible_until, 1_900);

    let r2 = apply_damage(&mut game, &mut lb, "ace", true, 2_000);
    assert_eq!(r2, (false, false));
    assert_eq!(game.player.lives, 1);

    let r3 = apply_damage(&mut game, &mut lb, "ace", true, 3_000);
    assert_eq!(r3, (true, true));
    assert_eq!(game.player.lives, 0);
    assert!(game.just_saved_score);
    assert_eq!(lb.entries.len(), 1);
    assert_eq!(lb.entries[0].username, "ace");
    assert_eq!(lb.entries[0].score, 170);

    // A further terminal check does not double-record the run.
    let r4 = apply_damage(&mut game, &mut lb, "ace", true, 4_000);
    assert_eq!(r4, (true, false));
    assert_eq!(lb.entries.len(), 1);
}

#[test]
fn hits_during_invincibility_are_absorbed() {
    let prof = profile("ace");
    let mut lb = Leaderboard { entries: Vec::new() };
    let mut game = Game::new(&prof);
    game.player.invincible_until = 10_000;
    let r = apply_damage(&mut game, &mut lb, "ace", true, 5_000);
    assert_eq!(r, (false, false));
    assert_eq!(game.player.lives, 3);
}

#[test]
fn finalize_twice_appends_once() {
    let prof = profile("ace");
    let mut lb = Leaderboard { entries: Vec::new() };
    let mut game = Game::new(&prof);
    game.score = 42;
    finalize_run(&mut game, &mut lb, "ace");
    assert!(game.just_saved_score);
    assert_eq!(lb.entries.len(), 1);
    finalize_run(&mut game, &mut lb, "ace");
    assert_eq!(lb.entries.len(), 1);
    assert_eq!(lb.entries[0].score, 42);
}

#[test]
fn spawning_ramps_up_and_respects_the_floor() {
    let mut prof = profile("ace");
    let mut lb = Leaderboard { entries: Vec::new() };
    let mut game = Game::new(&prof);
    let input = InputFrame::none();
    // A frame as long as the interval forces a spawn and one decay step.
    let _ = update_playing(&mut prof, &mut lb, &mut game, &input, 1_000, 850);
    assert_eq!(game.enemies.len(), 1);
    assert_eq!(game.enemy_spawn_timer, 0);
    assert_eq!(game.enemy_spawn_interval, 850 * 995 / 1000);
    let e = &game.enemies[0];
    assert!(e.pos.x >= 20_000 && e.pos.x <= 460_000);
    assert!(e.vel.y >= 90_000 && e.vel.y <= 150_000);
    assert!(e.hp == 1 || e.hp == 2);
    // Many spawns later the interval never sinks below its floor.
    for _ in 0..600 {
        let _ = update_playing(&mut prof, &mut lb, &mut game, &input, 1_000, 2_000);
    }
    assert!(game.enemy_spawn_interval >= 349);
}

#[test]
fn cheat_and_auto_fire_toggles() {
    let mut prof = profile("ace");
    let mut lb = Leaderboard { entries: Vec::new() };
    let mut game = Game::new(&prof);
    let mut input = InputFrame::none();
    input.toggle_auto_fire = true;
    input.cheat_invincible = true;
    let _ = update_playing(&mut prof, &mut lb, &mut game, &input, 1_000, 0);
    assert!(game.auto_fire);
    assert_eq!(game.player.invincible_until, 7_000);
    // Auto fire alone pulls the trigger on the next frame.
    let quiet = InputFrame::none();
    let _ = update_playing(&mut prof, &mut lb, &mut game, &quiet, 1_100, 0);
    assert!(!game.bullets.is_empty());
}

#[test]
fn manual_mode_selection_and_clear() {
    let mut prof = profile("ace");
    let mut lb = Leaderboard { entries: Vec::new() };
    let mut game = Game::new(&prof);
    let mut input = InputFrame::none();
    input.select_mode = Some(BulletMode::Laser);
    let _ = update_playing(&mut prof, &mut lb, &mut game, &input, 1_000, 0);
    assert_eq!(game.player.manual_mode, Some(BulletMode::Laser));
    let mut clear = InputFrame::none();
    clear.clear_mode = true;
    let _ = update_playing(&mut prof, &mut lb, &mut game, &clear, 1_000, 0);
    assert_eq!(game.player.manual_mode, None);
}
