use plane_battle::{
    initial_mode, name_char_accepted, next_mode, validate_name, AppEvent, AppMode, ModeCommand,
};

#[test]
fn initial_mode_depends_on_stored_name() {
    assert_eq!(initial_mode(false), AppMode::EnterName);
    assert_eq!(initial_mode(true), AppMode::Menu);
}

#[test]
fn cancel_paths() {
    assert_eq!(
        next_mode(AppMode::EnterName, AppEvent::Cancel, true),
        (AppMode::EnterName, ModeCommand::Idle)
    );
    assert_eq!(next_mode(AppMode::Menu, AppEvent::Cancel, true), (AppMode::Menu, ModeCommand::Exit));
    assert_eq!(
        next_mode(AppMode::Leaderboard, AppEvent::Cancel, true),
        (AppMode::Menu, ModeCommand::Idle)
    );
    assert_eq!(
        next_mode(AppMode::Playing, AppEvent::Cancel, true),
        (AppMode::Menu, ModeCommand::Idle)
    );
    assert_eq!(
        next_mode(AppMode::Paused, AppEvent::Cancel, true),
        (AppMode::Menu, ModeCommand::Idle)
    );
    assert_eq!(
        next_mode(AppMode::GameOver, AppEvent::Cancel, false),
        (AppMode::Menu, ModeCommand::Idle)
    );
}

#[test]
fn menu_and_play_transitions() {
    assert_eq!(
        next_mode(AppMode::EnterName, AppEvent::NameAccepted, true),
        (AppMode::Menu, ModeCommand::Idle)
    );
    assert_eq!(
        next_mode(AppMode::Menu, AppEvent::Confirm, true),
        (AppMode::Playing, ModeCommand::NewRun)
    );
    assert_eq!(
        next_mode(AppMode::Menu, AppEvent::ViewLeaderboard, true),
        (AppMode::Leaderboard, ModeCommand::Idle)
    );
    assert_eq!(
        next_mode(AppMode::Playing, AppEvent::PauseToggle, true),
        (AppMode::Paused, ModeCommand::Idle)
    );
    assert_eq!(
        next_mode(AppMode::Playing, AppEvent::RunEnded, true),
        (AppMode::GameOver, ModeCommand::Idle)
    );
    assert_eq!(
        next_mode(AppMode::Paused, AppEvent::PauseToggle, true),
        (AppMode::Playing, ModeCommand::Idle)
    );
    assert_eq!(
        next_mode(AppMode::Paused, AppEvent::Confirm, true),
        (AppMode::Playing, ModeCommand::Idle)
    );
    assert_eq!(
        next_mode(AppMode::Paused, AppEvent::MenuKey, true),
        (AppMode::Menu, ModeCommand::Idle)
    );
}

#[test]
fn game_over_respects_the_bounce_cooldown() {
    assert_eq!(
        next_mode(AppMode::GameOver, AppEvent::Confirm, false),
        (AppMode::GameOver, ModeCommand::Idle)
    );
    assert_eq!(
        next_mode(AppMode::GameOver, AppEvent::Confirm, true),
        (AppMode::Playing, ModeCommand::NewRun)
    );
    assert_eq!(
        next_mode(AppMode::GameOver, AppEvent::MenuKey, false),
        (AppMode::GameOver, ModeCommand::Idle)
    );
    assert_eq!(
        next_mode(AppMode::GameOver, AppEvent::MenuKey, true),
        (AppMode::Menu, ModeCommand::Idle)
    );
}

#[test]
fn irrelevant_events_stay_put() {
    assert_eq!(
        next_mode(AppMode::Menu, AppEvent::PauseToggle, true),
        (AppMode::Menu, ModeCommand::Idle)
    );
    assert_eq!(
        next_mode(AppMode::Leaderboard, AppEvent::Confirm, true),
        (AppMode::Leaderboard, ModeCommand::Idle)
    );
}

#[test]
fn name_validation_trims_and_rejects_empty() {
    assert_eq!(validate_name("  bob  "), Some(String::from("bob")));
    assert_eq!(validate_name("bob"), Some(String::from("bob")));
    assert_eq!(validate_name("\t a b \n"), Some(String::from("a b")));
    assert_eq!(validate_name(""), None);
    assert_eq!(validate_name("   "), None);
    assert_eq!(validate_name(" \t\r\n"), None);
}

#[test]
fn name_entry_filters_characters() {
    assert!(name_char_accepted(0, 'a'));
    assert!(name_char_accepted(11, '字'));
    assert!(!name_char_accepted(12, 'a'));
    assert!(!name_char_accepted(0, '\n'));
    assert!(!name_char_accepted(0, '\u{7f}'));
    assert!(!name_char_accepted(0, '\u{9f}'));
    assert!(name_char_accepted(0, '\u{a0}'));
}
