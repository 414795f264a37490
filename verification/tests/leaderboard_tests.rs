use plane_battle::{record_score, Leaderboard, ScoreEntry};

fn entry(name: &str, score: u32) -> ScoreEntry {
    ScoreEntry { username: String::from(name), score }
}

#[test]
fn recording_into_empty_board() {
    let mut lb = Leaderboard { entries: Vec::new() };
    record_score(&mut lb, "ace", 120);
    assert_eq!(lb.entries.len(), 1);
    assert_eq!(lb.entries[0].username, "ace");
    assert_eq!(lb.entries[0].score, 120);
}

#[test]
fn recording_keeps_descending_order() {
    let mut lb = Leaderboard { entries: vec![entry("a", 300), entry("b", 100)] };
    record_score(&mut lb, "c", 200);
    let scores: Vec<u32> = lb.entries.iter().map(|e| e.score).collect();
    assert_eq!(scores, vec![300, 200, 100]);
    assert_eq!(lb.entries[1].username, "c");
}

#[test]
fn equal_scores_keep_the_older_entry_first() {
    let mut lb = Leaderboard { entries: vec![entry("old", 200), entry("low", 100)] };
    record_score(&mut lb, "new", 200);
    assert_eq!(lb.entries[0].username, "old");
    assert_eq!(lb.entries[1].username, "new");
    assert_eq!(lb.entries[2].username, "low");
}

#[test]
fn board_truncates_to_twenty() {
    let mut lb = Leaderboard { entries: Vec::new() };
    for i in 0..20u32 {
        record_score(&mut lb, "p", 1_000 - i);
    }
    assert_eq!(lb.entries.len(), 20);
    // A low score that lands past the cap is dropped.
    record_score(&mut lb, "late", 1);
    assert_eq!(lb.entries.len(), 20);
    assert_eq!(lb.entries[19].score, 981);
    // A high score enters at the top and the lowest falls off.
    record_score(&mut lb, "champ", 9_999);
    assert_eq!(lb.entries.len(), 20);
    assert_eq!(lb.entries[0].username, "champ");
    assert_eq!(lb.entries[19].score, 982);
    for w in lb.entries.windows(2) {
        assert!(w[0].score >= w[1].score);
    }
}
