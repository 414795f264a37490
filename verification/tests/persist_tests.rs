use plane_battle::{
    encode_leaderboard, encode_profile, parse_leaderboard, parse_profile, Leaderboard,
    PermanentUpgrades, PlayerProfile, SaveStore, ScoreEntry, StagedFile,
};

fn profile(name: &str, style: u8, bl: u8, ml: u8) -> PlayerProfile {
    PlayerProfile {
        username: String::from(name),
        plane_style: style,
        permanent: PermanentUpgrades { bullet_level: bl, max_lives: ml },
    }
}

#[test]
fn profile_roundtrip_plain() {
    let p = profile("ace", 2, 3, 9);
    let doc = encode_profile(&p);
    let q = parse_profile(&doc).expect("own encoding parses");
    assert_eq!(q, p);
}

#[test]
fn profile_roundtrip_with_quotes_and_backslashes() {
    let p = profile("a\"b\\c\"\"", 0, 1, 1);
    let doc = encode_profile(&p);
    let q = parse_profile(&doc).expect("escaped encoding parses");
    assert_eq!(q.username, p.username);
    assert_eq!(q, p);
}

#[test]
fn profile_roundtrip_unicode_name() {
    let p = profile("凡人修仙", 1, 2, 5);
    let doc = encode_profile(&p);
    assert_eq!(parse_profile(&doc), Some(p));
}

#[test]
fn profile_document_shape() {
    let p = profile("ace", 0, 1, 3);
    let doc = encode_profile(&p);
    assert_eq!(
        doc,
        "{\"username\":\"ace\",\"plane_style\":0,\"permanent\":{\"bullet_level\":1,\"max_lives\":3}}"
    );
}

#[test]
fn profile_without_style_field_defaults_it() {
    let doc = "{\"username\":\"ada\",\"permanent\":{\"bullet_level\":2,\"max_lives\":4}}";
    let p = parse_profile(doc).expect("a missing style field falls back to its default");
    assert_eq!(p.username, "ada");
    assert_eq!(p.plane_style, 0);
    assert_eq!(p.permanent.bullet_level, 2);
    assert_eq!(p.permanent.max_lives, 4);
}

#[test]
fn corrupt_profile_documents_parse_to_none() {
    assert_eq!(parse_profile(""), None);
    assert_eq!(parse_profile("not json"), None);
    assert_eq!(parse_profile("{\"username\":\"x\""), None);
    // Trailing bytes after the document are corruption.
    let mut doc = encode_profile(&profile("ace", 0, 1, 3));
    doc.push(' ');
    assert_eq!(parse_profile(&doc), None);
    // Upgrade fields outside their stated bands are corruption.
    let zero =
        "{\"username\":\"x\",\"plane_style\":0,\"permanent\":{\"bullet_level\":0,\"max_lives\":3}}";
    assert_eq!(parse_profile(zero), None);
    let high =
        "{\"username\":\"x\",\"plane_style\":0,\"permanent\":{\"bullet_level\":1,\"max_lives\":10}}";
    assert_eq!(parse_profile(high), None);
}

#[test]
fn leaderboard_roundtrip() {
    let lb = Leaderboard {
        entries: vec![
            ScoreEntry { username: String::from("ace"), score: 300 },
            ScoreEntry { username: String::from("bo\"b"), score: 200 },
        ],
    };
    let doc = encode_leaderboard(&lb);
    let back = parse_leaderboard(&doc).expect("own encoding parses");
    assert_eq!(back.entries.len(), 2);
    assert_eq!(back.entries[0].username, "ace");
    assert_eq!(back.entries[0].score, 300);
    assert_eq!(back.entries[1].username, "bo\"b");
    assert_eq!(back.entries[1].score, 200);
}

#[test]
fn empty_leaderboard_roundtrip() {
    let lb = Leaderboard { entries: Vec::new() };
    let doc = encode_leaderboard(&lb);
    assert_eq!(doc, "{\"entries\":[]}");
    let back = parse_leaderboard(&doc).expect("empty board parses");
    assert!(back.entries.is_empty());
}

#[test]
fn unsorted_or_oversized_leaderboard_documents_parse_to_none() {
    let unsorted = "{\"entries\":[{\"username\":\"a\",\"score\":1},{\"username\":\"b\",\"score\":2}]}";
    assert_eq!(parse_leaderboard(unsorted), None);
    let mut big = Leaderboard { entries: Vec::new() };
    for i in 0..21u32 {
        big.entries.push(ScoreEntry { username: String::from("p"), score: 100 - i });
    }
    let doc = encode_leaderboard(&big);
    assert_eq!(parse_leaderboard(&doc), None);
    assert_eq!(parse_leaderboard("{\"entries\":["), None);
    assert_eq!(parse_leaderboard("junk"), None);
}

#[test]
fn staged_write_interrupted_before_commit_keeps_old_content() {
    let mut f = StagedFile::new();
    assert!(f.read().is_none());
    f.stage(String::from("old record"));
    f.commit();
    assert_eq!(f.read().unwrap(), "old record");
    // A new write is staged but the process stops before the replace
    // step: the reader still sees the old record, never a torn one.
    f.stage(String::from("new record"));
    assert_eq!(f.read().unwrap(), "old record");
    // Once the replace step runs, the new record is fully visible.
    f.commit();
    assert_eq!(f.read().unwrap(), "new record");
}

#[test]
fn store_paths() {
    let store = SaveStore::new();
    assert_eq!(store.profile_path(), "save/profile.json");
    assert_eq!(store.leaderboard_path(), "save/leaderboard.json");
}
