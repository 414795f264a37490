//! Durable progression data: the player profile with its permanent
//! upgrades, the leaderboard with its capacity and ordering invariant, and
//! the store that names where each record lives. Reading and writing the
//! records themselves is the hosting program's job; encoding and decoding
//! them is in `codec`.
use vstd::prelude::*;

verus! {

/// Most entries the leaderboard ever stores: only the highest twenty
/// survive a truncation after insertion.
pub const LEADERBOARD_CAP: usize = 20;

/// Identity plus durable progression of one player.
#[derive(Clone, Debug, PartialEq, Eq)]
pub struct PlayerProfile {
    /// Display name, chosen once on first run.
    pub username: String,
    /// Reserved visual style selector; the simulation does not read it.
    pub plane_style: u8,
    pub permanent: PermanentUpgrades,
}

/// The upgrades that survive across runs.
#[derive(Clone, Copy, Debug, PartialEq, Eq, Structural)]
pub struct PermanentUpgrades {
    /// Firing level, 1 to 3.
    pub bullet_level: u8,
    /// Life capacity, 1 to 9.
    pub max_lives: u8,
}

/// Profile whose permanent upgrades are inside their stated bounds.
pub open spec fn spec_profile_wf(p: PlayerProfile) -> bool {
    &&& 1 <= p.permanent.bullet_level <= 3
    &&& 1 <= p.permanent.max_lives <= 9
}

impl Default for PermanentUpgrades {
    /// The starting upgrades: level-one bullets, three lives.
    fn default() -> (r: Self)
        ensures
            r.bullet_level == 1,
            r.max_lives == 3,
    {
        PermanentUpgrades { bullet_level: 1, max_lives: 3 }
    }
}

impl Default for PlayerProfile {
    /// The profile used when none is stored: empty name, default upgrades.
    fn default() -> (r: Self)
        ensures
            r.username@ == Seq::<char>::empty(),
            r.plane_style == 0,
            r.permanent.bullet_level == 1,
            r.permanent.max_lives == 3,
    {
        PlayerProfile {
            username: String::new(),
            plane_style: 0,
            permanent: PermanentUpgrades { bullet_level: 1, max_lives: 3 },
        }
    }
}

/// One leaderboard row.
#[derive(Clone, Debug, PartialEq, Eq)]
pub struct ScoreEntry {
    pub username: String,
    pub score: u32,
}

/// The persistent leaderboard.
#[derive(Clone, Debug, PartialEq, Eq)]
pub struct Leaderboard {
    pub entries: Vec<ScoreEntry>,
}

impl Default for Leaderboard {
    /// The leaderboard used when none is stored: no entries.
    fn default() -> (r: Self)
        ensures
            r.entries@.len() == 0,
    {
        Leaderboard { entries: Vec::new() }
    }
}

/// The mathematical content of one leaderboard row: the name's character
/// sequence and the score.
pub open spec fn spec_entry_view(e: ScoreEntry) -> (Seq<char>, u32) {
    (e.username@, e.score)
}

/// The mathematical content of the whole leaderboard.
pub open spec fn spec_lb_view(lb: Leaderboard) -> Seq<(Seq<char>, u32)> {
    lb.entries@.map_values(|e: ScoreEntry| spec_entry_view(e))
}

/// Rows ordered by score, highest first.
pub open spec fn spec_sorted_desc(s: Seq<(Seq<char>, u32)>) -> bool {
    forall|i: int, j: int| 0 <= i < j < s.len() ==> (#[trigger] s[i]).1 >= (#[trigger] s[j]).1
}

/// The leaderboard invariant: sorted by score descending, at most
/// `LEADERBOARD_CAP` entries.
pub open spec fn spec_leaderboard_wf(lb: Leaderboard) -> bool {
    &&& spec_sorted_desc(spec_lb_view(lb))
    &&& lb.entries@.len() <= LEADERBOARD_CAP as int
}

/// Where a new row with this score lands in a descending list: after
/// every row whose score is at least as high.
pub open spec fn spec_insert_pos(s: Seq<(Seq<char>, u32)>, score: u32) -> int
    decreases s.len(),
{
    if s.len() == 0 {
        0
    } else if s[0].1 >= score {
        1 + spec_insert_pos(s.drop_first(), score)
    } else {
        0
    }
}

/// What recording a score does to a sorted list: insert the new row
/// after all rows with an equal or higher score, keep the first
/// `LEADERBOARD_CAP` rows.
pub open spec fn spec_record(s: Seq<(Seq<char>, u32)>, e: (Seq<char>, u32)) -> Seq<
    (Seq<char>, u32),
> {
    let inserted = s.insert(spec_insert_pos(s, e.1), e);
    if inserted.len() <= LEADERBOARD_CAP as int {
        inserted
    } else {
        inserted.take(LEADERBOARD_CAP as int)
    }
}

/// Append one finished run's score and restore the invariant: the new
/// row goes after all rows that beat or tie it, and only the highest
/// `LEADERBOARD_CAP` rows survive.
pub fn record_score(lb: &mut Leaderboard, username: &str, score: u32)
    requires
        spec_leaderboard_wf(*old(lb)),
    ensures
        spec_leaderboard_wf(*final(lb)),
        spec_lb_view(*final(lb)) == spec_record(spec_lb_view(*old(lb)), (username@, score)),
        final(lb).entries@.len() == if old(lb).entries@.len() < LEADERBOARD_CAP as int {
            old(lb).entries@.len() as int + 1
        } else {
            LEADERBOARD_CAP as int
        },
{
    let entry = ScoreEntry { username: username.to_owned(), score };
    let ghost s0 = spec_lb_view(*lb);
    let mut pos: usize = 0;
    while pos < lb.entries.len() && lb.entries[pos].score >= score
        invariant
            0 <= pos <= s0.len(),
            spec_lb_view(*lb) == s0,
            s0.len() == lb.entries@.len(),
            forall|i: int| 0 <= i < pos ==> (#[trigger] s0[i]).1 >= score,
        decreases lb.entries@.len() - pos,
    {
        pos = pos + 1;
    }
    proof {
        lemma_insert_pos_is_scan(s0, score, pos as int);
    }
    lb.entries.insert(pos, entry);
    if lb.entries.len() > LEADERBOARD_CAP {
        lb.entries.truncate(LEADERBOARD_CAP);
    }
    proof {
        let inserted = s0.insert(pos as int, (username@, score));
        assert(spec_lb_view(*lb) =~= spec_record(s0, (username@, score)));
        lemma_record_sorted(s0, (username@, score));
    }
}

/// In a descending list, the scan that stops at the first strictly lower
/// score finds exactly `spec_insert_pos`.
proof fn lemma_insert_pos_is_scan(s: Seq<(Seq<char>, u32)>, score: u32, pos: int)
    requires
        spec_sorted_desc(s),
        0 <= pos <= s.len(),
        forall|i: int| 0 <= i < pos ==> (#[trigger] s[i]).1 >= score,
        pos < s.len() ==> s[pos].1 < score,
    ensures
        pos == spec_insert_pos(s, score),
    decreases s.len(),
{
    if s.len() == 0 {
    } else if s[0].1 >= score {
        assert(pos != 0);
        lemma_insert_pos_is_scan(s.drop_first(), score, pos - 1);
    } else {
        assert(pos == 0);
    }
}

/// Inserting at `spec_insert_pos` and truncating preserves the
/// descending order and the capacity bound.
proof fn lemma_record_sorted(s: Seq<(Seq<char>, u32)>, e: (Seq<char>, u32))
    requires
        spec_sorted_desc(s),
    ensures
        spec_sorted_desc(spec_record(s, e)),
        spec_record(s, e).len() <= LEADERBOARD_CAP as int,
{
    let pos = spec_insert_pos(s, e.1);
    lemma_insert_pos_bounds(s, e.1);
    let inserted = s.insert(pos, e);
    assert forall|i: int, j: int| 0 <= i < j < inserted.len() implies (#[trigger] inserted[i]).1
        >= (#[trigger] inserted[j]).1 by {
        if i < s.len() {
            lemma_insert_pos_split(s, e.1, i);
        }
        if j < s.len() {
            lemma_insert_pos_split(s, e.1, j);
        }
        if i != pos {
            let oi = if i < pos { i } else { i - 1 };
            lemma_insert_pos_split(s, e.1, oi);
            assert(inserted[i] == s[oi]);
        }
        if j != pos {
            let oj = if j < pos { j } else { j - 1 };
            lemma_insert_pos_split(s, e.1, oj);
            assert(inserted[j] == s[oj]);
        }
    }
}

/// The insert position is within the list.
proof fn lemma_insert_pos_bounds(s: Seq<(Seq<char>, u32)>, score: u32)
    ensures
        0 <= spec_insert_pos(s, score) <= s.len(),
    decreases s.len(),
{
    if s.len() > 0 && s[0].1 >= score {
        lemma_insert_pos_bounds(s.drop_first(), score);
    }
}

/// Everything before the insert position scores at least `score`;
/// everything from it on scores below `score`.
proof fn lemma_insert_pos_split(s: Seq<(Seq<char>, u32)>, score: u32, i: int)
    requires
        spec_sorted_desc(s),
        0 <= i < s.len(),
    ensures
        i < spec_insert_pos(s, score) ==> s[i].1 >= score,
        i >= spec_insert_pos(s, score) ==> s[i].1 < score,
    decreases s.len(),
{
    lemma_insert_pos_bounds(s, score);
    if s.len() > 0 && s[0].1 >= score {
        lemma_insert_pos_bounds(s.drop_first(), score);
        assert(spec_insert_pos(s, score) == 1 + spec_insert_pos(s.drop_first(), score));
        if i > 0 {
            assert(spec_sorted_desc(s.drop_first())) by {
                assert forall|a: int, b: int| 0 <= a < b < s.drop_first().len() implies (
                #[trigger] s.drop_first()[a]).1 >= (#[trigger] s.drop_first()[b]).1 by {
                    assert(s.drop_first()[a] == s[a + 1]);
                    assert(s.drop_first()[b] == s[b + 1]);
                    assert(s[a + 1].1 >= s[b + 1].1);
                }
            }
            lemma_insert_pos_split(s.drop_first(), score, i - 1);
            assert(s.drop_first()[i - 1] == s[i]);
            assert(spec_insert_pos(s, score) == 1 + spec_insert_pos(s.drop_first(), score));
        }
    } else {
        if i > 0 {
            assert(s[i].1 <= s[0].1);
        }
    }
}

/// Names the durable locations of the profile and leaderboard records.
pub struct SaveStore {
    root: String,
}

impl SaveStore {
    /// The directory all records live under.
    pub closed spec fn spec_root(&self) -> Seq<char> {
        self.root@
    }

    /// A store rooted at the default directory.
    pub fn new() -> (r: SaveStore)
        ensures
            r.spec_root() == "save"@,
    {
        SaveStore { root: "save".to_owned() }
    }

    /// Path of the profile record under the store's root.
    pub fn profile_path(&self) -> (r: String)
        ensures
            r@ == self.spec_root() + "/profile.json"@,
    {
        let mut p = self.root.clone();
        p.append("/profile.json");
        p
    }

    /// Path of the leaderboard record under the store's root.
    pub fn leaderboard_path(&self) -> (r: String)
        ensures
            r@ == self.spec_root() + "/leaderboard.json"@,
    {
        let mut p = self.root.clone();
        p.append("/leaderboard.json");
        p
    }
}

} // verus!
