//! The coarse application flow: the modes the program can be in, the
//! legal transitions between them, and the checks on a newly entered
//! player name. The hosting loop feeds one event per frame and obeys the
//! returned command; the simulation step runs only in the playing mode.
use vstd::prelude::*;

verus! {

/// Most characters a player name may hold.
pub const NAME_MAX_CHARS: usize = 12;

/// The coarse states of the application.
#[derive(Clone, Copy, Debug, PartialEq, Eq, Structural)]
pub enum AppMode {
    EnterName,
    Menu,
    Leaderboard,
    Playing,
    Paused,
    GameOver,
}

/// One discrete input or signal of a frame, as the mode machine sees it.
#[derive(Clone, Copy, Debug, PartialEq, Eq, Structural)]
pub enum AppEvent {
    /// The global cancel input.
    Cancel,
    /// The confirm input.
    Confirm,
    /// The leaderboard-view input.
    ViewLeaderboard,
    /// The pause toggle.
    PauseToggle,
    /// The return-to-menu input.
    MenuKey,
    /// A valid name was submitted (only meaningful while entering one).
    NameAccepted,
    /// The simulation step reported that the run ended.
    RunEnded,
}

/// What the hosting loop must do alongside a transition.
#[derive(Clone, Copy, Debug, PartialEq, Eq, Structural)]
pub enum ModeCommand {
    /// Nothing beyond switching modes.
    Idle,
    /// Build a fresh run from the profile.
    NewRun,
    /// Leave the application.
    Exit,
}

/// The mode to start in: name entry when no name is stored yet, else
/// the menu.
pub fn initial_mode(has_username: bool) -> (r: AppMode)
    ensures
        r == (if has_username {
            AppMode::Menu
        } else {
            AppMode::EnterName
        }),
{
    if has_username {
        AppMode::Menu
    } else {
        AppMode::EnterName
    }
}

/// The transition table: cancel exits from the menu, does nothing while
/// entering a name, and returns to the menu from anywhere else; a
/// submitted name leads to the menu; confirm starts a run from the menu,
/// resumes from pause, and restarts after a game over once the bounce
/// cooldown has passed; the pause toggle flips between playing and
/// paused; the menu key leaves pause or a finished run for the menu; the
/// run-ended signal moves play to the game-over screen. Anything else
/// stays put.
pub open spec fn spec_next_mode(mode: AppMode, ev: AppEvent, cooldown_done: bool) -> (
    AppMode,
    ModeCommand,
) {
    match (mode, ev) {
        (AppMode::EnterName, AppEvent::Cancel) => (AppMode::EnterName, ModeCommand::Idle),
        (AppMode::Menu, AppEvent::Cancel) => (AppMode::Menu, ModeCommand::Exit),
        (_, AppEvent::Cancel) => (AppMode::Menu, ModeCommand::Idle),
        (AppMode::EnterName, AppEvent::NameAccepted) => (AppMode::Menu, ModeCommand::Idle),
        (AppMode::Menu, AppEvent::Confirm) => (AppMode::Playing, ModeCommand::NewRun),
        (AppMode::Menu, AppEvent::ViewLeaderboard) => (AppMode::Leaderboard, ModeCommand::Idle),
        (AppMode::Playing, AppEvent::PauseToggle) => (AppMode::Paused, ModeCommand::Idle),
        (AppMode::Playing, AppEvent::RunEnded) => (AppMode::GameOver, ModeCommand::Idle),
        (AppMode::Paused, AppEvent::PauseToggle) => (AppMode::Playing, ModeCommand::Idle),
        (AppMode::Paused, AppEvent::Confirm) => (AppMode::Playing, ModeCommand::Idle),
        (AppMode::Paused, AppEvent::MenuKey) => (AppMode::Menu, ModeCommand::Idle),
        (AppMode::GameOver, AppEvent::Confirm) => if cooldown_done {
            (AppMode::Playing, ModeCommand::NewRun)
        } else {
            (AppMode::GameOver, ModeCommand::Idle)
        },
        (AppMode::GameOver, AppEvent::MenuKey) => if cooldown_done {
            (AppMode::Menu, ModeCommand::Idle)
        } else {
            (AppMode::GameOver, ModeCommand::Idle)
        },
        _ => (mode, ModeCommand::Idle),
    }
}

/// Take one step of the mode machine.
pub fn next_mode(mode: AppMode, ev: AppEvent, cooldown_done: bool) -> (r: (AppMode, ModeCommand))
    ensures
        r == spec_next_mode(mode, ev, cooldown_done),
        (mode == AppMode::Playing && r.0 == AppMode::Playing) ==> r.1 != ModeCommand::Exit,
{
    match (mode, ev) {
        (AppMode::EnterName, AppEvent::Cancel) => (AppMode::EnterName, ModeCommand::Idle),
        (AppMode::Menu, AppEvent::Cancel) => (AppMode::Menu, ModeCommand::Exit),
        (_, AppEvent::Cancel) => (AppMode::Menu, ModeCommand::Idle),
        (AppMode::EnterName, AppEvent::NameAccepted) => (AppMode::Menu, ModeCommand::Idle),
        (AppMode::Menu, AppEvent::Confirm) => (AppMode::Playing, ModeCommand::NewRun),
        (AppMode::Menu, AppEvent::ViewLeaderboard) => (AppMode::Leaderboard, ModeCommand::Idle),
        (AppMode::Playing, AppEvent::PauseToggle) => (AppMode::Paused, ModeCommand::Idle),
        (AppMode::Playing, AppEvent::RunEnded) => (AppMode::GameOver, ModeCommand::Idle),
        (AppMode::Paused, AppEvent::PauseToggle) => (AppMode::Playing, ModeCommand::Idle),
        (AppMode::Paused, AppEvent::Confirm) => (AppMode::Playing, ModeCommand::Idle),
        (AppMode::Paused, AppEvent::MenuKey) => (AppMode::Menu, ModeCommand::Idle),
        (AppMode::GameOver, AppEvent::Confirm) => if cooldown_done {
            (AppMode::Playing, ModeCommand::NewRun)
        } else {
            (AppMode::GameOver, ModeCommand::Idle)
        },
        (AppMode::GameOver, AppEvent::MenuKey) => if cooldown_done {
            (AppMode::Menu, ModeCommand::Idle)
        } else {
            (AppMode::GameOver, ModeCommand::Idle)
        },
        _ => (mode, ModeCommand::Idle),
    }
}

/// ASCII whitespace, as trimming understands it.
pub open spec fn spec_is_ws(c: char) -> bool {
    c == ' ' || c == '\t' || c == '\n' || c == '\r'
}

/// How many whitespace characters the name starts with.
pub open spec fn spec_ws_prefix(s: Seq<char>) -> int
    decreases s.len(),
{
    if s.len() == 0 || !spec_is_ws(s[0]) {
        0
    } else {
        1 + spec_ws_prefix(s.drop_first())
    }
}

/// How many whitespace characters the name ends with.
pub open spec fn spec_ws_suffix(s: Seq<char>) -> int
    decreases s.len(),
{
    if s.len() == 0 || !spec_is_ws(s[s.len() - 1]) {
        0
    } else {
        1 + spec_ws_suffix(s.drop_last())
    }
}

/// Whether a control character, which name entry rejects.
pub open spec fn spec_is_control(c: char) -> bool {
    ||| (c as int) < 0x20
    ||| 0x7f <= (c as int) < 0xa0
}

/// Whether name entry takes this character: printable, and the name is
/// not full yet.
pub fn name_char_accepted(current_chars: usize, c: char) -> (r: bool)
    ensures
        r == (!spec_is_control(c) && current_chars < NAME_MAX_CHARS),
{
    let code = c as u32;
    let printable = !(code < 0x20 || (0x7f <= code && code < 0xa0));
    printable && current_chars < NAME_MAX_CHARS
}

/// Validate a submitted name: strip leading and trailing whitespace; a
/// name that is empty after that is rejected, anything else is accepted
/// as trimmed.
pub fn validate_name(raw: &str) -> (r: Option<String>)
    ensures
        ({
            let a = spec_ws_prefix(raw@);
            let b = raw@.len() - spec_ws_suffix(raw@);
            match r {
                Some(name) => a < b && name@ == raw@.subrange(a, b),
                None => a >= b,
            }
        }),
{
    let n = raw.unicode_len();
    let mut a: usize = 0;
    while a < n && is_ws(raw.get_char(a))
        invariant
            n == raw@.len(),
            0 <= a <= n,
            forall|k: int| 0 <= k < a ==> spec_is_ws(#[trigger] raw@[k]),
        decreases n - a,
    {
        a = a + 1;
    }
    proof {
        lemma_ws_prefix_exact(raw@, a as int);
    }
    let mut b: usize = n;
    while b > a && is_ws(raw.get_char(b - 1))
        invariant
            n == raw@.len(),
            0 <= a <= b <= n,
            forall|k: int| b <= k < n ==> spec_is_ws(#[trigger] raw@[k]),
        decreases b,
    {
        b = b - 1;
    }
    if a >= b {
        proof {
            lemma_ws_suffix_nonneg(raw@);
            if a < n {
                assert(spec_is_ws(raw@[a as int]));
                assert(!spec_is_ws(raw@[a as int]));
            }
        }
        None
    } else {
        proof {
            lemma_ws_suffix_exact(raw@, b as int);
        }
        let trimmed = raw.substring_char(a, b);
        Some(trimmed.to_owned())
    }
}

/// Whether the character is whitespace for trimming.
fn is_ws(c: char) -> (r: bool)
    ensures
        r == spec_is_ws(c),
{
    c == ' ' || c == '\t' || c == '\n' || c == '\r'
}

/// A scan that stopped at a non-whitespace character (or the end) found
/// exactly the whitespace prefix.
proof fn lemma_ws_prefix_exact(s: Seq<char>, a: int)
    requires
        0 <= a <= s.len(),
        forall|k: int| 0 <= k < a ==> spec_is_ws(#[trigger] s[k]),
        a < s.len() ==> !spec_is_ws(s[a]),
    ensures
        spec_ws_prefix(s) == a,
    decreases a, s.len(),
{
    if a == 0 {
        if s.len() > 0 && spec_is_ws(s[0]) {
            assert(!spec_is_ws(s[0]));
        }
    } else {
        assert(spec_is_ws(s[0]));
        assert(spec_ws_prefix(s) == 1 + spec_ws_prefix(s.drop_first()));
        assert forall|k: int| 0 <= k < a - 1 implies spec_is_ws(#[trigger] s.drop_first()[k]) by {
            assert(s.drop_first()[k] == s[k + 1]);
        }
        assert(a - 1 < s.drop_first().len() ==> !spec_is_ws(s.drop_first()[a - 1]));
        lemma_ws_prefix_exact(s.drop_first(), a - 1);
    }
}

/// A right-to-left scan that stopped at a non-whitespace character found
/// exactly the whitespace suffix.
proof fn lemma_ws_suffix_exact(s: Seq<char>, b: int)
    requires
        0 < b <= s.len(),
        forall|k: int| b <= k < s.len() ==> spec_is_ws(#[trigger] s[k]),
        !spec_is_ws(s[b - 1]),
    ensures
        spec_ws_suffix(s) == s.len() - b,
    decreases s.len() - b,
{
    if b < s.len() {
        assert(spec_is_ws(s[s.len() - 1]));
        assert(spec_ws_suffix(s) == 1 + spec_ws_suffix(s.drop_last()));
        assert forall|k: int| b <= k < s.drop_last().len() implies spec_is_ws(
            #[trigger] s.drop_last()[k],
        ) by {
            assert(s.drop_last()[k] == s[k]);
        }
        assert(s.drop_last()[b - 1] == s[b - 1]);
        lemma_ws_suffix_exact(s.drop_last(), b);
    }
}

/// The whitespace suffix is never negative.
proof fn lemma_ws_suffix_nonneg(s: Seq<char>)
    ensures
        spec_ws_suffix(s) >= 0,
    decreases s.len(),
{
    if s.len() > 0 && spec_is_ws(s[s.len() - 1]) {
        lemma_ws_suffix_nonneg(s.drop_last());
    }
}

} // verus!
