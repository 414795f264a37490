//! The text format of the durable records: a small JSON shape, written
//! and read by verified code. The encoder emits exactly one document per
//! value; the parser is its exact inverse, and a document that does not
//! parse is treated by the stores as absent.
use vstd::prelude::*;

use crate::save::Leaderboard;
use crate::save::PlayerProfile;
use crate::save::PermanentUpgrades;
use crate::save::ScoreEntry;

verus! {

/// Relies on String::push: appends exactly the given character.
#[verifier::external_body]
fn push_char(s: &mut String, c: char)
    ensures
        final(s)@ == old(s)@.push(c),
{
    s.push(c)
}

/// How one character is written inside a quoted string: a quote or a
/// backslash gets a backslash before it, anything else stands as is.
pub open spec fn spec_esc_char(c: char) -> Seq<char> {
    if c == '"' || c == '\\' {
        seq!['\\', c]
    } else {
        seq![c]
    }
}

/// A whole string escaped for quoting.
pub open spec fn spec_escape(s: Seq<char>) -> Seq<char>
    decreases s.len(),
{
    if s.len() == 0 {
        Seq::empty()
    } else {
        spec_esc_char(s[0]) + spec_escape(s.drop_first())
    }
}

/// Escaping one more character appends exactly its escape.
proof fn lemma_escape_snoc(s: Seq<char>, c: char)
    ensures
        spec_escape(s.push(c)) == spec_escape(s) + spec_esc_char(c),
    decreases s.len(),
{
    let whole = s.push(c);
    if s.len() == 0 {
        assert(whole.drop_first() =~= Seq::<char>::empty());
        assert(spec_escape(whole.drop_first()) =~= Seq::<char>::empty());
        assert(spec_escape(whole) =~= spec_escape(s) + spec_esc_char(c));
    } else {
        assert(whole.drop_first() =~= s.drop_first().push(c));
        lemma_escape_snoc(s.drop_first(), c);
        assert(whole[0] == s[0]);
        assert(spec_escape(whole) == spec_esc_char(s[0]) + spec_escape(s.drop_first().push(c)));
        assert(spec_escape(s) == spec_esc_char(s[0]) + spec_escape(s.drop_first()));
        assert(spec_escape(whole) =~= spec_escape(s) + spec_esc_char(c));
    }
}

/// Append the escaped form of `t` to `s`.
fn push_escaped(s: &mut String, t: &str)
    ensures
        final(s)@ == old(s)@ + spec_escape(t@),
{
    let ghost s0 = s@;
    let n = t.unicode_len();
    let mut i: usize = 0;
    while i < n
        invariant
            n == t@.len(),
            0 <= i <= n,
            s@ == s0 + spec_escape(t@.take(i as int)),
        decreases n - i,
    {
        let c = t.get_char(i);
        if c == '"' || c == '\\' {
            push_char(s, '\\');
            push_char(s, c);
        } else {
            push_char(s, c);
        }
        proof {
            assert(t@.take(i + 1) =~= t@.take(i as int).push(t@[i as int]));
            lemma_escape_snoc(t@.take(i as int), t@[i as int]);
            assert(s@ =~= s0 + spec_escape(t@.take(i + 1)));
        }
        i = i + 1;
    }
    proof {
        assert(t@.take(n as int) =~= t@);
    }
}

/// The digit character of one decimal place.
pub open spec fn spec_digit_char(d: int) -> char {
    if d == 0 {
        '0'
    } else if d == 1 {
        '1'
    } else if d == 2 {
        '2'
    } else if d == 3 {
        '3'
    } else if d == 4 {
        '4'
    } else if d == 5 {
        '5'
    } else if d == 6 {
        '6'
    } else if d == 7 {
        '7'
    } else if d == 8 {
        '8'
    } else {
        '9'
    }
}

/// The decimal digits of a number, most significant first, with no
/// leading zero (a lone zero for zero).
pub open spec fn spec_u32_dec(n: int) -> Seq<char>
    decreases n,
{
    if n < 10 {
        seq![spec_digit_char(n)]
    } else {
        spec_u32_dec(n / 10).push(spec_digit_char(n % 10))
    }
}

/// The digit character of a value below ten.
fn digit_char(d: u32) -> (c: char)
    requires
        d < 10,
    ensures
        c == spec_digit_char(d as int),
{
    if d == 0 {
        '0'
    } else if d == 1 {
        '1'
    } else if d == 2 {
        '2'
    } else if d == 3 {
        '3'
    } else if d == 4 {
        '4'
    } else if d == 5 {
        '5'
    } else if d == 6 {
        '6'
    } else if d == 7 {
        '7'
    } else if d == 8 {
        '8'
    } else {
        '9'
    }
}

/// Append the decimal form of `n` to `s`.
fn push_u32_dec(s: &mut String, n: u32)
    ensures
        final(s)@ == old(s)@ + spec_u32_dec(n as int),
    decreases n,
{
    if n < 10 {
        push_char(s, digit_char(n));
    } else {
        push_u32_dec(s, n / 10);
        push_char(s, digit_char(n % 10));
    }
}

/// The document form of a profile.
pub open spec fn spec_encode_profile(p: PlayerProfile) -> Seq<char> {
    "{\"username\":\""@ + spec_escape(p.username@) + "\",\"plane_style\":"@ + spec_u32_dec(
        p.plane_style as int,
    ) + ",\"permanent\":{\"bullet_level\":"@ + spec_u32_dec(p.permanent.bullet_level as int)
        + ",\"max_lives\":"@ + spec_u32_dec(p.permanent.max_lives as int) + "}}"@
}

/// Write a profile as its one document.
pub fn encode_profile(p: &PlayerProfile) -> (r: String)
    ensures
        r@ == spec_encode_profile(*p),
{
    let mut s = String::new();
    s.append("{\"username\":\"");
    push_escaped(&mut s, p.username.as_str());
    s.append("\",\"plane_style\":");
    push_u32_dec(&mut s, p.plane_style as u32);
    s.append(",\"permanent\":{\"bullet_level\":");
    push_u32_dec(&mut s, p.permanent.bullet_level as u32);
    s.append(",\"max_lives\":");
    push_u32_dec(&mut s, p.permanent.max_lives as u32);
    s.append("}}");
    s
}

/// The document form of one leaderboard row.
pub open spec fn spec_encode_entry(e: ScoreEntry) -> Seq<char> {
    "{\"username\":\""@ + spec_escape(e.username@) + "\",\"score\":"@ + spec_u32_dec(
        e.score as int,
    ) + "}"@
}

/// The comma-joined documents of the first `k` rows.
pub open spec fn spec_encode_entries_upto(entries: Seq<ScoreEntry>, k: int) -> Seq<char>
    decreases k,
{
    if k <= 0 {
        Seq::empty()
    } else if k == 1 {
        spec_encode_entry(entries[0])
    } else {
        spec_encode_entries_upto(entries, k - 1) + seq![','] + spec_encode_entry(entries[k - 1])
    }
}

/// The document form of the leaderboard.
pub open spec fn spec_encode_leaderboard(lb: Leaderboard) -> Seq<char> {
    "{\"entries\":["@ + spec_encode_entries_upto(lb.entries@, lb.entries@.len() as int) + "]}"@
}

/// Write the leaderboard as its one document.
pub fn encode_leaderboard(lb: &Leaderboard) -> (r: String)
    ensures
        r@ == spec_encode_leaderboard(*lb),
{
    let ghost entries0 = lb.entries@;
    let mut s = String::new();
    s.append("{\"entries\":[");
    let ghost head = s@;
    let n = lb.entries.len();
    let mut i: usize = 0;
    while i < n
        invariant
            n == entries0.len(),
            lb.entries@ == entries0,
            0 <= i <= n,
            s@ == head + spec_encode_entries_upto(entries0, i as int),
        decreases n - i,
    {
        if i > 0 {
            push_char(&mut s, ',');
        }
        let e = &lb.entries[i];
        s.append("{\"username\":\"");
        push_escaped(&mut s, e.username.as_str());
        s.append("\",\"score\":");
        push_u32_dec(&mut s, e.score);
        s.append("}");
        proof {
            assert(s@ =~= head + spec_encode_entries_upto(entries0, i + 1));
        }
        i = i + 1;
    }
    s.append("]}");
    proof {
        assert(s@ =~= spec_encode_leaderboard(*lb));
    }
    s
}


/// Whether the literal stands at `i`; on success the cursor lands just
/// past it.
pub open spec fn spec_parse_lit(s: Seq<char>, i: int, lit: Seq<char>) -> Option<int> {
    if 0 <= i && i + lit.len() <= s.len() && s.subrange(i, i + lit.len()) == lit {
        Some(i + lit.len())
    } else {
        None
    }
}

/// A quoted string read from `i` up to its closing quote: a backslash
/// escapes exactly a quote or a backslash, a bare quote ends the string,
/// anything else stands for itself.
pub open spec fn spec_parse_string(s: Seq<char>, i: int) -> Option<(Seq<char>, int)>
    decreases s.len() - i,
{
    if i < 0 || i >= s.len() {
        None
    } else if s[i] == '"' {
        Some((Seq::empty(), i + 1))
    } else if s[i] == '\\' {
        if i + 1 < s.len() && (s[i + 1] == '"' || s[i + 1] == '\\') {
            match spec_parse_string(s, i + 2) {
                Some((u, j)) => Some((seq![s[i + 1]] + u, j)),
                None => None,
            }
        } else {
            None
        }
    } else {
        match spec_parse_string(s, i + 1) {
            Some((u, j)) => Some((seq![s[i]] + u, j)),
            None => None,
        }
    }
}

/// Whether a decimal digit.
pub open spec fn spec_is_digit(c: char) -> bool {
    '0' <= c && c <= '9'
}

/// The value of one digit character.
pub open spec fn spec_digit_val(c: char) -> int {
    (c as int) - ('0' as int)
}

/// The first index at or after `i` holding no digit.
pub open spec fn spec_digit_end(s: Seq<char>, i: int) -> int
    decreases s.len() - i,
{
    if 0 <= i < s.len() && spec_is_digit(s[i]) {
        spec_digit_end(s, i + 1)
    } else {
        i
    }
}

/// The value of the digits in `[i, j)`, most significant first.
pub open spec fn spec_digits_val(s: Seq<char>, i: int, j: int) -> int
    decreases j - i,
{
    if j <= i {
        0
    } else {
        spec_digits_val(s, i, j - 1) * 10 + spec_digit_val(s[j - 1])
    }
}

/// A decimal number read from `i`: at least one digit, at most ten, and
/// a value that fits the score type; the cursor lands on the first
/// non-digit.
pub open spec fn spec_parse_u32(s: Seq<char>, i: int) -> Option<(u32, int)> {
    let j = spec_digit_end(s, i);
    if j == i || j - i > 10 {
        None
    } else if spec_digits_val(s, i, j) > u32::MAX {
        None
    } else {
        Some((spec_digits_val(s, i, j) as u32, j))
    }
}

/// A whole profile document: the shape `spec_encode_profile` writes,
/// with the whole input consumed and every numeric field within a byte.
/// The style field may be missing; it then falls back to its documented
/// default of zero.
pub open spec fn spec_parse_profile(s: Seq<char>) -> Option<(Seq<char>, u8, u8, u8)> {
    match spec_parse_lit(s, 0, "{\"username\":\""@) {
        Some(j0) => match spec_parse_string(s, j0) {
            Some((name, j1)) => match (match spec_parse_lit(s, j1, ",\"plane_style\":"@) {
                Some(j2) => (match spec_parse_u32(s, j2) {
                    Some((style, j3)) => if style <= 255 {
                        Some((style, j3))
                    } else {
                        None
                    },
                    None => None,
                }),
                None => Some((0u32, j1)),
            }) {
                Some((style, j3)) => {
                        match spec_parse_lit(s, j3, ",\"permanent\":{\"bullet_level\":"@) {
                            Some(j4) => match spec_parse_u32(s, j4) {
                                Some((bl, j5)) => if bl <= 255 {
                                    match spec_parse_lit(s, j5, ",\"max_lives\":"@) {
                                        Some(j6) => match spec_parse_u32(s, j6) {
                                            Some((ml, j7)) => if ml <= 255 {
                                                match spec_parse_lit(s, j7, "}}"@) {
                                                    Some(j8) => if j8 == s.len() {
                                                        Some(
                                                            (
                                                                name,
                                                                style as u8,
                                                                bl as u8,
                                                                ml as u8,
                                                            ),
                                                        )
                                                    } else {
                                                        None
                                                    },
                                                    None => None,
                                                }
                                            } else {
                                                None
                                            },
                                            None => None,
                                        },
                                        None => None,
                                    }
                                } else {
                                    None
                                },
                                None => None,
                            },
                            None => None,
                        }
                },
                None => None,
            },
            None => None,
        },
        None => None,
    }
}

/// One leaderboard row read from `i`.
pub open spec fn spec_parse_entry(s: Seq<char>, i: int) -> Option<((Seq<char>, u32), int)> {
    match spec_parse_lit(s, i, "{\"username\":\""@) {
        Some(j0) => match spec_parse_string(s, j0) {
            Some((name, j1)) => match spec_parse_lit(s, j1, ",\"score\":"@) {
                Some(j2) => match spec_parse_u32(s, j2) {
                    Some((score, j3)) => match spec_parse_lit(s, j3, "}"@) {
                        Some(j4) => Some(((name, score), j4)),
                        None => None,
                    },
                    None => None,
                },
                None => None,
            },
            None => None,
        },
        None => None,
    }
}

/// The rows after the first one: either the closing bracket, or a comma
/// and another row, and so on.
pub open spec fn spec_parse_entries_rest(s: Seq<char>, i: int) -> Option<(Seq<(Seq<char>, u32)>, int)>
    decreases s.len() - i,
{
    match spec_parse_lit(s, i, "]"@) {
        Some(j) => Some((Seq::empty(), j)),
        None => match spec_parse_lit(s, i, ","@) {
            Some(j0) => match spec_parse_entry(s, j0) {
                Some((e, j1)) => if i < j1 <= s.len() {
                    match spec_parse_entries_rest(s, j1) {
                        Some((rest, j2)) => Some((seq![e] + rest, j2)),
                        None => None,
                    }
                } else {
                    None
                },
                None => None,
            },
            None => None,
        },
    }
}

/// The bracketed row list read from `i`.
pub open spec fn spec_parse_entries(s: Seq<char>, i: int) -> Option<(Seq<(Seq<char>, u32)>, int)> {
    match spec_parse_lit(s, i, "]"@) {
        Some(j) => Some((Seq::empty(), j)),
        None => match spec_parse_entry(s, i) {
            Some((e, j1)) => if i < j1 <= s.len() {
                match spec_parse_entries_rest(s, j1) {
                    Some((rest, j2)) => Some((seq![e] + rest, j2)),
                    None => None,
                }
            } else {
                None
            },
            None => None,
        },
    }
}

/// A whole leaderboard document, the whole input consumed.
pub open spec fn spec_parse_leaderboard(s: Seq<char>) -> Option<Seq<(Seq<char>, u32)>> {
    match spec_parse_lit(s, 0, "{\"entries\":["@) {
        Some(j0) => match spec_parse_entries(s, j0) {
            Some((rows, j1)) => match spec_parse_lit(s, j1, "}"@) {
                Some(j2) => if j2 == s.len() {
                    Some(rows)
                } else {
                    None
                },
                None => None,
            },
            None => None,
        },
        None => None,
    }
}

/// A parse result with a prefix already read before it.
pub open spec fn spec_compose(prefix: Seq<char>, r: Option<(Seq<char>, int)>) -> Option<
    (Seq<char>, int),
> {
    match r {
        Some((u, j)) => Some((prefix + u, j)),
        None => None,
    }
}

/// Reading a prefix and then composing is composing once with the
/// concatenated prefix.
proof fn lemma_compose_assoc(a: Seq<char>, b: Seq<char>, r: Option<(Seq<char>, int)>)
    ensures
        spec_compose(a, spec_compose(b, r)) == spec_compose(a + b, r),
{
    match r {
        Some((u, j)) => {
            assert(a + (b + u) =~= (a + b) + u);
        },
        None => {},
    }
}

/// Whether the literal stands at `i` in `s`.
fn parse_lit_at(s: &str, i: usize, lit: &str) -> (r: Option<usize>)
    requires
        i <= s@.len(),
    ensures
        (match r {
            Some(j) => spec_parse_lit(s@, i as int, lit@) == Some(j as int) && i <= j <= s@.len(),
            None => spec_parse_lit(s@, i as int, lit@) is None,
        }),
{
    let n = s.unicode_len();
    let m = lit.unicode_len();
    if m > n - i {
        return None;
    }
    let mut k: usize = 0;
    while k < m
        invariant
            n == s@.len(),
            m == lit@.len(),
            i + m <= n,
            0 <= k <= m,
            forall|t: int| 0 <= t < k ==> s@[i + t] == lit@[t],
        decreases m - k,
    {
        if s.get_char(i + k) != lit.get_char(k) {
            proof {
                assert(s@.subrange(i as int, i + m) != lit@) by {
                    assert(s@.subrange(i as int, i + m)[k as int] != lit@[k as int]);
                }
            }
            return None;
        }
        k = k + 1;
    }
    proof {
        assert(s@.subrange(i as int, i + m) =~= lit@);
    }
    Some(i + m)
}

/// Read a quoted string from `i` up to its closing quote, undoing the
/// escapes.
fn parse_string_at(s: &str, i: usize) -> (r: Option<(String, usize)>)
    requires
        i <= s@.len(),
    ensures
        (match r {
            Some(v) => spec_parse_string(s@, i as int) == Some((v.0@, v.1 as int)) && i <= v.1
                <= s@.len(),
            None => spec_parse_string(s@, i as int) is None,
        }),
{
    let n = s.unicode_len();
    let mut out = String::new();
    let mut j = i;
    while j < n
        invariant
            n == s@.len(),
            i <= j <= n,
            spec_parse_string(s@, i as int) == spec_compose(out@, spec_parse_string(s@, j as int)),
        decreases n - j,
    {
        let c = s.get_char(j);
        if c == '"' {
            proof {
                assert(spec_parse_string(s@, j as int) == Some((Seq::<char>::empty(), j + 1)));
                assert(out@ + Seq::<char>::empty() =~= out@);
            }
            return Some((out, j + 1));
        } else if c == '\\' {
            if j + 1 < n {
                let c2 = s.get_char(j + 1);
                if c2 == '"' || c2 == '\\' {
                    proof {
                        assert(spec_parse_string(s@, j as int) == spec_compose(
                            seq![s@[j + 1]],
                            spec_parse_string(s@, j + 2),
                        ));
                        lemma_compose_assoc(out@, seq![s@[j + 1]], spec_parse_string(s@, j + 2));
                        assert(out@ + seq![s@[j + 1]] =~= out@.push(s@[j + 1]));
                    }
                    push_char(&mut out, c2);
                    j = j + 2;
                } else {
                    return None;
                }
            } else {
                return None;
            }
        } else {
            proof {
                assert(spec_parse_string(s@, j as int) == spec_compose(
                    seq![s@[j as int]],
                    spec_parse_string(s@, j + 1),
                ));
                lemma_compose_assoc(out@, seq![s@[j as int]], spec_parse_string(s@, j + 1));
                assert(out@ + seq![s@[j as int]] =~= out@.push(s@[j as int]));
            }
            push_char(&mut out, c);
            j = j + 1;
        }
    }
    None
}

/// Whether a decimal digit.
fn is_digit(c: char) -> (r: bool)
    ensures
        r == spec_is_digit(c),
{
    '0' <= c && c <= '9'
}

/// Read a decimal number from `i`.
fn parse_u32_at(s: &str, i: usize) -> (r: Option<(u32, usize)>)
    requires
        i <= s@.len(),
    ensures
        (match r {
            Some(v) => spec_parse_u32(s@, i as int) == Some((v.0, v.1 as int)) && i <= v.1
                <= s@.len(),
            None => spec_parse_u32(s@, i as int) is None,
        }),
{
    let n = s.unicode_len();
    let mut j = i;
    let mut val: u64 = 0;
    while j < n && is_digit(s.get_char(j))
        invariant
            n == s@.len(),
            i <= j <= n,
            j - i <= 10,
            spec_digit_end(s@, i as int) == spec_digit_end(s@, j as int),
            val == spec_digits_val(s@, i as int, j as int),
            val < spec_pow10(j - i),
        decreases n - j,
    {
        if j - i == 10 {
            proof {
                lemma_digit_end_lower(s@, j as int);
            }
            return None;
        }
        let c = s.get_char(j);
        let d = (c as u32) - ('0' as u32);
        proof {
            assert(spec_is_digit(s@[j as int]));
            assert(d == spec_digit_val(s@[j as int]));
            assert(d <= 9);
            lemma_pow10_mono(j - i, 9);
            lemma_pow10_values();
            assert(val * 10 + d < spec_pow10(j + 1 - i)) by {
                assert(spec_pow10(j + 1 - i) == 10 * spec_pow10(j - i));
            }
        }
        val = val * 10 + (d as u64);
        j = j + 1;
    }
    proof {
        lemma_pow10_mono(j - i, 10);
        lemma_pow10_values();
    }
    proof {
        assert(spec_digit_end(s@, j as int) == j as int);
    }
    if j == i {
        return None;
    }
    if val > 0xFFFF_FFFF {
        return None;
    }
    Some((val as u32, j))
}

/// Past a digit, the digit run extends at least one further.
proof fn lemma_digit_end_lower(s: Seq<char>, j: int)
    requires
        0 <= j < s.len(),
        spec_is_digit(s[j]),
    ensures
        spec_digit_end(s, j) >= j + 1,
{
    assert(spec_digit_end(s, j) == spec_digit_end(s, j + 1));
    lemma_digit_end_bounds(s, j + 1);
}

/// The digit run never ends before its start.
proof fn lemma_digit_end_bounds(s: Seq<char>, i: int)
    ensures
        spec_digit_end(s, i) >= i,
    decreases s.len() - i,
{
    if 0 <= i < s.len() && spec_is_digit(s[i]) {
        lemma_digit_end_bounds(s, i + 1);
    }
}

/// Read a whole profile document: the shape the encoder writes, with
/// both permanent upgrades inside their stated bounds. A missing style
/// field falls back to its documented default; anything else out of
/// shape is reported as no profile.
pub fn parse_profile(s: &str) -> (r: Option<PlayerProfile>)
    ensures
        (match r {
            Some(p) => {
                &&& spec_parse_profile(s@) == Some(
                    (
                        p.username@,
                        p.plane_style,
                        p.permanent.bullet_level,
                        p.permanent.max_lives,
                    ),
                )
                &&& crate::save::spec_profile_wf(p)
            },
            None => (match spec_parse_profile(s@) {
                Some(f) => !(1 <= f.2 <= 3 && 1 <= f.3 <= 9),
                None => true,
            }),
        }),
{
    let n = s.unicode_len();
    let j0 = match parse_lit_at(s, 0, "{\"username\":\"") {
        Some(j) => j,
        None => {
            return None;
        },
    };
    let (name, j1) = match parse_string_at(s, j0) {
        Some(v) => v,
        None => {
            return None;
        },
    };
    let (style, j3) = match parse_lit_at(s, j1, ",\"plane_style\":") {
        Some(j2) => {
            match parse_u32_at(s, j2) {
                Some(v) => {
                    if v.0 > 255 {
                        return None;
                    }
                    v
                },
                None => {
                    return None;
                },
            }
        },
        None => (0u32, j1),
    };
    let j4 = match parse_lit_at(s, j3, ",\"permanent\":{\"bullet_level\":") {
        Some(j) => j,
        None => {
            return None;
        },
    };
    let (bl, j5) = match parse_u32_at(s, j4) {
        Some(v) => v,
        None => {
            return None;
        },
    };
    if bl > 255 {
        return None;
    }
    let j6 = match parse_lit_at(s, j5, ",\"max_lives\":") {
        Some(j) => j,
        None => {
            return None;
        },
    };
    let (ml, j7) = match parse_u32_at(s, j6) {
        Some(v) => v,
        None => {
            return None;
        },
    };
    if ml > 255 {
        return None;
    }
    let j8 = match parse_lit_at(s, j7, "}}") {
        Some(j) => j,
        None => {
            return None;
        },
    };
    if j8 != n {
        return None;
    }
    if !(1 <= bl && bl <= 3 && 1 <= ml && ml <= 9) {
        return None;
    }
    Some(PlayerProfile {
        username: name,
        plane_style: style as u8,
        permanent: PermanentUpgrades { bullet_level: bl as u8, max_lives: ml as u8 },
    })
}

/// Powers of ten.
pub open spec fn spec_pow10(k: int) -> int
    decreases k,
{
    if k <= 0 {
        1
    } else {
        10 * spec_pow10(k - 1)
    }
}

/// Powers of ten grow with the exponent.
proof fn lemma_pow10_mono(a: int, b: int)
    requires
        a <= b,
    ensures
        spec_pow10(a) <= spec_pow10(b),
        spec_pow10(a) >= 1,
    decreases b - a,
{
    if a < b {
        lemma_pow10_mono(a, b - 1);
        lemma_pow10_pos(b - 1);
    } else {
        lemma_pow10_pos(a);
    }
}

/// Powers of ten are positive.
proof fn lemma_pow10_pos(k: int)
    ensures
        spec_pow10(k) >= 1,
    decreases k,
{
    if k > 0 {
        lemma_pow10_pos(k - 1);
    }
}

/// The first eleven powers of ten, spelled out for the digit bound.
proof fn lemma_pow10_values()
    ensures
        spec_pow10(9) == 1_000_000_000,
        spec_pow10(10) == 10_000_000_000,
{
    assert(spec_pow10(0) == 1);
    assert(spec_pow10(1) == 10);
    assert(spec_pow10(2) == 100);
    assert(spec_pow10(3) == 1_000);
    assert(spec_pow10(4) == 10_000);
    assert(spec_pow10(5) == 100_000);
    assert(spec_pow10(6) == 1_000_000);
    assert(spec_pow10(7) == 10_000_000);
    assert(spec_pow10(8) == 100_000_000);
    assert(spec_pow10(9) == 1_000_000_000);
    assert(spec_pow10(10) == 10_000_000_000);
}


/// A row-list parse result with rows already read before it.
pub open spec fn spec_compose_rows(
    prefix: Seq<(Seq<char>, u32)>,
    r: Option<(Seq<(Seq<char>, u32)>, int)>,
) -> Option<(Seq<(Seq<char>, u32)>, int)> {
    match r {
        Some((rows, j)) => Some((prefix + rows, j)),
        None => None,
    }
}

/// One leaderboard row read from `i`.
fn parse_entry_at(s: &str, i: usize) -> (r: Option<(ScoreEntry, usize)>)
    requires
        i <= s@.len(),
    ensures
        (match r {
            Some(v) => spec_parse_entry(s@, i as int) == Some(
                (crate::save::spec_entry_view(v.0), v.1 as int),
            ) && i < v.1 <= s@.len(),
            None => spec_parse_entry(s@, i as int) is None,
        }),
{
    let j0 = match parse_lit_at(s, i, "{\"username\":\"") {
        Some(j) => j,
        None => {
            return None;
        },
    };
    let (name, j1) = match parse_string_at(s, j0) {
        Some(v) => v,
        None => {
            return None;
        },
    };
    let j2 = match parse_lit_at(s, j1, ",\"score\":") {
        Some(j) => j,
        None => {
            return None;
        },
    };
    let (score, j3) = match parse_u32_at(s, j2) {
        Some(v) => v,
        None => {
            return None;
        },
    };
    let j4 = match parse_lit_at(s, j3, "}") {
        Some(j) => j,
        None => {
            return None;
        },
    };
    proof {
        reveal_strlit("{\"username\":\"");
        assert("{\"username\":\""@.len() == 13);
    }
    Some((ScoreEntry { username: name, score }, j4))
}

/// Read a whole leaderboard document. Only a document in exactly the
/// shape the encoder writes, whose rows are sorted by score descending
/// and number at most the cap, is accepted; anything else is reported
/// as no leaderboard.
pub fn parse_leaderboard(s: &str) -> (r: Option<Leaderboard>)
    ensures
        (match r {
            Some(lb) => {
                &&& spec_parse_leaderboard(s@) == Some(crate::save::spec_lb_view(lb))
                &&& crate::save::spec_leaderboard_wf(lb)
            },
            None => (match spec_parse_leaderboard(s@) {
                Some(rows) => !(crate::save::spec_sorted_desc(rows) && rows.len()
                    <= crate::save::LEADERBOARD_CAP as int),
                None => true,
            }),
        }),
{
    let n = s.unicode_len();
    let j0 = match parse_lit_at(s, 0, "{\"entries\":[") {
        Some(j) => j,
        None => {
            return None;
        },
    };
    let mut entries: Vec<ScoreEntry> = Vec::new();
    let mut j = j0;
    let mut done = false;
    match parse_lit_at(s, j, "]") {
        Some(j1) => {
            proof {
                assert(spec_parse_entries(s@, j0 as int) == Some(
                    (Seq::<(Seq<char>, u32)>::empty(), j1 as int),
                ));
            }
            j = j1;
            done = true;
            proof {
                assert(entries@.map_values(|e: ScoreEntry| crate::save::spec_entry_view(e))
                    =~= Seq::<(Seq<char>, u32)>::empty());
            }
        },
        None => {
            match parse_entry_at(s, j) {
                Some(v) => {
                    let jn = v.1;
                    proof {
                        assert(spec_parse_entries(s@, j0 as int) == spec_compose_rows(
                            seq![crate::save::spec_entry_view(v.0)],
                            spec_parse_entries_rest(s@, jn as int),
                        ));
                    }
                    entries.push(v.0);
                    j = jn;
                    proof {
                        assert(entries@.map_values(|e: ScoreEntry| crate::save::spec_entry_view(e))
                            =~= seq![crate::save::spec_entry_view(v.0)]);
                    }
                },
                None => {
                    return None;
                },
            }
        },
    }
    while !done
        invariant
            j <= s@.len(),
            spec_parse_lit(s@, 0, "{\"entries\":["@) == Some(j0 as int),
            done ==> spec_parse_entries(s@, j0 as int) == Some(
                (
                    entries@.map_values(|e: ScoreEntry| crate::save::spec_entry_view(e)),
                    j as int,
                ),
            ),
            !done ==> spec_parse_entries(s@, j0 as int) == spec_compose_rows(
                entries@.map_values(|e: ScoreEntry| crate::save::spec_entry_view(e)),
                spec_parse_entries_rest(s@, j as int),
            ),
        decreases s@.len() - j + (if done {
            0int
        } else {
            1int
        }),
    {
        let ghost rows_pre = entries@.map_values(|e: ScoreEntry| crate::save::spec_entry_view(e));
        match parse_lit_at(s, j, "]") {
            Some(j1) => {
                proof {
                    assert(spec_parse_entries_rest(s@, j as int) == Some(
                        (Seq::<(Seq<char>, u32)>::empty(), j1 as int),
                    ));
                    assert(rows_pre + Seq::<(Seq<char>, u32)>::empty() =~= rows_pre);
                }
                j = j1;
                done = true;
            },
            None => {
                let j1 = match parse_lit_at(s, j, ",") {
                    Some(v) => v,
                    None => {
                        return None;
                    },
                };
                match parse_entry_at(s, j1) {
                    Some(v) => {
                        let jn = v.1;
                        proof {
                            assert(spec_parse_entries_rest(s@, j as int) == (match spec_parse_entries_rest(
                                s@,
                                jn as int,
                            ) {
                                Some((rest, j2)) => Some(
                                    (seq![crate::save::spec_entry_view(v.0)] + rest, j2),
                                ),
                                None => None,
                            }));
                        }
                        entries.push(v.0);
                        j = jn;
                        proof {
                            let rows_now = entries@.map_values(
                                |e: ScoreEntry| crate::save::spec_entry_view(e),
                            );
                            assert(rows_now =~= rows_pre.push(crate::save::spec_entry_view(v.0)));
                            lemma_compose_rows_assoc(
                                rows_pre,
                                seq![crate::save::spec_entry_view(v.0)],
                                spec_parse_entries_rest(s@, jn as int),
                            );
                            assert(rows_pre + seq![crate::save::spec_entry_view(v.0)] =~= rows_now);
                        }
                    },
                    None => {
                        return None;
                    },
                }
            },
        }
    }
    let j1 = match parse_lit_at(s, j, "}") {
        Some(v) => v,
        None => {
            return None;
        },
    };
    if j1 != n {
        return None;
    }
    if entries.len() > crate::save::LEADERBOARD_CAP {
        return None;
    }
    let mut k: usize = 1;
    while k < entries.len()
        invariant
            1 <= k,
            k <= entries.len() || entries.len() == 0,
            entries@.len() <= crate::save::LEADERBOARD_CAP,
            spec_parse_leaderboard(s@) == Some(
                entries@.map_values(|e: ScoreEntry| crate::save::spec_entry_view(e)),
            ),
            forall|a: int, b: int|
                0 <= a < b < k && b < entries@.len() ==> (#[trigger] entries@[a]).score >= (
                #[trigger] entries@[b]).score,
        decreases entries@.len() - k,
    {
        if entries[k - 1].score < entries[k].score {
            proof {
                let rows = entries@.map_values(|e: ScoreEntry| crate::save::spec_entry_view(e));
                assert(rows[k - 1].1 == entries@[k - 1].score);
                assert(rows[k as int].1 == entries@[k as int].score);
                assert(!crate::save::spec_sorted_desc(rows));
            }
            return None;
        }
        k = k + 1;
    }
    let lb = Leaderboard { entries };
    proof {
        let rows = crate::save::spec_lb_view(lb);
        assert forall|a: int, b: int| 0 <= a < b < rows.len() implies (#[trigger] rows[a]).1 >= (
        #[trigger] rows[b]).1 by {
            assert(rows[a].1 == lb.entries@[a].score);
            assert(rows[b].1 == lb.entries@[b].score);
        }
    }
    Some(lb)
}

/// Reading prefixed rows and then composing is composing once with the
/// concatenated prefix.
proof fn lemma_compose_rows_assoc(
    a: Seq<(Seq<char>, u32)>,
    b: Seq<(Seq<char>, u32)>,
    r: Option<(Seq<(Seq<char>, u32)>, int)>,
)
    ensures
        spec_compose_rows(a, spec_compose_rows(b, r)) == spec_compose_rows(a + b, r),
{
    match r {
        Some((rows, j)) => {
            assert(a + (b + rows) =~= (a + b) + rows);
        },
        None => {},
    }
}


/// Every character of a decimal rendering is a digit.
proof fn lemma_dec_all_digits(n: int)
    requires
        0 <= n,
    ensures
        forall|t: int| 0 <= t < spec_u32_dec(n).len() ==> spec_is_digit(#[trigger] spec_u32_dec(n)[t]),
    decreases n,
{
    if n < 10 {
        assert(spec_is_digit(spec_digit_char(n)));
    } else {
        lemma_dec_all_digits(n / 10);
        assert(spec_is_digit(spec_digit_char(n % 10)));
        assert forall|t: int| 0 <= t < spec_u32_dec(n).len() implies spec_is_digit(
            #[trigger] spec_u32_dec(n)[t],
        ) by {
            if t < spec_u32_dec(n / 10).len() {
                assert(spec_u32_dec(n)[t] == spec_u32_dec(n / 10)[t]);
            } else {
                assert(spec_u32_dec(n)[t] == spec_digit_char(n % 10));
            }
        }
    }
}

/// A decimal rendering is never empty.
proof fn lemma_dec_len_pos(n: int)
    requires
        0 <= n,
    ensures
        spec_u32_dec(n).len() >= 1,
    decreases n,
{
    if n >= 10 {
        lemma_dec_len_pos(n / 10);
    }
}

/// A number below the `k`-th power of ten renders in at most `k` digits.
proof fn lemma_dec_len_bound(n: int, k: int)
    requires
        0 <= n,
        1 <= k,
        n < spec_pow10(k),
    ensures
        spec_u32_dec(n).len() <= k,
    decreases n,
{
    if n < 10 {
    } else {
        assert(k >= 2) by {
            if k == 1 {
                assert(spec_pow10(1) == 10 * spec_pow10(0));
            }
        }
        assert(spec_pow10(k) == 10 * spec_pow10(k - 1));
        lemma_dec_len_bound(n / 10, k - 1);
    }
}

/// The value of a digit character.
proof fn lemma_digit_char_val(d: int)
    requires
        0 <= d <= 9,
    ensures
        spec_is_digit(spec_digit_char(d)),
        spec_digit_val(spec_digit_char(d)) == d,
{
}

/// A run of digits ending at a non-digit (or the end) is exactly where
/// the digit scan stops.
proof fn lemma_digit_end_of_run(s: Seq<char>, i: int, m: int)
    requires
        0 <= i,
        0 <= m,
        i + m <= s.len(),
        forall|t: int| 0 <= t < m ==> spec_is_digit(#[trigger] s[i + t]),
        i + m == s.len() || !spec_is_digit(s[i + m]),
    ensures
        spec_digit_end(s, i) == i + m,
    decreases m,
{
    if m == 0 {
    } else {
        assert(s[i + 0] == s[i]);
        assert(spec_is_digit(s[i + 0]));
        assert forall|t: int| 0 <= t < m - 1 implies spec_is_digit(#[trigger] s[i + 1 + t]) by {
            assert(s[i + 1 + t] == s[i + (t + 1)]);
        }
        lemma_digit_end_of_run(s, i + 1, m - 1);
    }
}

/// The digits of a decimal rendering evaluate back to the number.
proof fn lemma_digits_val_of_dec(s: Seq<char>, i: int, n: int)
    requires
        0 <= i,
        0 <= n,
        i + spec_u32_dec(n).len() <= s.len(),
        forall|t: int| 0 <= t < spec_u32_dec(n).len() ==> #[trigger] s[i + t] == spec_u32_dec(n)[t],
    ensures
        spec_digits_val(s, i, i + spec_u32_dec(n).len()) == n,
    decreases n,
{
    let d = spec_u32_dec(n);
    lemma_dec_len_pos(n);
    if n < 10 {
        assert(d.len() == 1);
        assert(s[i + 0] == d[0]);
        assert(s[i] == spec_digit_char(n));
        lemma_digit_char_val(n);
        assert(spec_digits_val(s, i, i + 1) == spec_digits_val(s, i, i) * 10 + spec_digit_val(
            s[i],
        ));
    } else {
        let dp = spec_u32_dec(n / 10);
        assert(d == dp.push(spec_digit_char(n % 10)));
        assert forall|t: int| 0 <= t < dp.len() implies #[trigger] s[i + t] == dp[t] by {
            assert(d[t] == dp[t]);
        }
        lemma_digits_val_of_dec(s, i, n / 10);
        assert(s[i + d.len() - 1] == spec_digit_char(n % 10));
        lemma_digit_char_val(n % 10);
        assert(spec_digits_val(s, i, i + d.len()) == spec_digits_val(s, i, i + d.len() - 1) * 10
            + spec_digit_val(s[i + d.len() - 1]));
        assert(n == (n / 10) * 10 + n % 10);
    }
}

/// A decimal rendering followed by a non-digit parses back to its
/// number, the cursor landing just past the digits.
proof fn lemma_parse_u32_of_dec(s: Seq<char>, i: int, n: int, rest: Seq<char>)
    requires
        0 <= i <= s.len(),
        0 <= n <= u32::MAX,
        s.subrange(i, s.len() as int) == spec_u32_dec(n) + rest,
        rest.len() > 0 ==> !spec_is_digit(rest[0]),
    ensures
        spec_parse_u32(s, i) == Some((n as u32, i + spec_u32_dec(n).len())),
{
    let d = spec_u32_dec(n);
    let m = d.len() as int;
    lemma_dec_len_pos(n);
    lemma_pow10_values();
    lemma_dec_len_bound(n, 10);
    lemma_dec_all_digits(n);
    let tail = s.subrange(i, s.len() as int);
    assert(tail.len() == m + rest.len());
    assert(i + m <= s.len());
    assert forall|t: int| 0 <= t < m implies #[trigger] s[i + t] == d[t] by {
        assert(tail[t] == s[i + t]);
        assert(tail[t] == (d + rest)[t]);
    }
    assert forall|t: int| 0 <= t < m implies spec_is_digit(#[trigger] s[i + t]) by {
        assert(s[i + t] == d[t]);
    }
    if i + m < s.len() {
        assert(s[i + m] == tail[m]);
        assert(tail[m] == rest[0]);
        assert(rest.len() > 0);
    }
    lemma_digit_end_of_run(s, i, m);
    lemma_digits_val_of_dec(s, i, n);
}

/// An escaped string, its closing quote and anything after parse back to
/// the original string, the cursor landing just past the quote.
proof fn lemma_parse_string_of_escape(s: Seq<char>, i: int, u: Seq<char>, rest: Seq<char>)
    requires
        0 <= i <= s.len(),
        s.subrange(i, s.len() as int) == spec_escape(u) + seq!['"'] + rest,
    ensures
        spec_parse_string(s, i) == Some((u, i + spec_escape(u).len() + 1)),
    decreases u.len(),
{
    let e = spec_escape(u);
    let tail = s.subrange(i, s.len() as int);
    assert(tail.len() == e.len() + 1 + rest.len());
    if u.len() == 0 {
        assert(e =~= Seq::<char>::empty());
        assert(s[i] == tail[0]);
        assert(tail[0] == '"');
        assert(spec_parse_string(s, i) == Some((Seq::<char>::empty(), i + 1)));
        assert(u =~= Seq::<char>::empty());
    } else {
        let c = u[0];
        let u2 = u.drop_first();
        assert(e == spec_esc_char(c) + spec_escape(u2));
        lemma_escape_len_pos(u);
        if c == '"' || c == '\\' {
            assert(spec_esc_char(c) == seq!['\\', c]);
            assert(s[i] == tail[0]);
            assert(tail[0] == '\\');
            assert(i + 1 < s.len());
            assert(s[i + 1] == tail[1]);
            assert(tail[1] == c);
            assert(s.subrange(i + 2, s.len() as int) =~= spec_escape(u2) + seq!['"'] + rest) by {
                assert forall|t: int| 0 <= t < s.len() - i - 2 implies s.subrange(
                    i + 2,
                    s.len() as int,
                )[t] == (spec_escape(u2) + seq!['"'] + rest)[t] by {
                    assert(s.subrange(i + 2, s.len() as int)[t] == tail[t + 2]);
                    assert(tail[t + 2] == (e + seq!['"'] + rest)[t + 2]);
                }
            }
            lemma_parse_string_of_escape(s, i + 2, u2, rest);
            assert(spec_parse_string(s, i) == (match spec_parse_string(s, i + 2) {
                Some((v, j)) => Some((seq![c] + v, j)),
                None => None,
            }));
            assert(seq![c] + u2 =~= u);
        } else {
            assert(spec_esc_char(c) == seq![c]);
            assert(s[i] == tail[0]);
            assert(tail[0] == c);
            assert(s.subrange(i + 1, s.len() as int) =~= spec_escape(u2) + seq!['"'] + rest) by {
                assert forall|t: int| 0 <= t < s.len() - i - 1 implies s.subrange(
                    i + 1,
                    s.len() as int,
                )[t] == (spec_escape(u2) + seq!['"'] + rest)[t] by {
                    assert(s.subrange(i + 1, s.len() as int)[t] == tail[t + 1]);
                    assert(tail[t + 1] == (e + seq!['"'] + rest)[t + 1]);
                }
            }
            lemma_parse_string_of_escape(s, i + 1, u2, rest);
            assert(spec_parse_string(s, i) == (match spec_parse_string(s, i + 1) {
                Some((v, j)) => Some((seq![c] + v, j)),
                None => None,
            }));
            assert(seq![c] + u2 =~= u);
        }
    }
}

/// The escape of a non-empty string is non-empty.
proof fn lemma_escape_len_pos(u: Seq<char>)
    requires
        u.len() > 0,
    ensures
        spec_escape(u).len() >= u.len(),
    decreases u.len(),
{
    if u.len() > 1 {
        lemma_escape_len_pos(u.drop_first());
    }
}

/// A literal that stands verbatim at `i` parses there.
proof fn lemma_parse_lit_at(s: Seq<char>, i: int, lit: Seq<char>)
    requires
        0 <= i,
        i + lit.len() <= s.len(),
        s.subrange(i, i + lit.len()) == lit,
    ensures
        spec_parse_lit(s, i, lit) == Some(i + lit.len()),
{
}

/// Saving a profile and loading it yields the same fields: the document
/// the encoder writes parses back to exactly the username, style and
/// permanent upgrades it was written from.
#[verifier::rlimit(100)]
#[verifier::spinoff_prover]
pub proof fn lemma_profile_roundtrip(p: PlayerProfile)
    requires
        crate::save::spec_profile_wf(p),
    ensures
        spec_parse_profile(spec_encode_profile(p)) == Some(
            (p.username@, p.plane_style, p.permanent.bullet_level, p.permanent.max_lives),
        ),
{
    let s = spec_encode_profile(p);
    let l1 = "{\"username\":\""@;
    let esc = spec_escape(p.username@);
    let q2 = "\",\"plane_style\":"@;
    let l2 = ",\"plane_style\":"@;
    let d1 = spec_u32_dec(p.plane_style as int);
    let l3 = ",\"permanent\":{\"bullet_level\":"@;
    let d2 = spec_u32_dec(p.permanent.bullet_level as int);
    let l4 = ",\"max_lives\":"@;
    let d3 = spec_u32_dec(p.permanent.max_lives as int);
    let l5 = "}}"@;
    reveal_strlit("{\"username\":\"");
    reveal_strlit("\",\"plane_style\":");
    reveal_strlit(",\"plane_style\":");
    reveal_strlit(",\"permanent\":{\"bullet_level\":");
    reveal_strlit(",\"max_lives\":");
    reveal_strlit("}}");
    reveal_strlit("\"");
    assert(q2 =~= seq!['"'] + l2);
    assert(s =~= l1 + esc + seq!['"'] + l2 + d1 + l3 + d2 + l4 + d3 + l5);
    lemma_dec_len_pos(p.plane_style as int);
    lemma_dec_len_pos(p.permanent.bullet_level as int);
    lemma_dec_len_pos(p.permanent.max_lives as int);
    lemma_dec_all_digits(p.plane_style as int);
    lemma_dec_all_digits(p.permanent.bullet_level as int);
    lemma_dec_all_digits(p.permanent.max_lives as int);
    let i1 = l1.len() as int;
    assert(s.subrange(0, i1) =~= l1);
    lemma_parse_lit_at(s, 0, l1);
    let rest1 = l2 + d1 + l3 + d2 + l4 + d3 + l5;
    assert(s.subrange(i1, s.len() as int) =~= esc + seq!['"'] + rest1);
    lemma_parse_string_of_escape(s, i1, p.username@, rest1);
    let i2 = i1 + esc.len() + 1;
    assert(s.subrange(i2, i2 + l2.len()) =~= l2);
    lemma_parse_lit_at(s, i2, l2);
    let i3 = i2 + l2.len();
    let rest2 = l3 + d2 + l4 + d3 + l5;
    assert(s.subrange(i3, s.len() as int) =~= d1 + rest2);
    assert(!spec_is_digit(rest2[0]));
    lemma_parse_u32_of_dec(s, i3, p.plane_style as int, rest2);
    let i4 = i3 + d1.len();
    assert(s.subrange(i4, i4 + l3.len()) =~= l3);
    lemma_parse_lit_at(s, i4, l3);
    let i5 = i4 + l3.len();
    let rest3 = l4 + d3 + l5;
    assert(s.subrange(i5, s.len() as int) =~= d2 + rest3);
    assert(!spec_is_digit(rest3[0]));
    lemma_parse_u32_of_dec(s, i5, p.permanent.bullet_level as int, rest3);
    let i6 = i5 + d2.len();
    assert(s.subrange(i6, i6 + l4.len()) =~= l4);
    lemma_parse_lit_at(s, i6, l4);
    let i7 = i6 + l4.len();
    let rest4 = l5;
    assert(s.subrange(i7, s.len() as int) =~= d3 + rest4);
    assert(!spec_is_digit(rest4[0]));
    lemma_parse_u32_of_dec(s, i7, p.permanent.max_lives as int, rest4);
    let i8 = i7 + d3.len();
    assert(s.subrange(i8, i8 + l5.len()) =~= l5);
    lemma_parse_lit_at(s, i8, l5);
    assert(i8 + l5.len() == s.len());
}


/// The comma-joined documents of the rows from `k` on, head first.
pub open spec fn spec_entries_from(entries: Seq<ScoreEntry>, k: int) -> Seq<char>
    decreases entries.len() - k,
{
    if k < 0 || k >= entries.len() {
        Seq::empty()
    } else if k == entries.len() - 1 {
        spec_encode_entry(entries[k])
    } else {
        spec_encode_entry(entries[k]) + seq![','] + spec_entries_from(entries, k + 1)
    }
}

/// Appending one row appends its document after a comma (or alone).
proof fn lemma_entries_from_snoc(entries: Seq<ScoreEntry>, k: int)
    requires
        0 <= k < entries.len(),
    ensures
        entries.len() == 1 + entries.drop_last().len(),
        k < entries.len() - 1 ==> spec_entries_from(entries, k) == spec_entries_from(
            entries.drop_last(),
            k,
        ) + seq![','] + spec_encode_entry(entries.last()),
        k == entries.len() - 1 ==> spec_entries_from(entries, k) == spec_encode_entry(
            entries.last(),
        ),
    decreases entries.len() - k,
{
    let dl = entries.drop_last();
    if k < entries.len() - 1 {
        assert(entries[k] == dl[k]);
        if k == entries.len() - 2 {
            assert(spec_entries_from(entries, k + 1) == spec_encode_entry(entries.last()));
            assert(spec_entries_from(dl, k) == spec_encode_entry(dl[k]));
        } else {
            lemma_entries_from_snoc(entries, k + 1);
            assert(spec_entries_from(dl, k) == spec_encode_entry(dl[k]) + seq![',']
                + spec_entries_from(dl, k + 1));
            assert((spec_encode_entry(entries[k]) + seq![','] + (spec_entries_from(dl, k + 1)
                + seq![','] + spec_encode_entry(entries.last()))) =~= ((spec_encode_entry(
                entries[k],
            ) + seq![','] + spec_entries_from(dl, k + 1)) + seq![','] + spec_encode_entry(
                entries.last(),
            )));
        }
    }
}

/// The left-built join of all rows equals the head-first join.
proof fn lemma_entries_upto_eq_from(entries: Seq<ScoreEntry>, n: int)
    requires
        0 <= n <= entries.len(),
    ensures
        spec_encode_entries_upto(entries, n) == spec_entries_from(entries.take(n), 0),
    decreases n,
{
    if n == 0 {
    } else if n == 1 {
        assert(entries.take(1)[0] == entries[0]);
        assert(spec_entries_from(entries.take(1), 0) == spec_encode_entry(entries[0]));
    } else {
        lemma_entries_upto_eq_from(entries, n - 1);
        let t = entries.take(n);
        assert(t.drop_last() =~= entries.take(n - 1));
        assert(t.last() == entries[n - 1]);
        lemma_entries_from_snoc(t, 0);
        assert(spec_entries_from(t, 0) == spec_entries_from(entries.take(n - 1), 0) + seq![',']
            + spec_encode_entry(entries[n - 1]));
    }
}

/// Splitting a suffix known to be a concatenation: the prefix stands
/// verbatim at the cursor and the rest is the suffix past it.
proof fn lemma_split_prefix(s: Seq<char>, i: int, pre: Seq<char>, post: Seq<char>)
    requires
        0 <= i <= s.len(),
        s.subrange(i, s.len() as int) == pre + post,
    ensures
        i + pre.len() <= s.len(),
        s.subrange(i, i + pre.len()) == pre,
        s.subrange(i + pre.len(), s.len() as int) == post,
{
    let tail = s.subrange(i, s.len() as int);
    assert(tail.len() == pre.len() + post.len());
    assert(s.subrange(i, i + pre.len()) =~= pre) by {
        assert forall|t: int| 0 <= t < pre.len() implies s.subrange(i, i + pre.len())[t]
            == pre[t] by {
            assert(s.subrange(i, i + pre.len())[t] == s[i + t]);
            assert(tail[t] == s[i + t]);
            assert(tail[t] == (pre + post)[t]);
        }
    }
    assert(s.subrange(i + pre.len(), s.len() as int) =~= post) by {
        assert forall|t: int| 0 <= t < post.len() implies s.subrange(
            i + pre.len(),
            s.len() as int,
        )[t] == post[t] by {
            assert(s.subrange(i + pre.len(), s.len() as int)[t] == s[i + pre.len() + t]);
            assert(tail[pre.len() + t] == s[i + pre.len() + t]);
            assert(tail[pre.len() + t] == (pre + post)[pre.len() + t]);
        }
    }
}

/// One encoded row parses back to its fields, the cursor landing just
/// past its closing brace.
proof fn lemma_parse_entry_of_encode(s: Seq<char>, i: int, e: ScoreEntry, rest: Seq<char>)
    requires
        0 <= i <= s.len(),
        s.subrange(i, s.len() as int) == spec_encode_entry(e) + rest,
    ensures
        spec_parse_entry(s, i) == Some(
            (crate::save::spec_entry_view(e), i + spec_encode_entry(e).len()),
        ),
{
    reveal_strlit("{\"username\":\"");
    reveal_strlit("\",\"score\":");
    reveal_strlit(",\"score\":");
    reveal_strlit("}");
    reveal_strlit("\"");
    let l1 = "{\"username\":\""@;
    let esc = spec_escape(e.username@);
    let q2 = "\",\"score\":"@;
    let l2 = ",\"score\":"@;
    let d = spec_u32_dec(e.score as int);
    let l3 = "}"@;
    assert(q2 =~= seq!['"'] + l2);
    let enc = spec_encode_entry(e);
    assert(enc =~= l1 + esc + seq!['"'] + l2 + d + l3);
    lemma_dec_len_pos(e.score as int);
    lemma_dec_all_digits(e.score as int);
    let rest1 = l2 + d + l3 + rest;
    assert(s.subrange(i, s.len() as int) =~= l1 + (esc + seq!['"'] + rest1));
    lemma_split_prefix(s, i, l1, esc + seq!['"'] + rest1);
    let i1 = i + l1.len();
    lemma_parse_lit_at(s, i, l1);
    lemma_parse_string_of_escape(s, i1, e.username@, rest1);
    assert(s.subrange(i1, s.len() as int) =~= (esc + seq!['"']) + rest1);
    lemma_split_prefix(s, i1, esc + seq!['"'], rest1);
    let i2 = i1 + esc.len() + 1;
    assert(s.subrange(i2, s.len() as int) =~= l2 + (d + (l3 + rest)));
    lemma_split_prefix(s, i2, l2, d + (l3 + rest));
    lemma_parse_lit_at(s, i2, l2);
    let i3 = i2 + l2.len();
    assert(!spec_is_digit((l3 + rest)[0]));
    lemma_parse_u32_of_dec(s, i3, e.score as int, l3 + rest);
    lemma_split_prefix(s, i3, d, l3 + rest);
    let i4 = i3 + d.len();
    assert(s.subrange(i4, s.len() as int) =~= l3 + rest);
    lemma_split_prefix(s, i4, l3, rest);
    lemma_parse_lit_at(s, i4, l3);
    assert(i4 + l3.len() == i + enc.len());
}

/// The views of the rows from `k` on.
pub open spec fn spec_views_from(entries: Seq<ScoreEntry>, k: int) -> Seq<(Seq<char>, u32)> {
    entries.skip(k).map_values(|e: ScoreEntry| crate::save::spec_entry_view(e))
}

/// After the first `k` rows are consumed, the remaining document — a
/// closing bracket, or a comma and the remaining rows — parses back to
/// exactly those rows.
proof fn lemma_parse_rest_of_from(
    s: Seq<char>,
    i: int,
    entries: Seq<ScoreEntry>,
    k: int,
    rest: Seq<char>,
)
    requires
        0 <= i <= s.len(),
        0 < k <= entries.len(),
        k == entries.len() ==> s.subrange(i, s.len() as int) == seq![']'] + rest,
        k < entries.len() ==> s.subrange(i, s.len() as int) == seq![','] + spec_entries_from(
            entries,
            k,
        ) + seq![']'] + rest,
    ensures
        k == entries.len() ==> spec_parse_entries_rest(s, i) == Some(
            (Seq::<(Seq<char>, u32)>::empty(), i + 1),
        ),
        k < entries.len() ==> spec_parse_entries_rest(s, i) == Some(
            (spec_views_from(entries, k), i + 1 + spec_entries_from(entries, k).len() + 1),
        ),
    decreases entries.len() - k,
{
    reveal_strlit("]");
    reveal_strlit(",");
    reveal_strlit("{\"username\":\"");
    assert("]"@ =~= seq![']']);
    assert(","@ =~= seq![',']);
    if k == entries.len() {
        lemma_split_prefix(s, i, seq![']'], rest);
        lemma_parse_lit_at(s, i, "]"@);
    } else {
        let from_k = spec_entries_from(entries, k);
        let enc = spec_encode_entry(entries[k]);
        assert(s.subrange(i, s.len() as int) =~= seq![','] + (from_k + (seq![']'] + rest)));
        lemma_split_prefix(s, i, seq![','], from_k + (seq![']'] + rest));
        assert(s[i] == s.subrange(i, i + 1)[0]);
        assert(s[i] == ',');
        assert(spec_parse_lit(s, i, "]"@) is None) by {
            if spec_parse_lit(s, i, "]"@) is Some {
                assert(s.subrange(i, i + 1) == "]"@);
                assert(s.subrange(i, i + 1)[0] == s[i]);
            }
        }
        lemma_parse_lit_at(s, i, ","@);
        let i1 = i + 1;
        if k == entries.len() - 1 {
            assert(from_k == enc);
            assert(s.subrange(i1, s.len() as int) =~= enc + (seq![']'] + rest));
            lemma_parse_entry_of_encode(s, i1, entries[k], seq![']'] + rest);
            lemma_split_prefix(s, i1, enc, seq![']'] + rest);
            let j = i1 + enc.len();
            lemma_parse_rest_of_from(s, j, entries, k + 1, rest);
            assert(spec_views_from(entries, k) =~= seq![crate::save::spec_entry_view(entries[k])]
                + Seq::<(Seq<char>, u32)>::empty()) by {
                assert(entries.skip(k).len() == 1);
                assert(entries.skip(k)[0] == entries[k]);
            }
        } else {
            let from_k1 = spec_entries_from(entries, k + 1);
            assert(from_k == enc + seq![','] + from_k1);
            assert(s.subrange(i1, s.len() as int) =~= enc + (seq![','] + from_k1 + seq![']']
                + rest));
            lemma_parse_entry_of_encode(s, i1, entries[k], seq![','] + from_k1 + seq![']'] + rest);
            lemma_split_prefix(s, i1, enc, seq![','] + from_k1 + seq![']'] + rest);
            let j = i1 + enc.len();
            assert(s.subrange(j, s.len() as int) =~= seq![','] + from_k1 + seq![']'] + rest);
            lemma_parse_rest_of_from(s, j, entries, k + 1, rest);
            assert(spec_views_from(entries, k) =~= seq![crate::save::spec_entry_view(entries[k])]
                + spec_views_from(entries, k + 1)) by {
                assert forall|t: int| 0 <= t < entries.skip(k).len() implies spec_views_from(
                    entries,
                    k,
                )[t] == (seq![crate::save::spec_entry_view(entries[k])] + spec_views_from(
                    entries,
                    k + 1,
                ))[t] by {
                    assert(entries.skip(k)[t] == entries[k + t]);
                    if t > 0 {
                        assert(entries.skip(k + 1)[t - 1] == entries[k + t]);
                    }
                }
            }
        }
    }
}

/// Saving the leaderboard and loading it yields the same rows: the
/// document the encoder writes parses back to exactly the rows it was
/// written from.
#[verifier::rlimit(100)]
#[verifier::spinoff_prover]
pub proof fn lemma_leaderboard_roundtrip(lb: Leaderboard)
    ensures
        spec_parse_leaderboard(spec_encode_leaderboard(lb)) == Some(crate::save::spec_lb_view(lb)),
{
    reveal_strlit("{\"entries\":[");
    reveal_strlit("]}");
    reveal_strlit("]");
    reveal_strlit("}");
    reveal_strlit("{\"username\":\"");
    let s = spec_encode_leaderboard(lb);
    let l1 = "{\"entries\":["@;
    let entries = lb.entries@;
    let n = entries.len() as int;
    let body = spec_encode_entries_upto(entries, n);
    assert(s =~= l1 + (body + seq![']'] + seq!['}'])) by {
        assert("]}"@ =~= seq![']'] + seq!['}']);
    }
    assert(s.subrange(0, s.len() as int) =~= s);
    lemma_split_prefix(s, 0, l1, body + seq![']'] + seq!['}']);
    let i1 = l1.len() as int;
    lemma_parse_lit_at(s, 0, l1);
    lemma_entries_upto_eq_from(entries, n);
    assert(entries.take(n) =~= entries);
    if n == 0 {
        assert(body =~= Seq::<char>::empty());
        assert(s.subrange(i1, s.len() as int) =~= seq![']'] + seq!['}']);
        lemma_split_prefix(s, i1, seq![']'], seq!['}']);
        assert("]"@ =~= seq![']']);
        lemma_parse_lit_at(s, i1, "]"@);
        assert(spec_parse_entries(s, i1) == Some((Seq::<(Seq<char>, u32)>::empty(), i1 + 1)));
        assert(s.subrange(i1 + 1, s.len() as int) =~= seq!['}']);
        assert("}"@ =~= seq!['}']);
        lemma_parse_lit_at(s, i1 + 1, "}"@);
        assert(crate::save::spec_lb_view(lb) =~= Seq::<(Seq<char>, u32)>::empty());
    } else {
        assert(body == spec_entries_from(entries, 0));
        let enc0 = spec_encode_entry(entries[0]);
        assert(s.subrange(i1, s.len() as int)[0] == (body + seq![']'] + seq!['}'])[0]);
        assert(s[i1] == s.subrange(i1, s.len() as int)[0]);
        assert(enc0[0] == '{') by {
            assert(enc0 =~= "{\"username\":\""@ + spec_escape(entries[0].username@)
                + "\",\"score\":"@ + spec_u32_dec(entries[0].score as int) + "}"@);
        }
        assert(spec_parse_lit(s, i1, "]"@) is None) by {
            assert("]"@ =~= seq![']']);
            if n == 1 {
                assert(body == enc0);
            } else {
                assert(body == enc0 + seq![','] + spec_entries_from(entries, 1));
            }
            assert(body[0] == enc0[0]);
            assert(s[i1] == '{');
            if spec_parse_lit(s, i1, "]"@) is Some {
                assert(s.subrange(i1, i1 + 1) == "]"@);
                assert(s.subrange(i1, i1 + 1)[0] == s[i1]);
            }
        }
        if n == 1 {
            assert(body == enc0);
            assert(s.subrange(i1, s.len() as int) =~= enc0 + (seq![']'] + seq!['}']));
            lemma_parse_entry_of_encode(s, i1, entries[0], seq![']'] + seq!['}']);
            lemma_split_prefix(s, i1, enc0, seq![']'] + seq!['}']);
            let j = i1 + enc0.len();
            lemma_parse_rest_of_from(s, j, entries, 1, seq!['}']);
            assert(crate::save::spec_lb_view(lb) =~= seq![crate::save::spec_entry_view(entries[0])]
                + Seq::<(Seq<char>, u32)>::empty());
            let jend = j + 1;
            assert(s.subrange(jend, s.len() as int) =~= seq!['}']);
            assert("}"@ =~= seq!['}']);
            lemma_parse_lit_at(s, jend, "}"@);
        } else {
            let from1 = spec_entries_from(entries, 1);
            assert(body == enc0 + seq![','] + from1);
            assert(s.subrange(i1, s.len() as int) =~= enc0 + (seq![','] + from1 + seq![']']
                + seq!['}']));
            lemma_parse_entry_of_encode(s, i1, entries[0], seq![','] + from1 + seq![']'] + seq!['}']);
            lemma_split_prefix(s, i1, enc0, seq![','] + from1 + seq![']'] + seq!['}']);
            let j = i1 + enc0.len();
            lemma_parse_rest_of_from(s, j, entries, 1, seq!['}']);
            assert(crate::save::spec_lb_view(lb) =~= seq![crate::save::spec_entry_view(entries[0])]
                + spec_views_from(entries, 1)) by {
                assert forall|t: int| 0 <= t < entries.len() implies crate::save::spec_lb_view(
                    lb,
                )[t] == (seq![crate::save::spec_entry_view(entries[0])] + spec_views_from(
                    entries,
                    1,
                ))[t] by {
                    if t > 0 {
                        assert(entries.skip(1)[t - 1] == entries[t]);
                    }
                }
            }
            let jend = j + 1 + from1.len() + 1;
            assert(s.subrange(jend, s.len() as int) =~= seq!['}']) by {
                assert(s.len() - jend == 1);
                assert(s.subrange(jend, s.len() as int)[0] == s[jend]);
                assert(s.subrange(i1, s.len() as int)[jend - i1] == s[jend]);
                assert((enc0 + (seq![','] + from1 + seq![']'] + seq!['}']))[jend - i1] == '}');
            }
            assert("}"@ =~= seq!['}']);
            lemma_parse_lit_at(s, jend, "}"@);
        }
    }
}

} // verus!
