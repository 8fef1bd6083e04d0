//! Choosing, listing and exporting log sessions.
use vstd::prelude::*;
use crate::filter_config::strings_view;
use crate::logging::{age_text, size_text, LogSessionInfo};
use crate::redact::{redact_line, redact_log_line};
use crate::text::{chars_of, contains_seq, decimal, lines_from, parse_u64, split_lines, parse_u64_str, push_decimal, push_seq,
    str_contains, str_eq, string_of};

verus! {

broadcast use vstd::seq_lib::group_to_multiset_ensures;

/// Sessions ordered newest first.
pub open spec fn newest_first(s: Seq<LogSessionInfo>) -> bool {
    forall|i: int, j: int| 0 <= i < j < s.len() ==> s[i].modified_nanos >= s[j].modified_nanos
}

/// Orders sessions newest first (by modification time), keeping them all.
pub fn sort_newest_first(sessions: Vec<LogSessionInfo>) -> (r: Vec<LogSessionInfo>)
    ensures
        r@.to_multiset() == sessions@.to_multiset(),
        newest_first(r@),
{
    let ghost input = sessions@;
    let mut rest = sessions;
    let mut out: Vec<LogSessionInfo> = Vec::new();
    proof {
        assert(out@.to_multiset() =~= vstd::multiset::Multiset::empty());
        assert(out@.to_multiset().add(rest@.to_multiset()) =~= input.to_multiset());
    }
    while rest.len() > 0
        invariant
            out@.to_multiset().add(rest@.to_multiset()) == input.to_multiset(),
            newest_first(out@),
        decreases rest.len(),
    {
        let ghost before = rest@;
        let x = rest.pop().unwrap();
        proof {
            assert(before =~= rest@.push(x));
            assert(before.to_multiset() =~= rest@.to_multiset().insert(x));
        }
        let mut p: usize = 0;
        while p < out.len() && out[p].modified_nanos > x.modified_nanos
            invariant
                p <= out.len(),
                forall|k: int| 0 <= k < p ==> out@[k].modified_nanos > x.modified_nanos,
            decreases out.len() - p,
        {
            p += 1;
        }
        let ghost old_out = out@;
        out.insert(p, x);
        proof {
            assert(out@.to_multiset() =~= old_out.to_multiset().insert(x));
            assert(out@.to_multiset().add(rest@.to_multiset()) =~= input.to_multiset());
            assert forall|i: int, j: int| 0 <= i < j < out@.len() implies
                out@[i].modified_nanos >= out@[j].modified_nanos by {
                if j < p {
                } else if j == p {
                } else if i < p {
                    assert(old_out[i].modified_nanos >= old_out[j - 1].modified_nanos || i == j - 1);
                } else if i == p {
                    if p < old_out.len() {
                        assert(old_out[p as int].modified_nanos <= x.modified_nanos);
                    }
                } else {
                    assert(old_out[i - 1].modified_nanos >= old_out[j - 1].modified_nanos);
                }
            }
        }
    }
    proof { assert(out@.to_multiset().add(rest@.to_multiset()) =~= out@.to_multiset()); }
    out
}

/// Why no session could be chosen.
#[derive(Debug, Clone, PartialEq, Eq)]
pub enum SessionLookupError {
    /// The index is 0 or past the last session.
    IndexOutOfRange { index: u64, count: usize },
    /// No session's file name holds the text.
    NoMatch(String),
}

impl SessionLookupError {
    /// The error's message.
    pub fn message(&self) -> (r: String)
        ensures
            r@ == (match *self {
                SessionLookupError::IndexOutOfRange { index, count } =>
                    "index "@ + decimal(index as nat) + " out of range (1.."@ + decimal(count as nat) + ")"@,
                SessionLookupError::NoMatch(s) => "no session matching '"@ + s@ + "'"@,
            }),
    {
        let mut out: Vec<char> = Vec::new();
        match self {
            SessionLookupError::IndexOutOfRange { index, count } => {
                push_seq(&mut out, &chars_of("index "));
                push_decimal(&mut out, *index);
                push_seq(&mut out, &chars_of(" out of range (1.."));
                push_decimal(&mut out, *count as u64);
                push_seq(&mut out, &chars_of(")"));
            },
            SessionLookupError::NoMatch(s) => {
                push_seq(&mut out, &chars_of("no session matching '"));
                push_seq(&mut out, &chars_of(s.as_str()));
                push_seq(&mut out, &chars_of("'"));
            },
        }
        string_of(&out)
    }
}

/// The first session whose file name is `s` or holds it, from `k` on.
pub open spec fn first_match(sessions: Seq<LogSessionInfo>, s: Seq<char>, k: int) -> Option<int>
    decreases sessions.len() - k,
{
    if k < 0 || k >= sessions.len() {
        None
    } else if sessions[k].filename@ == s || contains_seq(sessions[k].filename@, s) {
        Some(k)
    } else {
        first_match(sessions, s, k + 1)
    }
}

/// What a selector picks.
pub enum Choice {
    /// The session at this index.
    At(int),
    /// A number out of range.
    OutOfRange(u64),
    /// No session matches the text.
    NoMatch,
}

/// The session a selector picks among sessions listed newest first: the newest
/// without one; by its 1-based number when the selector is a number; else
/// the first whose file name is or holds the selector.
pub open spec fn chosen_session(sessions: Seq<LogSessionInfo>, selector: Option<Seq<char>>) -> Choice {
    match selector {
        None => Choice::At(0),
        Some(s) => match parse_u64(s) {
            Some(idx) => if idx == 0 || idx > sessions.len() { Choice::OutOfRange(idx) } else { Choice::At(idx - 1) },
            None => match first_match(sessions, s, 0) {
                Some(k) => Choice::At(k),
                None => Choice::NoMatch,
            },
        },
    }
}

/// Picks the session to show. There must be at least one session.
pub fn choose_session(sessions: &Vec<LogSessionInfo>, selector: Option<&str>) -> (r: Result<usize, SessionLookupError>)
    requires
        sessions@.len() > 0,
    ensures
        match r {
            Ok(k) => chosen_session(sessions@, match selector { Some(s) => Some(s@), None => None }) == Choice::At(k as int)
                && k < sessions@.len(),
            Err(SessionLookupError::IndexOutOfRange { index, count }) =>
                chosen_session(sessions@, match selector { Some(s) => Some(s@), None => None }) == Choice::OutOfRange(index)
                && count == sessions@.len(),
            Err(SessionLookupError::NoMatch(m)) =>
                chosen_session(sessions@, match selector { Some(s) => Some(s@), None => None }) == Choice::NoMatch
                && (selector matches Some(s) && m@ == s@),
        },
{
    let s = match selector {
        None => return Ok(0),
        Some(s) => s,
    };
    match parse_u64_str(s) {
        Some(idx) => {
            if idx == 0 || idx > sessions.len() as u64 {
                Err(SessionLookupError::IndexOutOfRange { index: idx, count: sessions.len() })
            } else {
                Ok((idx - 1) as usize)
            }
        },
        None => {
            let mut k: usize = 0;
            while k < sessions.len()
                invariant
                    k <= sessions.len(),
                    first_match(sessions@, s@, 0) == first_match(sessions@, s@, k as int),
                    parse_u64(s@) is None,
                    selector == Some(s),
                decreases sessions.len() - k,
            {
                let name = sessions[k].filename.as_str();
                if str_eq(name, s) || str_contains(name, s) {
                    proof { assert(first_match(sessions@, s@, k as int) == Some(k as int)); }
                    return Ok(k);
                }
                k += 1;
            }
            Err(SessionLookupError::NoMatch(string_of(&chars_of(s))))
        },
    }
}

/// Where the last `tail` lines of `len` lines start: all of them without a
/// limit, or when there are fewer.
pub fn tail_start(len: usize, tail: Option<usize>) -> (r: usize)
    ensures
        r == (match tail {
            Some(n) => if n >= len { 0 } else { (len - n) as usize },
            None => 0,
        }),
{
    match tail {
        Some(n) => if n >= len { 0 } else { len - n },
        None => 0,
    }
}

/// The row of a session in the listing: its number, file name, binary, size
/// and age at `now`.
pub open spec fn session_row(k: int, s: LogSessionInfo, now: Option<u128>) -> Seq<Seq<char>> {
    seq![decimal((k + 1) as nat), s.filename@, s.binary@, size_text(s.size), age_text(s.modified_nanos, now)]
}

/// The rows of the session listing, numbered from 1, ages taken at `now`.
pub fn session_rows(sessions: &Vec<LogSessionInfo>, now: Option<u128>) -> (r: Vec<Vec<String>>)
    ensures
        r@.len() == sessions@.len(),
        forall|k: int| 0 <= k < r@.len() ==> strings_view((#[trigger] r@[k])@) == session_row(k, sessions@[k], now),
{
    let mut rows: Vec<Vec<String>> = Vec::new();
    let mut i: usize = 0;
    while i < sessions.len()
        invariant
            i <= sessions.len(),
            rows@.len() == i,
            forall|k: int| 0 <= k < i ==> strings_view((#[trigger] rows@[k])@) == session_row(k, sessions@[k], now),
        decreases sessions.len() - i,
    {
        let s = &sessions[i];
        let mut num: Vec<char> = Vec::new();
        push_decimal(&mut num, i as u64 + 1);
        let row = vec![string_of(&num), s.filename.clone(), s.binary.clone(), s.size_string(), s.age_string_at(now)];
        proof { assert(strings_view(row@) =~= session_row(i as int, *s, now)); }
        rows.push(row);
        i += 1;
    }
    rows
}

/// The point `secs` seconds before `now` (both in nanoseconds since the Unix
/// epoch), or `None` before the epoch.
pub open spec fn cutoff(now: u128, secs: int) -> Option<u128> {
    if secs * 1_000_000_000 <= now { Some((now - secs * 1_000_000_000) as u128) } else { None }
}

/// The cutoff of an export of the last `hours` hours, at `now`; `None` when
/// it would lie before the epoch or the hours overflow.
pub fn export_cutoff(now: u128, hours: u64) -> (r: Option<u128>)
    ensures
        r == (if hours * 3600 <= u64::MAX { cutoff(now, hours * 3600) } else { None }),
{
    if hours > u64::MAX / 3600 {
        return None;
    }
    let ns: u128 = (hours * 3600) as u128 * 1_000_000_000;
    if ns <= now { Some(now - ns) } else { None }
}

/// The cutoff of a clean of logs older than `days` days, at `now`; `None`
/// when it would lie before the epoch.
pub fn clean_cutoff(now: u128, days: u32) -> (r: Option<u128>)
    ensures
        r == cutoff(now, days * 86400),
{
    let ns: u128 = days as u128 * 86_400_000_000_000;
    if ns <= now { Some(now - ns) } else { None }
}

/// Whether a session counts: modified at or after `cutoff` (`since`), or before it.
pub open spec fn counts(s: LogSessionInfo, cutoff: u128, since: bool) -> bool {
    if since { s.modified_nanos >= cutoff } else { s.modified_nanos < cutoff }
}

/// The indices, in order, of the first `n` sessions that count.
pub open spec fn picked(s: Seq<LogSessionInfo>, cutoff: u128, since: bool, n: int) -> Seq<usize>
    decreases n,
{
    if n <= 0 {
        Seq::empty()
    } else {
        picked(s, cutoff, since, n - 1) + (if counts(s[n - 1], cutoff, since) { seq![(n - 1) as usize] } else { Seq::empty() })
    }
}

/// The indices of the sessions modified at or after `cutoff`, in order.
pub fn sessions_since(sessions: &Vec<LogSessionInfo>, cutoff: u128) -> (r: Vec<usize>)
    ensures
        r@ == picked(sessions@, cutoff, true, sessions@.len() as int),
{
    pick(sessions, cutoff, true)
}

/// The indices of the sessions modified before `cutoff`, in order.
pub fn sessions_before(sessions: &Vec<LogSessionInfo>, cutoff: u128) -> (r: Vec<usize>)
    ensures
        r@ == picked(sessions@, cutoff, false, sessions@.len() as int),
{
    pick(sessions, cutoff, false)
}

/// The indices of the sessions that count, in order.
fn pick(sessions: &Vec<LogSessionInfo>, cutoff: u128, since: bool) -> (r: Vec<usize>)
    ensures
        r@ == picked(sessions@, cutoff, since, sessions@.len() as int),
{
    let mut out: Vec<usize> = Vec::new();
    let mut i: usize = 0;
    while i < sessions.len()
        invariant
            i <= sessions.len(),
            out@ == picked(sessions@, cutoff, since, i as int),
        decreases sessions.len() - i,
    {
        let m = sessions[i].modified_nanos;
        let take = if since { m >= cutoff } else { m < cutoff };
        let ghost before = out@;
        if take {
            out.push(i);
        }
        i += 1;
        proof {
            assert(out@ =~= before + (if counts(sessions@[i - 1], cutoff, since) { seq![(i - 1) as usize] } else { Seq::empty() }));
        }
    }
    out
}

/// The header of a log export.
pub open spec fn export_header_text(generated: Seq<char>, os: Seq<char>, arch: Seq<char>, config_path: Seq<char>,
    count: nat, hours: nat) -> Seq<char> {
    "=== clickup-rs log export ===\n"@
        + "Generated: "@ + generated + "\n"@
        + "OS: "@ + os + " "@ + arch + "\n"@
        + "Version: clickup-rs 0.1.0\n"@
        + "Config: "@ + config_path + "\n"@
        + "Sessions: "@ + decimal(count) + " (last "@ + decimal(hours) + "h)\n"@
        + "===\n\n"@
}

/// Writes the header of a log export: when it was made, on which system,
/// the configuration file, and how many sessions of how many hours follow.
pub fn export_header(generated: &str, os: &str, arch: &str, config_path: &str, count: usize, hours: u64) -> (r: String)
    ensures
        r@ == export_header_text(generated@, os@, arch@, config_path@, count as nat, hours as nat),
{
    let mut out = chars_of("=== clickup-rs log export ===\n");
    push_seq(&mut out, &chars_of("Generated: "));
    push_seq(&mut out, &chars_of(generated));
    push_seq(&mut out, &chars_of("\n"));
    push_seq(&mut out, &chars_of("OS: "));
    push_seq(&mut out, &chars_of(os));
    push_seq(&mut out, &chars_of(" "));
    push_seq(&mut out, &chars_of(arch));
    push_seq(&mut out, &chars_of("\n"));
    push_seq(&mut out, &chars_of("Version: clickup-rs 0.1.0\n"));
    push_seq(&mut out, &chars_of("Config: "));
    push_seq(&mut out, &chars_of(config_path));
    push_seq(&mut out, &chars_of("\n"));
    push_seq(&mut out, &chars_of("Sessions: "));
    push_decimal(&mut out, count as u64);
    push_seq(&mut out, &chars_of(" (last "));
    push_decimal(&mut out, hours);
    push_seq(&mut out, &chars_of("h)\n"));
    push_seq(&mut out, &chars_of("===\n\n"));
    string_of(&out)
}

/// Every line can be redacted.
pub open spec fn all_redactable(ls: Seq<Seq<char>>) -> bool {
    forall|k: int| 0 <= k < ls.len() ==> (#[trigger] redact_line(ls[k])) is Some
}

/// The redacted lines, each followed by a newline.
pub open spec fn redacted_text(ls: Seq<Seq<char>>) -> Seq<char>
    decreases ls.len(),
{
    if ls.len() == 0 {
        Seq::empty()
    } else {
        redacted_text(ls.drop_last()) + redact_line(ls.last()).unwrap() + "\n"@
    }
}

/// The block of one session in a log export: a header with its file name,
/// then its content redacted line by line (`Ok`), or why the file could not be
/// read (`Err`), then an empty line.
pub open spec fn export_block_text(filename: Seq<char>, content: Result<Seq<char>, Seq<char>>) -> Seq<char> {
    "[session: "@ + filename + "]\n"@
        + (match content {
            Ok(c) => redacted_text(lines_from(c, 0, 0)),
            Err(e) => "(error reading file: "@ + e + ")\n"@,
        })
        + "\n"@
}

/// Writes the block of one session in a log export. Every line of the content
/// must be one the redaction can carry out.
pub fn export_block(filename: &str, content: Result<&str, &str>) -> (r: String)
    requires
        content matches Ok(c) ==> all_redactable(lines_from(c@, 0, 0)),
    ensures
        r@ == export_block_text(filename@, match content { Ok(c) => Ok(c@), Err(e) => Err(e@) }),
{
    let mut out = chars_of("[session: ");
    push_seq(&mut out, &chars_of(filename));
    push_seq(&mut out, &chars_of("]\n"));
    let ghost head = out@;
    match content {
        Ok(c) => {
            let ls = split_lines(c);
            let ghost lv = ls@.map_values(|l: String| l@);
            let mut i: usize = 0;
            while i < ls.len()
                invariant
                    i <= ls.len(),
                    lv == ls@.map_values(|l: String| l@),
                    all_redactable(lv),
                    out@ == head + redacted_text(lv.subrange(0, i as int)),
                decreases ls.len() - i,
            {
                proof {
                    assert(lv[i as int] == ls@[i as int]@);
                    assert(redact_line(lv[i as int]) is Some);
                }
                let red = redact_log_line(ls[i].as_str());
                push_seq(&mut out, &chars_of(red.as_str()));
                push_seq(&mut out, &chars_of("\n"));
                i += 1;
                proof {
                    assert(lv.subrange(0, i as int).drop_last() =~= lv.subrange(0, i - 1));
                    assert(out@ =~= head + redacted_text(lv.subrange(0, i as int)));
                }
            }
            proof { assert(lv.subrange(0, lv.len() as int) =~= lv); }
        },
        Err(e) => {
            push_seq(&mut out, &chars_of("(error reading file: "));
            push_seq(&mut out, &chars_of(e));
            push_seq(&mut out, &chars_of(")\n"));
        },
    }
    push_seq(&mut out, &chars_of("\n"));
    string_of(&out)
}


proof fn lemma_picked_members(s: Seq<LogSessionInfo>, cutoff: u128, since: bool, n: int)
    requires
        0 <= n <= s.len(),
        s.len() <= usize::MAX,
    ensures
        forall|k: int| 0 <= k < n ==> (picked(s, cutoff, since, n).contains(k as usize) <==> counts(s[k], cutoff, since)),
        forall|x: usize| #[trigger] picked(s, cutoff, since, n).contains(x) ==> (x as int) < n,
    decreases n,
{
    if n > 0 {
        lemma_picked_members(s, cutoff, since, n - 1);
        let prev = picked(s, cutoff, since, n - 1);
        let add = if counts(s[n - 1], cutoff, since) { seq![(n - 1) as usize] } else { Seq::<usize>::empty() };
        assert(picked(s, cutoff, since, n) == prev + add);
        assert forall|k: int| 0 <= k < n implies
            (picked(s, cutoff, since, n).contains(k as usize) <==> counts(s[k], cutoff, since)) by {
            let kk = k as usize;
            let both = prev + add;
            if both.contains(kk) {
                let w = choose|w: int| 0 <= w < both.len() && both[w] == kk;
                if w < prev.len() {
                    assert(prev[w] == kk);
                    assert(prev.contains(kk));
                    assert((kk as int) < n - 1);
                    assert(counts(s[k], cutoff, since));
                } else {
                    assert(add[w - prev.len()] == kk);
                    assert(k == n - 1);
                }
            }
            if counts(s[k], cutoff, since) {
                if k < n - 1 {
                    assert(prev.contains(kk));
                    let w = choose|w: int| 0 <= w < prev.len() && prev[w] == kk;
                    assert(both[w] == kk);
                } else {
                    assert(both[prev.len() as int] == kk);
                }
                assert(both.contains(kk));
            }
        }
        assert forall|x: usize| #[trigger] picked(s, cutoff, since, n).contains(x) implies (x as int) < n by {
            let w = choose|w: int| 0 <= w < (prev + add).len() && (prev + add)[w] == x;
            if w < prev.len() {
                assert(prev[w] == x);
                assert(prev.contains(x));
            }
        }
    }
}

/// The sessions an export of the recent ones takes and those a clean of the
/// older ones removes, at the same cutoff, split the sessions: each is in
/// exactly one of the two.
pub proof fn law_since_and_before_split(sessions: Seq<LogSessionInfo>, cutoff: u128)
    requires
        sessions.len() <= usize::MAX,
    ensures
        forall|k: usize| (k as int) < sessions.len() ==>
            (#[trigger] picked(sessions, cutoff, true, sessions.len() as int).contains(k)
                != picked(sessions, cutoff, false, sessions.len() as int).contains(k)),
{
    lemma_picked_members(sessions, cutoff, true, sessions.len() as int);
    lemma_picked_members(sessions, cutoff, false, sessions.len() as int);
    assert forall|k: usize| (k as int) < sessions.len() implies
        (#[trigger] picked(sessions, cutoff, true, sessions.len() as int).contains(k)
            != picked(sessions, cutoff, false, sessions.len() as int).contains(k)) by {
        assert(counts(sessions[k as int], cutoff, true) != counts(sessions[k as int], cutoff, false));
        assert((k as int) as usize == k);
    }
}

} // verus!
