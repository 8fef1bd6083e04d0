//! The text of comments as the comment panel shows it: `@mentions` picked
//! out of plain text, and comment bodies split into lines.
use vstd::prelude::*;
use crate::filter_config::strings_view;
use crate::models::CommentContentItem;
use crate::text::{chars_of, is_ascii_alnum, is_whitespace, push_seq, string_of, white};
use crate::theme::slice_chars;

verus! {

/// A run of text and whether it is shown as a mention.
#[derive(Debug, Clone, PartialEq, Eq)]
pub struct Piece {
    /// The text.
    pub text: String,
    /// Whether it is a mention (cyan and bold).
    pub mention: bool,
}

/// The views of pieces.
pub open spec fn pieces_view(ps: Seq<Piece>) -> Seq<(Seq<char>, bool)> {
    ps.map_values(|p: Piece| (p.text@, p.mention))
}

/// The last UTF-8 byte of `c`.
pub open spec fn last_byte(c: char) -> int {
    if (c as u32) < 0x80 { c as u32 as int } else { 0x80 + (c as u32) % 64 }
}

/// Whether the last byte of `c`, read as a character of its own, is white
/// space: the scan looks at the byte before an `@`.
pub open spec fn byte_before_is_space(c: char) -> bool {
    let b = last_byte(c);
    if b < 0x80 { (9 <= b && b <= 13) || b == 32 } else { b == 0x85 || b == 0xA0 }
}

/// A character that continues a mention: an ASCII letter or digit, `_` or `-`.
pub open spec fn token_char(c: char) -> bool {
    is_ascii_alnum(c) || c == '_' || c == '-'
}

/// The end of the run of mention characters from `j`.
pub open spec fn token_end(t: Seq<char>, j: int) -> int
    decreases t.len() - j,
{
    if j < 0 || j >= t.len() {
        t.len() as int
    } else if !token_char(t[j]) {
        j
    } else {
        token_end(t, j + 1)
    }
}

/// The bounds of `token_end`.
pub proof fn lemma_token_end(t: Seq<char>, j: int)
    requires
        0 <= j,
    ensures
        j <= t.len() ==> j <= token_end(t, j) <= t.len(),
        j > t.len() ==> token_end(t, j) == t.len(),
    decreases t.len() - j,
{
    if j < t.len() && token_char(t[j]) {
        lemma_token_end(t, j + 1);
    }
}

/// A mention starts at `i`: an `@` at the start or after a space, followed by
/// at least one mention character.
pub open spec fn opens_mention(t: Seq<char>, i: int) -> bool {
    0 <= i < t.len() && t[i] == '@' && (i == 0 || byte_before_is_space(t[i - 1])) && token_end(t, i + 1) > i + 1
}

/// The pieces of `t` from position `i`, the pending plain text starting at `last`.
pub open spec fn mention_pieces(t: Seq<char>, i: int, last: int) -> Seq<(Seq<char>, bool)>
    decreases t.len() - i,
{
    if i < 0 || i >= t.len() {
        if 0 <= last < t.len() { seq![(t.subrange(last, t.len() as int), false)] } else { Seq::empty() }
    } else if opens_mention(t, i) {
        let j = token_end(t, i + 1);
        proof { lemma_token_end(t, i + 1); }
        (if i > last { seq![(t.subrange(last, i), false)] } else { Seq::empty() })
            + seq![(t.subrange(i, j), true)]
            + mention_pieces(t, j, j)
    } else {
        mention_pieces(t, i + 1, last)
    }
}

/// Appends a piece.
fn push_piece(out: &mut Vec<Piece>, text: &Vec<char>, mention: bool)
    ensures
        pieces_view(final(out)@) == pieces_view(old(out)@).push((text@, mention)),
{
    let ghost before = out@;
    out.push(Piece { text: string_of(text), mention });
    proof { assert(pieces_view(out@) =~= pieces_view(before).push((text@, mention))); }
}

/// Whether the byte before an `@` at this character is white space.
fn space_before(c: char) -> (r: bool)
    ensures
        r == byte_before_is_space(c),
{
    let v = c as u32;
    let b: u32 = if v < 0x80 { v } else { 0x80 + v % 64 };
    if b < 0x80 { (9 <= b && b <= 13) || b == 32 } else { b == 0x85 || b == 0xA0 }
}

/// Whether `c` continues a mention.
fn is_token_char(c: char) -> (r: bool)
    ensures
        r == token_char(c),
{
    let v = c as u32;
    (0x61 <= v && v <= 0x7a) || (0x41 <= v && v <= 0x5a) || (0x30 <= v && v <= 0x39) || c == '_' || c == '-'
}

/// The end of the run of mention characters from `j`.
fn token_end_exec(t: &Vec<char>, j: usize) -> (r: usize)
    requires
        j <= t.len(),
    ensures
        r as int == token_end(t@, j as int),
        j <= r <= t.len(),
{
    let mut k = j;
    while k < t.len() && is_token_char(t[k])
        invariant
            j <= k <= t.len(),
            token_end(t@, k as int) == token_end(t@, j as int),
        decreases t.len() - k,
    {
        k += 1;
    }
    k
}

/// Picks the `@username` mentions out of received comment text: an `@` at the
/// start or after white space, followed by ASCII letters, digits, `_` or `-`.
/// The rest stays plain text.
pub fn highlight_mentions(text: &str) -> (r: Vec<Piece>)
    ensures
        pieces_view(r@) == mention_pieces(text@, 0, 0),
{
    let t = chars_of(text);
    let mut out: Vec<Piece> = Vec::new();
    let mut i: usize = 0;
    let mut last: usize = 0;
    let ghost full = mention_pieces(t@, 0, 0);
    while i < t.len()
        invariant
            last <= i <= t.len(),
            t@ == text@,
            full == mention_pieces(t@, 0, 0),
            pieces_view(out@) + mention_pieces(t@, i as int, last as int) == full,
        decreases t.len() - i,
    {
        if t[i] == '@' && (i == 0 || space_before(t[i - 1])) {
            let j = token_end_exec(&t, i + 1);
            if j > i + 1 {
                proof { assert(opens_mention(t@, i as int)); }
                let ghost o0 = pieces_view(out@);
                let ghost rest = mention_pieces(t@, j as int, j as int);
                if i > last {
                    push_piece(&mut out, &slice_chars(&t, last, i), false);
                }
                push_piece(&mut out, &slice_chars(&t, i, j), true);
                proof {
                    assert(pieces_view(out@) =~= o0 + (if i > last {
                        seq![(t@.subrange(last as int, i as int), false)] } else { Seq::empty() })
                        + seq![(t@.subrange(i as int, j as int), true)]);
                }
                last = j;
                i = j;
                continue;
            }
        }
        proof { assert(!opens_mention(t@, i as int)); }
        i += 1;
    }
    if last < t.len() {
        let ghost o0 = pieces_view(out@);
        push_piece(&mut out, &slice_chars(&t, last, t.len()), false);
    } else {
        proof { assert(pieces_view(out@) + Seq::<(Seq<char>, bool)>::empty() =~= pieces_view(out@)); }
    }
    out
}


/// The name `k` follows position `s` of `t`, ending the text or followed by
/// white space.
pub open spec fn fits_at(t: Seq<char>, s: int, k: Seq<char>) -> bool {
    0 <= s && s + k.len() <= t.len() && t.subrange(s, s + k.len()) == k
        && (s + k.len() >= t.len() || white(t[s + k.len()]))
}

/// The length of the longest of `names` that fits at `s`, if any does.
pub open spec fn longest_fit(t: Seq<char>, s: int, names: Seq<Seq<char>>) -> Option<nat>
    decreases names.len(),
{
    if names.len() == 0 {
        None
    } else {
        let rest = longest_fit(t, s, names.drop_last());
        let k = names.last();
        if fits_at(t, s, k) {
            match rest {
                Some(n) => if n >= k.len() { Some(n) } else { Some(k.len()) },
                None => Some(k.len()),
            }
        } else {
            rest
        }
    }
}

/// A character that continues a typed mention: alphanumeric, `_`, `-` or `.`.
pub open spec fn typed_char(c: char) -> bool {
    crate::text::alnum(c) || c == '_' || c == '-' || c == '.'
}

/// The end of the run of typed-mention characters from `j`.
pub open spec fn typed_end(t: Seq<char>, j: int) -> int
    decreases t.len() - j,
{
    if j < 0 || j >= t.len() {
        t.len() as int
    } else if !typed_char(t[j]) {
        j
    } else {
        typed_end(t, j + 1)
    }
}

/// The bounds of `typed_end`.
pub proof fn lemma_typed_end(t: Seq<char>, j: int)
    requires
        0 <= j,
    ensures
        j <= t.len() ==> j <= typed_end(t, j) <= t.len(),
        j > t.len() ==> typed_end(t, j) == t.len(),
    decreases t.len() - j,
{
    if j < t.len() && typed_char(t[j]) {
        lemma_typed_end(t, j + 1);
    }
}

/// Where a mention typed at `i` ends, if one starts there: after the longest
/// known name that follows the `@`, else after a run of typed-mention characters.
pub open spec fn compose_end(t: Seq<char>, names: Seq<Seq<char>>, i: int) -> Option<int> {
    if 0 <= i < t.len() && t[i] == '@' && (i == 0 || white(t[i - 1])) {
        match longest_fit(t, i + 1, names) {
            Some(n) => Some(i + 1 + n),
            None => if typed_end(t, i + 1) > i + 1 { Some(typed_end(t, i + 1)) } else { None },
        }
    } else {
        None
    }
}

/// A fitting name ends within the text.
pub proof fn lemma_longest_fit(t: Seq<char>, s: int, names: Seq<Seq<char>>)
    ensures
        longest_fit(t, s, names) matches Some(n) ==> s + n <= t.len(),
    decreases names.len(),
{
    if names.len() > 0 {
        lemma_longest_fit(t, s, names.drop_last());
    }
}

/// The pieces of the text being composed from position `i`, the pending
/// plain text starting at `last`.
pub open spec fn compose_pieces(t: Seq<char>, names: Seq<Seq<char>>, i: int, last: int) -> Seq<(Seq<char>, bool)>
    decreases t.len() - i,
{
    if i < 0 || i >= t.len() {
        if 0 <= last < t.len() { seq![(t.subrange(last, t.len() as int), false)] } else { Seq::empty() }
    } else {
        match compose_end(t, names, i) {
            Some(j) => {
                proof {
                    lemma_longest_fit(t, i + 1, names);
                    lemma_typed_end(t, i + 1);
                }
                (if i > last { seq![(t.subrange(last, i), false)] } else { Seq::empty() })
                    + seq![(t.subrange(i, j), true)]
                    + compose_pieces(t, names, j, j)
            },
            None => compose_pieces(t, names, i + 1, last),
        }
    }
}

/// Whether `name` fits at `s`.
fn fits_exec(t: &Vec<char>, s: usize, name: &Vec<char>) -> (r: bool)
    requires
        s <= t.len(),
    ensures
        r == fits_at(t@, s as int, name@),
{
    if name.len() > t.len() - s {
        return false;
    }
    let mut k: usize = 0;
    while k < name.len()
        invariant
            k <= name.len(),
            s + name.len() <= t.len(),
            forall|m: int| 0 <= m < k ==> t@[s + m] == name@[m],
        decreases name.len() - k,
    {
        if t[s + k] != name[k] {
            proof { assert(t@.subrange(s as int, s + name@.len())[k as int] != name@[k as int]); }
            return false;
        }
        k += 1;
    }
    proof { assert(t@.subrange(s as int, s + name@.len()) =~= name@); }
    let end = s + name.len();
    end >= t.len() || is_whitespace(t[end])
}

/// The length of the longest name that fits at `s`.
fn longest_fit_exec(t: &Vec<char>, s: usize, names: &Vec<Vec<char>>) -> (r: Option<usize>)
    requires
        s <= t.len(),
    ensures
        match r {
            Some(n) => longest_fit(t@, s as int, names@.map_values(|v: Vec<char>| v@)) == Some(n as nat),
            None => longest_fit(t@, s as int, names@.map_values(|v: Vec<char>| v@)) is None,
        },
{
    let ghost ns = names@.map_values(|v: Vec<char>| v@);
    let mut best: Option<usize> = None;
    let mut k: usize = 0;
    proof { assert(ns.subrange(0, 0) =~= Seq::<Seq<char>>::empty()); }
    while k < names.len()
        invariant
            k <= names.len(),
            s <= t.len(),
            ns == names@.map_values(|v: Vec<char>| v@),
            match best {
                Some(n) => longest_fit(t@, s as int, ns.subrange(0, k as int)) == Some(n as nat),
                None => longest_fit(t@, s as int, ns.subrange(0, k as int)) is None,
            },
        decreases names.len() - k,
    {
        proof { assert(ns.subrange(0, k + 1).drop_last() =~= ns.subrange(0, k as int)); }
        if fits_exec(t, s, &names[k]) {
            let len = names[k].len();
            best = match best {
                Some(n) => if n >= len { Some(n) } else { Some(len) },
                None => Some(len),
            };
        }
        k += 1;
    }
    proof { assert(ns.subrange(0, ns.len() as int) =~= ns); }
    best
}

/// The end of the run of typed-mention characters from `j`.
fn typed_end_exec(t: &Vec<char>, j: usize) -> (r: usize)
    requires
        j <= t.len(),
    ensures
        r as int == typed_end(t@, j as int),
        j <= r <= t.len(),
{
    let mut k = j;
    while k < t.len() && (crate::text::is_alphanumeric(t[k]) || t[k] == '_' || t[k] == '-' || t[k] == '.')
        invariant
            j <= k <= t.len(),
            typed_end(t@, k as int) == typed_end(t@, j as int),
        decreases t.len() - k,
    {
        k += 1;
    }
    k
}

/// Picks the mentions out of a comment being typed: after an `@` at the start
/// or after white space, the longest of the known `names` that follows it
/// and ends the text or is followed by white space; failing that, a run of
/// alphanumeric characters, `_`, `-` or `.`. The rest stays plain text.
pub fn highlight_compose(text: &str, names: &Vec<String>) -> (r: Vec<Piece>)
    ensures
        pieces_view(r@) == compose_pieces(text@, strings_view(names@), 0, 0),
{
    let t = chars_of(text);
    let mut keys: Vec<Vec<char>> = Vec::new();
    let mut n: usize = 0;
    while n < names.len()
        invariant
            n <= names.len(),
            keys@.len() == n,
            keys@.map_values(|v: Vec<char>| v@) == strings_view(names@).subrange(0, n as int),
        decreases names.len() - n,
    {
        let ghost before = keys@.map_values(|v: Vec<char>| v@);
        keys.push(chars_of(names[n].as_str()));
        n += 1;
        proof {
            assert(keys@.map_values(|v: Vec<char>| v@) =~= before.push(names@[n - 1]@));
            assert(strings_view(names@).subrange(0, n as int) =~= strings_view(names@).subrange(0, n - 1).push(names@[n - 1]@));
        }
    }
    proof { assert(strings_view(names@).subrange(0, names@.len() as int) =~= strings_view(names@)); }
    let ghost ns = strings_view(names@);
    let mut out: Vec<Piece> = Vec::new();
    let mut i: usize = 0;
    let mut last: usize = 0;
    let ghost full = compose_pieces(t@, ns, 0, 0);
    while i < t.len()
        invariant
            last <= i <= t.len(),
            t@ == text@,
            ns == keys@.map_values(|v: Vec<char>| v@),
            full == compose_pieces(t@, ns, 0, 0),
            pieces_view(out@) + compose_pieces(t@, ns, i as int, last as int) == full,
        decreases t.len() - i,
    {
        let mut end: Option<usize> = None;
        if t[i] == '@' && (i == 0 || is_whitespace(t[i - 1])) {
            match longest_fit_exec(&t, i + 1, &keys) {
                Some(len) => {
                    proof { lemma_longest_fit(t@, i + 1, ns); }
                    end = Some(i + 1 + len);
                },
                None => {
                    let j = typed_end_exec(&t, i + 1);
                    if j > i + 1 {
                        end = Some(j);
                    }
                },
            }
        }
        proof {
            assert(match end { Some(j) => compose_end(t@, ns, i as int) == Some(j as int), None => compose_end(t@, ns, i as int) is None });
        }
        match end {
            Some(j) => {
                let ghost o0 = pieces_view(out@);
                if i > last {
                    push_piece(&mut out, &slice_chars(&t, last, i), false);
                }
                push_piece(&mut out, &slice_chars(&t, i, j), true);
                proof {
                    assert(pieces_view(out@) =~= o0 + (if i > last {
                        seq![(t@.subrange(last as int, i as int), false)] } else { Seq::empty() })
                        + seq![(t@.subrange(i as int, j as int), true)]);
                }
                last = j;
                i = j;
            },
            None => {
                i += 1;
            },
        }
    }
    if last < t.len() {
        push_piece(&mut out, &slice_chars(&t, last, t.len()), false);
    } else {
        proof { assert(pieces_view(out@) + Seq::<(Seq<char>, bool)>::empty() =~= pieces_view(out@)); }
    }
    out
}


/// The pieces of `s` between its `\n`s, from position `i`, the current one
/// starting at `start` (as `str::split('\n')` gives them: never none).
pub open spec fn split_from(s: Seq<char>, i: int, start: int) -> Seq<Seq<char>>
    decreases s.len() - i,
{
    if i < 0 || i >= s.len() {
        seq![s.subrange(start, s.len() as int)]
    } else if s[i] == '\n' {
        seq![s.subrange(start, i)] + split_from(s, i + 1, i + 1)
    } else {
        split_from(s, i + 1, start)
    }
}

/// `split_from` gives at least one piece.
pub proof fn lemma_split_nonempty(s: Seq<char>, i: int, start: int)
    ensures
        split_from(s, i, start).len() >= 1,
    decreases s.len() - i,
{
    if 0 <= i < s.len() {
        lemma_split_nonempty(s, i + 1, if s[i] == '\n' { i + 1 } else { start });
    }
}

/// The lines being built: those done, and the current one.
pub struct BodyState {
    pub done: Seq<Seq<(Seq<char>, bool)>>,
    pub current: Seq<(Seq<char>, bool)>,
}

/// The label of a mention tag: its text, else `@` and the username, else `@mention`.
pub open spec fn tag_label(item: CommentContentItem) -> Seq<char> {
    match item {
        CommentContentItem::Tag { user, text, .. } => match text {
            Some(t) => t@,
            None => match user.username {
                Some(u) => seq!['@'] + u@,
                None => "@mention"@,
            },
        },
        _ => Seq::empty(),
    }
}

/// Adds the pieces of a text item, a new line (behind the indent) starting
/// at each `\n`.
pub open spec fn add_parts(st: BodyState, parts: Seq<Seq<char>>, indent: Seq<char>) -> BodyState
    decreases parts.len(),
{
    if parts.len() == 0 {
        st
    } else {
        let s1 = add_parts(st, parts.drop_last(), indent);
        let s2 = if parts.len() > 1 {
            BodyState { done: s1.done.push(s1.current), current: seq![(indent, false)] }
        } else {
            s1
        };
        if parts.last().len() > 0 {
            BodyState { current: s2.current.push((parts.last(), false)), ..s2 }
        } else {
            s2
        }
    }
}

/// What one content item adds.
pub open spec fn body_step(st: BodyState, item: CommentContentItem, indent: Seq<char>) -> BodyState {
    match item {
        CommentContentItem::Tag { .. } => BodyState { current: st.current.push((tag_label(item), true)), ..st },
        CommentContentItem::Text { text, .. } => add_parts(st, split_from(text@, 0, 0), indent),
        CommentContentItem::Unknown(_) => st,
    }
}

/// The state after the items.
pub open spec fn body_run(items: Seq<CommentContentItem>, indent: Seq<char>) -> BodyState
    decreases items.len(),
{
    if items.len() == 0 {
        BodyState { done: Seq::empty(), current: seq![(indent, false)] }
    } else {
        body_step(body_run(items.drop_last(), indent), items.last(), indent)
    }
}

/// The lines of a comment body behind `indent`: from its structured content
/// (mentions as tags, a new line at each `\n`, the last line only when it
/// holds more than the indent), or, without content, its plain text line by
/// line with the mentions picked out.
pub open spec fn body_lines(content: Seq<CommentContentItem>, plain: Seq<char>, indent: Seq<char>)
    -> Seq<Seq<(Seq<char>, bool)>>
{
    if content.len() == 0 {
        crate::text::lines_from(plain, 0, 0).map_values(|l: Seq<char>| seq![(indent, false)] + mention_pieces(l, 0, 0))
    } else {
        let st = body_run(content, indent);
        if st.current.len() > 1 { st.done.push(st.current) } else { st.done }
    }
}

/// The views of lines of pieces.
pub open spec fn lines_view(ls: Seq<Vec<Piece>>) -> Seq<Seq<(Seq<char>, bool)>> {
    ls.map_values(|l: Vec<Piece>| pieces_view(l@))
}

/// The builder of body lines.
struct Body {
    done: Vec<Vec<Piece>>,
    current: Vec<Piece>,
}

impl Body {
    spec fn state(&self) -> BodyState {
        BodyState { done: lines_view(self.done@), current: pieces_view(self.current@) }
    }

    /// Ends the current line and starts one behind the indent.
    fn break_line(&mut self, indent: &Vec<char>)
        ensures
            final(self).state() == (BodyState { done: old(self).state().done.push(old(self).state().current),
                current: seq![(indent@, false)] }),
    {
        let mut fresh: Vec<Piece> = Vec::new();
        push_piece(&mut fresh, indent, false);
        proof { assert(pieces_view(fresh@) =~= seq![(indent@, false)]); }
        let mut line = fresh;
        std::mem::swap(&mut self.current, &mut line);
        let ghost d0 = self.done@;
        self.done.push(line);
        proof { assert(lines_view(self.done@) =~= lines_view(d0).push(pieces_view(line@))); }
    }
}

/// Adds the pieces of a text item.
fn add_text(b: &mut Body, text: &String, indent: &Vec<char>)
    ensures
        final(b).state() == add_parts(old(b).state(), split_from(text@, 0, 0), indent@),
{
    let cs = chars_of(text.as_str());
    let ghost s = text@;
    let ghost start_state = b.state();
    let mut i: usize = 0;
    let mut start: usize = 0;
    let mut k: usize = 0;
    let ghost parts = split_from(s, 0, 0);
    proof {
        assert(parts.subrange(0, 0) =~= Seq::<Seq<char>>::empty());
        lemma_split_nonempty(s, 0, 0);
    }
    while i < cs.len()
        invariant
            cs@ == s,
            start <= i <= cs.len(),
            k <= i,
            parts == split_from(s, 0, 0),
            k < parts.len(),
            parts.subrange(0, k as int) + split_from(s, i as int, start as int) == parts,
            b.state() == add_parts(start_state, parts.subrange(0, k as int), indent@),
        decreases cs.len() - i,
    {
        if cs[i] == '\n' {
            let piece = slice_chars(&cs, start, i);
            proof {
                let rest = split_from(s, i + 1, i + 1);
                lemma_split_nonempty(s, i + 1, i + 1);
                assert(split_from(s, i as int, start as int) == seq![s.subrange(start as int, i as int)] + rest);
                assert(parts.subrange(0, k + 1) =~= parts.subrange(0, k as int).push(s.subrange(start as int, i as int)));
                assert(parts.subrange(0, k + 1) + rest =~= parts);
                assert(parts.subrange(0, k + 1).drop_last() =~= parts.subrange(0, k as int));
            }
            if k > 0 {
                b.break_line(indent);
            }
            if piece.len() > 0 {
                let ghost c0 = b.current@;
                push_piece(&mut b.current, &piece, false);
            }
            k += 1;
            start = i + 1;
        }
        i += 1;
    }
    let piece = slice_chars(&cs, start, cs.len());
    proof {
        assert(split_from(s, i as int, start as int) == seq![s.subrange(start as int, s.len() as int)]);
        assert(parts.subrange(0, k + 1) =~= parts);
        assert(parts.subrange(0, k + 1).drop_last() =~= parts.subrange(0, k as int));
    }
    if k > 0 {
        b.break_line(indent);
    }
    if piece.len() > 0 {
        push_piece(&mut b.current, &piece, false);
    }
}

/// The label of a mention tag.
fn tag_label_exec(item: &CommentContentItem) -> (r: Vec<char>)
    ensures
        r@ == tag_label(*item),
{
    match item {
        CommentContentItem::Tag { user, text, .. } => match text {
            Some(t) => chars_of(t.as_str()),
            None => match &user.username {
                Some(u) => {
                    let mut v: Vec<char> = Vec::new();
                    v.push('@');
                    push_seq(&mut v, &chars_of(u.as_str()));
                    proof { assert(v@ =~= seq!['@'] + u@); }
                    v
                },
                None => chars_of("@mention"),
            },
        },
        _ => Vec::new(),
    }
}

/// Lays out a comment body behind `indent`: from its structured content when
/// it has some, else from its plain text, line by line, with mentions picked out.
pub fn comment_body_lines(content: &Vec<CommentContentItem>, plain_text: &str, indent: &str) -> (r: Vec<Vec<Piece>>)
    ensures
        lines_view(r@) == body_lines(content@, plain_text@, indent@),
{
    let ind = chars_of(indent);
    if content.len() == 0 {
        let ls = crate::text::split_lines(plain_text);
        let mut out: Vec<Vec<Piece>> = Vec::new();
        let mut i: usize = 0;
        while i < ls.len()
            invariant
                i <= ls.len(),
                ind@ == indent@,
                lines_view(out@) == ls@.subrange(0, i as int).map_values(|l: String|
                    seq![(indent@, false)] + mention_pieces(l@, 0, 0)),
            decreases ls.len() - i,
        {
            let mut line: Vec<Piece> = Vec::new();
            push_piece(&mut line, &ind, false);
            let mut rest = highlight_mentions(ls[i].as_str());
            let ghost a = pieces_view(line@);
            let ghost b = pieces_view(rest@);
            line.append(&mut rest);
            proof { assert(pieces_view(line@) =~= a + b); }
            let ghost o0 = out@;
            let ghost lv = pieces_view(line@);
            proof { assert(lv == seq![(indent@, false)] + mention_pieces(ls@[i as int]@, 0, 0)); }
            out.push(line);
            i += 1;
            proof {
                assert(lines_view(out@) =~= lines_view(o0).push(lv));
                assert(ls@.subrange(0, i as int).map_values(|l: String| seq![(indent@, false)] + mention_pieces(l@, 0, 0))
                    =~= ls@.subrange(0, i - 1).map_values(|l: String| seq![(indent@, false)] + mention_pieces(l@, 0, 0))
                        .push(seq![(indent@, false)] + mention_pieces(ls@[i - 1]@, 0, 0)));
            }
        }
        proof {
            assert(ls@.subrange(0, ls@.len() as int) =~= ls@);
            assert(ls@.map_values(|l: String| seq![(indent@, false)] + mention_pieces(l@, 0, 0))
                =~= ls@.map_values(|l: String| l@).map_values(|l: Seq<char>| seq![(indent@, false)] + mention_pieces(l, 0, 0)));
        }
        return out;
    }
    let mut first: Vec<Piece> = Vec::new();
    push_piece(&mut first, &ind, false);
    let mut b = Body { done: Vec::new(), current: first };
    proof {
        assert(lines_view(b.done@) =~= Seq::<Seq<(Seq<char>, bool)>>::empty());
        assert(pieces_view(b.current@) =~= seq![(indent@, false)]);
        assert(content@.subrange(0, 0) =~= Seq::<CommentContentItem>::empty());
    }
    let mut i: usize = 0;
    while i < content.len()
        invariant
            i <= content.len(),
            ind@ == indent@,
            b.state() == body_run(content@.subrange(0, i as int), indent@),
        decreases content.len() - i,
    {
        proof { assert(content@.subrange(0, i + 1).drop_last() =~= content@.subrange(0, i as int)); }
        match &content[i] {
            CommentContentItem::Tag { .. } => {
                let label = tag_label_exec(&content[i]);
                push_piece(&mut b.current, &label, true);
            },
            CommentContentItem::Text { text, .. } => {
                add_text(&mut b, text, &ind);
            },
            CommentContentItem::Unknown(_) => {},
        }
        i += 1;
    }
    proof { assert(content@.subrange(0, content@.len() as int) =~= content@); }
    if b.current.len() > 1 {
        let ghost d0 = b.done@;
        let line = b.current;
        let mut done = b.done;
        done.push(line);
        proof { assert(lines_view(done@) =~= lines_view(d0).push(pieces_view(line@))); }
        done
    } else {
        b.done
    }
}


/// The text of pieces, joined.
pub open spec fn joined_text(ps: Seq<(Seq<char>, bool)>) -> Seq<char>
    decreases ps.len(),
{
    if ps.len() == 0 { Seq::empty() } else { ps[0].0 + joined_text(ps.drop_first()) }
}

proof fn lemma_joined_concat(a: Seq<(Seq<char>, bool)>, b: Seq<(Seq<char>, bool)>)
    ensures
        joined_text(a + b) == joined_text(a) + joined_text(b),
    decreases a.len(),
{
    if a.len() == 0 {
        assert(a + b =~= b);
    } else {
        assert((a + b).drop_first() =~= a.drop_first() + b);
        lemma_joined_concat(a.drop_first(), b);
        assert(joined_text(a + b) == a[0].0 + joined_text(a.drop_first() + b));
    }
}

proof fn lemma_one(x: Seq<char>, m: bool)
    ensures
        joined_text(seq![(x, m)]) == x,
{
    let s = seq![(x, m)];
    assert(s.drop_first() =~= Seq::<(Seq<char>, bool)>::empty());
    assert(joined_text(s.drop_first()) == Seq::<char>::empty());
    assert(s[0].0 == x);
    assert(joined_text(s) == s[0].0 + joined_text(s.drop_first()));
    assert(x + Seq::<char>::empty() =~= x);
}

proof fn lemma_mention_pieces_text(t: Seq<char>, i: int, last: int)
    requires
        0 <= last <= i <= t.len(),
    ensures
        joined_text(mention_pieces(t, i, last)) == t.subrange(last, t.len() as int),
    decreases t.len() - i,
{
    if i >= t.len() {
        if last < t.len() {
            lemma_one(t.subrange(last, t.len() as int), false);
        } else {
            assert(t.subrange(last, t.len() as int) =~= Seq::<char>::empty());
        }
    } else if opens_mention(t, i) {
        let j = token_end(t, i + 1);
        lemma_token_end(t, i + 1);
        lemma_mention_pieces_text(t, j, j);
        let pre = if i > last { seq![(t.subrange(last, i), false)] } else { Seq::<(Seq<char>, bool)>::empty() };
        let mid = seq![(t.subrange(i, j), true)];
        let rest = mention_pieces(t, j, j);
        lemma_joined_concat(pre + mid, rest);
        lemma_joined_concat(pre, mid);
        lemma_one(t.subrange(i, j), true);
        if i > last {
            lemma_one(t.subrange(last, i), false);
        }
        assert(t.subrange(last, i) + t.subrange(i, j) + t.subrange(j, t.len() as int) =~= t.subrange(last, t.len() as int));
        assert(joined_text(pre) == t.subrange(last, i));
    } else {
        lemma_mention_pieces_text(t, i + 1, last);
    }
}

/// Picking out mentions keeps the text: the pieces of a received comment
/// text, joined, give the text back.
pub proof fn law_highlight_keeps_text(t: Seq<char>)
    ensures
        joined_text(mention_pieces(t, 0, 0)) == t,
{
    lemma_mention_pieces_text(t, 0, 0);
    assert(t.subrange(0, t.len() as int) =~= t);
}

proof fn lemma_compose_pieces_text(t: Seq<char>, names: Seq<Seq<char>>, i: int, last: int)
    requires
        0 <= last <= i <= t.len(),
    ensures
        joined_text(compose_pieces(t, names, i, last)) == t.subrange(last, t.len() as int),
    decreases t.len() - i,
{
    if i >= t.len() {
        if last < t.len() {
            lemma_one(t.subrange(last, t.len() as int), false);
        } else {
            assert(t.subrange(last, t.len() as int) =~= Seq::<char>::empty());
        }
    } else {
        match compose_end(t, names, i) {
            Some(j) => {
                lemma_longest_fit(t, i + 1, names);
                lemma_typed_end(t, i + 1);
                lemma_compose_pieces_text(t, names, j, j);
                let pre = if i > last { seq![(t.subrange(last, i), false)] } else { Seq::<(Seq<char>, bool)>::empty() };
                let mid = seq![(t.subrange(i, j), true)];
                let rest = compose_pieces(t, names, j, j);
                lemma_joined_concat(pre + mid, rest);
                lemma_joined_concat(pre, mid);
                lemma_one(t.subrange(i, j), true);
                if i > last {
                    lemma_one(t.subrange(last, i), false);
                }
                assert(t.subrange(last, i) + t.subrange(i, j) + t.subrange(j, t.len() as int)
                    =~= t.subrange(last, t.len() as int));
                assert(joined_text(pre) == t.subrange(last, i));
            },
            None => {
                lemma_compose_pieces_text(t, names, i + 1, last);
            },
        }
    }
}

/// Picking out mentions while typing keeps the text: the pieces, joined,
/// give the text back, whatever names are known.
pub proof fn law_compose_keeps_text(t: Seq<char>, names: Seq<Seq<char>>)
    ensures
        joined_text(compose_pieces(t, names, 0, 0)) == t,
{
    lemma_compose_pieces_text(t, names, 0, 0);
    assert(t.subrange(0, t.len() as int) =~= t);
}

} // verus!
