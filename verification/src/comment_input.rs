//! The comment input box: its prompt, its first line, and how far it scrolls so
//! that the end of the typed text stays in view.
use vstd::prelude::*;
use crate::comment_text::{lemma_split_nonempty, split_from};
use crate::models::Comment;
use crate::text::{char_utf8_len, chars_of, push_seq, str_eq, string_of, utf8_bytes, utf8_len, utf8_size};

verus! {

/// What the comment input box is doing.
#[derive(Debug, Clone, Copy, PartialEq, Eq, Structural)]
pub enum CommentInputMode {
    /// No input: the comments are browsed.
    Browse,
    /// Writing a new comment.
    NewComment,
    /// Editing an existing comment.
    EditComment,
    /// Replying to a comment.
    Reply,
}

/// The username of the first comment of `cs` whose ID is `id`; `None` when there
/// is no such comment or it has no user.
pub open spec fn first_username(cs: Seq<Comment>, id: Seq<char>) -> Option<Seq<char>>
    decreases cs.len(),
{
    if cs.len() == 0 {
        None
    } else if cs[0].id@ == id {
        match cs[0].user {
            Some(u) => Some(u.username@),
            None => None,
        }
    } else {
        first_username(cs.drop_first(), id)
    }
}

/// The prompt of the input box; `None` while browsing, when no box is shown. A
/// reply names the author of the comment replied to, looked up among the
/// comments and then among the replies, or says `comment` when none is known.
pub open spec fn prompt_text(mode: CommentInputMode, target: Option<Seq<char>>, comments: Seq<Comment>,
    replies: Seq<Comment>) -> Option<Seq<char>> {
    match mode {
        CommentInputMode::Browse => None,
        CommentInputMode::NewComment => Some("New comment:"@),
        CommentInputMode::EditComment => Some("Edit comment:"@),
        CommentInputMode::Reply => match target {
            Some(id) => {
                let name = match first_username(comments, id) {
                    Some(u) => u,
                    None => match first_username(replies, id) {
                        Some(u) => u,
                        None => "comment"@,
                    },
                };
                Some("Reply to "@ + name + ":"@)
            },
            None => Some("Reply:"@),
        },
    }
}

fn find_username(cs: &Vec<Comment>, id: &str) -> (r: Option<String>)
    ensures
        match r {
            Some(s) => first_username(cs@, id@) == Some(s@),
            None => first_username(cs@, id@) is None,
        },
{
    let mut i: usize = 0;
    proof { assert(cs@.subrange(0, cs@.len() as int) =~= cs@); }
    while i < cs.len()
        invariant
            i <= cs.len(),
            first_username(cs@.subrange(i as int, cs@.len() as int), id@) == first_username(cs@, id@),
        decreases cs.len() - i,
    {
        proof {
            let rest = cs@.subrange(i as int, cs@.len() as int);
            assert(rest[0] == cs@[i as int]);
            assert(rest.drop_first() =~= cs@.subrange(i + 1, cs@.len() as int));
        }
        if str_eq(cs[i].id.as_str(), id) {
            return match &cs[i].user {
                Some(u) => Some(string_of(&chars_of(u.username.as_str()))),
                None => None,
            };
        }
        i += 1;
    }
    None
}

/// The prompt of the comment input box for `mode`; `target` is the ID of the
/// comment replied to, `replies` the replies loaded so far.
pub fn input_prompt(mode: CommentInputMode, target: Option<&str>, comments: &Vec<Comment>, replies: &Vec<Comment>)
    -> (r: Option<String>)
    ensures
        match r {
            Some(s) => prompt_text(mode, crate::text::opt_str(target), comments@, replies@) == Some(s@),
            None => prompt_text(mode, crate::text::opt_str(target), comments@, replies@) is None,
        },
{
    match mode {
        CommentInputMode::Browse => None,
        CommentInputMode::NewComment => Some(string_of(&chars_of("New comment:"))),
        CommentInputMode::EditComment => Some(string_of(&chars_of("Edit comment:"))),
        CommentInputMode::Reply => match target {
            Some(id) => {
                let name = match find_username(comments, id) {
                    Some(u) => u,
                    None => match find_username(replies, id) {
                        Some(u) => u,
                        None => string_of(&chars_of("comment")),
                    },
                };
                let mut out = chars_of("Reply to ");
                push_seq(&mut out, &chars_of(name.as_str()));
                push_seq(&mut out, &chars_of(":"));
                Some(string_of(&out))
            },
            None => Some(string_of(&chars_of("Reply:"))),
        },
    }
}

/// The first line of the input box for a prompt.
pub open spec fn header_text(prompt: Seq<char>) -> Seq<char> {
    " "@ + prompt + " (Enter to send, Alt+Enter or Ctrl+N for newline)"@
}

/// The first line of the input box: the prompt and how to send.
pub fn input_header(prompt: &str) -> (r: String)
    ensures
        r@ == header_text(prompt@),
{
    let mut out = chars_of(" ");
    push_seq(&mut out, &chars_of(prompt));
    push_seq(&mut out, &chars_of(" (Enter to send, Alt+Enter or Ctrl+N for newline)"));
    string_of(&out)
}

/// The screen rows a line of `w` bytes takes in a box `width` wide: `w` divided by
/// `width`, rounded up, and one row for an empty line.
pub open spec fn row_count(w: nat, width: nat) -> nat {
    if w == 0 { 1 } else { (w / width + if w % width != 0 { 1nat } else { 0nat }) as nat }
}

/// The bytes that the `i`th line of the typed text takes on screen: a leading
/// space, the line, and the 3-byte cursor block after the last line.
pub open spec fn line_bytes(parts: Seq<Seq<char>>, i: int) -> nat {
    (1 + utf8_bytes(parts[i]) + if i == parts.len() - 1 { 3nat } else { 0nat }) as nat
}

/// The screen rows of the first `k` lines of the typed text.
pub open spec fn part_rows(parts: Seq<Seq<char>>, k: int, width: nat) -> nat
    decreases k,
{
    if k <= 0 { 0 } else { part_rows(parts, k - 1, width) + row_count(line_bytes(parts, k - 1), width) }
}

/// The screen rows of the whole input box: its first line, then each line of the
/// typed text (split at `\n`; empty text is one empty line).
pub open spec fn input_rows(header: Seq<char>, text: Seq<char>, width: nat) -> nat {
    let parts = split_from(text, 0, 0);
    row_count(utf8_bytes(header), width) + part_rows(parts, parts.len() as int, width)
}

/// How many rows the input box scrolls: by as many rows as it holds beyond the
/// `rows` visible, taken as a `u16`; the width counts as at least one column.
pub open spec fn input_scroll(header: Seq<char>, text: Seq<char>, width: usize, rows: usize) -> u16 {
    let w: nat = if width == 0 { 1 } else { width as nat };
    let t = input_rows(header, text, w);
    if t > rows { (t - rows) as u16 } else { 0 }
}

proof fn lemma_bytes_at_most_four(s: Seq<char>)
    ensures
        utf8_bytes(s) <= 4 * s.len(),
    decreases s.len(),
{
    if s.len() > 0 {
        lemma_bytes_at_most_four(s.drop_last());
    }
}

fn rows_for(w: u128, width: u128) -> (r: u128)
    requires
        width >= 1,
        w < u128::MAX,
    ensures
        r == row_count(w as nat, width as nat),
        r <= w + 1,
{
    if w == 0 {
        1
    } else {
        assert(w / width <= w) by (nonlinear_arith)
            requires
                width >= 1,
        ;
        w / width + if w % width != 0 { 1 } else { 0 }
    }
}

/// How far the comment input box scrolls so that its last rows stay in view:
/// `header` is its first line, `text` what was typed, `width` and `rows` the size
/// of the box.
pub fn input_scroll_offset(header: &str, text: &str, width: usize, rows: usize) -> (r: u16)
    ensures
        r == input_scroll(header@, text@, width, rows),
{
    let w: u128 = if width == 0 { 1 } else { width as u128 };
    let hs = chars_of(header);
    let hb = utf8_size(&hs);
    proof { lemma_bytes_at_most_four(hs@); }
    let mut total: u128 = rows_for(hb, w);
    let cs = chars_of(text);
    let ghost s = text@;
    let ghost parts = split_from(s, 0, 0);
    let mut i: usize = 0;
    let mut start: usize = 0;
    let mut k: usize = 0;
    let mut cur: u128 = 0;
    let ghost head = total;
    proof {
        assert(parts.subrange(0, 0) =~= Seq::<Seq<char>>::empty());
        lemma_split_nonempty(s, 0, 0);
        assert(s.subrange(0, 0) =~= Seq::<char>::empty());
    }
    while i < cs.len()
        invariant
            cs@ == s,
            w >= 1,
            start <= i <= cs.len(),
            k <= i,
            parts == split_from(s, 0, 0),
            k < parts.len(),
            parts.subrange(0, k as int) + split_from(s, i as int, start as int) == parts,
            cur == utf8_bytes(s.subrange(start as int, i as int)),
            head <= 4 * hs.len() + 1,
            total == head + part_rows(parts, k as int, w as nat),
            total - head + cur <= 8 * i,
        decreases cs.len() - i,
    {
        proof {
            assert(s.subrange(start as int, i + 1).drop_last() =~= s.subrange(start as int, i as int));
        }
        if cs[i] == '\n' {
            proof {
                let rest = split_from(s, i + 1, i + 1);
                lemma_split_nonempty(s, i + 1, i + 1);
                assert(split_from(s, i as int, start as int) == seq![s.subrange(start as int, i as int)] + rest);
                assert(parts.subrange(0, k + 1) =~= parts.subrange(0, k as int).push(s.subrange(start as int, i as int)));
                assert(parts.subrange(0, k + 1) + rest =~= parts);
                assert(parts[k as int] == s.subrange(start as int, i as int)) by {
                    assert(parts[k as int] == (parts.subrange(0, k + 1) + rest)[k as int]);
                }
                assert(parts.len() >= k + 2);
                assert(line_bytes(parts, k as int) == 1 + cur);
            }
            let add = rows_for(1 + cur, w);
            total = total + add;
            k += 1;
            start = i + 1;
            cur = 0;
            proof { assert(s.subrange(start as int, start as int) =~= Seq::<char>::empty()); }
        } else {
            cur = cur + char_utf8_len(cs[i]) as u128;
        }
        i += 1;
    }
    proof {
        assert(split_from(s, i as int, start as int) == seq![s.subrange(start as int, s.len() as int)]);
        assert(parts.subrange(0, k + 1) =~= parts);
        assert(parts.len() == k + 1);
        assert(parts[k as int] == s.subrange(start as int, i as int)) by {
            assert(parts.subrange(0, k as int) + seq![s.subrange(start as int, s.len() as int)] == parts);
            assert(parts[k as int] == (parts.subrange(0, k as int) + seq![s.subrange(start as int, s.len() as int)])[k as int]);
        }
        assert(line_bytes(parts, k as int) == 1 + cur + 3);
    }
    let add = rows_for(4 + cur, w);
    total = total + add;
    let r: u16 = if total > rows as u128 { #[verifier::truncate] ((total - rows as u128) as u16) } else { 0 };
    r
}

} // verus!
