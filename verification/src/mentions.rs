//! Resolution of `@username` mentions in comment text.
use vstd::prelude::*;
use crate::models::{CommentContentItem, TaggedUser, WorkspaceMember};
use crate::text::{alnum, white, eq_ignore_ascii_case, is_alphanumeric, is_whitespace,
    chars_of, string_of, chars_eq_ignore_ascii_case};

verus! {

/// Result returned by [`resolve_mentions`].
#[derive(Debug, Clone)]
pub struct MentionResolution {
    /// The structured comment content with tag items substituted for resolved mentions.
    pub comment_content: Vec<CommentContentItem>,
    /// Usernames that were successfully resolved to a user ID.
    pub resolved: Vec<String>,
    /// Usernames that appeared in the text but matched no workspace member.
    pub unresolved: Vec<String>,
}

/// What a content item stands for: a run of text, or a mention of a user ID.
pub enum Piece {
    /// Plain text.
    Text(Seq<char>),
    /// A mention of the user with this ID.
    Tag(i64),
}

/// The piece a content item stands for.
pub open spec fn piece_of(item: CommentContentItem) -> Piece {
    match item {
        CommentContentItem::Tag { user, .. } => Piece::Tag(user.id),
        CommentContentItem::Text { text, .. } => Piece::Text(text@),
        CommentContentItem::Unknown(_) => Piece::Text(seq![]),
    }
}

/// A character that may continue a username after `@`.
pub open spec fn is_name_char(c: char) -> bool {
    alnum(c) || c == '_' || c == '-'
}

/// End of the run of username characters starting at `j`.
pub open spec fn name_end(t: Seq<char>, j: int) -> int
    decreases t.len() - j,
{
    if j < 0 || j >= t.len() {
        t.len() as int
    } else if !is_name_char(t[j]) {
        j
    } else {
        name_end(t, j + 1)
    }
}

/// A mention starts at `i`: an `@` at the start of the text or after white
/// space, followed by at least one username character.
pub open spec fn mention_at(t: Seq<char>, i: int) -> bool {
    0 <= i < t.len() && t[i] == '@' && (i == 0 || white(t[i - 1])) && name_end(t, i + 1) > i + 1
}

/// ID of the first member whose username equals `name` ignoring ASCII case.
pub open spec fn find_member(members: Seq<WorkspaceMember>, name: Seq<char>) -> Option<i64>
    decreases members.len(),
{
    if members.len() == 0 {
        None
    } else if eq_ignore_ascii_case(members[0].user.username@, name) {
        Some(members[0].user.id)
    } else {
        find_member(members.subrange(1, members.len() as int), name)
    }
}

pub proof fn lemma_name_end(t: Seq<char>, j: int)
    requires
        0 <= j,
    ensures
        j <= name_end(t, j) || (j > t.len() && name_end(t, j) == t.len()),
        name_end(t, j) <= t.len() || name_end(t, j) == j,
        forall|k: int| j <= k < name_end(t, j) ==> is_name_char(#[trigger] t[k]),
        name_end(t, j) < t.len() ==> !is_name_char(t[name_end(t, j)]),
    decreases t.len() - j,
{
    if j >= t.len() {
    } else if !is_name_char(t[j]) {
    } else {
        lemma_name_end(t, j + 1);
    }
}

/// The scan of `t` from position `i`, with the pending text starting at `seg`:
/// the pieces, the resolved names and the unresolved names, in order.
pub open spec fn scan(t: Seq<char>, members: Seq<WorkspaceMember>, i: int, seg: int)
    -> (Seq<Piece>, Seq<Seq<char>>, Seq<Seq<char>>)
    decreases t.len() - i,
{
    if i < 0 || i >= t.len() {
        let tail = t.subrange(seg, t.len() as int);
        (if tail.len() > 0 { seq![Piece::Text(tail)] } else { seq![] }, seq![], seq![])
    } else if mention_at(t, i) {
        let j = name_end(t, i + 1);
        proof { lemma_name_end(t, i + 1); }
        let name = t.subrange(i + 1, j);
        let pre = if i > seg { seq![Piece::Text(t.subrange(seg, i))] } else { seq![] };
        let rest = scan(t, members, j, j);
        match find_member(members, name) {
            Some(id) => (pre + seq![Piece::Tag(id)] + rest.0, seq![name] + rest.1, rest.2),
            None => (pre + seq![Piece::Text(seq!['@'] + name)] + rest.0, rest.1, seq![name] + rest.2),
        }
    } else {
        scan(t, members, i + 1, seg)
    }
}

fn name_end_exec(t: &Vec<char>, j: usize) -> (r: usize)
    requires
        j <= t.len(),
    ensures
        r as int == name_end(t@, j as int),
        j <= r <= t.len(),
{
    let mut k = j;
    while k < t.len() && (is_alphanumeric(t[k]) || t[k] == '_' || t[k] == '-')
        invariant
            j <= k <= t.len(),
            name_end(t@, k as int) == name_end(t@, j as int),
        decreases t.len() - k,
    {
        k += 1;
    }
    k
}

fn find_member_exec(members: &[WorkspaceMember], name: &Vec<char>) -> (r: Option<i64>)
    ensures
        r == find_member(members@, name@),
{
    let mut i: usize = 0;
    proof { assert(members@.subrange(0, members@.len() as int) =~= members@); }
    while i < members.len()
        invariant
            i <= members.len(),
            find_member(members@, name@) == find_member(members@.subrange(i as int, members@.len() as int), name@),
        decreases members.len() - i,
    {
        proof {
            let rest = members@.subrange(i as int, members@.len() as int);
            assert(rest.subrange(1, rest.len() as int) =~= members@.subrange(i + 1, members@.len() as int));
            assert(rest[0] == members@[i as int]);
        }
        let uname = chars_of(members[i].user.username.as_str());
        if chars_eq_ignore_ascii_case(&uname, name) {
            return Some(members[i].user.id);
        }
        i += 1;
    }
    None
}

fn text_item(v: &Vec<char>) -> (r: CommentContentItem)
    ensures
        piece_of(r) == Piece::Text(v@),
        r matches CommentContentItem::Text { attributes, .. } && attributes is None,
{
    CommentContentItem::Text { text: string_of(v), attributes: None }
}

fn slice_chars(t: &Vec<char>, from: usize, to: usize) -> (r: Vec<char>)
    requires
        from <= to <= t.len(),
    ensures
        r@ == t@.subrange(from as int, to as int),
{
    let mut out: Vec<char> = Vec::new();
    let mut k = from;
    while k < to
        invariant
            from <= k <= to <= t.len(),
            out@ == t@.subrange(from as int, k as int),
        decreases to - k,
    {
        out.push(t[k]);
        k += 1;
        proof { assert(out@ =~= t@.subrange(from as int, k as int)); }
    }
    out
}

/// The pieces a sequence of content items stands for.
pub open spec fn pieces(items: Seq<CommentContentItem>) -> Seq<Piece> {
    items.map_values(|item: CommentContentItem| piece_of(item))
}

/// The views of a sequence of strings.
pub open spec fn views(v: Seq<String>) -> Seq<Seq<char>> {
    v.map_values(|s: String| s@)
}

/// Parses `text` for `@username` tokens at word boundaries (the start of the text,
/// or right after white space) and resolves them against `members` by username,
/// ignoring ASCII case. Text between mentions becomes text items; a resolved
/// mention becomes a tag item for the member's user ID; an unresolved mention
/// stays as text.
pub fn resolve_mentions(text: &str, members: &[WorkspaceMember]) -> (r: MentionResolution)
    ensures
        pieces(r.comment_content@) == scan(text@, members@, 0, 0).0,
        views(r.resolved@) == scan(text@, members@, 0, 0).1,
        views(r.unresolved@) == scan(text@, members@, 0, 0).2,
        forall|k: int| 0 <= k < r.comment_content@.len() ==> {
            let item = #[trigger] r.comment_content@[k];
            (item is Tag || item is Text)
            && (item matches CommentContentItem::Tag { content_type, user, text }
                ==> content_type@ == seq!['t', 'a', 'g'] && text is None && user.username is None
                    && user.email is None)
            && (item matches CommentContentItem::Text { attributes, .. } ==> attributes is None)
        },
{
    let t = chars_of(text);
    let mut content: Vec<CommentContentItem> = Vec::new();
    let mut resolved: Vec<String> = Vec::new();
    let mut unresolved: Vec<String> = Vec::new();
    let mut i: usize = 0;
    let mut seg: usize = 0;
    let ghost full = scan(t@, members@, 0, 0);
    while i < t.len()
        invariant
            seg <= i <= t.len(),
            t@ == text@,
            full == scan(t@, members@, 0, 0),
            pieces(content@) + scan(t@, members@, i as int, seg as int).0 == full.0,
            views(resolved@) + scan(t@, members@, i as int, seg as int).1 == full.1,
            views(unresolved@) + scan(t@, members@, i as int, seg as int).2 == full.2,
            forall|k: int| 0 <= k < content@.len() ==> {
                let item = #[trigger] content@[k];
                (item is Tag || item is Text)
                && (item matches CommentContentItem::Tag { content_type, user, text }
                    ==> content_type@ == seq!['t', 'a', 'g'] && text is None && user.username is None
                        && user.email is None)
                && (item matches CommentContentItem::Text { attributes, .. } ==> attributes is None)
            },
        decreases t.len() - i,
    {
        if t[i] == '@' && (i == 0 || is_whitespace(t[i - 1])) {
            let j = name_end_exec(&t, i + 1);
            if j > i + 1 {
                proof { assert(mention_at(t@, i as int)); }
                let ghost rest = scan(t@, members@, j as int, j as int);
                let name = slice_chars(&t, i + 1, j);
                let ghost c0 = content@;
                let ghost r0 = resolved@;
                let ghost u0 = unresolved@;
                if i > seg {
                    let pre = slice_chars(&t, seg, i);
                    content.push(text_item(&pre));
                }
                match find_member_exec(members, &name) {
                    Some(id) => {
                        let mut tag_name: Vec<char> = Vec::new();
                        tag_name.push('t'); tag_name.push('a'); tag_name.push('g');
                        proof { assert(tag_name@ =~= seq!['t', 'a', 'g']); }
                        let item = CommentContentItem::Tag {
                            content_type: string_of(&tag_name),
                            user: TaggedUser { id, username: None, email: None },
                            text: None,
                        };
                        content.push(item);
                        resolved.push(string_of(&name));
                        proof {
                            assert(pieces(content@) =~= pieces(c0) + (if i > seg {
                                seq![Piece::Text(t@.subrange(seg as int, i as int))] } else { seq![] })
                                + seq![Piece::Tag(id)]);
                            assert(views(resolved@) =~= views(r0) + seq![name@]);
                        }
                    }
                    None => {
                        let mut at_name: Vec<char> = Vec::new();
                        at_name.push('@');
                        crate::text::push_seq(&mut at_name, &name);
                        content.push(text_item(&at_name));
                        unresolved.push(string_of(&name));
                        proof {
                            assert(pieces(content@) =~= pieces(c0) + (if i > seg {
                                seq![Piece::Text(t@.subrange(seg as int, i as int))] } else { seq![] })
                                + seq![Piece::Text(seq!['@'] + name@)]);
                            assert(views(unresolved@) =~= views(u0) + seq![name@]);
                        }
                    }
                }
                seg = j;
                i = j;
                continue;
            }
        }
        proof { assert(!mention_at(t@, i as int)); }
        i += 1;
    }
    if seg < t.len() {
        let tail = slice_chars(&t, seg, t.len());
        let ghost c0 = content@;
        content.push(text_item(&tail));
        proof { assert(pieces(content@) =~= pieces(c0) + seq![Piece::Text(t@.subrange(seg as int, t@.len() as int))]); }
    }
    proof {
        assert(pieces(content@) =~= full.0);
        assert(views(resolved@) =~= full.1);
        assert(views(unresolved@) =~= full.2);
    }
    MentionResolution { comment_content: content, resolved, unresolved }
}

} // verus!

verus! {

/// The text a sequence of pieces stands for, with each tag written as `@` and
/// the next of `names`.
pub open spec fn render(ps: Seq<Piece>, names: Seq<Seq<char>>) -> Seq<char>
    decreases ps.len(),
{
    if ps.len() == 0 {
        seq![]
    } else {
        match ps[0] {
            Piece::Text(s) => s + render(ps.drop_first(), names),
            Piece::Tag(_) => seq!['@'] + names[0] + render(ps.drop_first(), names.drop_first()),
        }
    }
}

proof fn lemma_render_text(x: Seq<char>, rest: Seq<Piece>, names: Seq<Seq<char>>)
    ensures
        render(seq![Piece::Text(x)] + rest, names) == x + render(rest, names),
{
    assert((seq![Piece::Text(x)] + rest).drop_first() =~= rest);
}

proof fn lemma_render_tag(id: i64, rest: Seq<Piece>, name: Seq<char>, names: Seq<Seq<char>>)
    ensures
        render(seq![Piece::Tag(id)] + rest, seq![name] + names) == seq!['@'] + name + render(rest, names),
{
    assert((seq![Piece::Tag(id)] + rest).drop_first() =~= rest);
    assert((seq![name] + names).drop_first() =~= names);
}

proof fn lemma_scan_renders(t: Seq<char>, members: Seq<WorkspaceMember>, i: int, seg: int)
    requires
        0 <= seg <= i <= t.len(),
    ensures
        render(scan(t, members, i, seg).0, scan(t, members, i, seg).1) == t.subrange(seg, t.len() as int),
        forall|k: int| 0 <= k < scan(t, members, i, seg).1.len()
            ==> find_member(members, #[trigger] scan(t, members, i, seg).1[k]) is Some,
        forall|k: int| 0 <= k < scan(t, members, i, seg).2.len()
            ==> find_member(members, #[trigger] scan(t, members, i, seg).2[k]) is None,
    decreases t.len() - i,
{
    if i >= t.len() {
        let tail = t.subrange(seg, t.len() as int);
        if tail.len() > 0 {
            lemma_render_text(tail, seq![], seq![]);
            assert(seq![Piece::Text(tail)] + Seq::<Piece>::empty() =~= seq![Piece::Text(tail)]);
            assert(tail + Seq::<char>::empty() =~= tail);
        }
    } else if mention_at(t, i) {
        let j = name_end(t, i + 1);
        lemma_name_end(t, i + 1);
        let name = t.subrange(i + 1, j);
        let rest = scan(t, members, j, j);
        lemma_scan_renders(t, members, j, j);
        let tail_text = if i > seg { t.subrange(seg, i) } else { seq![] };
        let pre = if i > seg { seq![Piece::Text(t.subrange(seg, i))] } else { seq![] };
        match find_member(members, name) {
            Some(id) => {
                lemma_render_tag(id, rest.0, name, rest.1);
                if i > seg {
                    assert(pre + seq![Piece::Tag(id)] + rest.0 =~= seq![Piece::Text(t.subrange(seg, i))]
                        + (seq![Piece::Tag(id)] + rest.0));
                    lemma_render_text(t.subrange(seg, i), seq![Piece::Tag(id)] + rest.0, seq![name] + rest.1);
                } else {
                    assert(pre + seq![Piece::Tag(id)] + rest.0 =~= seq![Piece::Tag(id)] + rest.0);
                }
                assert(tail_text + (seq!['@'] + name + t.subrange(j, t.len() as int))
                    =~= t.subrange(seg, t.len() as int));
                let names = scan(t, members, i, seg).1;
                assert(names == seq![name] + rest.1);
                assert forall|k: int| 0 <= k < names.len() implies find_member(members, #[trigger] names[k]) is Some by {
                    if k > 0 { assert(names[k] == rest.1[k - 1]); }
                }
            }
            None => {
                let txt = seq!['@'] + name;
                lemma_render_text(txt, rest.0, rest.1);
                if i > seg {
                    assert(pre + seq![Piece::Text(txt)] + rest.0 =~= seq![Piece::Text(t.subrange(seg, i))]
                        + (seq![Piece::Text(txt)] + rest.0));
                    lemma_render_text(t.subrange(seg, i), seq![Piece::Text(txt)] + rest.0, rest.1);
                } else {
                    assert(pre + seq![Piece::Text(txt)] + rest.0 =~= seq![Piece::Text(txt)] + rest.0);
                }
                assert(tail_text + (txt + t.subrange(j, t.len() as int)) =~= t.subrange(seg, t.len() as int));
                let names = scan(t, members, i, seg).2;
                assert(names == seq![name] + rest.2);
                assert forall|k: int| 0 <= k < names.len() implies find_member(members, #[trigger] names[k]) is None by {
                    if k > 0 { assert(names[k] == rest.2[k - 1]); }
                }
            }
        }
    } else {
        lemma_scan_renders(t, members, i + 1, seg);
    }
}

/// Mention resolution loses no text: writing each tag back as `@` followed by the
/// resolved username, in order, reproduces the input exactly. Every resolved
/// name matches a member and no unresolved name does.
pub proof fn law_mentions_reproduce_text(text: Seq<char>, members: Seq<WorkspaceMember>)
    ensures
        render(scan(text, members, 0, 0).0, scan(text, members, 0, 0).1) == text,
        forall|k: int| 0 <= k < scan(text, members, 0, 0).1.len()
            ==> find_member(members, #[trigger] scan(text, members, 0, 0).1[k]) is Some,
        forall|k: int| 0 <= k < scan(text, members, 0, 0).2.len()
            ==> find_member(members, #[trigger] scan(text, members, 0, 0).2[k]) is None,
{
    lemma_scan_renders(text, members, 0, 0);
    assert(text.subrange(0, text.len() as int) =~= text);
}

} // verus!
