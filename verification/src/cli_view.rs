//! The tables and lines the command-line client prints for workspaces,
//! spaces, lists and tasks.
use vstd::prelude::*;
use crate::custom_field::joined;
use crate::filter_config::strings_view;
use crate::config::Config;
use crate::models::{List, Space, Status, Task, Workspace};
use crate::output::{date_label, priority_label};
use crate::task_view::{due_of, priority_of, status_display, usernames};
use crate::text::{chars_of, decimal, is_whitespace, push_decimal, push_seq, str_eq, string_of, white};

verus! {

/// The rows of a table, each as its cells' texts.
pub open spec fn rows_view(rows: Seq<Vec<String>>) -> Seq<Seq<Seq<char>>> {
    rows.map_values(|r: Vec<String>| strings_view(r@))
}

/// A string holding `s`.
fn owned(s: &str) -> (r: String)
    ensures
        r@ == s@,
{
    string_of(&chars_of(s))
}

/// A count as decimal text.
fn count_text(n: usize) -> (r: String)
    ensures
        r@ == decimal(n as nat),
{
    let mut v: Vec<char> = Vec::new();
    push_decimal(&mut v, n as u64);
    string_of(&v)
}

/// Appends a row.
fn push_row(rows: &mut Vec<Vec<String>>, row: Vec<String>)
    ensures
        rows_view(final(rows)@) == rows_view(old(rows)@).push(strings_view(row@)),
{
    let ghost before = rows@;
    let ghost v = strings_view(row@);
    rows.push(row);
    proof { assert(rows_view(rows@) =~= rows_view(before).push(v)); }
}

/// "Yes" or "No".
pub open spec fn yes_no(b: bool) -> Seq<char> {
    if b { "Yes"@ } else { "No"@ }
}

/// The row of a workspace: its ID, name and number of members.
pub open spec fn workspace_row(w: Workspace) -> Seq<Seq<char>> {
    seq![w.id@, w.name@, decimal(w.members@.len())]
}

/// The workspace table's rows.
pub fn workspace_rows(ws: &Vec<Workspace>) -> (r: Vec<Vec<String>>)
    ensures
        rows_view(r@) == ws@.map_values(|w: Workspace| workspace_row(w)),
{
    let mut rows: Vec<Vec<String>> = Vec::new();
    let mut i: usize = 0;
    while i < ws.len()
        invariant
            i <= ws.len(),
            rows_view(rows@) == ws@.subrange(0, i as int).map_values(|w: Workspace| workspace_row(w)),
        decreases ws.len() - i,
    {
        let w = &ws[i];
        let row = vec![w.id.clone(), w.name.clone(), count_text(w.members.len())];
        proof { assert(strings_view(row@) =~= workspace_row(*w)); }
        push_row(&mut rows, row);
        i += 1;
        proof {
            assert(ws@.subrange(0, i as int).map_values(|w: Workspace| workspace_row(w))
                =~= ws@.subrange(0, i - 1).map_values(|w: Workspace| workspace_row(w)).push(workspace_row(ws@[i - 1])));
        }
    }
    proof { assert(ws@.subrange(0, ws@.len() as int) =~= ws@); }
    rows
}

/// The row of a space: its ID, name, privacy and number of statuses.
pub open spec fn space_row(s: Space) -> Seq<Seq<char>> {
    seq![s.id@, s.name@, yes_no(s.private), decimal(s.statuses@.len())]
}

/// The space table's rows.
pub fn space_rows(spaces: &Vec<Space>) -> (r: Vec<Vec<String>>)
    ensures
        rows_view(r@) == spaces@.map_values(|s: Space| space_row(s)),
{
    let mut rows: Vec<Vec<String>> = Vec::new();
    let mut i: usize = 0;
    while i < spaces.len()
        invariant
            i <= spaces.len(),
            rows_view(rows@) == spaces@.subrange(0, i as int).map_values(|s: Space| space_row(s)),
        decreases spaces.len() - i,
    {
        let s = &spaces[i];
        let private = if s.private { owned("Yes") } else { owned("No") };
        let row = vec![s.id.clone(), s.name.clone(), private, count_text(s.statuses.len())];
        proof { assert(strings_view(row@) =~= space_row(*s)); }
        push_row(&mut rows, row);
        i += 1;
        proof {
            assert(spaces@.subrange(0, i as int).map_values(|s: Space| space_row(s))
                =~= spaces@.subrange(0, i - 1).map_values(|s: Space| space_row(s)).push(space_row(spaces@[i - 1])));
        }
    }
    proof { assert(spaces@.subrange(0, spaces@.len() as int) =~= spaces@); }
    rows
}

/// The text of an optional string, or a dash.
pub open spec fn or_dash(s: Option<String>) -> Seq<char> {
    match s {
        Some(t) => t@,
        None => "—"@,
    }
}

/// The row of a list shown with the name of its folder: its ID, name, folder
/// and task count.
pub open spec fn list_row(l: List, folder: Seq<char>) -> Seq<Seq<char>> {
    seq![l.id@, l.name@, folder, or_dash(l.task_count)]
}

/// The list table's rows.
pub fn list_rows(items: &Vec<(List, String)>) -> (r: Vec<Vec<String>>)
    ensures
        rows_view(r@) == items@.map_values(|p: (List, String)| list_row(p.0, p.1@)),
{
    let mut rows: Vec<Vec<String>> = Vec::new();
    let mut i: usize = 0;
    while i < items.len()
        invariant
            i <= items.len(),
            rows_view(rows@) == items@.subrange(0, i as int).map_values(|p: (List, String)| list_row(p.0, p.1@)),
        decreases items.len() - i,
    {
        let (l, folder) = &items[i];
        let count = match &l.task_count {
            Some(c) => c.clone(),
            None => owned("—"),
        };
        let row = vec![l.id.clone(), l.name.clone(), folder.clone(), count];
        proof { assert(strings_view(row@) =~= list_row(*l, folder@)); }
        push_row(&mut rows, row);
        i += 1;
        proof {
            assert(items@.subrange(0, i as int).map_values(|p: (List, String)| list_row(p.0, p.1@))
                =~= items@.subrange(0, i - 1).map_values(|p: (List, String)| list_row(p.0, p.1@))
                    .push(list_row(items@[i - 1].0, items@[i - 1].1@)));
        }
    }
    proof { assert(items@.subrange(0, items@.len() as int) =~= items@); }
    rows
}

/// The folder name shown for a list of folder `folder_id`: the name the list
/// carries for its folder, or the ID.
pub open spec fn folder_label(l: List, folder_id: Seq<char>) -> Seq<char> {
    match l.folder.name {
        Some(n) => n@,
        None => folder_id,
    }
}

/// The lists of one folder, each with its folder's name.
pub fn folder_items(lists: Vec<List>, folder_id: &str) -> (r: Vec<(List, String)>)
    ensures
        r@.len() == lists@.len(),
        forall|k: int| 0 <= k < r@.len() ==> (#[trigger] r@[k]).0 == lists@[k] && r@[k].1@ == folder_label(lists@[k], folder_id@),
{
    let ghost input = lists@;
    let mut lists = lists;
    let mut rev: Vec<(List, String)> = Vec::new();
    while lists.len() > 0
        invariant
            lists@.len() + rev@.len() == input.len(),
            forall|k: int| 0 <= k < lists@.len() ==> lists@[k] == input[k],
            forall|k: int| 0 <= k < rev@.len() ==> (#[trigger] rev@[k]).0 == input[input.len() - 1 - k]
                && rev@[k].1@ == folder_label(input[input.len() - 1 - k], folder_id@),
        decreases lists.len(),
    {
        let l = lists.pop().unwrap();
        let name = match &l.folder.name {
            Some(n) => n.clone(),
            None => owned(folder_id),
        };
        rev.push((l, name));
    }
    let mut out: Vec<(List, String)> = Vec::new();
    while rev.len() > 0
        invariant
            rev@.len() + out@.len() == input.len(),
            forall|k: int| 0 <= k < rev@.len() ==> (#[trigger] rev@[k]).0 == input[input.len() - 1 - k]
                && rev@[k].1@ == folder_label(input[input.len() - 1 - k], folder_id@),
            forall|k: int| 0 <= k < out@.len() ==> (#[trigger] out@[k]).0 == input[k]
                && out@[k].1@ == folder_label(input[k], folder_id@),
        decreases rev.len(),
    {
        let p = rev.pop().unwrap();
        out.push(p);
    }
    out
}

/// The row of a task: its ID, name, status in its colour, assignees, priority
/// and due date.
pub open spec fn task_row(t: Task) -> Seq<Seq<char>> {
    seq![
        t.id@,
        t.name@,
        status_display(t.status.status@, t.status.color@),
        joined(usernames(t.assignees@), ", "@),
        priority_label(priority_of(t)),
        date_label(due_of(t)),
    ]
}

/// The usernames of a task's assignees joined with ", ".
fn assignee_names(t: &Task) -> (r: String)
    ensures
        r@ == joined(usernames(t.assignees@), ", "@),
{
    let mut out: Vec<char> = Vec::new();
    let mut i: usize = 0;
    while i < t.assignees.len()
        invariant
            i <= t.assignees.len(),
            out@ == joined(usernames(t.assignees@.subrange(0, i as int)), ", "@),
        decreases t.assignees.len() - i,
    {
        if i > 0 {
            push_seq(&mut out, &chars_of(", "));
        }
        push_seq(&mut out, &chars_of(t.assignees[i].username.as_str()));
        i += 1;
        proof {
            let ns = usernames(t.assignees@.subrange(0, i as int));
            assert(ns.drop_last() =~= usernames(t.assignees@.subrange(0, i - 1)));
            if i == 1 {
                assert(out@ =~= ns[0]);
            }
        }
    }
    proof { assert(t.assignees@.subrange(0, t.assignees@.len() as int) =~= t.assignees@); }
    string_of(&out)
}

/// The task table's rows.
pub fn task_rows(tasks: &Vec<Task>) -> (r: Vec<Vec<String>>)
    ensures
        rows_view(r@) == tasks@.map_values(|t: Task| task_row(t)),
{
    let mut rows: Vec<Vec<String>> = Vec::new();
    let mut i: usize = 0;
    while i < tasks.len()
        invariant
            i <= tasks.len(),
            rows_view(rows@) == tasks@.subrange(0, i as int).map_values(|t: Task| task_row(t)),
        decreases tasks.len() - i,
    {
        let t = &tasks[i];
        let label: Option<&str> = match &t.priority {
            Some(p) => match &p.priority {
                Some(l) => Some(l.as_str()),
                None => None,
            },
            None => None,
        };
        let due: Option<&str> = match &t.due_date {
            Some(d) => Some(d.as_str()),
            None => None,
        };
        let row = vec![
            t.id.clone(),
            t.name.clone(),
            crate::output::format_status(t.status.status.as_str(), t.status.color.as_str()),
            assignee_names(t),
            crate::output::format_priority(label),
            crate::output::format_date(due),
        ];
        proof { assert(strings_view(row@) =~= task_row(*t)); }
        push_row(&mut rows, row);
        i += 1;
        proof {
            assert(tasks@.subrange(0, i as int).map_values(|t: Task| task_row(t))
                =~= tasks@.subrange(0, i - 1).map_values(|t: Task| task_row(t)).push(task_row(tasks@[i - 1])));
        }
    }
    proof { assert(tasks@.subrange(0, tasks@.len() as int) =~= tasks@); }
    rows
}

/// Whether listing tasks asks the server to filter them: when statuses or
/// assignees are given, or closed tasks are to be included.
pub fn uses_task_filters(statuses: &Vec<String>, assignees: &Vec<String>, include_closed: bool) -> (r: bool)
    ensures
        r == !(statuses@.len() == 0 && assignees@.len() == 0 && !include_closed),
{
    !(statuses.len() == 0 && assignees.len() == 0 && !include_closed)
}

/// The line of a status in the space view.
pub open spec fn status_line(s: Status) -> Seq<char> {
    "    "@ + status_display(s.status@, s.color@) + " ("@ + s.status_type@ + ")"@
}

/// The lines printed for a space below its title.
pub open spec fn space_lines(s: Space) -> Seq<Seq<char>> {
    seq!["  Private: "@ + yes_no(s.private), "  Multiple assignees: "@ + yes_no(s.multiple_assignees)]
        + (if s.statuses@.len() > 0 {
            seq!["\n  Statuses:"@] + s.statuses@.map_values(|st: Status| status_line(st))
        } else {
            Seq::empty()
        })
}

/// The title of an item shown by its name and ID, behind `prefix`.
pub open spec fn titled(prefix: Seq<char>, name: Seq<char>, id: Seq<char>) -> Seq<char> {
    prefix + name + " ("@ + id + ")"@
}

/// The title printed for a space.
pub fn space_title(s: &Space) -> (r: String)
    ensures
        r@ == titled("Space: "@, s.name@, s.id@),
{
    let mut v = chars_of("Space: ");
    push_seq(&mut v, &chars_of(s.name.as_str()));
    push_seq(&mut v, &chars_of(" ("));
    push_seq(&mut v, &chars_of(s.id.as_str()));
    push_seq(&mut v, &chars_of(")"));
    string_of(&v)
}

/// Appends a line.
fn push_line(out: &mut Vec<String>, line: Vec<char>)
    ensures
        strings_view(final(out)@) == strings_view(old(out)@).push(line@),
{
    let ghost before = out@;
    out.push(string_of(&line));
    proof { assert(strings_view(out@) =~= strings_view(before).push(line@)); }
}

/// The lines printed for a space below its title.
pub fn space_detail_lines(s: &Space) -> (r: Vec<String>)
    ensures
        strings_view(r@) == space_lines(*s),
{
    let mut out: Vec<String> = Vec::new();
    let mut a = chars_of("  Private: ");
    push_seq(&mut a, &chars_of(if s.private { "Yes" } else { "No" }));
    push_line(&mut out, a);
    let mut b = chars_of("  Multiple assignees: ");
    push_seq(&mut b, &chars_of(if s.multiple_assignees { "Yes" } else { "No" }));
    push_line(&mut out, b);
    let ghost head = strings_view(out@);
    if s.statuses.len() > 0 {
        push_line(&mut out, chars_of("\n  Statuses:"));
        let ghost mid = strings_view(out@);
        let mut i: usize = 0;
        while i < s.statuses.len()
            invariant
                i <= s.statuses.len(),
                strings_view(out@) == mid + s.statuses@.subrange(0, i as int).map_values(|st: Status| status_line(st)),
            decreases s.statuses.len() - i,
        {
            let st = &s.statuses[i];
            let mut line = chars_of("    ");
            push_seq(&mut line, &chars_of(crate::output::format_status(st.status.as_str(), st.color.as_str()).as_str()));
            push_seq(&mut line, &chars_of(" ("));
            push_seq(&mut line, &chars_of(st.status_type.as_str()));
            push_seq(&mut line, &chars_of(")"));
            push_line(&mut out, line);
            i += 1;
            proof {
                assert(s.statuses@.subrange(0, i as int).map_values(|st: Status| status_line(st))
                    =~= s.statuses@.subrange(0, i - 1).map_values(|st: Status| status_line(st))
                        .push(status_line(s.statuses@[i - 1])));
            }
        }
        proof { assert(s.statuses@.subrange(0, s.statuses@.len() as int) =~= s.statuses@); }
    }
    proof { assert(strings_view(out@) =~= space_lines(*s)); }
    out
}

/// The title printed for a list.
pub fn list_title(l: &List) -> (r: String)
    ensures
        r@ == titled("List: "@, l.name@, l.id@),
{
    let mut v = chars_of("List: ");
    push_seq(&mut v, &chars_of(l.name.as_str()));
    push_seq(&mut v, &chars_of(" ("));
    push_seq(&mut v, &chars_of(l.id.as_str()));
    push_seq(&mut v, &chars_of(")"));
    string_of(&v)
}

/// The lines printed for a list below its title: its task count, and its
/// description when it has a non-empty one.
pub open spec fn list_lines(l: List) -> Seq<Seq<char>> {
    seq!["  Task count: "@ + or_dash(l.task_count)]
        + (match l.content {
            Some(c) => if c@.len() > 0 { seq!["  Description: "@ + c@] } else { Seq::empty() },
            None => Seq::empty(),
        })
}

/// The lines printed for a list below its title.
pub fn list_detail_lines(l: &List) -> (r: Vec<String>)
    ensures
        strings_view(r@) == list_lines(*l),
{
    let mut out: Vec<String> = Vec::new();
    let mut a = chars_of("  Task count: ");
    match &l.task_count {
        Some(c) => push_seq(&mut a, &chars_of(c.as_str())),
        None => push_seq(&mut a, &chars_of("—")),
    }
    push_line(&mut out, a);
    if let Some(c) = &l.content {
        if !c.as_str().is_empty() {
            let mut b = chars_of("  Description: ");
            push_seq(&mut b, &chars_of(c.as_str()));
            push_line(&mut out, b);
        }
    }
    proof { assert(strings_view(out@) =~= list_lines(*l)); }
    out
}

/// What `task view` prints below the task: the markdown description to
/// render (`Ok`) when the task has one, which may be empty (nothing is
/// printed then); else the plain description (`Err`) when it is not empty.
pub open spec fn view_description(t: Task) -> Option<Result<Seq<char>, Seq<char>>> {
    match t.markdown_description {
        Some(md) => if md@.len() > 0 { Some(Ok(md@)) } else { None },
        None => match t.description {
            Some(d) => if d@.len() > 0 { Some(Err(d@)) } else { None },
            None => None,
        },
    }
}

/// The description `task view` prints: markdown (`Ok`) or plain text (`Err`).
pub fn task_view_description(t: &Task) -> (r: Option<Result<String, String>>)
    ensures
        match r {
            Some(Ok(md)) => view_description(*t) == Some(Ok::<Seq<char>, Seq<char>>(md@)),
            Some(Err(d)) => view_description(*t) == Some(Err::<Seq<char>, Seq<char>>(d@)),
            None => view_description(*t) is None,
        },
{
    match &t.markdown_description {
        Some(md) => if md.as_str().is_empty() { None } else { Some(Ok(md.clone())) },
        None => match &t.description {
            Some(d) => if d.as_str().is_empty() { None } else { Some(Err(d.clone())) },
            None => None,
        },
    }
}

/// `s` without its leading white space.
pub open spec fn trim_start(s: Seq<char>) -> Seq<char>
    decreases s.len(),
{
    if s.len() > 0 && white(s[0]) { trim_start(s.drop_first()) } else { s }
}

/// `s` without its trailing white space.
pub open spec fn trim_end(s: Seq<char>) -> Seq<char>
    decreases s.len(),
{
    if s.len() > 0 && white(s.last()) { trim_end(s.drop_last()) } else { s }
}

/// `s` without leading and trailing white space, as `str::trim` gives it.
pub open spec fn trimmed(s: Seq<char>) -> Seq<char> {
    trim_end(trim_start(s))
}

/// The token typed at the prompt, trimmed; `None` when nothing is left.
pub fn typed_token(input: &str) -> (r: Option<String>)
    ensures
        match r {
            Some(t) => t@ == trimmed(input@) && t@.len() > 0,
            None => trimmed(input@).len() == 0,
        },
{
    let cs = chars_of(input);
    let ghost s = input@;
    let n = cs.len();
    let mut i: usize = 0;
    proof { assert(s.subrange(0, n as int) =~= s); }
    while i < n && is_whitespace(cs[i])
        invariant
            cs@ == s,
            n == cs.len(),
            i <= n,
            trim_start(s) == trim_start(s.subrange(i as int, n as int)),
        decreases n - i,
    {
        proof { assert(s.subrange(i as int, n as int).drop_first() =~= s.subrange(i + 1, n as int)); }
        i += 1;
    }
    let mut j: usize = n;
    proof { assert(trim_start(s) == s.subrange(i as int, n as int)); }
    while j > i && is_whitespace(cs[j - 1])
        invariant
            cs@ == s,
            n == cs.len(),
            i <= j <= n,
            trimmed(s) == trim_end(s.subrange(i as int, j as int)),
        decreases j - i,
    {
        proof { assert(s.subrange(i as int, j as int).drop_last() =~= s.subrange(i as int, j - 1)); }
        j -= 1;
    }
    proof { assert(trimmed(s) == s.subrange(i as int, j as int)); }
    if j == i {
        return None;
    }
    let mut out: Vec<char> = Vec::new();
    let mut k = i;
    while k < j
        invariant
            cs@ == s,
            i <= k <= j <= n,
            n == cs.len(),
            out@ == s.subrange(i as int, k as int),
        decreases j - k,
    {
        out.push(cs[k]);
        k += 1;
        proof { assert(out@ =~= s.subrange(i as int, k as int)); }
    }
    Some(string_of(&out))
}

/// Which workspace to make the default.
#[derive(Debug, Clone, PartialEq, Eq)]
pub enum WorkspaceChoice {
    /// This workspace ID.
    Chosen(String),
    /// The given ID is none of the user's workspaces.
    Unknown(String),
    /// The user has to pick one.
    Ask,
}

/// Whether one of the workspaces has the ID.
pub open spec fn has_workspace(ws: Seq<Workspace>, id: Seq<char>) -> bool {
    exists|k: int| 0 <= k < ws.len() && (#[trigger] ws[k]).id@ == id
}

/// The default workspace to take, given the ID passed on the command line:
/// that ID when it is one of the workspaces (else it is unknown); without
/// one, the only workspace when `take_only` holds and there is exactly one;
/// otherwise the user is asked.
pub fn choose_workspace(ws: &Vec<Workspace>, flag: Option<&str>, take_only: bool) -> (r: WorkspaceChoice)
    ensures
        match flag {
            Some(id) => if has_workspace(ws@, id@) {
                r matches WorkspaceChoice::Chosen(c) && c@ == id@
            } else {
                r matches WorkspaceChoice::Unknown(c) && c@ == id@
            },
            None => if take_only && ws@.len() == 1 {
                r matches WorkspaceChoice::Chosen(c) && c@ == ws@[0].id@
            } else {
                r == WorkspaceChoice::Ask
            },
        },
{
    match flag {
        Some(id) => {
            let mut k: usize = 0;
            while k < ws.len()
                invariant
                    k <= ws.len(),
                    flag == Some(id),
                    forall|m: int| 0 <= m < k ==> (#[trigger] ws@[m]).id@ != id@,
                decreases ws.len() - k,
            {
                if str_eq(ws[k].id.as_str(), id) {
                    proof { assert(ws@[k as int].id@ == id@); }
                    return WorkspaceChoice::Chosen(owned(id));
                }
                k += 1;
            }
            WorkspaceChoice::Unknown(owned(id))
        },
        None => if take_only && ws.len() == 1 {
            WorkspaceChoice::Chosen(ws[0].id.clone())
        } else {
            WorkspaceChoice::Ask
        },
    }
}

/// The name of the first workspace with the ID, or "unknown".
pub open spec fn name_of_workspace(ws: Seq<Workspace>, id: Seq<char>) -> Seq<char>
    decreases ws.len(),
{
    if ws.len() == 0 {
        "unknown"@
    } else if ws[0].id@ == id {
        ws[0].name@
    } else {
        name_of_workspace(ws.drop_first(), id)
    }
}

/// The name of the workspace with the ID, or "unknown".
pub fn workspace_name(ws: &Vec<Workspace>, id: &str) -> (r: String)
    ensures
        r@ == name_of_workspace(ws@, id@),
{
    let mut k: usize = 0;
    proof { assert(ws@.subrange(0, ws@.len() as int) =~= ws@); }
    while k < ws.len()
        invariant
            k <= ws.len(),
            name_of_workspace(ws@, id@) == name_of_workspace(ws@.subrange(k as int, ws@.len() as int), id@),
        decreases ws.len() - k,
    {
        proof {
            assert(ws@.subrange(k as int, ws@.len() as int).drop_first() =~= ws@.subrange(k + 1, ws@.len() as int));
        }
        if str_eq(ws[k].id.as_str(), id) {
            return ws[k].name.clone();
        }
        k += 1;
    }
    owned("unknown")
}

/// How a workspace is offered for selection: its name and ID.
pub open spec fn workspace_item(w: Workspace) -> Seq<char> {
    w.name@ + " ("@ + w.id@ + ")"@
}

/// The workspaces as offered for selection, in order.
pub fn workspace_items(ws: &Vec<Workspace>) -> (r: Vec<String>)
    ensures
        strings_view(r@) == ws@.map_values(|w: Workspace| workspace_item(w)),
{
    let mut out: Vec<String> = Vec::new();
    let mut i: usize = 0;
    while i < ws.len()
        invariant
            i <= ws.len(),
            strings_view(out@) == ws@.subrange(0, i as int).map_values(|w: Workspace| workspace_item(w)),
        decreases ws.len() - i,
    {
        let mut v = chars_of(ws[i].name.as_str());
        push_seq(&mut v, &chars_of(" ("));
        push_seq(&mut v, &chars_of(ws[i].id.as_str()));
        push_seq(&mut v, &chars_of(")"));
        push_line(&mut out, v);
        i += 1;
        proof {
            assert(ws@.subrange(0, i as int).map_values(|w: Workspace| workspace_item(w))
                =~= ws@.subrange(0, i - 1).map_values(|w: Workspace| workspace_item(w)).push(workspace_item(ws@[i - 1])));
        }
    }
    proof { assert(ws@.subrange(0, ws@.len() as int) =~= ws@); }
    out
}

/// Replaces the configured default workspace with the one given for this run,
/// when one is.
pub fn apply_workspace_override(config: &mut Config, workspace: Option<&str>)
    ensures
        match workspace {
            Some(w) => final(config).default_workspace_id matches Some(d) && d@ == w@,
            None => final(config).default_workspace_id == old(config).default_workspace_id,
        },
        final(config).default_space_id == old(config).default_space_id,
        final(config).api_base_url == old(config).api_base_url,
        final(config).output_format == old(config).output_format,
{
    if let Some(w) = workspace {
        config.default_workspace_id = Some(owned(w));
    }
}

/// Lists paired with the names of their folders, as `(list, folder name)`.
pub open spec fn pairs_view(ps: Seq<(List, String)>) -> Seq<(List, Seq<char>)> {
    ps.map_values(|p: (List, String)| (p.0, p.1@))
}

/// The lists of each folder, in order, each with its folder's name.
pub open spec fn folder_pairs(folders: Seq<(String, Vec<List>)>) -> Seq<(List, Seq<char>)>
    decreases folders.len(),
{
    if folders.len() == 0 {
        Seq::empty()
    } else {
        let f = folders.last();
        folder_pairs(folders.drop_last()) + f.1@.map_values(|l: List| (l, f.0@))
    }
}

/// Appends `lists`, each with the folder name `name`.
fn push_pairs(out: &mut Vec<(List, String)>, lists: &Vec<List>, name: &String)
    ensures
        pairs_view(final(out)@) == pairs_view(old(out)@) + lists@.map_values(|l: List| (l, name@)),
{
    let ghost start = pairs_view(out@);
    let mut i: usize = 0;
    while i < lists.len()
        invariant
            i <= lists.len(),
            pairs_view(out@) == start + lists@.subrange(0, i as int).map_values(|l: List| (l, name@)),
        decreases lists.len() - i,
    {
        let ghost before = out@;
        out.push((lists[i].clone(), name.clone()));
        i += 1;
        proof {
            assert(pairs_view(out@) =~= pairs_view(before).push((lists@[i - 1], name@)));
            assert(lists@.subrange(0, i as int).map_values(|l: List| (l, name@))
                =~= lists@.subrange(0, i - 1).map_values(|l: List| (l, name@)).push((lists@[i - 1], name@)));
        }
    }
    proof { assert(lists@.subrange(0, lists@.len() as int) =~= lists@); }
}

/// The lists of a space: those of each folder with the folder's name, then
/// the folderless ones with a dash.
pub fn space_list_items(folders: &Vec<(String, Vec<List>)>, folderless: &Vec<List>) -> (r: Vec<(List, String)>)
    ensures
        pairs_view(r@) == folder_pairs(folders@) + folderless@.map_values(|l: List| (l, "—"@)),
{
    let mut out: Vec<(List, String)> = Vec::new();
    let mut i: usize = 0;
    proof { assert(pairs_view(out@) =~= folder_pairs(folders@.subrange(0, 0))); }
    while i < folders.len()
        invariant
            i <= folders.len(),
            pairs_view(out@) == folder_pairs(folders@.subrange(0, i as int)),
        decreases folders.len() - i,
    {
        proof { assert(folders@.subrange(0, i + 1).drop_last() =~= folders@.subrange(0, i as int)); }
        push_pairs(&mut out, &folders[i].1, &folders[i].0);
        i += 1;
    }
    proof { assert(folders@.subrange(0, folders@.len() as int) =~= folders@); }
    let dash = owned("—");
    push_pairs(&mut out, folderless, &dash);
    out
}

} // verus!
