//! The text the CLI prints for a task.
use vstd::prelude::*;
use crate::custom_field::{display_of, joined};
use crate::filter_config::strings_view;
use crate::models::{Attachment, Checklist, ChecklistItem, CustomField, LinkedTask, Tag, Task, TaskDependency, User};
use crate::output::{date_label, priority_label, truecolor_text};
use crate::text::{chars_of, decimal, push_decimal, push_seq, string_of};
use crate::theme::hex_rgb;
use crate::ui_text::duration_text;

verus! {

/// A status label in its colour, as `format_status` shows it.
pub open spec fn status_display(status: Seq<char>, color: Seq<char>) -> Seq<char> {
    match hex_rgb(color) {
        Some((r, g, b)) => truecolor_text(status, r, g, b),
        None => status,
    }
}

/// The usernames of users, in order.
pub open spec fn usernames(us: Seq<User>) -> Seq<Seq<char>> {
    us.map_values(|u: User| u.username@)
}

/// The names of tags, in order.
pub open spec fn tag_names(tags: Seq<Tag>) -> Seq<Seq<char>> {
    tags.map_values(|t: Tag| t.name@)
}

/// One line when `cond` holds, none otherwise.
pub open spec fn line_if(cond: bool, line: Seq<char>) -> Seq<Seq<char>> {
    if cond { seq![line] } else { Seq::empty() }
}

/// The header of a section, with the number of its entries.
pub open spec fn counted_header(title: Seq<char>, n: nat) -> Seq<char> {
    "\n─── "@ + title + " ("@ + decimal(n) + ") ───\n"@
}

/// The priority label of a task.
pub open spec fn priority_of(t: Task) -> Option<Seq<char>> {
    match t.priority {
        Some(p) => match p.priority { Some(l) => Some(l@), None => None },
        None => None,
    }
}

/// The due date of a task.
pub open spec fn due_of(t: Task) -> Option<Seq<char>> {
    match t.due_date {
        Some(d) => Some(d@),
        None => None,
    }
}

/// The lines of a task's fields.
pub open spec fn field_lines(t: Task) -> Seq<Seq<char>> {
    seq![
        "  Status:   "@ + status_display(t.status.status@, t.status.color@),
        "  Priority: "@ + priority_label(priority_of(t)),
    ]
        + line_if(t.assignees@.len() > 0, "  Assignees: "@ + joined(usernames(t.assignees@), ", "@))
        + seq![
            "  Created:  "@ + date_label(Some(t.date_created@)),
            "  Updated:  "@ + date_label(Some(t.date_updated@)),
            "  Due:      "@ + date_label(due_of(t)),
        ]
        + (match t.time_estimate { Some(e) => seq!["  Estimate: "@ + duration_text(e)], None => Seq::empty() })
        + (match t.time_spent { Some(s) => seq!["  Tracked:  "@ + duration_text(s)], None => Seq::empty() })
        + line_if(t.tags@.len() > 0, "  Tags:     "@ + joined(tag_names(t.tags@), ", "@))
        + line_if(t.watchers@.len() > 0, "  Watchers: "@ + joined(usernames(t.watchers@), ", "@))
        + seq!["  URL:      "@ + t.url@]
}

/// The lines of the custom fields that have a value, in order.
pub open spec fn valued_field_lines(fs: Seq<CustomField>) -> Seq<Seq<char>>
    decreases fs.len(),
{
    if fs.len() == 0 {
        Seq::empty()
    } else {
        let f = fs.last();
        valued_field_lines(fs.drop_last()) + line_if(f.value is Some, "  "@ + f.name@ + ": "@ + display_of(f))
    }
}

/// The custom-field section: a header and one line per field with a value,
/// when any has one.
pub open spec fn custom_field_lines(fields: Option<Vec<CustomField>>) -> Seq<Seq<char>> {
    match fields {
        Some(v) => if valued_field_lines(v@).len() > 0 {
            seq!["\n─── Custom Fields ───\n"@] + valued_field_lines(v@)
        } else {
            Seq::empty()
        },
        None => Seq::empty(),
    }
}

/// The line of a subtask.
pub open spec fn subtask_line(st: Task) -> Seq<char> {
    "  ● "@ + st.name@ + " ["@ + status_display(st.status.status@, st.status.color@) + "]"@
}

/// The subtask section.
pub open spec fn subtask_lines(subtasks: Option<Vec<Task>>) -> Seq<Seq<char>> {
    match subtasks {
        Some(v) => if v@.len() > 0 {
            seq![counted_header("Subtasks"@, v@.len())] + v@.map_values(|st: Task| subtask_line(st))
        } else {
            Seq::empty()
        },
        None => Seq::empty(),
    }
}

/// The number of resolved items.
pub open spec fn resolved_count(items: Seq<ChecklistItem>) -> nat
    decreases items.len(),
{
    if items.len() == 0 {
        0
    } else {
        resolved_count(items.drop_last()) + if items.last().resolved { 1nat } else { 0nat }
    }
}

/// The line of a checklist item: its box, its name and its assignee.
pub open spec fn item_line(item: ChecklistItem) -> Seq<char> {
    "  "@ + (if item.resolved { "[x]"@ } else { "[ ]"@ }) + " "@ + item.name@
        + (match item.assignee {
            Some(a) => if a.username@.len() > 0 { "  @"@ + a.username@ } else { Seq::empty() },
            None => Seq::empty(),
        })
}

/// The lines of one checklist: its header and its items.
pub open spec fn one_checklist(cl: Checklist) -> Seq<Seq<char>> {
    seq!["\n─── "@ + cl.name@ + " ("@ + decimal(resolved_count(cl.items@)) + "/"@ + decimal(cl.items@.len()) + ") ───\n"@]
        + cl.items@.map_values(|i: ChecklistItem| item_line(i))
}

/// The lines of all checklists.
pub open spec fn checklist_lines(cls: Seq<Checklist>) -> Seq<Seq<char>>
    decreases cls.len(),
{
    if cls.len() == 0 { Seq::empty() } else { checklist_lines(cls.drop_last()) + one_checklist(cls.last()) }
}

/// The linked-task section.
pub open spec fn linked_lines(links: Seq<LinkedTask>) -> Seq<Seq<char>> {
    if links.len() > 0 {
        seq![counted_header("Linked Tasks"@, links.len())] + links.map_values(|l: LinkedTask| "  🔗 "@ + l.task_id@)
    } else {
        Seq::empty()
    }
}

/// The line of a dependency of task `id`.
pub open spec fn dependency_line(id: Seq<char>, dep: TaskDependency) -> Seq<char> {
    if dep.depends_on@ == id { "  → blocks "@ + dep.task_id@ } else { "  ← waiting on "@ + dep.depends_on@ }
}

/// The dependency section of task `id`.
pub open spec fn dependency_lines(id: Seq<char>, deps: Seq<TaskDependency>) -> Seq<Seq<char>> {
    if deps.len() > 0 {
        seq![counted_header("Dependencies"@, deps.len())] + deps.map_values(|d: TaskDependency| dependency_line(id, d))
    } else {
        Seq::empty()
    }
}

/// The icon of an attachment by its extension.
pub open spec fn attachment_icon(ext: Seq<char>) -> Seq<char> {
    if ext == "pdf"@ {
        "📄"@
    } else if ext == "png"@ || ext == "jpg"@ || ext == "jpeg"@ || ext == "gif"@ || ext == "svg"@ || ext == "webp"@ {
        "🖼️"@
    } else if ext == "zip"@ || ext == "tar"@ || ext == "gz"@ || ext == "rar"@ {
        "📦"@
    } else {
        "📎"@
    }
}

/// The line of an attachment.
pub open spec fn attachment_line(a: Attachment) -> Seq<char> {
    "  "@ + attachment_icon(match a.extension { Some(e) => e@, None => ""@ }) + " "@
        + (match a.title { Some(t) => t@, None => "Untitled"@ })
}

/// The attachment section.
pub open spec fn attachment_lines(atts: Seq<Attachment>) -> Seq<Seq<char>> {
    if atts.len() > 0 {
        seq![counted_header("Attachments"@, atts.len())] + atts.map_values(|a: Attachment| attachment_line(a))
    } else {
        Seq::empty()
    }
}

/// The lines printed below a task's title.
pub open spec fn detail_lines(t: Task) -> Seq<Seq<char>> {
    field_lines(t) + custom_field_lines(t.custom_fields) + subtask_lines(t.subtasks) + checklist_lines(t.checklists@)
        + linked_lines(t.linked_tasks@) + dependency_lines(t.id@, t.dependencies@) + attachment_lines(t.attachments@)
}

/// The title line of a task: its name and ID.
pub open spec fn title_line(t: Task) -> Seq<char> {
    t.name@ + " ("@ + t.id@ + ")"@
}

/// The task's manual-progress fields that hold a value also hold their progress.
pub open spec fn printable(t: Task) -> bool {
    &&& (t.custom_fields matches Some(v) ==> forall|k: int| 0 <= k < v@.len() ==>
            (#[trigger] v@[k]).field_type@ == "manual_progress"@ && v@[k].value is Some ==> v@[k].progress is Some)
}

/// Appends a line.
fn push_line(out: &mut Vec<String>, line: &Vec<char>)
    ensures
        strings_view(final(out)@) == strings_view(old(out)@).push(line@),
{
    let ghost before = out@;
    out.push(string_of(line));
    proof { assert(strings_view(out@) =~= strings_view(before).push(line@)); }
}

/// `prefix` followed by `rest`.
fn cat(prefix: &str, rest: &str) -> (r: Vec<char>)
    ensures
        r@ == prefix@ + rest@,
{
    let mut v = chars_of(prefix);
    push_seq(&mut v, &chars_of(rest));
    v
}

/// Names joined with ", ".
fn join_names(names: &Vec<String>) -> (r: String)
    requires
        names@.len() > 0,
    ensures
        r@ == joined(strings_view(names@), ", "@),
{
    crate::custom_field::list_display(names)
}

/// The usernames of users.
fn collect_usernames(us: &Vec<User>) -> (r: Vec<String>)
    ensures
        strings_view(r@) == usernames(us@),
        r@.len() == us@.len(),
{
    let mut out: Vec<String> = Vec::new();
    let mut i: usize = 0;
    while i < us.len()
        invariant
            i <= us.len(),
            out@.len() == i,
            strings_view(out@) == usernames(us@.subrange(0, i as int)),
        decreases us.len() - i,
    {
        let ghost before = out@;
        out.push(us[i].username.clone());
        i += 1;
        proof {
            assert(strings_view(out@) =~= strings_view(before).push(us@[i - 1].username@));
            assert(usernames(us@.subrange(0, i as int)) =~= usernames(us@.subrange(0, i - 1)).push(us@[i - 1].username@));
        }
    }
    proof { assert(us@.subrange(0, us@.len() as int) =~= us@); }
    out
}

/// The names of tags.
fn collect_tag_names(tags: &Vec<Tag>) -> (r: Vec<String>)
    ensures
        strings_view(r@) == tag_names(tags@),
        r@.len() == tags@.len(),
{
    let mut out: Vec<String> = Vec::new();
    let mut i: usize = 0;
    while i < tags.len()
        invariant
            i <= tags.len(),
            out@.len() == i,
            strings_view(out@) == tag_names(tags@.subrange(0, i as int)),
        decreases tags.len() - i,
    {
        let ghost before = out@;
        out.push(tags[i].name.clone());
        i += 1;
        proof {
            assert(strings_view(out@) =~= strings_view(before).push(tags@[i - 1].name@));
            assert(tag_names(tags@.subrange(0, i as int)) =~= tag_names(tags@.subrange(0, i - 1)).push(tags@[i - 1].name@));
        }
    }
    proof { assert(tags@.subrange(0, tags@.len() as int) =~= tags@); }
    out
}

/// Appends the lines of a task's fields.
#[verifier::spinoff_prover]
#[verifier::rlimit(60)]
fn push_field_lines(out: &mut Vec<String>, t: &Task)
    ensures
        strings_view(final(out)@) == strings_view(old(out)@) + field_lines(*t),
{
    let ghost start = strings_view(out@);
    let status = crate::output::format_status(t.status.status.as_str(), t.status.color.as_str());
    push_line(out, &cat("  Status:   ", status.as_str()));
    let label: Option<&str> = match &t.priority {
        Some(p) => match &p.priority {
            Some(l) => Some(l.as_str()),
            None => None,
        },
        None => None,
    };
    push_line(out, &cat("  Priority: ", crate::output::format_priority(label).as_str()));
    let ghost a = strings_view(out@);
    proof {
        let l1 = "  Status:   "@ + status_display(t.status.status@, t.status.color@);
        let l2 = "  Priority: "@ + priority_label(priority_of(*t));
        assert(a =~= start + seq![l1, l2]);
    }
    if t.assignees.len() > 0 {
        let names = collect_usernames(&t.assignees);
        push_line(out, &cat("  Assignees: ", join_names(&names).as_str()));
    }
    let ghost b = strings_view(out@);
    proof {
        assert(b =~= a + line_if(t.assignees@.len() > 0, "  Assignees: "@ + joined(usernames(t.assignees@), ", "@)));
    }
    push_line(out, &cat("  Created:  ", crate::output::format_date(Some(t.date_created.as_str())).as_str()));
    push_line(out, &cat("  Updated:  ", crate::output::format_date(Some(t.date_updated.as_str())).as_str()));
    let due: Option<&str> = match &t.due_date {
        Some(d) => Some(d.as_str()),
        None => None,
    };
    push_line(out, &cat("  Due:      ", crate::output::format_date(due).as_str()));
    let ghost c = strings_view(out@);
    proof {
        assert(c =~= b + seq![
                "  Created:  "@ + date_label(Some(t.date_created@)),
                "  Updated:  "@ + date_label(Some(t.date_updated@)),
                "  Due:      "@ + date_label(due_of(*t)),
            ]);
    }
    if let Some(e) = t.time_estimate {
        push_line(out, &cat("  Estimate: ", format_duration(e).as_str()));
    }
    let ghost d = strings_view(out@);
    proof {
        assert(d =~= c + (match t.time_estimate { Some(e) => seq!["  Estimate: "@ + duration_text(e)], None => Seq::empty() }));
    }
    if let Some(sp) = t.time_spent {
        push_line(out, &cat("  Tracked:  ", format_duration(sp).as_str()));
    }
    let ghost e2 = strings_view(out@);
    proof {
        assert(e2 =~= d + (match t.time_spent { Some(s) => seq!["  Tracked:  "@ + duration_text(s)], None => Seq::empty() }));
    }
    if t.tags.len() > 0 {
        let names = collect_tag_names(&t.tags);
        push_line(out, &cat("  Tags:     ", join_names(&names).as_str()));
    }
    let ghost f = strings_view(out@);
    proof {
        assert(f =~= e2 + line_if(t.tags@.len() > 0, "  Tags:     "@ + joined(tag_names(t.tags@), ", "@)));
    }
    if t.watchers.len() > 0 {
        let names = collect_usernames(&t.watchers);
        push_line(out, &cat("  Watchers: ", join_names(&names).as_str()));
    }
    let ghost g = strings_view(out@);
    proof {
        assert(g =~= f + line_if(t.watchers@.len() > 0, "  Watchers: "@ + joined(usernames(t.watchers@), ", "@)));
    }
    push_line(out, &cat("  URL:      ", t.url.as_str()));
    proof {
        assert(strings_view(out@) =~= start + field_lines(*t));
    }
}

/// Formats a duration in milliseconds as hours and minutes.
pub fn format_duration(ms: u64) -> (r: String)
    ensures
        r@ == duration_text(ms),
{
    crate::ui_text::format_duration(ms)
}

/// Appends the custom-field section.
fn push_custom_field_lines(out: &mut Vec<String>, fields: &Option<Vec<CustomField>>)
    requires
        fields matches Some(v) ==> forall|k: int| 0 <= k < v@.len() ==>
            (#[trigger] v@[k]).field_type@ == "manual_progress"@ && v@[k].value is Some ==> v@[k].progress is Some,
    ensures
        strings_view(final(out)@) == strings_view(old(out)@) + custom_field_lines(*fields),
{
    let v = match fields {
        Some(v) => v,
        None => {
            proof { assert(strings_view(out@) =~= strings_view(out@) + Seq::<Seq<char>>::empty()); }
            return;
        },
    };
    let mut body: Vec<String> = Vec::new();
    let mut i: usize = 0;
    while i < v.len()
        invariant
            i <= v.len(),
            forall|k: int| 0 <= k < v@.len() ==>
                (#[trigger] v@[k]).field_type@ == "manual_progress"@ && v@[k].value is Some ==> v@[k].progress is Some,
            strings_view(body@) == valued_field_lines(v@.subrange(0, i as int)),
        decreases v.len() - i,
    {
        proof { assert(v@.subrange(0, i + 1).drop_last() =~= v@.subrange(0, i as int)); }
        let ghost before = strings_view(body@);
        if v[i].value.is_some() {
            let mut line = chars_of("  ");
            push_seq(&mut line, &chars_of(v[i].name.as_str()));
            push_seq(&mut line, &chars_of(": "));
            push_seq(&mut line, &chars_of(v[i].display_value().as_str()));
            push_line(&mut body, &line);
        }
        proof { assert(strings_view(body@) =~= before + line_if(v@[i as int].value is Some,
            "  "@ + v@[i as int].name@ + ": "@ + display_of(v@[i as int]))); }
        i += 1;
    }
    proof { assert(v@.subrange(0, v@.len() as int) =~= v@); }
    if body.len() > 0 {
        push_line(out, &chars_of("\n─── Custom Fields ───\n"));
        let ghost mid = strings_view(out@);
        let mut k: usize = 0;
        while k < body.len()
            invariant
                k <= body.len(),
                strings_view(out@) == mid + strings_view(body@).subrange(0, k as int),
            decreases body.len() - k,
        {
            push_line(out, &chars_of(body[k].as_str()));
            k += 1;
            proof { assert(strings_view(body@).subrange(0, k as int) =~= strings_view(body@).subrange(0, k - 1).push(body@[k - 1]@)); }
        }
        proof {
            assert(strings_view(body@).subrange(0, body@.len() as int) =~= strings_view(body@));
            assert(strings_view(out@) =~= (mid.drop_last() + seq!["\n─── Custom Fields ───\n"@]) + strings_view(body@));
        }
    } else {
        proof { assert(strings_view(out@) =~= strings_view(out@) + Seq::<Seq<char>>::empty()); }
    }
}

/// The header of a section with `n` entries.
fn counted(title: &str, n: usize) -> (r: Vec<char>)
    ensures
        r@ == counted_header(title@, n as nat),
{
    let mut v = chars_of("\n─── ");
    push_seq(&mut v, &chars_of(title));
    push_seq(&mut v, &chars_of(" ("));
    push_decimal(&mut v, n as u64);
    push_seq(&mut v, &chars_of(") ───\n"));
    v
}

/// Appends the subtask section.
fn push_subtask_lines(out: &mut Vec<String>, subtasks: &Option<Vec<Task>>)
    ensures
        strings_view(final(out)@) == strings_view(old(out)@) + subtask_lines(*subtasks),
{
    let ghost start = strings_view(out@);
    let v = match subtasks {
        Some(v) => v,
        None => {
            proof { assert(strings_view(out@) =~= start + Seq::<Seq<char>>::empty()); }
            return;
        },
    };
    if v.len() == 0 {
        proof { assert(strings_view(out@) =~= start + Seq::<Seq<char>>::empty()); }
        return;
    }
    push_line(out, &counted("Subtasks", v.len()));
    let ghost mid = strings_view(out@);
    let mut i: usize = 0;
    while i < v.len()
        invariant
            i <= v.len(),
            strings_view(out@) == mid + v@.subrange(0, i as int).map_values(|st: Task| subtask_line(st)),
        decreases v.len() - i,
    {
        let status = crate::output::format_status(v[i].status.status.as_str(), v[i].status.color.as_str());
        let mut line = chars_of("  ● ");
        push_seq(&mut line, &chars_of(v[i].name.as_str()));
        push_seq(&mut line, &chars_of(" ["));
        push_seq(&mut line, &chars_of(status.as_str()));
        push_seq(&mut line, &chars_of("]"));
        push_line(out, &line);
        i += 1;
        proof {
            assert(v@.subrange(0, i as int).map_values(|st: Task| subtask_line(st))
                =~= v@.subrange(0, i - 1).map_values(|st: Task| subtask_line(st)).push(subtask_line(v@[i - 1])));
        }
    }
    proof {
        assert(v@.subrange(0, v@.len() as int) =~= v@);
        assert(strings_view(out@) =~= start + (seq![counted_header("Subtasks"@, v@.len())]
            + v@.map_values(|st: Task| subtask_line(st))));
    }
}

/// The line of a checklist item.
fn checklist_item_line(item: &ChecklistItem) -> (r: Vec<char>)
    ensures
        r@ == item_line(*item),
{
    let mut line = chars_of("  ");
    push_seq(&mut line, &chars_of(if item.resolved { "[x]" } else { "[ ]" }));
    push_seq(&mut line, &chars_of(" "));
    push_seq(&mut line, &chars_of(item.name.as_str()));
    if let Some(a) = &item.assignee {
        if !a.username.as_str().is_empty() {
            push_seq(&mut line, &chars_of("  @"));
            push_seq(&mut line, &chars_of(a.username.as_str()));
        }
    }
    proof {
        assert(line@ =~= item_line(*item));
    }
    line
}

/// Appends the lines of one checklist.
fn push_one_checklist(out: &mut Vec<String>, cl: &Checklist)
    ensures
        strings_view(final(out)@) == strings_view(old(out)@) + one_checklist(*cl),
{
    let ghost start = strings_view(out@);
    let mut resolved: usize = 0;
    let mut i: usize = 0;
    while i < cl.items.len()
        invariant
            i <= cl.items.len(),
            resolved <= i,
            resolved == resolved_count(cl.items@.subrange(0, i as int)),
        decreases cl.items.len() - i,
    {
        proof { assert(cl.items@.subrange(0, i + 1).drop_last() =~= cl.items@.subrange(0, i as int)); }
        if cl.items[i].resolved {
            resolved += 1;
        }
        i += 1;
    }
    proof { assert(cl.items@.subrange(0, cl.items@.len() as int) =~= cl.items@); }
    let mut head = chars_of("\n─── ");
    push_seq(&mut head, &chars_of(cl.name.as_str()));
    push_seq(&mut head, &chars_of(" ("));
    push_decimal(&mut head, resolved as u64);
    push_seq(&mut head, &chars_of("/"));
    push_decimal(&mut head, cl.items.len() as u64);
    push_seq(&mut head, &chars_of(") ───\n"));
    push_line(out, &head);
    let ghost mid = strings_view(out@);
    let mut k: usize = 0;
    while k < cl.items.len()
        invariant
            k <= cl.items.len(),
            strings_view(out@) == mid + cl.items@.subrange(0, k as int).map_values(|it: ChecklistItem| item_line(it)),
        decreases cl.items.len() - k,
    {
        push_line(out, &checklist_item_line(&cl.items[k]));
        k += 1;
        proof {
            assert(cl.items@.subrange(0, k as int).map_values(|it: ChecklistItem| item_line(it))
                =~= cl.items@.subrange(0, k - 1).map_values(|it: ChecklistItem| item_line(it)).push(item_line(cl.items@[k - 1])));
        }
    }
    proof {
        assert(cl.items@.subrange(0, cl.items@.len() as int) =~= cl.items@);
        assert(strings_view(out@) =~= start + one_checklist(*cl));
    }
}

/// Appends the checklist sections.
fn push_checklist_lines(out: &mut Vec<String>, cls: &Vec<Checklist>)
    ensures
        strings_view(final(out)@) == strings_view(old(out)@) + checklist_lines(cls@),
{
    let ghost start = strings_view(out@);
    let mut i: usize = 0;
    proof { assert(start =~= start + checklist_lines(cls@.subrange(0, 0))); }
    while i < cls.len()
        invariant
            i <= cls.len(),
            strings_view(out@) == start + checklist_lines(cls@.subrange(0, i as int)),
        decreases cls.len() - i,
    {
        proof { assert(cls@.subrange(0, i + 1).drop_last() =~= cls@.subrange(0, i as int)); }
        push_one_checklist(out, &cls[i]);
        i += 1;
        proof {
            assert(strings_view(out@) =~= start + checklist_lines(cls@.subrange(0, i as int)));
        }
    }
    proof { assert(cls@.subrange(0, cls@.len() as int) =~= cls@); }
}

/// Appends the linked-task section.
fn push_linked_lines(out: &mut Vec<String>, links: &Vec<LinkedTask>)
    ensures
        strings_view(final(out)@) == strings_view(old(out)@) + linked_lines(links@),
{
    let ghost start = strings_view(out@);
    if links.len() == 0 {
        proof { assert(strings_view(out@) =~= start + Seq::<Seq<char>>::empty()); }
        return;
    }
    push_line(out, &counted("Linked Tasks", links.len()));
    let ghost mid = strings_view(out@);
    let mut i: usize = 0;
    while i < links.len()
        invariant
            i <= links.len(),
            strings_view(out@) == mid + links@.subrange(0, i as int).map_values(|l: LinkedTask| "  🔗 "@ + l.task_id@),
        decreases links.len() - i,
    {
        push_line(out, &cat("  🔗 ", links[i].task_id.as_str()));
        i += 1;
        proof {
            assert(links@.subrange(0, i as int).map_values(|l: LinkedTask| "  🔗 "@ + l.task_id@)
                =~= links@.subrange(0, i - 1).map_values(|l: LinkedTask| "  🔗 "@ + l.task_id@).push("  🔗 "@ + links@[i - 1].task_id@));
        }
    }
    proof {
        assert(links@.subrange(0, links@.len() as int) =~= links@);
        assert(strings_view(out@) =~= start + linked_lines(links@));
    }
}

/// Appends the dependency section of task `id`.
fn push_dependency_lines(out: &mut Vec<String>, id: &String, deps: &Vec<TaskDependency>)
    ensures
        strings_view(final(out)@) == strings_view(old(out)@) + dependency_lines(id@, deps@),
{
    let ghost start = strings_view(out@);
    if deps.len() == 0 {
        proof { assert(strings_view(out@) =~= start + Seq::<Seq<char>>::empty()); }
        return;
    }
    push_line(out, &counted("Dependencies", deps.len()));
    let ghost mid = strings_view(out@);
    let mut i: usize = 0;
    while i < deps.len()
        invariant
            i <= deps.len(),
            strings_view(out@) == mid + deps@.subrange(0, i as int).map_values(|d: TaskDependency| dependency_line(id@, d)),
        decreases deps.len() - i,
    {
        let line = if deps[i].depends_on == *id {
            cat("  → blocks ", deps[i].task_id.as_str())
        } else {
            cat("  ← waiting on ", deps[i].depends_on.as_str())
        };
        push_line(out, &line);
        i += 1;
        proof {
            assert(deps@.subrange(0, i as int).map_values(|d: TaskDependency| dependency_line(id@, d))
                =~= deps@.subrange(0, i - 1).map_values(|d: TaskDependency| dependency_line(id@, d)).push(dependency_line(id@, deps@[i - 1])));
        }
    }
    proof {
        assert(deps@.subrange(0, deps@.len() as int) =~= deps@);
        assert(strings_view(out@) =~= start + dependency_lines(id@, deps@));
    }
}

/// The icon of an attachment by its extension.
fn icon_of(ext: &str) -> (r: &'static str)
    ensures
        r@ == attachment_icon(ext@),
{
    if crate::text::str_eq(ext, "pdf") {
        "📄"
    } else if crate::text::str_eq(ext, "png") || crate::text::str_eq(ext, "jpg") || crate::text::str_eq(ext, "jpeg")
        || crate::text::str_eq(ext, "gif") || crate::text::str_eq(ext, "svg") || crate::text::str_eq(ext, "webp") {
        "🖼️"
    } else if crate::text::str_eq(ext, "zip") || crate::text::str_eq(ext, "tar") || crate::text::str_eq(ext, "gz")
        || crate::text::str_eq(ext, "rar") {
        "📦"
    } else {
        "📎"
    }
}

/// The line of an attachment.
fn attachment_text(a: &Attachment) -> (r: Vec<char>)
    ensures
        r@ == attachment_line(*a),
{
    let ext: &str = match &a.extension {
        Some(e) => e.as_str(),
        None => "",
    };
    let name: &str = match &a.title {
        Some(t) => t.as_str(),
        None => "Untitled",
    };
    let mut line = chars_of("  ");
    push_seq(&mut line, &chars_of(icon_of(ext)));
    push_seq(&mut line, &chars_of(" "));
    push_seq(&mut line, &chars_of(name));
    proof {
        assert(line@ =~= attachment_line(*a));
    }
    line
}

/// Appends the attachment section.
fn push_attachment_lines(out: &mut Vec<String>, atts: &Vec<Attachment>)
    ensures
        strings_view(final(out)@) == strings_view(old(out)@) + attachment_lines(atts@),
{
    let ghost start = strings_view(out@);
    if atts.len() == 0 {
        proof { assert(strings_view(out@) =~= start + Seq::<Seq<char>>::empty()); }
        return;
    }
    push_line(out, &counted("Attachments", atts.len()));
    let ghost mid = strings_view(out@);
    let mut i: usize = 0;
    while i < atts.len()
        invariant
            i <= atts.len(),
            strings_view(out@) == mid + atts@.subrange(0, i as int).map_values(|a: Attachment| attachment_line(a)),
        decreases atts.len() - i,
    {
        push_line(out, &attachment_text(&atts[i]));
        i += 1;
        proof {
            assert(atts@.subrange(0, i as int).map_values(|a: Attachment| attachment_line(a))
                =~= atts@.subrange(0, i - 1).map_values(|a: Attachment| attachment_line(a)).push(attachment_line(atts@[i - 1])));
        }
    }
    proof {
        assert(atts@.subrange(0, atts@.len() as int) =~= atts@);
        assert(strings_view(out@) =~= start + attachment_lines(atts@));
    }
}

/// The title line of a task: its name and ID in parentheses.
pub fn task_title(task: &Task) -> (r: String)
    ensures
        r@ == title_line(*task),
{
    let mut v = chars_of(task.name.as_str());
    push_seq(&mut v, &chars_of(" ("));
    push_seq(&mut v, &chars_of(task.id.as_str()));
    push_seq(&mut v, &chars_of(")"));
    string_of(&v)
}

/// The lines printed for a task below its title: its fields, custom fields,
/// subtasks, checklists, linked tasks, dependencies and attachments.
pub fn task_detail_lines(task: &Task) -> (r: Vec<String>)
    requires
        printable(*task),
    ensures
        strings_view(r@) == detail_lines(*task),
{
    let mut out: Vec<String> = Vec::new();
    let ghost s0 = strings_view(out@);
    push_field_lines(&mut out, task);
    let ghost s1 = strings_view(out@);
    push_custom_field_lines(&mut out, &task.custom_fields);
    let ghost s2 = strings_view(out@);
    push_subtask_lines(&mut out, &task.subtasks);
    let ghost s3 = strings_view(out@);
    push_checklist_lines(&mut out, &task.checklists);
    let ghost s4 = strings_view(out@);
    push_linked_lines(&mut out, &task.linked_tasks);
    let ghost s5 = strings_view(out@);
    push_dependency_lines(&mut out, &task.id, &task.dependencies);
    let ghost s6 = strings_view(out@);
    push_attachment_lines(&mut out, &task.attachments);
    proof {
        assert(s0 =~= Seq::<Seq<char>>::empty());
        assert(strings_view(out@) =~= detail_lines(*task));
    }
    out
}

} // verus!

verus! {

/// Every dependency of a task is printed with the other task it names: a
/// dependency on another task reads `  ← waiting on` that task, one held by the
/// task itself reads `  → blocks` the dependent task. The dependency section
/// never says the task waits on itself.
pub proof fn law_dependency_names_the_other_task(t: Task, k: int)
    requires
        0 <= k < t.dependencies@.len(),
    ensures
        t.dependencies@[k].depends_on@ != t.id@
            ==> detail_lines(t).contains("  ← waiting on "@ + t.dependencies@[k].depends_on@),
        t.dependencies@[k].depends_on@ == t.id@
            ==> detail_lines(t).contains("  → blocks "@ + t.dependencies@[k].task_id@),
        !dependency_lines(t.id@, t.dependencies@).contains("  ← waiting on "@ + t.id@),
{
    let deps = t.dependencies@;
    let sec = dependency_lines(t.id@, deps);
    let before = field_lines(t) + custom_field_lines(t.custom_fields) + subtask_lines(t.subtasks)
        + checklist_lines(t.checklists@) + linked_lines(t.linked_tasks@);
    let all = detail_lines(t);
    assert(all == before + sec + attachment_lines(t.attachments@));
    let line = dependency_line(t.id@, deps[k]);
    assert(sec[1 + k] == line);
    assert(all[before.len() + 1 + k] == line);
    reveal_strlit("  ← waiting on ");
    reveal_strlit("  → blocks ");
    reveal_strlit("\n─── ");
    let w = "  ← waiting on "@ + t.id@;
    if sec.contains(w) {
        let j = choose|j: int| 0 <= j < sec.len() && sec[j] == w;
        assert(w[0] == ' ');
        if j == 0 {
            assert(sec[0][0] == '\n');
        } else {
            let d = deps[j - 1];
            assert(sec[j] == dependency_line(t.id@, d));
            if d.depends_on@ == t.id@ {
                assert(w[2] == '←');
                assert(("  → blocks "@ + d.task_id@)[2] == '→');
            } else {
                let p = "  ← waiting on "@;
                assert((p + d.depends_on@).subrange(p.len() as int, (p + d.depends_on@).len() as int) =~= d.depends_on@);
                assert(w.subrange(p.len() as int, w.len() as int) =~= t.id@);
            }
        }
    }
}

} // verus!
