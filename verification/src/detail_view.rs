//! The lines of the task detail screen, before they are styled and drawn.
use vstd::prelude::*;
use crate::custom_field::joined;
use crate::filter_config::strings_view;
use crate::models::{Attachment, Checklist, ChecklistItem, CustomField, LinkedTask, Task, TaskDependency};
use crate::task_view::{priority_of, resolved_count, tag_names, usernames};
use crate::text::{chars_of, decimal, lines_from, push_decimal, push_seq, split_lines, string_of};
use crate::ui_text::{duration_text, field_value_text, timestamp_date};

verus! {

/// One line of the task detail screen.
#[derive(Debug)]
pub enum DetailLine {
    /// An empty line.
    Blank,
    /// The task's name, in bold.
    Title(String),
    /// The status badge, in the status colour, then the priority.
    Badges { status: String, color: String, priority: String },
    /// A label and its value.
    Meta { label: String, value: String },
    /// A section header.
    Section(String),
    /// The markdown description, rendered and indented when drawn.
    Description(String),
    /// A line of the plain-text description.
    Text(String),
    /// A subtask: its name and status.
    Subtask { name: String, status: String, color: String },
    /// A custom field and the text of its value.
    Field { name: String, value: String },
    /// A checklist's name and progress.
    ChecklistHead { name: String, resolved: usize, total: usize },
    /// A checklist's progress bar.
    ChecklistBar { resolved: usize, total: usize },
    /// A checklist item, with its assignee when it has a username.
    ChecklistEntry { name: String, resolved: bool, assignee: Option<String> },
    /// A linked task's ID.
    Linked(String),
    /// A dependency: the task blocks `id`, or waits on it.
    Dependency { blocks: bool, id: String },
    /// An attachment: the icon of its kind and its title.
    Attachment { icon: String, name: String },
}

/// A detail line with its texts as character sequences.
pub enum LineView {
    Blank,
    Title(Seq<char>),
    Badges { status: Seq<char>, color: Seq<char>, priority: Seq<char> },
    Meta { label: Seq<char>, value: Seq<char> },
    Section(Seq<char>),
    Description(Seq<char>),
    Text(Seq<char>),
    Subtask { name: Seq<char>, status: Seq<char>, color: Seq<char> },
    Field { name: Seq<char>, value: Seq<char> },
    ChecklistHead { name: Seq<char>, resolved: nat, total: nat },
    ChecklistBar { resolved: nat, total: nat },
    ChecklistEntry { name: Seq<char>, resolved: bool, assignee: Option<Seq<char>> },
    Linked(Seq<char>),
    Dependency { blocks: bool, id: Seq<char> },
    Attachment { icon: Seq<char>, name: Seq<char> },
}

impl View for DetailLine {
    type V = LineView;

    open spec fn view(&self) -> LineView {
        match self {
            DetailLine::Blank => LineView::Blank,
            DetailLine::Title(t) => LineView::Title(t@),
            DetailLine::Badges { status, color, priority } =>
                LineView::Badges { status: status@, color: color@, priority: priority@ },
            DetailLine::Meta { label, value } => LineView::Meta { label: label@, value: value@ },
            DetailLine::Section(t) => LineView::Section(t@),
            DetailLine::Description(t) => LineView::Description(t@),
            DetailLine::Text(t) => LineView::Text(t@),
            DetailLine::Subtask { name, status, color } =>
                LineView::Subtask { name: name@, status: status@, color: color@ },
            DetailLine::Field { name, value } => LineView::Field { name: name@, value: value@ },
            DetailLine::ChecklistHead { name, resolved, total } =>
                LineView::ChecklistHead { name: name@, resolved: *resolved as nat, total: *total as nat },
            DetailLine::ChecklistBar { resolved, total } =>
                LineView::ChecklistBar { resolved: *resolved as nat, total: *total as nat },
            DetailLine::ChecklistEntry { name, resolved, assignee } => LineView::ChecklistEntry {
                name: name@,
                resolved: *resolved,
                assignee: match assignee { Some(a) => Some(a@), None => None },
            },
            DetailLine::Linked(t) => LineView::Linked(t@),
            DetailLine::Dependency { blocks, id } => LineView::Dependency { blocks: *blocks, id: id@ },
            DetailLine::Attachment { icon, name } => LineView::Attachment { icon: icon@, name: name@ },
        }
    }
}

/// The views of detail lines.
pub open spec fn line_views(ls: Seq<DetailLine>) -> Seq<LineView> {
    ls.map_values(|l: DetailLine| l@)
}

/// A section: a blank line, its header, a blank line and its lines, when it
/// has any; nothing otherwise.
pub open spec fn section(title: Seq<char>, n: nat, body: Seq<LineView>) -> Seq<LineView> {
    if n > 0 {
        seq![LineView::Blank, LineView::Section(title + " ("@ + decimal(n) + ")"@), LineView::Blank] + body
    } else {
        Seq::empty()
    }
}

/// The priority shown beside the status: its emoji and label, or a white dot.
pub open spec fn badge_priority(t: Task) -> Seq<char> {
    match priority_of(t) {
        Some(l) => crate::output::priority_label(Some(l)),
        None => "⚪"@,
    }
}

/// The header lines: the name, then the status and priority.
pub open spec fn header_lines(t: Task) -> Seq<LineView> {
    seq![
        LineView::Blank,
        LineView::Title(t.name@),
        LineView::Badges { status: t.status.status@, color: t.status.color@, priority: badge_priority(t) },
        LineView::Blank,
    ]
}

/// A metadata line.
pub open spec fn meta(label: Seq<char>, value: Seq<char>) -> LineView {
    LineView::Meta { label, value }
}

/// The due date shown: the date of the timestamp, or a dash.
pub open spec fn due_text(t: Task) -> Seq<char> {
    match t.due_date {
        Some(d) => match timestamp_date(Some(d@)) { Some(x) => x, None => "—"@ },
        None => "—"@,
    }
}

/// The creation date shown: the date of the timestamp, or the text itself.
pub open spec fn created_text(t: Task) -> Seq<char> {
    match timestamp_date(Some(t.date_created@)) {
        Some(x) => x,
        None => t.date_created@,
    }
}

/// The assignees shown: their usernames joined with ", ", or a dash.
pub open spec fn assignees_text(t: Task) -> Seq<char> {
    if t.assignees@.len() == 0 { "—"@ } else { joined(usernames(t.assignees@), ", "@) }
}

/// The tags shown: each name behind `#`, joined with two spaces.
pub open spec fn tags_text(t: Task) -> Seq<char> {
    joined(tag_names(t.tags@).map_values(|n: Seq<char>| "#"@ + n), "  "@)
}

/// The metadata lines.
pub open spec fn meta_lines(t: Task) -> Seq<LineView> {
    seq![meta("Assignees"@, assignees_text(t)), meta("Due Date"@, due_text(t)), meta("Created"@, created_text(t))]
        + (match t.time_estimate { Some(e) => seq![meta("Estimate"@, duration_text(e))], None => Seq::empty() })
        + (match t.time_spent { Some(s) => seq![meta("Tracked"@, duration_text(s))], None => Seq::empty() })
        + (if t.tags@.len() > 0 { seq![meta("Tags"@, tags_text(t))] } else { Seq::empty() })
        + seq![meta("URL"@, t.url@), LineView::Blank]
}

/// The description: the markdown one when the task has it (nothing when it is
/// empty), else the plain text one line by line when it is not empty.
pub open spec fn description_lines(t: Task) -> Seq<LineView> {
    match t.markdown_description {
        Some(md) => if md@.len() > 0 {
            seq![LineView::Section("Description"@), LineView::Blank, LineView::Description(md@)]
        } else {
            Seq::empty()
        },
        None => match t.text_content {
            Some(text) => if text@.len() > 0 {
                seq![LineView::Section("Description"@), LineView::Blank]
                    + lines_from(text@, 0, 0).map_values(|l: Seq<char>| LineView::Text("  "@ + l))
            } else {
                Seq::empty()
            },
            None => Seq::empty(),
        },
    }
}

/// The subtask section.
pub open spec fn subtask_section(subtasks: Option<Vec<Task>>) -> Seq<LineView> {
    match subtasks {
        Some(v) => section("Subtasks"@, v@.len(), v@.map_values(|st: Task|
            LineView::Subtask { name: st.name@, status: st.status.status@, color: st.status.color@ })),
        None => Seq::empty(),
    }
}

/// The lines of the custom fields that have a value, in order.
pub open spec fn valued_fields(fs: Seq<CustomField>) -> Seq<LineView>
    decreases fs.len(),
{
    if fs.len() == 0 {
        Seq::empty()
    } else {
        let f = fs.last();
        valued_fields(fs.drop_last()) + (match f.value {
            Some(v) => seq![LineView::Field { name: f.name@, value: field_value_text(f.field_type@, Some(v)) }],
            None => Seq::empty(),
        })
    }
}

/// The custom-field section.
pub open spec fn field_section(fields: Option<Vec<CustomField>>) -> Seq<LineView> {
    match fields {
        Some(v) => section("Custom Fields"@, valued_fields(v@).len(), valued_fields(v@)),
        None => Seq::empty(),
    }
}

/// The line of a checklist item.
pub open spec fn entry(item: ChecklistItem) -> LineView {
    LineView::ChecklistEntry {
        name: item.name@,
        resolved: item.resolved,
        assignee: match item.assignee {
            Some(a) => if a.username@.len() > 0 { Some(a.username@) } else { None },
            None => None,
        },
    }
}

/// The lines of one checklist: its name and progress, its bar when it has
/// items, and its items.
pub open spec fn checklist_block(cl: Checklist) -> Seq<LineView> {
    seq![LineView::ChecklistHead { name: cl.name@, resolved: resolved_count(cl.items@), total: cl.items@.len() }]
        + (if cl.items@.len() > 0 {
            seq![LineView::ChecklistBar { resolved: resolved_count(cl.items@), total: cl.items@.len() }]
        } else {
            Seq::empty()
        })
        + cl.items@.map_values(|i: ChecklistItem| entry(i))
}

/// The lines of all checklists.
pub open spec fn checklist_blocks(cls: Seq<Checklist>) -> Seq<LineView>
    decreases cls.len(),
{
    if cls.len() == 0 { Seq::empty() } else { checklist_blocks(cls.drop_last()) + checklist_block(cls.last()) }
}

/// The dependency line of task `id`.
pub open spec fn dependency(id: Seq<char>, d: TaskDependency) -> LineView {
    if d.depends_on@ == id {
        LineView::Dependency { blocks: true, id: d.task_id@ }
    } else {
        LineView::Dependency { blocks: false, id: d.depends_on@ }
    }
}

/// The icon of an attachment by its extension.
pub open spec fn icon_of(ext: Seq<char>) -> Seq<char> {
    if ext == "pdf"@ {
        "📄"@
    } else if ext == "png"@ || ext == "jpg"@ || ext == "jpeg"@ || ext == "gif"@ || ext == "svg"@ || ext == "webp"@ {
        "🖼️"@
    } else if ext == "zip"@ || ext == "tar"@ || ext == "gz"@ || ext == "rar"@ {
        "📦"@
    } else if ext == "mp4"@ || ext == "mov"@ || ext == "avi"@ {
        "🎬"@
    } else if ext == "mp3"@ || ext == "wav"@ || ext == "ogg"@ {
        "🎵"@
    } else {
        "📎"@
    }
}

/// The line of an attachment.
pub open spec fn attachment(a: Attachment) -> LineView {
    LineView::Attachment {
        icon: icon_of(match a.extension { Some(e) => e@, None => ""@ }),
        name: match a.title { Some(t) => t@, None => "Untitled"@ },
    }
}

/// All the lines of the detail screen for a task.
pub open spec fn detail_screen(t: Task) -> Seq<LineView> {
    header_lines(t) + meta_lines(t) + description_lines(t) + subtask_section(t.subtasks)
        + field_section(t.custom_fields)
        + section("Checklists"@, t.checklists@.len(), checklist_blocks(t.checklists@))
        + section("Linked Tasks"@, t.linked_tasks@.len(),
            t.linked_tasks@.map_values(|l: LinkedTask| LineView::Linked(l.task_id@)))
        + section("Dependencies"@, t.dependencies@.len(),
            t.dependencies@.map_values(|d: TaskDependency| dependency(t.id@, d)))
        + section("Attachments"@, t.attachments@.len(), t.attachments@.map_values(|a: Attachment| attachment(a)))
        + seq![LineView::Blank]
}


/// A string holding `s`.
fn owned(s: &str) -> (r: String)
    ensures
        r@ == s@,
{
    string_of(&chars_of(s))
}

/// Appends a line.
fn push(out: &mut Vec<DetailLine>, l: DetailLine)
    ensures
        line_views(final(out)@) == line_views(old(out)@).push(l@),
{
    let ghost before = out@;
    let ghost v = l@;
    out.push(l);
    proof { assert(line_views(out@) =~= line_views(before).push(v)); }
}

/// Appends a metadata line.
fn push_meta_line(out: &mut Vec<DetailLine>, label: &str, value: String)
    ensures
        line_views(final(out)@) == line_views(old(out)@).push(meta(label@, value@)),
{
    push(out, DetailLine::Meta { label: owned(label), value });
}

/// `parts` joined with `sep`.
fn join_with(parts: &Vec<String>, sep: &str) -> (r: String)
    ensures
        r@ == joined(strings_view(parts@), sep@),
{
    let mut out: Vec<char> = Vec::new();
    let mut i: usize = 0;
    while i < parts.len()
        invariant
            i <= parts.len(),
            out@ == joined(strings_view(parts@).subrange(0, i as int), sep@),
        decreases parts.len() - i,
    {
        if i > 0 {
            push_seq(&mut out, &chars_of(sep));
        }
        push_seq(&mut out, &chars_of(parts[i].as_str()));
        i += 1;
        proof {
            let ps = strings_view(parts@).subrange(0, i as int);
            assert(ps.drop_last() =~= strings_view(parts@).subrange(0, i - 1));
            if i == 1 {
                assert(joined(strings_view(parts@).subrange(0, 0), sep@) =~= Seq::<char>::empty());
                assert(out@ =~= ps[0]);
            }
        }
    }
    proof { assert(strings_view(parts@).subrange(0, parts@.len() as int) =~= strings_view(parts@)); }
    string_of(&out)
}

/// Appends a section's blank line, header and blank line.
fn push_section_head(out: &mut Vec<DetailLine>, title: &str, n: usize)
    ensures
        line_views(final(out)@) == line_views(old(out)@)
            + seq![LineView::Blank, LineView::Section(title@ + " ("@ + decimal(n as nat) + ")"@), LineView::Blank],
{
    let ghost start = line_views(out@);
    let mut head = chars_of(title);
    push_seq(&mut head, &chars_of(" ("));
    push_decimal(&mut head, n as u64);
    push_seq(&mut head, &chars_of(")"));
    push(out, DetailLine::Blank);
    push(out, DetailLine::Section(string_of(&head)));
    push(out, DetailLine::Blank);
    proof {
        assert(line_views(out@) =~= start
            + seq![LineView::Blank, LineView::Section(title@ + " ("@ + decimal(n as nat) + ")"@), LineView::Blank]);
    }
}

/// The header lines.
fn push_header(out: &mut Vec<DetailLine>, t: &Task)
    ensures
        line_views(final(out)@) == line_views(old(out)@) + header_lines(*t),
{
    let ghost start = line_views(out@);
    let priority = match &t.priority {
        Some(p) => match &p.priority {
            Some(l) => crate::ui_text::priority_emoji(l.as_str()),
            None => owned("⚪"),
        },
        None => owned("⚪"),
    };
    push(out, DetailLine::Blank);
    push(out, DetailLine::Title(t.name.clone()));
    push(out, DetailLine::Badges { status: t.status.status.clone(), color: t.status.color.clone(), priority });
    push(out, DetailLine::Blank);
    proof { assert(line_views(out@) =~= start + header_lines(*t)); }
}

/// The assignees' usernames joined with ", ", or a dash.
fn assignees_value(t: &Task) -> (r: String)
    ensures
        r@ == assignees_text(*t),
{
    if t.assignees.len() == 0 {
        return owned("—");
    }
    let mut names: Vec<String> = Vec::new();
    let mut i: usize = 0;
    while i < t.assignees.len()
        invariant
            i <= t.assignees.len(),
            strings_view(names@) == usernames(t.assignees@.subrange(0, i as int)),
        decreases t.assignees.len() - i,
    {
        let ghost before = strings_view(names@);
        names.push(t.assignees[i].username.clone());
        i += 1;
        proof {
            assert(strings_view(names@) =~= before.push(t.assignees@[i - 1].username@));
            assert(usernames(t.assignees@.subrange(0, i as int))
                =~= usernames(t.assignees@.subrange(0, i - 1)).push(t.assignees@[i - 1].username@));
        }
    }
    proof { assert(t.assignees@.subrange(0, t.assignees@.len() as int) =~= t.assignees@); }
    join_with(&names, ", ")
}

/// The tags, each behind `#`, joined with two spaces.
fn tags_value(t: &Task) -> (r: String)
    ensures
        r@ == tags_text(*t),
{
    let mut names: Vec<String> = Vec::new();
    let mut i: usize = 0;
    while i < t.tags.len()
        invariant
            i <= t.tags.len(),
            strings_view(names@) == tag_names(t.tags@.subrange(0, i as int)).map_values(|n: Seq<char>| "#"@ + n),
        decreases t.tags.len() - i,
    {
        let mut name = chars_of("#");
        push_seq(&mut name, &chars_of(t.tags[i].name.as_str()));
        let ghost before = strings_view(names@);
        names.push(string_of(&name));
        i += 1;
        proof {
            assert(strings_view(names@) =~= before.push("#"@ + t.tags@[i - 1].name@));
            assert(tag_names(t.tags@.subrange(0, i as int)).map_values(|n: Seq<char>| "#"@ + n)
                =~= tag_names(t.tags@.subrange(0, i - 1)).map_values(|n: Seq<char>| "#"@ + n)
                    .push("#"@ + t.tags@[i - 1].name@));
        }
    }
    proof { assert(t.tags@.subrange(0, t.tags@.len() as int) =~= t.tags@); }
    join_with(&names, "  ")
}

/// The due date shown.
fn due_value(t: &Task) -> (r: String)
    ensures
        r@ == due_text(*t),
{
    match &t.due_date {
        Some(d) => match crate::ui_text::format_timestamp(Some(d.as_str())) {
            Some(x) => x,
            None => owned("—"),
        },
        None => owned("—"),
    }
}

/// The creation date shown.
fn created_value(t: &Task) -> (r: String)
    ensures
        r@ == created_text(*t),
{
    match crate::ui_text::format_timestamp(Some(t.date_created.as_str())) {
        Some(x) => x,
        None => t.date_created.clone(),
    }
}

/// The metadata lines.
#[verifier::spinoff_prover]
fn push_meta(out: &mut Vec<DetailLine>, t: &Task)
    ensures
        line_views(final(out)@) == line_views(old(out)@) + meta_lines(*t),
{
    let ghost start = line_views(out@);
    push_meta_line(out, "Assignees", assignees_value(t));
    push_meta_line(out, "Due Date", due_value(t));
    push_meta_line(out, "Created", created_value(t));
    let ghost a = line_views(out@);
    proof {
        assert(a =~= start + seq![meta("Assignees"@, assignees_text(*t)), meta("Due Date"@, due_text(*t)),
            meta("Created"@, created_text(*t))]);
    }
    if let Some(e) = t.time_estimate {
        push_meta_line(out, "Estimate", crate::ui_text::format_duration(e));
    }
    let ghost b = line_views(out@);
    proof {
        assert(b =~= a + (match t.time_estimate { Some(e) => seq![meta("Estimate"@, duration_text(e))], None => Seq::empty() }));
    }
    if let Some(sp) = t.time_spent {
        push_meta_line(out, "Tracked", crate::ui_text::format_duration(sp));
    }
    let ghost c = line_views(out@);
    proof {
        assert(c =~= b + (match t.time_spent { Some(s) => seq![meta("Tracked"@, duration_text(s))], None => Seq::empty() }));
    }
    if t.tags.len() > 0 {
        push_meta_line(out, "Tags", tags_value(t));
    }
    let ghost d = line_views(out@);
    proof {
        assert(d =~= c + (if t.tags@.len() > 0 { seq![meta("Tags"@, tags_text(*t))] } else { Seq::empty() }));
    }
    push_meta_line(out, "URL", t.url.clone());
    push(out, DetailLine::Blank);
    proof {
        assert(line_views(out@) =~= d + seq![meta("URL"@, t.url@), LineView::Blank]);
    }
}

/// The description lines.
fn push_description(out: &mut Vec<DetailLine>, t: &Task)
    ensures
        line_views(final(out)@) == line_views(old(out)@) + description_lines(*t),
{
    let ghost start = line_views(out@);
    match &t.markdown_description {
        Some(md) => {
            if !md.as_str().is_empty() {
                push(out, DetailLine::Section(owned("Description")));
                push(out, DetailLine::Blank);
                push(out, DetailLine::Description(md.clone()));
            }
        },
        None => match &t.text_content {
            Some(text) => {
                if !text.as_str().is_empty() {
                    push(out, DetailLine::Section(owned("Description")));
                    push(out, DetailLine::Blank);
                    let ls = split_lines(text.as_str());
                    let ghost mid = line_views(out@);
                    let mut i: usize = 0;
                    while i < ls.len()
                        invariant
                            i <= ls.len(),
                            line_views(out@) == mid + ls@.subrange(0, i as int).map_values(|l: String| LineView::Text("  "@ + l@)),
                        decreases ls.len() - i,
                    {
                        let mut line = chars_of("  ");
                        push_seq(&mut line, &chars_of(ls[i].as_str()));
                        push(out, DetailLine::Text(string_of(&line)));
                        i += 1;
                        proof {
                            assert(ls@.subrange(0, i as int).map_values(|l: String| LineView::Text("  "@ + l@))
                                =~= ls@.subrange(0, i - 1).map_values(|l: String| LineView::Text("  "@ + l@))
                                    .push(LineView::Text("  "@ + ls@[i - 1]@)));
                        }
                    }
                    proof {
                        assert(ls@.subrange(0, ls@.len() as int) =~= ls@);
                        assert(ls@.map_values(|l: String| LineView::Text("  "@ + l@))
                            =~= ls@.map_values(|l: String| l@).map_values(|l: Seq<char>| LineView::Text("  "@ + l)));
                    }
                }
            },
            None => {},
        },
    }
    proof { assert(line_views(out@) =~= start + description_lines(*t)); }
}

/// The subtask section.
fn push_subtasks(out: &mut Vec<DetailLine>, subtasks: &Option<Vec<Task>>)
    ensures
        line_views(final(out)@) == line_views(old(out)@) + subtask_section(*subtasks),
{
    let ghost start = line_views(out@);
    if let Some(v) = subtasks {
        if v.len() > 0 {
            push_section_head(out, "Subtasks", v.len());
            let ghost mid = line_views(out@);
            let mut i: usize = 0;
            while i < v.len()
                invariant
                    i <= v.len(),
                    line_views(out@) == mid + v@.subrange(0, i as int).map_values(|st: Task|
                        LineView::Subtask { name: st.name@, status: st.status.status@, color: st.status.color@ }),
                decreases v.len() - i,
            {
                push(out, DetailLine::Subtask {
                    name: v[i].name.clone(),
                    status: v[i].status.status.clone(),
                    color: v[i].status.color.clone(),
                });
                i += 1;
                proof {
                    assert(v@.subrange(0, i as int).map_values(|st: Task|
                        LineView::Subtask { name: st.name@, status: st.status.status@, color: st.status.color@ })
                        =~= v@.subrange(0, i - 1).map_values(|st: Task|
                        LineView::Subtask { name: st.name@, status: st.status.status@, color: st.status.color@ })
                        .push(LineView::Subtask { name: v@[i - 1].name@, status: v@[i - 1].status.status@,
                            color: v@[i - 1].status.color@ }));
                }
            }
            proof { assert(v@.subrange(0, v@.len() as int) =~= v@); }
        }
    }
    proof { assert(line_views(out@) =~= start + subtask_section(*subtasks)); }
}


/// The lines of the custom fields that have a value.
fn valued_field_lines(fs: &Vec<CustomField>) -> (r: Vec<DetailLine>)
    ensures
        line_views(r@) == valued_fields(fs@),
{
    let mut out: Vec<DetailLine> = Vec::new();
    let mut i: usize = 0;
    while i < fs.len()
        invariant
            i <= fs.len(),
            line_views(out@) == valued_fields(fs@.subrange(0, i as int)),
        decreases fs.len() - i,
    {
        proof { assert(fs@.subrange(0, i + 1).drop_last() =~= fs@.subrange(0, i as int)); }
        let ghost before = line_views(out@);
        match &fs[i].value {
            Some(v) => {
                let value = crate::ui_text::format_custom_field_value(fs[i].field_type.as_str(), Some(v));
                push(&mut out, DetailLine::Field { name: fs[i].name.clone(), value });
            },
            None => {},
        }
        i += 1;
        proof {
            let f = fs@[i - 1];
            assert(line_views(out@) =~= before + (match f.value {
                Some(v) => seq![LineView::Field { name: f.name@, value: field_value_text(f.field_type@, Some(v)) }],
                None => Seq::<LineView>::empty(),
            }));
        }
    }
    proof { assert(fs@.subrange(0, fs@.len() as int) =~= fs@); }
    out
}

/// Appends `lines` to `out`.
fn append_lines(out: &mut Vec<DetailLine>, lines: Vec<DetailLine>)
    ensures
        line_views(final(out)@) == line_views(old(out)@) + line_views(lines@),
{
    let ghost a = line_views(out@);
    let ghost b = line_views(lines@);
    let mut lines = lines;
    out.append(&mut lines);
    proof { assert(line_views(out@) =~= a + b); }
}

/// The custom-field section.
fn push_fields(out: &mut Vec<DetailLine>, fields: &Option<Vec<CustomField>>)
    ensures
        line_views(final(out)@) == line_views(old(out)@) + field_section(*fields),
{
    let ghost start = line_views(out@);
    if let Some(v) = fields {
        let body = valued_field_lines(v);
        if body.len() > 0 {
            push_section_head(out, "Custom Fields", body.len());
            append_lines(out, body);
        }
    }
    proof { assert(line_views(out@) =~= start + field_section(*fields)); }
}

/// The lines of one checklist.
fn checklist_lines(cl: &Checklist) -> (r: Vec<DetailLine>)
    ensures
        line_views(r@) == checklist_block(*cl),
{
    let mut resolved: usize = 0;
    let mut i: usize = 0;
    while i < cl.items.len()
        invariant
            i <= cl.items.len(),
            resolved <= i,
            resolved == resolved_count(cl.items@.subrange(0, i as int)),
        decreases cl.items.len() - i,
    {
        proof { assert(cl.items@.subrange(0, i + 1).drop_last() =~= cl.items@.subrange(0, i as int)); }
        if cl.items[i].resolved {
            resolved = resolved + 1;
        }
        i += 1;
    }
    proof { assert(cl.items@.subrange(0, cl.items@.len() as int) =~= cl.items@); }
    let total = cl.items.len();
    let mut out: Vec<DetailLine> = Vec::new();
    push(&mut out, DetailLine::ChecklistHead { name: cl.name.clone(), resolved, total });
    if total > 0 {
        push(&mut out, DetailLine::ChecklistBar { resolved, total });
    }
    let ghost mid = line_views(out@);
    let mut k: usize = 0;
    while k < cl.items.len()
        invariant
            k <= cl.items.len(),
            line_views(out@) == mid + cl.items@.subrange(0, k as int).map_values(|it: ChecklistItem| entry(it)),
        decreases cl.items.len() - k,
    {
        let item = &cl.items[k];
        let assignee = match &item.assignee {
            Some(a) => if a.username.as_str().is_empty() { None } else { Some(a.username.clone()) },
            None => None,
        };
        push(&mut out, DetailLine::ChecklistEntry { name: item.name.clone(), resolved: item.resolved, assignee });
        k += 1;
        proof {
            assert(cl.items@.subrange(0, k as int).map_values(|it: ChecklistItem| entry(it))
                =~= cl.items@.subrange(0, k - 1).map_values(|it: ChecklistItem| entry(it)).push(entry(cl.items@[k - 1])));
        }
    }
    proof {
        assert(cl.items@.subrange(0, cl.items@.len() as int) =~= cl.items@);
        assert(line_views(out@) =~= checklist_block(*cl));
    }
    out
}

/// The checklist section.
fn push_checklists(out: &mut Vec<DetailLine>, cls: &Vec<Checklist>)
    ensures
        line_views(final(out)@) == line_views(old(out)@) + section("Checklists"@, cls@.len(), checklist_blocks(cls@)),
{
    let ghost start = line_views(out@);
    if cls.len() == 0 {
        proof { assert(line_views(out@) =~= start + section("Checklists"@, cls@.len(), checklist_blocks(cls@))); }
        return;
    }
    push_section_head(out, "Checklists", cls.len());
    let ghost mid = line_views(out@);
    let mut i: usize = 0;
    while i < cls.len()
        invariant
            i <= cls.len(),
            line_views(out@) == mid + checklist_blocks(cls@.subrange(0, i as int)),
        decreases cls.len() - i,
    {
        proof { assert(cls@.subrange(0, i + 1).drop_last() =~= cls@.subrange(0, i as int)); }
        let lines = checklist_lines(&cls[i]);
        append_lines(out, lines);
        i += 1;
        proof { assert(line_views(out@) =~= mid + checklist_blocks(cls@.subrange(0, i as int))); }
    }
    proof {
        assert(cls@.subrange(0, cls@.len() as int) =~= cls@);
        assert(line_views(out@) =~= start + section("Checklists"@, cls@.len(), checklist_blocks(cls@)));
    }
}

/// The linked-task section.
fn push_linked(out: &mut Vec<DetailLine>, links: &Vec<LinkedTask>)
    ensures
        line_views(final(out)@) == line_views(old(out)@) + section("Linked Tasks"@, links@.len(),
            links@.map_values(|l: LinkedTask| LineView::Linked(l.task_id@))),
{
    let ghost start = line_views(out@);
    if links.len() > 0 {
        push_section_head(out, "Linked Tasks", links.len());
        let ghost mid = line_views(out@);
        let mut i: usize = 0;
        while i < links.len()
            invariant
                i <= links.len(),
                line_views(out@) == mid + links@.subrange(0, i as int).map_values(|l: LinkedTask| LineView::Linked(l.task_id@)),
            decreases links.len() - i,
        {
            push(out, DetailLine::Linked(links[i].task_id.clone()));
            i += 1;
            proof {
                assert(links@.subrange(0, i as int).map_values(|l: LinkedTask| LineView::Linked(l.task_id@))
                    =~= links@.subrange(0, i - 1).map_values(|l: LinkedTask| LineView::Linked(l.task_id@))
                        .push(LineView::Linked(links@[i - 1].task_id@)));
            }
        }
        proof { assert(links@.subrange(0, links@.len() as int) =~= links@); }
    }
    proof {
        assert(line_views(out@) =~= start + section("Linked Tasks"@, links@.len(),
            links@.map_values(|l: LinkedTask| LineView::Linked(l.task_id@))));
    }
}

/// The dependency section of task `id`.
fn push_dependencies(out: &mut Vec<DetailLine>, id: &String, deps: &Vec<TaskDependency>)
    ensures
        line_views(final(out)@) == line_views(old(out)@) + section("Dependencies"@, deps@.len(),
            deps@.map_values(|d: TaskDependency| dependency(id@, d))),
{
    let ghost start = line_views(out@);
    if deps.len() > 0 {
        push_section_head(out, "Dependencies", deps.len());
        let ghost mid = line_views(out@);
        let mut i: usize = 0;
        while i < deps.len()
            invariant
                i <= deps.len(),
                line_views(out@) == mid + deps@.subrange(0, i as int).map_values(|d: TaskDependency| dependency(id@, d)),
            decreases deps.len() - i,
        {
            let d = &deps[i];
            if crate::text::str_eq(d.depends_on.as_str(), id.as_str()) {
                push(out, DetailLine::Dependency { blocks: true, id: d.task_id.clone() });
            } else {
                push(out, DetailLine::Dependency { blocks: false, id: d.depends_on.clone() });
            }
            i += 1;
            proof {
                assert(deps@.subrange(0, i as int).map_values(|d: TaskDependency| dependency(id@, d))
                    =~= deps@.subrange(0, i - 1).map_values(|d: TaskDependency| dependency(id@, d))
                        .push(dependency(id@, deps@[i - 1])));
            }
        }
        proof { assert(deps@.subrange(0, deps@.len() as int) =~= deps@); }
    }
    proof {
        assert(line_views(out@) =~= start + section("Dependencies"@, deps@.len(),
            deps@.map_values(|d: TaskDependency| dependency(id@, d))));
    }
}

/// The icon of an attachment's extension.
fn icon_for(ext: &str) -> (r: String)
    ensures
        r@ == icon_of(ext@),
{
    let is = |lit: &str| -> (b: bool) ensures b == (ext@ == lit@) { crate::text::str_eq(ext, lit) };
    let icon: &str = if is("pdf") {
        "📄"
    } else if is("png") || is("jpg") || is("jpeg") || is("gif") || is("svg") || is("webp") {
        "🖼️"
    } else if is("zip") || is("tar") || is("gz") || is("rar") {
        "📦"
    } else if is("mp4") || is("mov") || is("avi") {
        "🎬"
    } else if is("mp3") || is("wav") || is("ogg") {
        "🎵"
    } else {
        "📎"
    };
    owned(icon)
}

/// The attachment section.
fn push_attachments(out: &mut Vec<DetailLine>, atts: &Vec<Attachment>)
    ensures
        line_views(final(out)@) == line_views(old(out)@) + section("Attachments"@, atts@.len(),
            atts@.map_values(|a: Attachment| attachment(a))),
{
    let ghost start = line_views(out@);
    if atts.len() > 0 {
        push_section_head(out, "Attachments", atts.len());
        let ghost mid = line_views(out@);
        let mut i: usize = 0;
        while i < atts.len()
            invariant
                i <= atts.len(),
                line_views(out@) == mid + atts@.subrange(0, i as int).map_values(|a: Attachment| attachment(a)),
            decreases atts.len() - i,
        {
            let a = &atts[i];
            let icon = match &a.extension {
                Some(e) => icon_for(e.as_str()),
                None => icon_for(""),
            };
            let name = match &a.title {
                Some(t) => t.clone(),
                None => owned("Untitled"),
            };
            push(out, DetailLine::Attachment { icon, name });
            i += 1;
            proof {
                assert(atts@.subrange(0, i as int).map_values(|a: Attachment| attachment(a))
                    =~= atts@.subrange(0, i - 1).map_values(|a: Attachment| attachment(a)).push(attachment(atts@[i - 1])));
            }
        }
        proof { assert(atts@.subrange(0, atts@.len() as int) =~= atts@); }
    }
    proof {
        assert(line_views(out@) =~= start + section("Attachments"@, atts@.len(),
            atts@.map_values(|a: Attachment| attachment(a))));
    }
}

/// The lines of the task detail screen for a task: its name, status and
/// priority, its metadata, its description, then its subtasks, custom fields,
/// checklists, linked tasks, dependencies and attachments, each section only
/// when it has entries.
pub fn detail_lines(t: &Task) -> (r: Vec<DetailLine>)
    ensures
        line_views(r@) == detail_screen(*t),
{
    let mut out: Vec<DetailLine> = Vec::new();
    proof { assert(line_views(out@) =~= Seq::<LineView>::empty()); }
    push_header(&mut out, t);
    push_meta(&mut out, t);
    push_description(&mut out, t);
    push_subtasks(&mut out, &t.subtasks);
    push_fields(&mut out, &t.custom_fields);
    push_checklists(&mut out, &t.checklists);
    push_linked(&mut out, &t.linked_tasks);
    push_dependencies(&mut out, &t.id, &t.dependencies);
    push_attachments(&mut out, &t.attachments);
    push(&mut out, DetailLine::Blank);
    proof { assert(line_views(out@) =~= detail_screen(*t)); }
    out
}

} // verus!
