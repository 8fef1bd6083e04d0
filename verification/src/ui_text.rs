//! Text the TUI screens show: key hints, priorities, dates, durations,
//! column padding and the focus of the Vision sections.
use vstd::prelude::*;
use crate::app::{App, Screen, ViewMode};
use crate::custom_field::{utc_date, utc_date_text};
use crate::json::{json_text, JsonValue};
use crate::models::TaskPriority;
use crate::text::{chars_of, decimal, parse_i64, parse_i64_str, push_decimal, push_seq, signed_decimal, string_of,
    utf8_bytes, utf8_len, utf8_size};

verus! {

/// Whether the current screen has nothing loaded to show.
pub open spec fn data_empty(app: App) -> bool {
    match app.screen {
        Screen::Loading => true,
        Screen::WorkspaceSelect => app.workspaces@.len() == 0,
        Screen::SpaceList => app.spaces@.len() == 0,
        Screen::SpaceContent => app.space_content@.len() == 0 && app.folders@.len() == 0,
        Screen::TaskList => app.tasks@.len() == 0,
        Screen::TaskDetail => app.current_task is None,
    }
}

/// Whether the current screen has nothing loaded to show.
pub fn screen_data_empty(app: &App) -> (r: bool)
    ensures
        r == data_empty(*app),
{
    match app.screen {
        Screen::Loading => true,
        Screen::WorkspaceSelect => app.workspaces.len() == 0,
        Screen::SpaceList => app.spaces.len() == 0,
        Screen::SpaceContent => app.space_content.len() == 0 && app.folders.len() == 0,
        Screen::TaskList => app.tasks.len() == 0,
        Screen::TaskDetail => app.current_task.is_none(),
    }
}

/// The key hints of the bottom bar for a screen: key and description.
pub open spec fn hints_for(screen: Screen, mode: ViewMode) -> Seq<(Seq<char>, Seq<char>)> {
    let nav = seq![("↑/k"@, "Up"@), ("↓/j"@, "Down"@)];
    let tail = seq![("?"@, "Help"@), ("q"@, "Quit"@)];
    let own = match screen {
        Screen::Loading => Seq::empty(),
        Screen::WorkspaceSelect => nav + seq![("Enter"@, "Select"@), ("/"@, "Search"@), ("r"@, "Refresh"@)],
        Screen::SpaceList => nav + seq![("Enter"@, "Select"@), ("Esc"@, "Back"@), ("/"@, "Search"@), ("r"@, "Refresh"@)],
        Screen::SpaceContent => nav + seq![("Enter"@, "Open"@), ("Esc"@, "Back"@), ("/"@, "Search"@), ("r"@, "Refresh"@)],
        Screen::TaskList => nav
            + (if mode == ViewMode::List { Seq::empty() } else { seq![("Tab"@, "Next group"@)] })
            + seq![("Enter"@, "View"@), ("Esc"@, "Back"@), ("v"@, "View mode"@), ("/"@, "Search"@),
                ("f"@, "Filters"@), ("m"@, "Me Mode"@), ("r"@, "Refresh"@)],
        Screen::TaskDetail => seq![("↑/k"@, "Scroll up"@), ("↓/j"@, "Scroll down"@), ("c"@, "Comments"@),
            ("Esc"@, "Back"@)],
    };
    own + tail
}

/// The views of hint pairs.
pub open spec fn hint_views(v: Seq<(&str, &str)>) -> Seq<(Seq<char>, Seq<char>)> {
    v.map_values(|p: (&str, &str)| (p.0@, p.1@))
}

/// Appends hints.
fn push_hints(out: &mut Vec<(&'static str, &'static str)>, add: &Vec<(&'static str, &'static str)>)
    ensures
        hint_views(final(out)@) == hint_views(old(out)@) + hint_views(add@),
{
    let ghost start = out@;
    let mut i: usize = 0;
    while i < add.len()
        invariant
            i <= add.len(),
            hint_views(out@) == hint_views(start) + hint_views(add@.subrange(0, i as int)),
        decreases add.len() - i,
    {
        let ghost before = out@;
        out.push(add[i]);
        i += 1;
        proof {
            assert(hint_views(out@) =~= hint_views(before).push((add@[i - 1].0@, add@[i - 1].1@)));
            assert(hint_views(add@.subrange(0, i as int)) =~= hint_views(add@.subrange(0, i - 1)).push((add@[i - 1].0@, add@[i - 1].1@)));
        }
    }
    proof { assert(add@.subrange(0, add@.len() as int) =~= add@); }
}

/// Returns key hint pairs for the current screen.
pub fn key_hints(app: &App) -> (r: Vec<(&'static str, &'static str)>)
    ensures
        hint_views(r@) == hints_for(app.screen, app.view_mode),
{
    let mut hints: Vec<(&'static str, &'static str)> = Vec::new();
    let nav = vec![("↑/k", "Up"), ("↓/j", "Down")];
    let ghost navv = seq![("↑/k"@, "Up"@), ("↓/j"@, "Down"@)];
    proof { assert(hint_views(nav@) =~= navv); }
    match app.screen {
        Screen::Loading => {},
        Screen::WorkspaceSelect => {
            push_hints(&mut hints, &nav);
            push_hints(&mut hints, &vec![("Enter", "Select"), ("/", "Search"), ("r", "Refresh")]);
        },
        Screen::SpaceList => {
            push_hints(&mut hints, &nav);
            push_hints(&mut hints, &vec![("Enter", "Select"), ("Esc", "Back"), ("/", "Search"), ("r", "Refresh")]);
        },
        Screen::SpaceContent => {
            push_hints(&mut hints, &nav);
            push_hints(&mut hints, &vec![("Enter", "Open"), ("Esc", "Back"), ("/", "Search"), ("r", "Refresh")]);
        },
        Screen::TaskList => {
            push_hints(&mut hints, &nav);
            if app.view_mode != ViewMode::List {
                push_hints(&mut hints, &vec![("Tab", "Next group")]);
            }
            push_hints(&mut hints, &vec![("Enter", "View"), ("Esc", "Back"), ("v", "View mode"), ("/", "Search"),
                ("f", "Filters"), ("m", "Me Mode"), ("r", "Refresh")]);
        },
        Screen::TaskDetail => {
            push_hints(&mut hints, &vec![("↑/k", "Scroll up"), ("↓/j", "Scroll down"), ("c", "Comments"),
                ("Esc", "Back")]);
        },
    }
    push_hints(&mut hints, &vec![("?", "Help"), ("q", "Quit")]);
    proof {
        assert(hint_views(hints@) =~= hints_for(app.screen, app.view_mode));
    }
    hints
}

/// The dot a priority label shows in the task list.
pub open spec fn priority_dot(p: Option<Seq<char>>) -> Seq<char> {
    match p {
        Some(l) => if l == "urgent"@ {
            "🔴"@
        } else if l == "high"@ {
            "🟠"@
        } else if l == "normal"@ {
            "🟡"@
        } else if l == "low"@ {
            "🔵"@
        } else {
            "⚪"@
        },
        None => "⚪"@,
    }
}

/// The dot a task's priority shows in the task list.
pub fn format_priority_emoji(priority: &Option<TaskPriority>) -> (r: String)
    ensures
        r@ == priority_dot(match priority {
            Some(p) => match p.priority { Some(l) => Some(l@), None => None },
            None => None,
        }),
{
    let label: Option<&str> = match priority {
        Some(p) => match &p.priority {
            Some(l) => Some(l.as_str()),
            None => None,
        },
        None => None,
    };
    let dot: &str = match label {
        Some(l) => if crate::text::str_eq(l, "urgent") {
            "🔴"
        } else if crate::text::str_eq(l, "high") {
            "🟠"
        } else if crate::text::str_eq(l, "normal") {
            "🟡"
        } else if crate::text::str_eq(l, "low") {
            "🔵"
        } else {
            "⚪"
        },
        None => "⚪",
    };
    string_of(&chars_of(dot))
}

/// The label a priority shows on the task detail screen.
pub fn priority_emoji(p: &str) -> (r: String)
    ensures
        r@ == crate::output::priority_label(Some(p@)),
{
    crate::output::format_priority(Some(p))
}

/// The first characters of `s` that take `bytes` bytes in UTF-8.
pub open spec fn byte_prefix(s: Seq<char>, n: int, bytes: nat) -> bool {
    0 <= n <= s.len() && utf8_bytes(s.subrange(0, n)) == bytes
}

/// The characters of `s` that take its first `bytes` bytes (no character
/// may straddle that point).
fn take_bytes(s: &str, bytes: usize) -> (r: String)
    requires
        exists|n: int| byte_prefix(s@, n, bytes as nat),
    ensures
        exists|n: int| byte_prefix(s@, n, bytes as nat) && r@ == s@.subrange(0, n),
{
    let cs = chars_of(s);
    let ghost target = choose|n: int| byte_prefix(s@, n, bytes as nat);
    let mut taken: usize = 0;
    let mut used: usize = 0;
    let mut out: Vec<char> = Vec::new();
    proof { assert(s@.subrange(0, 0) =~= Seq::<char>::empty()); }
    while used < bytes
        invariant
            cs@ == s@,
            taken <= target <= cs.len(),
            byte_prefix(s@, target, bytes as nat),
            used as nat == utf8_bytes(s@.subrange(0, taken as int)),
            used <= bytes,
            out@ == s@.subrange(0, taken as int),
        decreases bytes - used,
    {
        proof {
            if taken == target {
                assert(false);
            }
            crate::text::lemma_utf8_prefix_step(s@, taken as int);
            crate::text::lemma_utf8_prefix_grows(s@, taken + 1, target);
        }
        let w = crate::text::char_utf8_len(cs[taken]);
        out.push(cs[taken]);
        used = used + w;
        taken = taken + 1;
        proof {
            assert(out@ =~= s@.subrange(0, taken as int));
            crate::text::lemma_utf8_prefix_step(s@, taken - 1);
        }
    }
    proof {
        if taken < target {
            crate::text::lemma_utf8_prefix_grows(s@, taken as int, target);
        }
    }
    string_of(&out)
}

/// `n` spaces.
pub open spec fn spaces(n: nat) -> Seq<char> {
    Seq::new(n, |_i: int| ' ')
}

/// Pads `s` with spaces to `width`, or cuts it to its first `width` bytes.
pub fn pad_right(s: &str, width: usize) -> (r: String)
    requires
        utf8_bytes(s@) >= width ==> exists|n: int| byte_prefix(s@, n, width as nat),
    ensures
        utf8_bytes(s@) >= width ==> exists|n: int| byte_prefix(s@, n, width as nat) && r@ == s@.subrange(0, n),
        utf8_bytes(s@) < width ==> r@ == s@ + spaces((width - s@.len()) as nat),
{
    let cs = chars_of(s);
    if utf8_size(&cs) >= width as u128 {
        take_bytes(s, width)
    } else {
        proof { crate::text::lemma_chars_le_bytes(s@); }
        let mut out = cs;
        let n: usize = out.len();
        let mut k: usize = n;
        while k < width
            invariant
                n <= k <= width,
                out@ == s@ + spaces((k - n) as nat),
            decreases width - k,
        {
            out.push(' ');
            k += 1;
            proof { assert(out@ =~= s@ + spaces((k - n) as nat)); }
        }
        string_of(&out)
    }
}

/// `s` cut to `max` bytes with an ellipsis: its first `max - 1` bytes and `…`
/// when it is longer than `max` bytes.
pub fn truncate(s: &str, max: usize) -> (r: String)
    requires
        utf8_bytes(s@) > max ==> max >= 1 && exists|n: int| #[trigger] byte_prefix(s@, n, (max - 1) as nat),
    ensures
        utf8_bytes(s@) <= max ==> r@ == s@,
        utf8_bytes(s@) > max ==> exists|n: int| #[trigger] byte_prefix(s@, n, (max - 1) as nat) && r@ == s@.subrange(0, n) + "…"@,
{
    let cs = chars_of(s);
    if utf8_size(&cs) <= max as u128 {
        string_of(&cs)
    } else {
        let head = take_bytes(s, max - 1);
        let mut out = chars_of(head.as_str());
        push_seq(&mut out, &chars_of("…"));
        string_of(&out)
    }
}

/// A duration in milliseconds in hours and minutes: "2h 5m", "2h" or "5m"
/// (seconds are dropped).
pub open spec fn duration_text(ms: u64) -> Seq<char> {
    let total = ms / 1000;
    let hours = total / 3600;
    let minutes = (total % 3600) / 60;
    if hours > 0 && minutes > 0 {
        decimal(hours as nat) + "h "@ + decimal(minutes as nat) + "m"@
    } else if hours > 0 {
        decimal(hours as nat) + "h"@
    } else {
        decimal(minutes as nat) + "m"@
    }
}

/// Formats a duration in milliseconds as hours and minutes.
pub fn format_duration(ms: u64) -> (r: String)
    ensures
        r@ == duration_text(ms),
{
    let total = ms / 1000;
    let hours = total / 3600;
    let minutes = (total % 3600) / 60;
    let mut out: Vec<char> = Vec::new();
    if hours > 0 && minutes > 0 {
        push_decimal(&mut out, hours);
        push_seq(&mut out, &chars_of("h "));
        push_decimal(&mut out, minutes);
        push_seq(&mut out, &chars_of("m"));
    } else if hours > 0 {
        push_decimal(&mut out, hours);
        push_seq(&mut out, &chars_of("h"));
    } else {
        push_decimal(&mut out, minutes);
        push_seq(&mut out, &chars_of("m"));
    }
    string_of(&out)
}

/// The date of a millisecond timestamp, when it is an integer in range.
pub open spec fn timestamp_date(ts: Option<Seq<char>>) -> Option<Seq<char>> {
    match ts {
        Some(t) => match parse_i64(t) {
            Some(ms) => utc_date(ms),
            None => None,
        },
        None => None,
    }
}

/// Formats a millisecond timestamp as a date, when it is one.
pub fn format_timestamp(ts: Option<&str>) -> (r: Option<String>)
    ensures
        match r {
            Some(d) => timestamp_date(match ts { Some(t) => Some(t@), None => None }) == Some(d@),
            None => timestamp_date(match ts { Some(t) => Some(t@), None => None }) is None,
        },
{
    match ts {
        Some(t) => match parse_i64_str(t) {
            Some(ms) => utc_date_text(ms),
            None => None,
        },
        None => None,
    }
}

/// The colour a relative date is shown in.
#[derive(Debug, Clone, Copy, PartialEq, Eq, Structural)]
pub enum DateTone {
    /// Dark grey: no date, or no valid one.
    Muted,
    /// Yellow: today.
    Today,
    /// Green: in the future.
    Future,
    /// Red: in the past.
    Past,
}

/// Integer division rounded toward zero.
pub open spec fn trunc_div(a: int, b: int) -> int {
    if a >= 0 { a / b } else { -((-a) / b) }
}

/// A due date relative to now (`now_ns`, nanoseconds since the Unix epoch):
/// whole days between them, rounded toward zero.
pub open spec fn relative_date(ts: Option<Seq<char>>, now_ns: i128) -> (Seq<char>, DateTone) {
    match ts {
        None => ("—"@, DateTone::Muted),
        Some(t) => match parse_i64(t) {
            None => (t, DateTone::Muted),
            Some(ms) => if utc_date(ms) is None {
                ("—"@, DateTone::Muted)
            } else {
                let days = trunc_div(ms * 1_000_000 - now_ns, 86_400_000_000_000);
                if days == 0 {
                    ("today"@, DateTone::Today)
                } else if days > 0 {
                    ("in "@ + decimal(days as nat) + "d"@, DateTone::Future)
                } else {
                    (decimal((-days) as nat) + "d ago"@, DateTone::Past)
                }
            },
        },
    }
}

/// Shows a due date relative to `now_ns`.
pub fn relative_date_at(ts: Option<&str>, now_ns: i128) -> (r: (String, DateTone))
    requires
        -0x1000_0000_0000_0000_0000_0000_0000_0000 < now_ns < 0x1000_0000_0000_0000_0000_0000_0000_0000,
    ensures
        (r.0@, r.1) == relative_date(match ts { Some(t) => Some(t@), None => None }, now_ns),
{
    let t = match ts {
        Some(t) => t,
        None => return (string_of(&chars_of("—")), DateTone::Muted),
    };
    let ms = match parse_i64_str(t) {
        Some(ms) => ms,
        None => return (string_of(&chars_of(t)), DateTone::Muted),
    };
    if utc_date_text(ms).is_none() {
        return (string_of(&chars_of("—")), DateTone::Muted);
    }
    let diff: i128 = ms as i128 * 1_000_000 - now_ns;
    let days: i128 = if diff >= 0 { diff / 86_400_000_000_000 } else { -((-diff) / 86_400_000_000_000) };
    let mut out: Vec<char> = Vec::new();
    if days == 0 {
        (string_of(&chars_of("today")), DateTone::Today)
    } else if days > 0 {
        push_seq(&mut out, &chars_of("in "));
        crate::text::push_decimal_wide(&mut out, days as u128);
        push_seq(&mut out, &chars_of("d"));
        (string_of(&out), DateTone::Future)
    } else {
        crate::text::push_decimal_wide(&mut out, (-days) as u128);
        push_seq(&mut out, &chars_of("d ago"));
        (string_of(&out), DateTone::Past)
    }
}

/// Shows a due date relative to the current time.
pub fn format_relative_date(ts: Option<&str>) -> (r: (String, DateTone))
    ensures
        exists|now: i128| (r.0@, r.1) == #[trigger] relative_date(crate::text::opt_str(ts), now),
{
    let now = crate::logging::now_unix_nanos();
    if -0x1000_0000_0000_0000_0000_0000_0000_0000 < now && now < 0x1000_0000_0000_0000_0000_0000_0000_0000 {
        relative_date_at(ts, now)
    } else {
        relative_date_at(ts, 0)
    }
}

/// The name an option object shows: its `name` (when it has that member),
/// else its `label`.
pub open spec fn name_or_label(v: JsonValue) -> Option<Seq<char>> {
    match v.spec_get("name"@) {
        Some(x) => x.spec_as_str(),
        None => crate::custom_field::str_at(v, "label"@),
    }
}

/// The option names among `items`, in order.
pub open spec fn option_names(items: Seq<JsonValue>) -> Seq<Seq<char>>
    decreases items.len(),
{
    if items.len() == 0 {
        Seq::empty()
    } else {
        let rest = option_names(items.drop_last());
        match name_or_label(items.last()) {
            Some(t) => rest.push(t),
            None => rest,
        }
    }
}

/// What the task detail screen shows for a custom field's value.
pub open spec fn field_value_text(field_type: Seq<char>, value: Option<JsonValue>) -> Seq<char> {
    match value {
        None => "—"@,
        Some(val) => if field_type == "number"@ || field_type == "currency"@ {
            crate::custom_field::number_display(val)
        } else if field_type == "checkbox"@ {
            if val.spec_as_bool() == Some(true) { "✅"@ } else { "☐"@ }
        } else if field_type == "date"@ {
            match val.spec_as_str() {
                Some(t) => match timestamp_date(Some(t)) { Some(d) => d, None => t },
                None => match val.spec_as_i64() {
                    Some(n) => match timestamp_date(Some(signed_decimal(n as int))) {
                        Some(d) => d,
                        None => json_text(val),
                    },
                    None => json_text(val),
                },
            }
        } else if field_type == "drop_down"@ || field_type == "labels"@ {
            match val {
                JsonValue::Array(items) => crate::custom_field::joined(option_names(items@), ", "@),
                JsonValue::Object(_) => match name_or_label(val) { Some(t) => t, None => "—"@ },
                _ => match val.spec_as_str() { Some(t) => t, None => json_text(val) },
            }
        } else if field_type == "url"@ || field_type == "email"@ || field_type == "phone"@
            || field_type == "short_text"@ || field_type == "text"@ {
            match val.spec_as_str() { Some(t) => t, None => "—"@ }
        } else {
            match val.spec_as_str() { Some(t) => t, None => json_text(val) }
        },
    }
}

/// The name of an option object.
fn option_name<'a>(v: &'a JsonValue) -> (r: Option<&'a str>)
    ensures
        match r {
            Some(t) => name_or_label(*v) == Some(t@),
            None => name_or_label(*v) is None,
        },
{
    match v.get("name") {
        Some(x) => x.as_str(),
        None => match v.get("label") {
            Some(x) => x.as_str(),
            None => None,
        },
    }
}

/// Joins the option names among `items` with ", ".
fn join_option_names(items: &Vec<JsonValue>) -> (r: String)
    ensures
        r@ == crate::custom_field::joined(option_names(items@), ", "@),
{
    let mut out: Vec<char> = Vec::new();
    let ghost mut parts: Seq<Seq<char>> = Seq::empty();
    let mut any = false;
    let mut i: usize = 0;
    proof { assert(items@.subrange(0, 0) =~= Seq::<JsonValue>::empty()); }
    while i < items.len()
        invariant
            i <= items.len(),
            any == (parts.len() > 0),
            parts == option_names(items@.subrange(0, i as int)),
            out@ == crate::custom_field::joined(parts, ", "@),
        decreases items.len() - i,
    {
        proof { assert(items@.subrange(0, i + 1).drop_last() =~= items@.subrange(0, i as int)); }
        if let Some(t) = option_name(&items[i]) {
            if any {
                push_seq(&mut out, &chars_of(", "));
            }
            push_seq(&mut out, &chars_of(t));
            any = true;
            proof {
                let next = parts.push(t@);
                assert(next.drop_last() =~= parts);
                if parts.len() == 0 {
                    assert(out@ =~= t@);
                }
                parts = next;
            }
        }
        i += 1;
    }
    proof { assert(items@.subrange(0, items@.len() as int) =~= items@); }
    string_of(&out)
}

/// Whether `s` holds the text `lit`.
fn is_type(s: &str, lit: &str) -> (r: bool)
    ensures
        r == (s@ == lit@),
{
    crate::text::str_eq(s, lit)
}

/// Shows a custom field's value on the task detail screen.
pub fn format_custom_field_value(field_type: &str, value: Option<&JsonValue>) -> (r: String)
    ensures
        r@ == field_value_text(field_type@, match value { Some(v) => Some(*v), None => None }),
{
    let val = match value {
        Some(v) => v,
        None => return string_of(&chars_of("—")),
    };
    if is_type(field_type, "number") || is_type(field_type, "currency") {
        crate::custom_field::format_number(val)
    } else if is_type(field_type, "checkbox") {
        if val.as_bool() == Some(true) { string_of(&chars_of("✅")) } else { string_of(&chars_of("☐")) }
    } else if is_type(field_type, "date") {
        match val.as_str() {
            Some(t) => match format_timestamp(Some(t)) {
                Some(d) => d,
                None => string_of(&chars_of(t)),
            },
            None => match val.as_i64() {
                Some(n) => {
                    let mut digits: Vec<char> = Vec::new();
                    crate::text::push_signed_decimal(&mut digits, n);
                    let s = string_of(&digits);
                    match format_timestamp(Some(s.as_str())) {
                        Some(d) => d,
                        None => val.to_text(),
                    }
                },
                None => val.to_text(),
            },
        }
    } else if is_type(field_type, "drop_down") || is_type(field_type, "labels") {
        match val {
            JsonValue::Array(items) => join_option_names(items),
            JsonValue::Object(_) => match option_name(val) {
                Some(t) => string_of(&chars_of(t)),
                None => string_of(&chars_of("—")),
            },
            _ => match val.as_str() {
                Some(t) => string_of(&chars_of(t)),
                None => val.to_text(),
            },
        }
    } else if is_type(field_type, "url") || is_type(field_type, "email") || is_type(field_type, "phone")
        || is_type(field_type, "short_text") || is_type(field_type, "text") {
        match val.as_str() {
            Some(t) => string_of(&chars_of(t)),
            None => string_of(&chars_of("—")),
        }
    } else {
        match val.as_str() {
            Some(t) => string_of(&chars_of(t)),
            None => val.to_text(),
        }
    }
}

/// A line of the Vision sections view.
#[derive(Debug)]
pub enum SectionLine {
    /// A status group's header.
    Header {
        /// Status name.
        name: String,
        /// Status colour.
        color: String,
        /// Number of tasks in the group.
        count: usize,
        /// Whether the group is focused.
        focused: bool,
    },
    /// A task row.
    Task {
        /// Index of the task.
        task_idx: usize,
        /// Whether the task is selected.
        selected: bool,
    },
    /// The blank line after a group.
    Spacer,
}

/// The line to keep in view for the focused item, scanning from line `i` in
/// group `group` at item `item`: the selected task's line, or for the first
/// item the focused group's first task (its header when it has none); 0 when
/// there is no such line.
pub open spec fn focus_from(lines: Seq<SectionLine>, focused_group: int, group_item: int, i: int, group: int, item: int)
    -> int
    decreases lines.len() - i,
{
    if i < 0 || i >= lines.len() {
        0
    } else {
        match lines[i] {
            SectionLine::Header { .. } => if group == focused_group && group_item == 0 {
                if i + 1 < lines.len() && lines[i + 1] is Task { i + 1 } else { i }
            } else {
                focus_from(lines, focused_group, group_item, i + 1, group, item)
            },
            SectionLine::Task { .. } => if group == focused_group && item == group_item {
                i
            } else {
                focus_from(lines, focused_group, group_item, i + 1, group, item + 1)
            },
            SectionLine::Spacer => focus_from(lines, focused_group, group_item, i + 1, group + 1, 0),
        }
    }
}

/// Finds the line to keep in view in the Vision sections view.
pub fn find_focus_line(lines: &[SectionLine], focused_group: usize, group_item: usize) -> (r: usize)
    ensures
        r == focus_from(lines@, focused_group as int, group_item as int, 0, 0, 0),
{
    let mut current_group: usize = 0;
    let mut item_in_group: usize = 0;
    let mut i: usize = 0;
    while i < lines.len()
        invariant
            i <= lines@.len(),
            current_group <= i,
            item_in_group <= i,
            focus_from(lines@, focused_group as int, group_item as int, 0, 0, 0)
                == focus_from(lines@, focused_group as int, group_item as int, i as int, current_group as int, item_in_group as int),
        decreases lines@.len() - i,
    {
        match &lines[i] {
            SectionLine::Header { .. } => {
                if current_group == focused_group && group_item == 0 {
                    if i + 1 < lines.len() {
                        if let SectionLine::Task { .. } = &lines[i + 1] {
                            return i + 1;
                        }
                    }
                    return i;
                }
            },
            SectionLine::Task { .. } => {
                if current_group == focused_group && item_in_group == group_item {
                    return i;
                }
                item_in_group += 1;
            },
            SectionLine::Spacer => {
                current_group += 1;
                item_in_group = 0;
            },
        }
        i += 1;
    }
    0
}


/// How long ago a comment was written at `ts` (milliseconds since the Unix
/// epoch, as text), seen at `now_ns`: "just now" within the first minute (or
/// for a time ahead), then whole minutes, hours or days ago up to a week,
/// then its date; the text itself when it is no timestamp.
pub open spec fn comment_age(ts: Seq<char>, now_ns: i128) -> Seq<char> {
    match parse_i64(ts) {
        None => ts,
        Some(ms) => match utc_date(ms) {
            None => ts,
            Some(date) => {
                let diff = now_ns - ms * 1_000_000;
                let minutes = trunc_div(diff, 60_000_000_000);
                let hours = trunc_div(diff, 3_600_000_000_000);
                let days = trunc_div(diff, 86_400_000_000_000);
                if minutes < 1 {
                    "just now"@
                } else if hours < 1 {
                    decimal(minutes as nat) + "m ago"@
                } else if hours < 24 {
                    decimal(hours as nat) + "h ago"@
                } else if days < 7 {
                    decimal(days as nat) + "d ago"@
                } else {
                    date
                }
            },
        },
    }
}

/// Shows when a comment was written, relative to `now_ns`.
pub fn comment_age_at(ts: &str, now_ns: i128) -> (r: String)
    requires
        -0x1000_0000_0000_0000_0000_0000_0000_0000 < now_ns < 0x1000_0000_0000_0000_0000_0000_0000_0000,
    ensures
        r@ == comment_age(ts@, now_ns),
{
    let ms = match parse_i64_str(ts) {
        Some(ms) => ms,
        None => return string_of(&chars_of(ts)),
    };
    let date = match utc_date_text(ms) {
        Some(d) => d,
        None => return string_of(&chars_of(ts)),
    };
    let diff: i128 = now_ns - ms as i128 * 1_000_000;
    let minutes: i128 = if diff >= 0 { diff / 60_000_000_000 } else { -((-diff) / 60_000_000_000) };
    let hours: i128 = if diff >= 0 { diff / 3_600_000_000_000 } else { -((-diff) / 3_600_000_000_000) };
    let days: i128 = if diff >= 0 { diff / 86_400_000_000_000 } else { -((-diff) / 86_400_000_000_000) };
    let mut out: Vec<char> = Vec::new();
    if minutes < 1 {
        string_of(&chars_of("just now"))
    } else if hours < 1 {
        crate::text::push_decimal_wide(&mut out, minutes as u128);
        push_seq(&mut out, &chars_of("m ago"));
        string_of(&out)
    } else if hours < 24 {
        crate::text::push_decimal_wide(&mut out, hours as u128);
        push_seq(&mut out, &chars_of("h ago"));
        string_of(&out)
    } else if days < 7 {
        crate::text::push_decimal_wide(&mut out, days as u128);
        push_seq(&mut out, &chars_of("d ago"));
        string_of(&out)
    } else {
        date
    }
}


/// A badge shown when `on` holds.
pub open spec fn badge_if(on: bool, badge: Seq<char>) -> Seq<Seq<char>> {
    if on { seq![badge] } else { Seq::empty() }
}

/// The badges of the active filters shown in the top bar of the task list:
/// Me mode, statuses, priorities, a due date, closed tasks; none on other
/// screens or when no filter is active.
pub open spec fn badges_for(app: App) -> Seq<Seq<char>> {
    let f = app.task_filters;
    if app.screen == Screen::TaskList && (f.spec_has_server_filters() || f.spec_has_client_filters() || f.me_mode) {
        badge_if(f.me_mode, "👤 Me"@)
            + badge_if(f.statuses@.len() > 0, "◉ Status"@)
            + badge_if(f.priorities@.len() > 0, "⚑ Priority"@)
            + badge_if(f.due_date_filter != crate::filter_config::DueDateFilter::All, "📅 Due"@)
            + badge_if(f.include_closed, "✓ Closed"@)
    } else {
        Seq::empty()
    }
}

/// The badges of the active filters for the top bar.
pub fn filter_badges(app: &App) -> (r: Vec<&'static str>)
    ensures
        r@.map_values(|b: &'static str| b@) == badges_for(*app),
{
    let mut out: Vec<&'static str> = Vec::new();
    if !(app.screen == Screen::TaskList && app.task_filters.is_active()) {
        proof { assert(out@.map_values(|b: &'static str| b@) =~= badges_for(*app)); }
        return out;
    }
    let f = &app.task_filters;
    let ghost v0 = out@.map_values(|b: &'static str| b@);
    if f.me_mode {
        out.push("👤 Me");
    }
    let ghost v1 = out@.map_values(|b: &'static str| b@);
    proof { assert(v1 =~= v0 + badge_if(f.me_mode, "👤 Me"@)); }
    if f.statuses.len() > 0 {
        out.push("◉ Status");
    }
    let ghost v2 = out@.map_values(|b: &'static str| b@);
    proof { assert(v2 =~= v1 + badge_if(f.statuses@.len() > 0, "◉ Status"@)); }
    if f.priorities.len() > 0 {
        out.push("⚑ Priority");
    }
    let ghost v3 = out@.map_values(|b: &'static str| b@);
    proof { assert(v3 =~= v2 + badge_if(f.priorities@.len() > 0, "⚑ Priority"@)); }
    if f.due_date_filter != crate::filter_config::DueDateFilter::All {
        out.push("📅 Due");
    }
    let ghost v4 = out@.map_values(|b: &'static str| b@);
    proof { assert(v4 =~= v3 + badge_if(f.due_date_filter != crate::filter_config::DueDateFilter::All, "📅 Due"@)); }
    if f.include_closed {
        out.push("✓ Closed");
    }
    proof {
        assert(out@.map_values(|b: &'static str| b@) =~= v4 + badge_if(f.include_closed, "✓ Closed"@));
        assert(out@.map_values(|b: &'static str| b@) =~= badges_for(*app));
    }
    out
}

} // verus!
