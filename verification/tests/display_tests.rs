use termaup::json::{JsonNumber, JsonValue};
use termaup::models::{Task, TaskFolder, TaskList, TaskPriority, TaskSpace, TaskStatus, User};
use termaup::output::{format_date, format_priority, format_status, parse_hex_color};
use termaup::task_view::{task_detail_lines, task_title};
use termaup::theme::parse_hex;
use termaup::ui_text::{
    find_focus_line, format_custom_field_value, format_duration, format_priority_emoji, format_timestamp,
    pad_right, priority_emoji, relative_date_at, truncate, DateTone, SectionLine,
};

fn user() -> User {
    User {
        id: 1,
        username: "u".to_string(),
        email: "u@t.com".to_string(),
        color: None,
        profile_picture: None,
        initials: None,
    }
}

fn make_task(name: &str, status: &str) -> Task {
    Task {
        id: name.to_lowercase(),
        custom_id: None,
        name: name.to_string(),
        description: None,
        text_content: None,
        status: TaskStatus { status: status.to_string(), color: "#ccc".to_string(), status_type: "custom".to_string() },
        orderindex: "0".to_string(),
        date_created: "0".to_string(),
        date_updated: "0".to_string(),
        date_closed: None,
        date_done: None,
        creator: Some(user()),
        assignees: vec![],
        priority: None,
        due_date: None,
        start_date: None,
        tags: vec![],
        list: Some(TaskList { id: "l".to_string(), name: None }),
        folder: Some(TaskFolder { id: "f".to_string(), name: None }),
        space: Some(TaskSpace { id: "s".to_string() }),
        url: String::new(),
        markdown_description: None,
        parent: None,
        subtasks: None,
        custom_fields: None,
        checklists: vec![],
        linked_tasks: vec![],
        dependencies: vec![],
        time_estimate: None,
        time_spent: None,
        watchers: vec![],
        attachments: vec![],
        points: None,
        permission_level: None,
    }
}


#[test]
fn test_parse_hex() {
    assert_eq!(parse_hex("#d3d3d3"), Some((211, 211, 211)));
    assert_eq!(parse_hex("000000"), Some((0, 0, 0)));
    assert_eq!(parse_hex("short"), None);
}

#[test]
fn parse_hex_rejects_non_hex_digits() {
    assert_eq!(parse_hex("#gg0000"), None);
    assert_eq!(parse_hex("##ff0000"), Some((255, 0, 0)));
    assert_eq!(parse_hex("+f+f+f"), None);
    assert_eq!(parse_hex("#+fffff"), None);
    assert_eq!(parse_hex("aébcd"), None);
    assert_eq!(parse_hex("é0000"), None);
    assert_eq!(parse_hex("AbCdEf"), Some((171, 205, 239)));
}

#[test]
fn status_is_coloured_when_its_colour_parses() {
    assert_eq!(parse_hex_color("#ff00aa"), Some((255, 0, 170)));
    assert_eq!(format_status("open", "#ff00aa"), "\u{1b}[38;2;255;0;170mopen\u{1b}[39m");
    assert_eq!(format_status("open", "#ccc"), "open");
    assert_eq!(format_status("open", "aéaaa"), "open");
    assert_eq!(parse_hex_color("+1+2+3"), None);
}

#[test]
fn priority_labels() {
    assert_eq!(format_priority(Some("urgent")), "🔴 Urgent");
    assert_eq!(format_priority(Some("low")), "🔵 Low");
    assert_eq!(format_priority(Some("other")), "⚪ None");
    assert_eq!(format_priority(None), "⚪ None");
    assert_eq!(priority_emoji("high"), "🟠 High");
    let p = Some(TaskPriority { id: None, priority: Some("normal".to_string()), color: None });
    assert_eq!(format_priority_emoji(&p), "🟡");
    assert_eq!(format_priority_emoji(&None), "⚪");
}

#[test]
fn dates_from_millisecond_timestamps() {
    assert_eq!(format_date(None), "—");
    assert_eq!(format_date(Some("1710028800000")), "Mar 10, 2024");
    assert_eq!(format_date(Some("soon")), "soon");
    assert_eq!(format_timestamp(Some("0")), Some("Jan 01, 1970".to_string()));
    assert_eq!(format_timestamp(Some("x")), None);
    assert_eq!(format_timestamp(None), None);
}

#[test]
fn durations_in_hours_and_minutes() {
    assert_eq!(format_duration(0), "0m");
    assert_eq!(format_duration(59_999), "0m");
    assert_eq!(format_duration(60_000), "1m");
    assert_eq!(format_duration(3_600_000), "1h");
    assert_eq!(format_duration(5_400_000), "1h 30m");
    assert_eq!(termaup::task_view::format_duration(7_260_000), "2h 1m");
}

#[test]
fn padding_and_truncation() {
    assert_eq!(pad_right("ab", 4), "ab  ");
    assert_eq!(pad_right("abcdef", 3), "abc");
    assert_eq!(truncate("hello", 10), "hello");
    assert_eq!(truncate("hello world", 5), "hell…");
}

#[test]
fn relative_dates_by_whole_days() {
    let day: i128 = 86_400_000_000_000;
    let now = 1_710_028_800_000 * 1_000_000i128;
    assert_eq!(relative_date_at(None, now), ("—".to_string(), DateTone::Muted));
    assert_eq!(relative_date_at(Some("x"), now), ("x".to_string(), DateTone::Muted));
    assert_eq!(relative_date_at(Some("1710028800000"), now + day / 2), ("today".to_string(), DateTone::Today));
    assert_eq!(relative_date_at(Some("1710028800000"), now - 3 * day), ("in 3d".to_string(), DateTone::Future));
    assert_eq!(relative_date_at(Some("1710028800000"), now + 2 * day), ("2d ago".to_string(), DateTone::Past));
}

#[test]
fn custom_field_values_in_the_detail_view() {
    let five = JsonValue::Number(JsonNumber::Int(5));
    assert_eq!(format_custom_field_value("number", Some(&five)), "5");
    assert_eq!(format_custom_field_value("checkbox", Some(&JsonValue::Bool(true))), "✅");
    assert_eq!(format_custom_field_value("checkbox", Some(&JsonValue::Null)), "☐");
    assert_eq!(format_custom_field_value("text", None), "—");
    assert_eq!(format_custom_field_value("date", Some(&JsonValue::Str("0".into()))), "Jan 01, 1970");
}

#[test]
fn focus_line_follows_the_selected_task() {
    let lines = vec![
        SectionLine::Header { name: "Open".into(), color: "#ccc".into(), count: 2, focused: true },
        SectionLine::Task { task_idx: 0, selected: true },
        SectionLine::Task { task_idx: 1, selected: false },
        SectionLine::Spacer,
        SectionLine::Header { name: "Done".into(), color: "#0f0".into(), count: 1, focused: false },
        SectionLine::Task { task_idx: 2, selected: false },
        SectionLine::Spacer,
    ];
    assert_eq!(find_focus_line(&lines, 0, 0), 1);
    assert_eq!(find_focus_line(&lines, 0, 1), 2);
    assert_eq!(find_focus_line(&lines, 1, 0), 5);
    assert_eq!(find_focus_line(&lines, 5, 0), 0);
}

#[test]
fn task_detail_lists_the_fields() {
    let mut t = make_task("Demo", "open");
    t.time_estimate = Some(5_400_000);
    t.assignees = vec![user()];
    assert_eq!(task_title(&t), "Demo (demo)");
    let lines = task_detail_lines(&t);
    assert_eq!(lines[0], "  Status:   open");
    assert_eq!(lines[1], "  Priority: ⚪ None");
    assert_eq!(lines[2], "  Assignees: u");
    assert_eq!(lines[3], "  Created:  Jan 01, 1970");
    assert_eq!(lines[4], "  Updated:  Jan 01, 1970");
    assert_eq!(lines[5], "  Due:      —");
    assert_eq!(lines[6], "  Estimate: 1h 30m");
    assert_eq!(lines[7], "  URL:      ");
}
