use termaup::app::{App, Screen};
use termaup::commands::space_list_workspace;
use termaup::input::{key_ready, Key, KeyCode};
use termaup::cli_view::{
    choose_workspace, folder_items, list_detail_lines, list_rows, list_title, space_detail_lines, space_list_items,
    space_rows, space_title, task_rows, task_view_description, typed_token, uses_task_filters, workspace_items,
    workspace_name, workspace_rows, apply_workspace_override, WorkspaceChoice,
};
use termaup::config::Config;
use termaup::detail_view::{detail_lines, DetailLine};
use termaup::log_view::{
    choose_session, clean_cutoff, export_block, export_cutoff, export_header, session_rows, sessions_before,
    sessions_since, sort_newest_first, tail_start, SessionLookupError,
};
use termaup::logging::{byte_size_text, LogSessionInfo};
use termaup::models::{
    Attachment, Checklist, ChecklistItem, LinkedTask, List, ListFolder, ListSpace, Space, Status, Tag, Task,
    TaskDependency, TaskFolder, TaskList, TaskSpace, TaskStatus, User, Workspace,
};

fn user() -> User {
    User {
        id: 1,
        username: "u".to_string(),
        email: "u@t.com".to_string(),
        color: None,
        profile_picture: None,
        initials: None,
    }
}

fn make_task(name: &str, status: &str) -> Task {
    Task {
        id: name.to_lowercase(),
        custom_id: None,
        name: name.to_string(),
        description: None,
        text_content: None,
        status: TaskStatus { status: status.to_string(), color: "#ccc".to_string(), status_type: "custom".to_string() },
        orderindex: "0".to_string(),
        date_created: "0".to_string(),
        date_updated: "0".to_string(),
        date_closed: None,
        date_done: None,
        creator: Some(user()),
        assignees: vec![],
        priority: None,
        due_date: None,
        start_date: None,
        tags: vec![],
        list: Some(TaskList { id: "l".to_string(), name: None }),
        folder: Some(TaskFolder { id: "f".to_string(), name: None }),
        space: Some(TaskSpace { id: "s".to_string() }),
        url: String::new(),
        markdown_description: None,
        parent: None,
        subtasks: None,
        custom_fields: None,
        checklists: vec![],
        linked_tasks: vec![],
        dependencies: vec![],
        time_estimate: None,
        time_spent: None,
        watchers: vec![],
        attachments: vec![],
        points: None,
        permission_level: None,
    }
}



fn workspace(id: &str, name: &str) -> Workspace {
    Workspace { id: id.to_string(), name: name.to_string(), color: None, avatar: None, members: vec![] }
}

fn list(id: &str, name: &str, folder_name: Option<&str>) -> List {
    List {
        id: id.to_string(),
        name: name.to_string(),
        orderindex: 0,
        status: None,
        content: None,
        task_count: None,
        space: ListSpace { id: "s1".to_string() },
        folder: ListFolder { id: "f1".to_string(), name: folder_name.map(|s| s.to_string()), hidden: None },
    }
}

fn session(name: &str, size: u64, modified_secs: u128) -> LogSessionInfo {
    LogSessionInfo::new(name.to_string(), format!("/logs/{name}"), size, modified_secs * 1_000_000_000)
}

fn item(name: &str, resolved: bool, assignee: Option<User>) -> ChecklistItem {
    ChecklistItem { id: name.to_string(), name: name.to_string(), resolved, assignee, orderindex: None, parent: None }
}

#[test]
fn detail_screen_lists_header_meta_and_sections() {
    let mut t = make_task("Demo", "open");
    t.date_created = "1710028800000".to_string();
    t.time_estimate = Some(3_600_000);
    t.tags = vec![Tag { name: "bug".into(), tag_fg: None, tag_bg: None }, Tag { name: "ui".into(), tag_fg: None, tag_bg: None }];
    t.text_content = Some("first\r\nsecond\n".to_string());
    t.checklists = vec![Checklist {
        id: "c".into(),
        name: "Ship".into(),
        resolved: None,
        items: vec![item("a", true, Some(user())), item("b", false, None)],
        orderindex: None,
        task_count: None,
        unresolved: None,
    }];
    t.dependencies = vec![
        TaskDependency { task_id: "x".into(), depends_on: "demo".into(), dependency_type: None, date_created: None, userid: None, workspace_id: None },
        TaskDependency { task_id: "demo".into(), depends_on: "y".into(), dependency_type: None, date_created: None, userid: None, workspace_id: None },
    ];
    t.attachments = vec![Attachment { id: "1".into(), title: None, url: None, extension: Some("mp4".into()), date: None, thumbnail_small: None }];
    t.linked_tasks = vec![LinkedTask { task_id: "l1".into(), link_id: None, date_created: None, userid: None, workspace_id: None }];
    let lines = detail_lines(&t);
    let text: Vec<String> = lines.iter().map(|l| format!("{l:?}")).collect();
    assert!(matches!(&lines[0], DetailLine::Blank));
    assert!(matches!(&lines[1], DetailLine::Title(n) if n == "Demo"));
    assert!(matches!(&lines[2], DetailLine::Badges { priority, .. } if priority == "⚪"));
    assert!(matches!(&lines[4], DetailLine::Meta { label, value } if label == "Assignees" && value == "—"));
    assert!(matches!(&lines[5], DetailLine::Meta { label, value } if label == "Due Date" && value == "—"));
    assert!(matches!(&lines[6], DetailLine::Meta { value, .. } if value == "Mar 10, 2024"));
    assert!(matches!(&lines[7], DetailLine::Meta { value, .. } if value == "1h"));
    assert!(matches!(&lines[8], DetailLine::Meta { label, value } if label == "Tags" && value == "#bug  #ui"));
    assert!(matches!(&lines[9], DetailLine::Meta { label, .. } if label == "URL"));
    assert!(matches!(&lines[11], DetailLine::Section(s) if s == "Description"));
    assert!(matches!(&lines[13], DetailLine::Text(s) if s == "  first"));
    assert!(matches!(&lines[14], DetailLine::Text(s) if s == "  second"));
    assert!(matches!(&lines[16], DetailLine::Section(s) if s == "Checklists (1)"));
    assert!(matches!(&lines[18], DetailLine::ChecklistHead { resolved: 1, total: 2, .. }));
    assert!(matches!(&lines[19], DetailLine::ChecklistBar { resolved: 1, total: 2 }));
    assert!(matches!(&lines[20], DetailLine::ChecklistEntry { assignee: Some(a), resolved: true, .. } if a == "u"));
    assert!(matches!(&lines[21], DetailLine::ChecklistEntry { assignee: None, resolved: false, .. }));
    assert!(text.iter().any(|l| l.contains("Linked(\"l1\")")));
    assert!(lines.iter().any(|l| matches!(l, DetailLine::Dependency { blocks: true, id } if id == "x")));
    assert!(lines.iter().any(|l| matches!(l, DetailLine::Dependency { blocks: false, id } if id == "y")));
    assert!(lines.iter().any(|l| matches!(l, DetailLine::Attachment { icon, name } if icon == "🎬" && name == "Untitled")));
    assert!(matches!(lines.last(), Some(DetailLine::Blank)));
}

#[test]
fn markdown_description_wins_and_empty_one_hides_both() {
    let mut t = make_task("Demo", "open");
    t.markdown_description = Some("**hi**".to_string());
    t.text_content = Some("plain".to_string());
    let lines = detail_lines(&t);
    assert!(lines.iter().any(|l| matches!(l, DetailLine::Description(d) if d == "**hi**")));
    assert!(!lines.iter().any(|l| matches!(l, DetailLine::Text(_))));
    t.markdown_description = Some(String::new());
    let lines = detail_lines(&t);
    assert!(!lines.iter().any(|l| matches!(l, DetailLine::Section(s) if s == "Description")));
}

#[test]
fn tables_of_workspaces_spaces_and_lists() {
    let mut w = workspace("1", "Acme");
    w.members = vec![];
    assert_eq!(workspace_rows(&vec![w]), vec![vec!["1".to_string(), "Acme".to_string(), "0".to_string()]]);
    let sp = Space {
        id: "s".into(),
        name: "Eng".into(),
        private: true,
        color: None,
        avatar: None,
        statuses: vec![Status { id: None, status: "open".into(), color: "#ccc".into(), status_type: "open".into(), orderindex: 0 }],
        multiple_assignees: false,
        features: None,
    };
    assert_eq!(space_rows(&vec![sp.clone()]), vec![vec!["s".to_string(), "Eng".into(), "Yes".into(), "1".into()]]);
    assert_eq!(space_title(&sp), "Space: Eng (s)");
    assert_eq!(space_detail_lines(&sp), vec!["  Private: Yes", "  Multiple assignees: No", "\n  Statuses:", "    open (open)"]);
    let mut l = list("l1", "Backlog", None);
    l.task_count = Some("4".into());
    l.content = Some("Things".into());
    assert_eq!(list_title(&l), "List: Backlog (l1)");
    assert_eq!(list_detail_lines(&l), vec!["  Task count: 4", "  Description: Things"]);
    let items = folder_items(vec![l.clone(), list("l2", "Next", Some("Team"))], "f9");
    assert_eq!(items[0].1, "f9");
    assert_eq!(items[1].1, "Team");
    let rows = list_rows(&items);
    assert_eq!(rows[0], vec!["l1".to_string(), "Backlog".into(), "f9".into(), "4".into()]);
    assert_eq!(rows[1][3], "—");
    let all = space_list_items(&vec![("Team".to_string(), vec![list("a", "A", None)])], &vec![list("b", "B", None)]);
    let names: Vec<(String, String)> = all.iter().map(|(l, f)| (l.id.clone(), f.clone())).collect();
    assert_eq!(names, vec![("a".to_string(), "Team".to_string()), ("b".to_string(), "—".to_string())]);
}

#[test]
fn task_table_rows() {
    let mut t = make_task("Demo", "open");
    t.assignees = vec![user(), user()];
    t.due_date = Some("1710028800000".into());
    let rows = task_rows(&vec![t]);
    assert_eq!(rows[0], vec!["demo".to_string(), "Demo".into(), "open".into(), "u, u".into(), "⚪ None".into(), "Mar 10, 2024".into()]);
    assert!(!uses_task_filters(&vec![], &vec![], false));
    assert!(uses_task_filters(&vec![], &vec![], true));
    assert!(uses_task_filters(&vec!["open".into()], &vec![], false));
}

#[test]
fn task_view_prefers_markdown() {
    let mut t = make_task("Demo", "open");
    assert_eq!(task_view_description(&t), None);
    t.description = Some("plain".into());
    assert_eq!(task_view_description(&t), Some(Err("plain".to_string())));
    t.markdown_description = Some("# md".into());
    assert_eq!(task_view_description(&t), Some(Ok("# md".to_string())));
}

#[test]
fn login_helpers() {
    assert_eq!(typed_token("  pk_123 \n"), Some("pk_123".to_string()));
    assert_eq!(typed_token(" \t "), None);
    let ws = vec![workspace("1", "Acme"), workspace("2", "Beta")];
    assert_eq!(choose_workspace(&ws, Some("2"), true), WorkspaceChoice::Chosen("2".into()));
    assert_eq!(choose_workspace(&ws, Some("9"), true), WorkspaceChoice::Unknown("9".into()));
    assert_eq!(choose_workspace(&ws, None, true), WorkspaceChoice::Ask);
    assert_eq!(choose_workspace(&ws[..1].to_vec(), None, true), WorkspaceChoice::Chosen("1".into()));
    assert_eq!(choose_workspace(&ws[..1].to_vec(), None, false), WorkspaceChoice::Ask);
    assert_eq!(workspace_name(&ws, "2"), "Beta");
    assert_eq!(workspace_name(&ws, "3"), "unknown");
    assert_eq!(workspace_items(&ws), vec!["Acme (1)", "Beta (2)"]);
    let mut c = Config::default();
    apply_workspace_override(&mut c, Some("7"));
    assert_eq!(c.default_workspace_id, Some("7".to_string()));
}

#[test]
fn sessions_sort_newest_first_and_are_chosen() {
    let sessions = sort_newest_first(vec![session("cli-a.log", 10, 100), session("tui-b.log", 2048, 300), session("cli-c.log", 5, 200)]);
    let names: Vec<&str> = sessions.iter().map(|s| s.filename.as_str()).collect();
    assert_eq!(names, vec!["tui-b.log", "cli-c.log", "cli-a.log"]);
    assert_eq!(choose_session(&sessions, None), Ok(0));
    assert_eq!(choose_session(&sessions, Some("2")), Ok(1));
    assert_eq!(choose_session(&sessions, Some("0")), Err(SessionLookupError::IndexOutOfRange { index: 0, count: 3 }));
    assert_eq!(choose_session(&sessions, Some("4")).unwrap_err().message(), "index 4 out of range (1..3)");
    assert_eq!(choose_session(&sessions, Some("cli-a")), Ok(2));
    assert_eq!(choose_session(&sessions, Some("zzz")).unwrap_err().message(), "no session matching 'zzz'");
    let rows = session_rows(&sessions, Some(400 * 1_000_000_000));
    assert_eq!(rows[0], vec!["1".to_string(), "tui-b.log".into(), "tui".into(), "2.0 KB".into(), "1m ago".into()]);
}

#[test]
fn tails_cutoffs_and_selection() {
    assert_eq!(tail_start(10, Some(3)), 7);
    assert_eq!(tail_start(2, Some(3)), 0);
    assert_eq!(tail_start(5, None), 0);
    let now: u128 = 10 * 3600 * 1_000_000_000;
    assert_eq!(export_cutoff(now, 1), Some(9 * 3600 * 1_000_000_000));
    assert_eq!(export_cutoff(now, 11), None);
    assert_eq!(export_cutoff(now, u64::MAX), None);
    assert_eq!(clean_cutoff(now, 1), None);
    assert_eq!(clean_cutoff(3 * 86_400_000_000_000, 1), Some(2 * 86_400_000_000_000));
    let sessions = vec![session("a.log", 1, 100), session("b.log", 1, 300), session("c.log", 1, 200)];
    assert_eq!(sessions_since(&sessions, 200 * 1_000_000_000), vec![1, 2]);
    assert_eq!(sessions_before(&sessions, 200 * 1_000_000_000), vec![0]);
    assert_eq!(byte_size_text(512), "512 B");
    assert_eq!(byte_size_text(1536), "1.5 KB");
}

#[test]
fn export_text_is_redacted() {
    let head = export_header("2024-03-10T00:00:00Z", "linux", "x86_64", "/c/config.toml", 2, 24);
    assert_eq!(
        head,
        "=== clickup-rs log export ===\nGenerated: 2024-03-10T00:00:00Z\nOS: linux x86_64\nVersion: clickup-rs 0.1.0\nConfig: /c/config.toml\nSessions: 2 (last 24h)\n===\n\n"
    );
    let block = export_block("cli-a.log", Ok("token pk_abc123 used\nmail alice@example.com\n"));
    assert_eq!(block, "[session: cli-a.log]\ntoken pk_[REDACTED] used\nmail a***@example.com\n\n");
    let failed = export_block("x.log", Err("denied"));
    assert_eq!(failed, "[session: x.log]\n(error reading file: denied)\n\n");
}

#[test]
fn space_listing_prefers_its_own_workspace() {
    assert_eq!(space_list_workspace(&Some("w1".to_string()), Some("g")), Some("w1"));
    assert_eq!(space_list_workspace(&None, Some("g")), Some("g"));
    assert_eq!(space_list_workspace(&None, None), None);
}

#[test]
fn keys_are_ready_unless_the_selection_is_outside_the_rows() {
    let mut app = App::new();
    let enter = Key { code: KeyCode::Enter, ctrl: false };
    assert!(key_ready(&app, &enter));
    app.screen = Screen::WorkspaceSelect;
    app.workspaces = vec![workspace("1", "A")];
    app.selected_index = 0;
    assert!(key_ready(&app, &enter));
    app.selected_index = 3;
    assert!(!key_ready(&app, &enter));
    assert!(key_ready(&app, &Key { code: KeyCode::Down, ctrl: false }));
    app.selected_index = usize::MAX;
    assert!(!key_ready(&app, &Key { code: KeyCode::Down, ctrl: false }));
}

#[test]
fn filter_badges_show_on_the_task_list_only() {
    let mut app = App::new();
    app.task_filters.me_mode = true;
    app.task_filters.include_closed = true;
    assert!(termaup::ui_text::filter_badges(&app).is_empty());
    app.screen = Screen::TaskList;
    assert_eq!(termaup::ui_text::filter_badges(&app), vec!["👤 Me", "✓ Closed"]);
}

#[test]
fn recent_and_old_sessions_split_the_list() {
    let sessions = vec![session("a.log", 1, 100), session("b.log", 1, 300), session("c.log", 1, 200), session("d.log", 1, 50)];
    let cutoff = 150 * 1_000_000_000;
    let recent = sessions_since(&sessions, cutoff);
    let old = sessions_before(&sessions, cutoff);
    for k in 0..sessions.len() {
        assert!(recent.contains(&k) != old.contains(&k));
    }
}
