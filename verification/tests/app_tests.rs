use termaup::app::{App, Screen, SpaceContentItem, ViewMode};
use termaup::event::{handle_data, DataPayload};
use termaup::filter_config::{ListFilterConfig, ViewModeConfig};
use termaup::input::{apply_saved_filters, handle_key, handle_mouse, toggle_vec_item, Action, Key, KeyCode};
use termaup::models::{
    Folder, FolderSpace, List, ListFolder, ListSpace, Space, Status, Task, TaskFolder, TaskList, TaskSpace,
    TaskStatus, User, Workspace,
};

fn key(code: KeyCode) -> Key {
    Key { code, ctrl: false }
}

fn user() -> User {
    User {
        id: 1,
        username: "u".to_string(),
        email: "u@t.com".to_string(),
        color: None,
        profile_picture: None,
        initials: None,
    }
}

fn make_task(name: &str, status: &str) -> Task {
    Task {
        id: name.to_lowercase(),
        custom_id: None,
        name: name.to_string(),
        description: None,
        text_content: None,
        status: TaskStatus { status: status.to_string(), color: "#ccc".to_string(), status_type: "custom".to_string() },
        orderindex: "0".to_string(),
        date_created: "0".to_string(),
        date_updated: "0".to_string(),
        date_closed: None,
        date_done: None,
        creator: Some(user()),
        assignees: vec![],
        priority: None,
        due_date: None,
        start_date: None,
        tags: vec![],
        list: Some(TaskList { id: "l".to_string(), name: None }),
        folder: Some(TaskFolder { id: "f".to_string(), name: None }),
        space: Some(TaskSpace { id: "s".to_string() }),
        url: String::new(),
        markdown_description: None,
        parent: None,
        subtasks: None,
        custom_fields: None,
        checklists: vec![],
        linked_tasks: vec![],
        dependencies: vec![],
        time_estimate: None,
        time_spent: None,
        watchers: vec![],
        attachments: vec![],
        points: None,
        permission_level: None,
    }
}

fn status(name: &str, color: &str, kind: &str, order: i32) -> Status {
    Status { id: None, status: name.to_string(), color: color.to_string(), status_type: kind.to_string(), orderindex: order }
}

fn space_with_statuses() -> Space {
    Space {
        id: "s1".to_string(),
        name: "Test".to_string(),
        private: false,
        color: None,
        avatar: None,
        statuses: vec![status("Open", "#ccc", "open", 0), status("Done", "#0f0", "closed", 1)],
        multiple_assignees: false,
        features: None,
    }
}

fn list(id: &str, name: &str) -> List {
    List {
        id: id.to_string(),
        name: name.to_string(),
        orderindex: 0,
        status: None,
        content: None,
        task_count: None,
        space: ListSpace { id: "s1".to_string() },
        folder: ListFolder { id: "f1".to_string(), name: None, hidden: None },
    }
}

fn folder(id: &str, name: &str, lists: Vec<List>) -> Folder {
    Folder {
        id: id.to_string(),
        name: name.to_string(),
        orderindex: 0,
        hidden: false,
        space: FolderSpace { id: "s1".to_string(), name: None },
        task_count: None,
        lists,
    }
}

fn workspace(id: &str, name: &str) -> Workspace {
    Workspace { id: id.to_string(), name: name.to_string(), color: None, avatar: None, members: vec![] }
}

fn names(items: &[SpaceContentItem]) -> Vec<String> {
    items.iter().map(|i| i.display_name().to_string()).collect()
}

#[test]
fn test_select_next_wraps() {
    let mut app = App::new();
    app.select_next(3);
    assert_eq!(app.selected_index, 1);
    app.select_next(3);
    assert_eq!(app.selected_index, 2);
    app.select_next(3);
    assert_eq!(app.selected_index, 0);
}

#[test]
fn test_select_previous_wraps() {
    let mut app = App::new();
    app.select_previous(3);
    assert_eq!(app.selected_index, 2);
    app.select_previous(3);
    assert_eq!(app.selected_index, 1);
}

#[test]
fn test_select_with_zero_max() {
    let mut app = App::new();
    app.select_next(0);
    assert_eq!(app.selected_index, 0);
    app.select_previous(0);
    assert_eq!(app.selected_index, 0);
}

#[test]
fn test_breadcrumb_push_pop() {
    let mut app = App::new();
    assert_eq!(app.breadcrumb, vec!["ClickUp"]);
    app.push_breadcrumb("Workspace");
    assert_eq!(app.breadcrumb, vec!["ClickUp", "Workspace"]);
    app.pop_breadcrumb();
    assert_eq!(app.breadcrumb, vec!["ClickUp"]);
    app.pop_breadcrumb();
    assert_eq!(app.breadcrumb, vec!["ClickUp"]);
}

#[test]
fn test_reset_selection() {
    let mut app = App::new();
    app.selected_index = 5;
    app.scroll_offset = 10;
    app.reset_selection();
    assert_eq!(app.selected_index, 0);
    assert_eq!(app.scroll_offset, 0);
}

#[test]
fn test_spinner_cycles() {
    let mut app = App::new();
    let first = app.spinner_char();
    app.tick(0);
    let second = app.spinner_char();
    assert_ne!(first, second);
}

#[test]
fn test_set_and_clear_error() {
    let mut app = App::new();
    app.set_error("oops".to_string(), 1000);
    assert!(app.error_message.is_some());
    assert!(app.error_set_at.is_some());
    app.clear_error();
    assert!(app.error_message.is_none());
    assert!(app.error_set_at.is_none());
}

#[test]
fn set_error_adds_hints() {
    let mut app = App::new();
    app.set_error("HTTP 401".to_string(), 0);
    assert_eq!(app.error_message.as_deref(), Some("HTTP 401 — run `clickup auth login` to re-authenticate"));
    app.set_error("request timed out".to_string(), 0);
    assert_eq!(app.error_message.as_deref(), Some("request timed out — check your connection and token"));
    app.set_error("boom".to_string(), 0);
    assert_eq!(app.error_message.as_deref(), Some("boom"));
}

#[test]
fn error_dismisses_after_five_seconds() {
    let mut app = App::new();
    app.set_error("boom".to_string(), 10_000);
    app.tick(14_999);
    assert!(app.error_message.is_some());
    app.tick(15_000);
    assert!(app.error_message.is_none());
}

#[test]
fn last_updated_label_by_age() {
    let mut app = App::new();
    assert_eq!(app.last_updated_label(0), "");
    app.last_updated = Some(1_000);
    assert_eq!(app.last_updated_label(30_000), "just now");
    assert_eq!(app.last_updated_label(90_000), "1 min ago");
    assert_eq!(app.last_updated_label(301_000), "5 min ago");
}

#[test]
fn test_view_mode_cycles() {
    let mode = ViewMode::List;
    assert_eq!(mode.next(), ViewMode::VisionSections);
    assert_eq!(mode.next().next(), ViewMode::VisionBoard);
    assert_eq!(mode.next().next().next(), ViewMode::List);
}

#[test]
fn test_view_mode_labels() {
    assert_eq!(ViewMode::List.label(), "List");
    assert_eq!(ViewMode::VisionSections.label(), "Vision (Sections)");
    assert_eq!(ViewMode::VisionBoard.label(), "Vision (Board)");
}

#[test]
fn test_reset_pagination() {
    let mut app = App::new();
    app.current_page = 3;
    app.has_more_pages = true;
    app.loading_more = true;
    app.reset_pagination();
    assert_eq!(app.current_page, 0);
    assert!(!app.has_more_pages);
    assert!(!app.loading_more);
}

#[test]
fn test_reset_vision_selection() {
    let mut app = App::new();
    app.focused_group = 2;
    app.group_selected_index = 5;
    app.reset_vision_selection();
    assert_eq!(app.focused_group, 0);
    assert_eq!(app.group_selected_index, 0);
}

#[test]
fn test_rebuild_status_groups_empty() {
    let mut app = App::new();
    app.rebuild_status_groups();
    assert!(app.status_groups.is_empty());
}

#[test]
fn test_rebuild_status_groups_with_space_statuses() {
    let mut app = App::new();
    app.current_space = Some(space_with_statuses());
    app.tasks = vec![make_task("Task 1", "Open"), make_task("Task 2", "Done"), make_task("Task 3", "Open")];
    app.rebuild_status_groups();
    assert_eq!(app.status_groups.len(), 2);
    assert_eq!(app.status_groups[0].name, "Open");
    assert_eq!(app.status_groups[0].task_indices, vec![0, 2]);
    assert_eq!(app.status_groups[1].name, "Done");
    assert_eq!(app.status_groups[1].task_indices, vec![1]);
}

#[test]
fn status_groups_add_unknown_statuses_after_space_statuses() {
    let mut app = App::new();
    app.current_space = Some(space_with_statuses());
    app.tasks = vec![make_task("A", "review"), make_task("B", "open"), make_task("C", "Review")];
    app.rebuild_status_groups();
    assert_eq!(app.status_groups.len(), 3);
    assert_eq!(app.status_groups[0].task_indices, vec![1]);
    assert!(app.status_groups[1].task_indices.is_empty());
    assert_eq!(app.status_groups[2].name, "review");
    assert_eq!(app.status_groups[2].color, "#808080");
    assert_eq!(app.status_groups[2].status_type, "custom");
    assert_eq!(app.status_groups[2].task_indices, vec![0, 2]);
    assert_eq!(app.total_grouped_tasks(), 3);
}

#[test]
fn test_view_mode_conversion_roundtrip() {
    let modes = [ViewMode::List, ViewMode::VisionSections, ViewMode::VisionBoard];
    for mode in modes {
        let config: ViewModeConfig = mode.into();
        let back: ViewMode = config.into();
        assert_eq!(mode, back);
    }
}

#[test]
fn filtered_indices_ignore_case() {
    let mut app = App::new();
    app.workspaces = vec![workspace("1", "Alpha Team"), workspace("2", "beta"), workspace("3", "ALPHABET")];
    app.filter_text = "alpha".to_string();
    assert_eq!(app.filtered_workspace_indices(), vec![0, 2]);
    app.filter_text = String::new();
    assert_eq!(app.filtered_workspace_indices(), vec![0, 1, 2]);
}

#[test]
fn space_content_keeps_expanded_folders() {
    let mut app = App::new();
    app.folders = vec![folder("f1", "Folder A", vec![list("l1", "List 1"), list("l2", "List 2")])];
    app.lists = vec![list("l3", "Loose")];
    app.rebuild_space_content();
    assert_eq!(names(&app.space_content), vec!["Folder A", "Loose"]);
    app.toggle_folder(0);
    assert_eq!(names(&app.space_content), vec!["Folder A", "List 1", "List 2", "Loose"]);
    app.rebuild_space_content();
    assert_eq!(names(&app.space_content), vec!["Folder A", "List 1", "List 2", "Loose"]);
    app.toggle_folder(0);
    assert_eq!(names(&app.space_content), vec!["Folder A", "Loose"]);
    app.toggle_folder(1);
    assert_eq!(names(&app.space_content), vec!["Folder A", "Loose"]);
}

#[test]
fn quit_keys() {
    let mut app = App::new();
    handle_key(&mut app, key(KeyCode::Char('q')));
    assert!(app.should_quit);
    let mut app = App::new();
    handle_key(&mut app, Key { code: KeyCode::Char('c'), ctrl: true });
    assert!(app.should_quit);
    let mut app = App::new();
    handle_key(&mut app, key(KeyCode::Char('c')));
    assert!(!app.should_quit);
}

#[test]
fn help_toggles_and_closes_on_any_key() {
    let mut app = App::new();
    handle_key(&mut app, key(KeyCode::Char('?')));
    assert!(app.show_help);
    handle_key(&mut app, key(KeyCode::Down));
    assert!(!app.show_help);
}

#[test]
fn navigation_from_workspaces_to_task_detail() {
    let mut app = App::new();
    handle_data(&mut app, DataPayload::Workspaces(vec![workspace("w1", "Work"), workspace("w2", "Home")]), 5);
    assert_eq!(app.screen, Screen::WorkspaceSelect);
    assert_eq!(app.last_updated, Some(5));
    handle_key(&mut app, key(KeyCode::Down));
    assert_eq!(app.selected_index, 1);
    let acts = handle_key(&mut app, key(KeyCode::Enter));
    assert_eq!(app.screen, Screen::SpaceList);
    assert!(app.loading);
    assert_eq!(app.breadcrumb, vec!["ClickUp", "Home"]);
    assert!(matches!(&acts[..], [Action::LoadSpaces { team_id }] if team_id == "w2"));

    handle_data(&mut app, DataPayload::Spaces(vec![space_with_statuses()]), 6);
    let acts = handle_key(&mut app, key(KeyCode::Enter));
    assert_eq!(app.screen, Screen::SpaceContent);
    assert!(matches!(&acts[..], [Action::LoadFoldersAndLists { space_id }] if space_id == "s1"));

    handle_data(&mut app, DataPayload::FoldersAndLists(vec![], vec![list("l9", "Backlog")]), 7);
    let acts = handle_key(&mut app, key(KeyCode::Enter));
    assert_eq!(app.screen, Screen::TaskList);
    assert!(matches!(&acts[..], [Action::LoadSavedFilters { list_id }] if list_id == "l9"));
    let acts = apply_saved_filters(&mut app, None);
    assert!(matches!(&acts[..], [Action::LoadTasksPage { list_id, page: 0, statuses, assignees, include_closed: false }]
        if list_id == "l9" && statuses.is_empty() && assignees.is_empty()));

    handle_data(&mut app, DataPayload::TasksPage { tasks: vec![make_task("One", "Open")], page: 0, last_page: true }, 8);
    let acts = handle_key(&mut app, key(KeyCode::Enter));
    assert_eq!(app.screen, Screen::TaskDetail);
    assert!(matches!(&acts[..], [Action::LoadTaskDetail { task_id }, Action::LoadComments { task_id: t2 }]
        if task_id == "one" && t2 == "one"));
    assert_eq!(app.breadcrumb, vec!["ClickUp", "Home", "Test", "Backlog", "One"]);

    handle_key(&mut app, key(KeyCode::Esc));
    assert_eq!(app.screen, Screen::TaskList);
    handle_key(&mut app, key(KeyCode::Esc));
    assert_eq!(app.screen, Screen::SpaceContent);
    assert!(app.tasks.is_empty());
    handle_key(&mut app, key(KeyCode::Esc));
    assert_eq!(app.screen, Screen::SpaceList);
    handle_key(&mut app, key(KeyCode::Esc));
    assert_eq!(app.screen, Screen::WorkspaceSelect);
    assert_eq!(app.breadcrumb, vec!["ClickUp"]);
}

#[test]
fn search_filters_and_resets_selection() {
    let mut app = App::new();
    handle_data(&mut app, DataPayload::Workspaces(vec![workspace("w1", "Work"), workspace("w2", "Home")]), 0);
    handle_key(&mut app, key(KeyCode::Char('/')));
    assert!(app.filter_active);
    handle_key(&mut app, key(KeyCode::Char('h')));
    handle_key(&mut app, key(KeyCode::Char('o')));
    assert_eq!(app.filter_text, "ho");
    handle_key(&mut app, key(KeyCode::Backspace));
    assert_eq!(app.filter_text, "h");
    handle_key(&mut app, key(KeyCode::Enter));
    assert!(!app.filter_active);
    assert_eq!(app.filtered_workspace_indices(), vec![1]);
    let acts = handle_key(&mut app, key(KeyCode::Enter));
    assert!(matches!(&acts[..], [Action::LoadSpaces { team_id }] if team_id == "w2"));
}

#[test]
fn refresh_reloads_the_current_level() {
    let mut app = App::new();
    handle_data(&mut app, DataPayload::Workspaces(vec![workspace("w1", "Work")]), 0);
    let acts = handle_key(&mut app, key(KeyCode::Char('r')));
    assert!(matches!(&acts[..], [Action::LoadWorkspaces]));
    assert!(app.loading);
}

#[test]
fn view_mode_key_saves_filters() {
    let mut app = App::new();
    app.screen = Screen::TaskList;
    app.current_list = Some(list("l1", "L"));
    let acts = handle_key(&mut app, key(KeyCode::Char('v')));
    assert_eq!(app.view_mode, ViewMode::VisionSections);
    assert!(matches!(&acts[..], [Action::SaveFilters { list_id, config }]
        if list_id == "l1" && config.view_mode == ViewModeConfig::VisionSections));
}

#[test]
fn me_mode_refetches_and_saves() {
    let mut app = App::new();
    app.screen = Screen::TaskList;
    app.current_list = Some(list("l1", "L"));
    app.current_user = Some(User { id: 42, ..user() });
    let acts = handle_key(&mut app, key(KeyCode::Char('m')));
    assert!(app.task_filters.me_mode);
    assert_eq!(acts.len(), 2);
    assert!(matches!(&acts[0], Action::LoadTasksPage { page: 0, assignees, .. } if assignees == &vec!["42".to_string()]));
    assert!(matches!(&acts[1], Action::SaveFilters { config, .. } if config.me_mode));
}

#[test]
fn filter_panel_toggles_priorities() {
    let mut app = App::new();
    app.screen = Screen::TaskList;
    app.current_list = Some(list("l1", "L"));
    handle_key(&mut app, key(KeyCode::Char('f')));
    assert!(app.filter_panel_open);
    handle_key(&mut app, key(KeyCode::Tab));
    handle_key(&mut app, key(KeyCode::Down));
    let acts = handle_key(&mut app, key(KeyCode::Enter));
    assert_eq!(app.task_filters.priorities, vec!["high"]);
    assert!(matches!(&acts[..], [Action::SaveFilters { .. }]));
    let acts = handle_key(&mut app, key(KeyCode::Char(' ')));
    assert!(app.task_filters.priorities.is_empty());
    assert_eq!(acts.len(), 1);
    handle_key(&mut app, key(KeyCode::Esc));
    assert!(!app.filter_panel_open);
}

#[test]
fn toggle_vec_item_ignores_case() {
    let mut v = vec!["Open".to_string(), "done".to_string()];
    toggle_vec_item(&mut v, "open");
    assert_eq!(v, vec!["done"]);
    toggle_vec_item(&mut v, "review");
    assert_eq!(v, vec!["done", "review"]);
}

#[test]
fn saved_filters_apply_view_mode() {
    let mut app = App::new();
    app.current_list = Some(list("l1", "L"));
    let cfg = ListFilterConfig { view_mode: ViewModeConfig::VisionBoard, include_closed: true, ..Default::default() };
    let acts = apply_saved_filters(&mut app, Some(cfg));
    assert_eq!(app.view_mode, ViewMode::VisionBoard);
    assert!(app.task_filters.include_closed);
    assert!(matches!(&acts[..], [Action::LoadTasksPage { include_closed: true, .. }]));
}

#[test]
fn vision_view_moves_between_groups() {
    let mut app = App::new();
    app.screen = Screen::TaskList;
    app.view_mode = ViewMode::VisionBoard;
    app.current_space = Some(space_with_statuses());
    app.tasks = vec![make_task("A", "Open"), make_task("B", "Done"), make_task("C", "Open")];
    app.rebuild_status_groups();
    handle_key(&mut app, key(KeyCode::Down));
    assert_eq!(app.group_selected_index, 1);
    handle_key(&mut app, key(KeyCode::Down));
    assert_eq!(app.group_selected_index, 0);
    handle_key(&mut app, key(KeyCode::Tab));
    assert_eq!(app.focused_group, 1);
    handle_key(&mut app, key(KeyCode::BackTab));
    assert_eq!(app.focused_group, 0);
    handle_key(&mut app, key(KeyCode::BackTab));
    assert_eq!(app.focused_group, 1);
    let acts = handle_key(&mut app, key(KeyCode::Enter));
    assert!(matches!(&acts[..], [Action::LoadTaskDetail { task_id }, _] if task_id == "b"));
}

#[test]
fn list_view_asks_for_next_page_near_the_bottom() {
    let mut app = App::new();
    app.screen = Screen::TaskList;
    app.current_list = Some(list("l1", "L"));
    app.tasks = vec![make_task("A", "Open"), make_task("B", "Open")];
    app.has_more_pages = true;
    app.current_page = 2;
    let acts = handle_key(&mut app, key(KeyCode::Down));
    assert!(app.loading_more);
    assert!(matches!(&acts[..], [Action::LoadTasksPage { page: 3, .. }]));
    let acts = handle_key(&mut app, key(KeyCode::Down));
    assert!(acts.is_empty());
}

#[test]
fn tasks_page_appends_after_first_page() {
    let mut app = App::new();
    handle_data(&mut app, DataPayload::TasksPage { tasks: vec![make_task("A", "x")], page: 0, last_page: false }, 0);
    app.selected_index = 0;
    handle_data(&mut app, DataPayload::TasksPage { tasks: vec![make_task("B", "x")], page: 1, last_page: true }, 1);
    assert_eq!(app.tasks.len(), 2);
    assert_eq!(app.current_page, 1);
    assert!(!app.has_more_pages);
    assert_eq!(app.status_groups.len(), 1);
}

#[test]
fn error_event_stops_loading() {
    let mut app = App::new();
    app.loading = true;
    termaup::event::handle_error(&mut app, "network down".to_string(), 3);
    assert!(!app.loading);
    assert_eq!(app.error_message.as_deref(), Some("network down — check your connection and token"));
}

#[test]
fn mouse_click_selects_rows() {
    let mut app = App::new();
    handle_data(&mut app, DataPayload::Workspaces(vec![workspace("w1", "A"), workspace("w2", "B")]), 0);
    handle_mouse(&mut app, true, 3, 2);
    assert_eq!(app.selected_index, 1);
    handle_mouse(&mut app, true, 9, 2);
    assert_eq!(app.selected_index, 1);
    handle_mouse(&mut app, false, 2, 2);
    assert_eq!(app.selected_index, 1);
}

#[test]
fn status_toggle_without_statuses_changes_nothing_and_does_not_refetch() {
    let mut app = App::new();
    app.screen = Screen::TaskList;
    app.current_list = Some(list("l1", "L"));
    handle_key(&mut app, key(KeyCode::Char('f')));
    assert!(app.filter_panel_open);
    let acts = handle_key(&mut app, key(KeyCode::Enter));
    assert!(app.task_filters.statuses.is_empty());
    assert!(!app.loading);
    assert!(matches!(&acts[..], [Action::SaveFilters { .. }]));
}

#[test]
fn tab_then_backtab_returns_to_the_same_group() {
    let mut app = App::new();
    app.screen = Screen::TaskList;
    app.view_mode = ViewMode::VisionSections;
    app.current_space = Some(space_with_statuses());
    app.tasks = vec![make_task("A", "Open"), make_task("B", "Done"), make_task("C", "Open")];
    app.rebuild_status_groups();
    for start in 0..app.status_groups.len() {
        app.focused_group = start;
        app.group_selected_index = 1;
        let a = handle_key(&mut app, key(KeyCode::Tab));
        let b = handle_key(&mut app, key(KeyCode::BackTab));
        assert!(a.is_empty() && b.is_empty());
        assert_eq!(app.focused_group, start);
        assert_eq!(app.group_selected_index, 0);
    }
}

#[test]
fn toggling_a_folder_twice_restores_the_content() {
    let mut app = App::new();
    app.folders = vec![
        folder("f1", "Folder A", vec![list("l1", "List 1")]),
        folder("f2", "Folder B", vec![list("l2", "List 2"), list("l3", "List 3")]),
    ];
    app.lists = vec![list("l4", "Loose")];
    app.rebuild_space_content();
    app.toggle_folder(0);
    let before = names(&app.space_content);
    assert_eq!(before, vec!["Folder A", "List 1", "Folder B", "Loose"]);
    app.toggle_folder(2);
    assert_eq!(names(&app.space_content), vec!["Folder A", "List 1", "Folder B", "List 2", "List 3", "Loose"]);
    app.toggle_folder(2);
    assert_eq!(names(&app.space_content), before);
}
