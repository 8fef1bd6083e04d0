use termaup::filter_config::{DueDateFilter, FilterFile, FilterStore, ListFilterConfig};
use termaup::filters::{config_from_filters, count_of, TaskFilters};
use termaup::models::{Tag, Task, TaskFolder, TaskList, TaskPriority, TaskSpace, TaskStatus, User};

fn make_task(name: &str, status: &str, priority: Option<&str>, due: Option<&str>) -> Task {
    Task {
        id: name.to_lowercase().replace(' ', "_"),
        custom_id: None,
        name: name.to_string(),
        description: None,
        text_content: None,
        status: TaskStatus { status: status.to_string(), color: "#ccc".to_string(), status_type: "open".to_string() },
        orderindex: "0".to_string(),
        date_created: "1710000000000".to_string(),
        date_updated: "1710000000000".to_string(),
        date_closed: None,
        date_done: None,
        creator: Some(User {
            id: 1,
            username: "test".to_string(),
            email: "test@test.com".to_string(),
            color: None,
            profile_picture: None,
            initials: None,
        }),
        assignees: vec![],
        priority: priority.map(|p| TaskPriority {
            id: Some("1".to_string()),
            priority: Some(p.to_string()),
            color: Some("#ccc".to_string()),
        }),
        due_date: due.map(|d| d.to_string()),
        start_date: None,
        tags: vec![],
        list: Some(TaskList { id: "l1".to_string(), name: None }),
        folder: Some(TaskFolder { id: "f1".to_string(), name: None }),
        space: Some(TaskSpace { id: "s1".to_string() }),
        url: String::new(),
        markdown_description: None,
        parent: None,
        subtasks: None,
        custom_fields: None,
        checklists: vec![],
        linked_tasks: vec![],
        dependencies: vec![],
        time_estimate: None,
        time_spent: None,
        watchers: vec![],
        attachments: vec![],
        points: None,
        permission_level: None,
    }
}

fn me() -> User {
    User {
        id: 42,
        username: "me".into(),
        email: "me@test.com".into(),
        color: None,
        profile_picture: None,
        initials: None,
    }
}

#[test]
fn test_empty_filters_match_all() {
    let filters = TaskFilters::default();
    let tasks = vec![make_task("Task 1", "open", Some("high"), None), make_task("Task 2", "closed", Some("low"), None)];
    let indices = filters.apply_client_filters(&tasks, 1710000000000);
    assert_eq!(indices, vec![0, 1]);
}

#[test]
fn test_priority_filter() {
    let filters = TaskFilters { priorities: vec!["high".into()], ..Default::default() };
    let tasks = vec![
        make_task("Task 1", "open", Some("high"), None),
        make_task("Task 2", "open", Some("low"), None),
        make_task("Task 3", "open", None, None),
    ];
    let indices = filters.apply_client_filters(&tasks, 0);
    assert_eq!(indices, vec![0]);
}

#[test]
fn test_priority_none_filter() {
    let filters = TaskFilters { priorities: vec!["none".into()], ..Default::default() };
    let tasks = vec![make_task("Task 1", "open", Some("high"), None), make_task("Task 2", "open", None, None)];
    let indices = filters.apply_client_filters(&tasks, 0);
    assert_eq!(indices, vec![1]);
}

#[test]
fn test_tag_filter() {
    let mut task1 = make_task("Task 1", "open", None, None);
    task1.tags = vec![Tag { name: "frontend".to_string(), tag_fg: None, tag_bg: None }];
    let task2 = make_task("Task 2", "open", None, None);
    let filters = TaskFilters { tags: vec!["frontend".into()], ..Default::default() };
    let tasks = vec![task1, task2];
    let indices = filters.apply_client_filters(&tasks, 0);
    assert_eq!(indices, vec![0]);
}

#[test]
fn test_due_date_overdue() {
    let now_ms = 1710100000000_i64;
    let filters = TaskFilters { due_date_filter: DueDateFilter::Overdue, ..Default::default() };
    let tasks = vec![
        make_task("Overdue", "open", None, Some("1710000000000")),
        make_task("Future", "open", None, Some("1711000000000")),
        make_task("No date", "open", None, None),
    ];
    let indices = filters.apply_client_filters(&tasks, now_ms);
    assert_eq!(indices, vec![0]);
}

#[test]
fn test_due_date_no_date() {
    let filters = TaskFilters { due_date_filter: DueDateFilter::NoDueDate, ..Default::default() };
    let tasks = vec![make_task("With date", "open", None, Some("1710000000000")), make_task("No date", "open", None, None)];
    let indices = filters.apply_client_filters(&tasks, 0);
    assert_eq!(indices, vec![1]);
}

#[test]
fn test_apply_all_with_text_search() {
    let filters = TaskFilters { priorities: vec!["high".into()], ..Default::default() };
    let tasks = vec![
        make_task("Login page", "open", Some("high"), None),
        make_task("Dashboard", "open", Some("high"), None),
        make_task("Settings", "open", Some("low"), None),
    ];
    let indices = filters.apply_all(&tasks, "dash", 0);
    assert_eq!(indices, vec![1]);
}

#[test]
fn test_server_assignees_with_me_mode() {
    let filters = TaskFilters { me_mode: true, assignees: vec!["999".into()], ..Default::default() };
    let assignees = filters.server_assignees(Some(&me()));
    assert_eq!(assignees, vec!["999", "42"]);
}

#[test]
fn test_server_assignees_me_mode_no_duplicate() {
    let filters = TaskFilters { me_mode: true, assignees: vec!["42".into()], ..Default::default() };
    let assignees = filters.server_assignees(Some(&me()));
    assert_eq!(assignees, vec!["42"]);
}

#[test]
fn server_assignees_without_me_mode_or_user() {
    let filters = TaskFilters { assignees: vec!["7".into()], ..Default::default() };
    assert_eq!(filters.server_assignees(Some(&me())), vec!["7"]);
    let filters = TaskFilters { me_mode: true, ..Default::default() };
    assert!(filters.server_assignees(None).is_empty());
}

#[test]
fn test_has_server_filters() {
    assert!(!TaskFilters::default().has_server_filters());
    assert!(TaskFilters { statuses: vec!["open".into()], ..Default::default() }.has_server_filters());
    assert!(TaskFilters { include_closed: true, ..Default::default() }.has_server_filters());
}

#[test]
fn client_filters_and_activity() {
    assert!(!TaskFilters::default().has_client_filters());
    assert!(TaskFilters { due_date_filter: DueDateFilter::Today, ..Default::default() }.has_client_filters());
    assert!(!TaskFilters::default().is_active());
    assert!(TaskFilters { me_mode: true, ..Default::default() }.is_active());
}

#[test]
fn test_count_by_status() {
    let tasks = vec![
        make_task("T1", "open", None, None),
        make_task("T2", "open", None, None),
        make_task("T3", "in progress", None, None),
    ];
    let indices = vec![0, 1, 2];
    let counts = TaskFilters::count_by_status(&tasks, &indices);
    assert_eq!(count_of(&counts, "open"), 2);
    assert_eq!(count_of(&counts, "in progress"), 1);
    assert_eq!(count_of(&counts, "done"), 0);
}

#[test]
fn test_from_list_filter_config() {
    let cfg = ListFilterConfig { statuses: vec!["open".into()], me_mode: true, ..Default::default() };
    let filters: TaskFilters = cfg.into();
    assert_eq!(filters.statuses, vec!["open"]);
    assert!(filters.me_mode);
}

#[test]
fn filters_survive_a_save_and_load() {
    let filters = TaskFilters {
        statuses: vec!["open".into()],
        tags: vec!["ui".into()],
        due_date_filter: DueDateFilter::ThisWeek,
        include_closed: true,
        ..Default::default()
    };
    let back: TaskFilters = config_from_filters(&filters).into();
    assert_eq!(back.statuses, filters.statuses);
    assert_eq!(back.tags, filters.tags);
    assert_eq!(back.due_date_filter, DueDateFilter::ThisWeek);
    assert!(back.include_closed);
}

#[test]
fn filter_store_reads_back_what_it_wrote() {
    let mut file = FilterFile::new();
    let cfg = ListFilterConfig { tags: vec!["x".into()], ..Default::default() };
    FilterStore::save(&mut file, "l1", &cfg);
    assert_eq!(FilterStore::load(&file, "l1").unwrap().tags, vec!["x"]);
    assert!(FilterStore::load(&file, "l2").is_none());
    FilterStore::remove(&mut file, "l1");
    assert!(FilterStore::load(&file, "l1").is_none());
}
