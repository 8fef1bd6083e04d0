//! Keyboard and mouse handling for the TUI: each handler updates the
//! application state and returns the background work it asks for as actions,
//! which the event loop performs.
use vstd::prelude::*;
use crate::app::{flipped, labels, name_filter, regenerated, items_same, App, Screen, SpaceContentItem, ViewMode};
use crate::filter_config::{strings_view, DueDateFilter, ListFilterConfig, ListFilterView, ViewModeConfig};
use crate::filter_panel::{section_item_count, spec_section_item_count, FilterPanelState, FilterSection};
use crate::filters::{assignees_for, config_from_filters, TaskFilters};
use crate::models::{space_same, workspace_same, List, Space, Status, Task, User, Workspace};
use crate::text::{chars_of, eq_ignore_ascii_case, str_eq_ignore_ascii_case, string_of};

verus! {

/// The key of a key press, as the handlers read it.
#[derive(Debug, Clone, Copy, PartialEq, Eq, Structural)]
pub enum KeyCode {
    /// A character key.
    Char(char),
    /// Enter.
    Enter,
    /// Escape.
    Esc,
    /// Backspace.
    Backspace,
    /// Tab.
    Tab,
    /// Shift-Tab.
    BackTab,
    /// Arrow up.
    Up,
    /// Arrow down.
    Down,
    /// Any other key.
    Other,
}

/// A key press: the key and whether Control was held.
#[derive(Debug, Clone, Copy, PartialEq, Eq, Structural)]
pub struct Key {
    /// The key.
    pub code: KeyCode,
    /// Whether the Control modifier was held.
    pub ctrl: bool,
}

/// Background work that a handler asks the event loop to perform.
#[derive(Debug)]
pub enum Action {
    /// Load the workspaces.
    LoadWorkspaces,
    /// Load the spaces of a workspace.
    LoadSpaces {
        /// Workspace ID.
        team_id: String,
    },
    /// Load the folders and folderless lists of a space.
    LoadFoldersAndLists {
        /// Space ID.
        space_id: String,
    },
    /// Load one page of a list's tasks with the server-side filters.
    LoadTasksPage {
        /// List ID.
        list_id: String,
        /// Page number (0-indexed).
        page: usize,
        /// Status names to include.
        statuses: Vec<String>,
        /// Assignee IDs to include.
        assignees: Vec<String>,
        /// Whether closed tasks are included.
        include_closed: bool,
    },
    /// Load a task's details.
    LoadTaskDetail {
        /// Task ID.
        task_id: String,
    },
    /// Load a task's comments.
    LoadComments {
        /// Task ID.
        task_id: String,
    },
    /// Read the filters saved for a list and hand them to `apply_saved_filters`.
    LoadSavedFilters {
        /// List ID.
        list_id: String,
    },
    /// Save a list's filters.
    SaveFilters {
        /// List ID.
        list_id: String,
        /// The configuration to save.
        config: ListFilterConfig,
    },
}

/// The key moves the selection down.
pub open spec fn is_down(key: Key) -> bool {
    key.code == KeyCode::Down || key.code == KeyCode::Char('j')
}

/// The key moves the selection up.
pub open spec fn is_up(key: Key) -> bool {
    key.code == KeyCode::Up || key.code == KeyCode::Char('k')
}

/// The workspaces shown, as indices, under the current search text.
pub open spec fn workspace_rows(app: App) -> Seq<usize> {
    name_filter(app.workspaces@.map_values(|w: Workspace| w.name@), app.filter_text@, app.workspaces@.len() as int)
}

/// The spaces shown, as indices, under the current search text.
pub open spec fn space_rows(app: App) -> Seq<usize> {
    name_filter(app.spaces@.map_values(|s: Space| s.name@), app.filter_text@, app.spaces@.len() as int)
}

/// The content items shown, as indices, under the current search text.
pub open spec fn content_rows(app: App) -> Seq<usize> {
    name_filter(app.space_content@.map_values(|c: SpaceContentItem| c.spec_display_name()), app.filter_text@,
        app.space_content@.len() as int)
}

/// The tasks shown, as indices, under the current search text.
pub open spec fn task_rows(app: App) -> Seq<usize> {
    name_filter(app.tasks@.map_values(|t: Task| t.name@), app.filter_text@, app.tasks@.len() as int)
}

/// The selection after an up or down key among `max` rows (wrapping); other keys keep it.
pub open spec fn navigated(app: App, key: Key, max: int) -> App {
    let sel = app.selected_index;
    let next = if max <= 0 {
        sel
    } else if is_down(key) {
        ((sel + 1) % max) as usize
    } else if is_up(key) {
        if sel == 0 { (max - 1) as usize } else { (sel - 1) as usize }
    } else {
        sel
    };
    App { selected_index: next, ..app }
}

/// The user ID of the current user, if one is loaded.
pub open spec fn user_id(user: Option<User>) -> Option<i64> {
    match user {
        Some(u) => Some(u.id),
        None => None,
    }
}

/// `a` asks for page `page` of list `list_id` with the filters of `app`.
pub open spec fn page_request(a: Action, list_id: Seq<char>, page: int, app: App) -> bool {
    &&& a matches Action::LoadTasksPage { list_id: l, page: p, statuses, assignees, include_closed }
    &&& l@ == list_id
    &&& p == page
    &&& strings_view(statuses@) == strings_view(app.task_filters.statuses@)
    &&& strings_view(assignees@) == assignees_for(app.task_filters, user_id(app.current_user))
    &&& include_closed == app.task_filters.include_closed
}

/// The saved form of the filters and view mode of `app`.
pub open spec fn saved_config(app: App) -> ListFilterView {
    let f = app.task_filters;
    ListFilterView {
        statuses: strings_view(f.statuses@),
        assignees: strings_view(f.assignees@),
        priorities: strings_view(f.priorities@),
        tags: strings_view(f.tags@),
        due_date_filter: f.due_date_filter,
        me_mode: f.me_mode,
        view_mode: <ViewModeConfig as vstd::std_specs::convert::FromSpec<ViewMode>>::from_spec(app.view_mode),
        include_closed: f.include_closed,
    }
}

/// `acts` saves the filters of `app` for its current list, or is empty when no
/// list is open.
pub open spec fn saves(acts: Seq<Action>, app: App) -> bool {
    match app.current_list {
        Some(l) => acts.len() == 1 && (acts[0] matches Action::SaveFilters { list_id, config }
            && list_id@ == l.id@ && config@ == saved_config(app)),
        None => acts.len() == 0,
    }
}

/// `acts` asks for the first page of the current list with the filters of
/// `app`, or is empty when no list is open.
pub open spec fn refetches(acts: Seq<Action>, app: App) -> bool {
    match app.current_list {
        Some(l) => acts.len() == 1 && page_request(acts[0], l.id@, 0, app),
        None => acts.len() == 0,
    }
}

/// The breadcrumb trail `after` is `before` with its last label popped, the
/// root label always kept.
pub open spec fn popped(before: Seq<String>, after: Seq<String>) -> bool {
    if before.len() > 1 {
        labels(after) == labels(before).drop_last()
    } else {
        labels(after) == labels(before)
    }
}

/// The counters of `app` are far from the integer limit, so that the
/// handlers' arithmetic on them cannot overflow.
pub open spec fn counters_ok(app: App) -> bool {
    &&& app.selected_index < usize::MAX
    &&& app.current_page < usize::MAX
    &&& app.focused_group < usize::MAX
    &&& app.group_selected_index < usize::MAX
    &&& app.filter_panel_state.cursor < usize::MAX
}

/// Every index held by a status group names a loaded task.
pub open spec fn groups_ok(app: App) -> bool {
    forall|g: int, k: int| 0 <= g < app.status_groups@.len() && 0 <= k < app.status_groups@[g].task_indices@.len()
        ==> #[trigger] app.status_groups@[g].task_indices@[k] < app.tasks@.len()
}

/// The selection lies within the rows the current screen shows (or there are
/// none), and in the Vision views the groups name loaded tasks.
pub open spec fn selection_ok(app: App) -> bool {
    match app.screen {
        Screen::WorkspaceSelect => workspace_rows(app).len() == 0 || app.selected_index < workspace_rows(app).len(),
        Screen::SpaceList => space_rows(app).len() == 0 || app.selected_index < space_rows(app).len(),
        Screen::SpaceContent => content_rows(app).len() == 0 || app.selected_index < content_rows(app).len(),
        Screen::TaskList => if app.view_mode == ViewMode::List {
            task_rows(app).len() == 0 || app.selected_index < task_rows(app).len()
        } else {
            groups_ok(app)
        },
        _ => true,
    }
}

/// The filter entries `name_filter` yields are below `n`.
pub proof fn lemma_rows_in_range(names: Seq<Seq<char>>, query: Seq<char>, n: int)
    ensures
        name_filter(names, query, n).len() <= if n < 0 { 0 } else { n },
        forall|k: int| 0 <= k < name_filter(names, query, n).len() ==> #[trigger] name_filter(names, query, n)[k] < n,
    decreases n,
{
    if n > 0 {
        lemma_rows_in_range(names, query, n - 1);
    }
}

/// The action that asks for page `page` of list `list_id` with the filters of `app`.
fn page_action(app: &App, list_id: &String, page: usize) -> (a: Action)
    ensures
        page_request(a, list_id@, page as int, *app),
{
    let statuses = crate::filter_config::copy_strings(&app.task_filters.statuses);
    let assignees = app.task_filters.server_assignees(app.current_user.as_ref());
    Action::LoadTasksPage {
        list_id: list_id.clone(),
        page,
        statuses,
        assignees,
        include_closed: app.task_filters.include_closed,
    }
}

/// Saves current filters to persistent storage: asks to save the filters and
/// view mode of the current list, if a list is open.
fn save_filters(app: &App) -> (r: Vec<Action>)
    ensures
        saves(r@, *app),
{
    let mut out: Vec<Action> = Vec::new();
    if let Some(list) = &app.current_list {
        let mut config = config_from_filters(&app.task_filters);
        config.view_mode = ViewModeConfig::from(app.view_mode);
        out.push(Action::SaveFilters { list_id: list.id.clone(), config });
    }
    out
}

/// Re-fetches tasks from page 0 with current filters: resets pagination and
/// asks for the first page, if a list is open.
fn refetch_tasks(app: &mut App) -> (r: Vec<Action>)
    ensures
        old(app).current_list is Some ==> *final(app) == (App { loading: true, current_page: 0,
            has_more_pages: false, loading_more: false, ..*old(app) }),
        old(app).current_list is None ==> *final(app) == *old(app),
        refetches(r@, *final(app)),
{
    let mut out: Vec<Action> = Vec::new();
    if let Some(list) = &app.current_list {
        let id = list.id.clone();
        app.loading = true;
        app.reset_pagination();
        out.push(page_action(app, &id, 0));
    }
    out
}

/// What typing into the search bar does to `pre`.
pub open spec fn filter_input_post(pre: App, post: App, key: Key) -> bool {
    match key.code {
        KeyCode::Esc => post.filter_text@.len() == 0
            && post == (App { filter_active: false, filter_text: post.filter_text, selected_index: 0, ..pre }),
        KeyCode::Enter => post == (App { filter_active: false, selected_index: 0, ..pre }),
        KeyCode::Backspace => post.filter_text@ == (if pre.filter_text@.len() > 0 { pre.filter_text@.drop_last() } else { pre.filter_text@ })
            && post == (App { filter_text: post.filter_text, selected_index: 0, ..pre }),
        KeyCode::Char(c) => post.filter_text@ == pre.filter_text@.push(c)
            && post == (App { filter_text: post.filter_text, selected_index: 0, ..pre }),
        _ => post == pre,
    }
}

/// Handles a key while the search bar is active: Esc cancels the search,
/// Enter confirms it, Backspace and characters edit the search text.
fn handle_filter_input(app: &mut App, key: Key)
    ensures
        filter_input_post(*old(app), *final(app), key),
{
    match key.code {
        KeyCode::Esc => {
            app.cancel_filter();
        },
        KeyCode::Enter => {
            app.confirm_filter();
        },
        KeyCode::Backspace => {
            let mut text = chars_of(app.filter_text.as_str());
            if text.len() > 0 {
                text.pop();
            }
            app.filter_text = string_of(&text);
            app.selected_index = 0;
        },
        KeyCode::Char(c) => {
            let mut text = chars_of(app.filter_text.as_str());
            text.push(c);
            app.filter_text = string_of(&text);
            app.selected_index = 0;
        },
        _ => {},
    }
}

/// Moves the selection among `max` rows on an up or down key.
fn navigate(app: &mut App, key: Key, max: usize)
    requires
        is_down(key) && max > 0 ==> old(app).selected_index < usize::MAX,
    ensures
        *final(app) == navigated(*old(app), key, max as int),
{
    match key.code {
        KeyCode::Down | KeyCode::Char('j') => {
            app.select_next(max);
        },
        KeyCode::Up | KeyCode::Char('k') => {
            app.select_previous(max);
        },
        _ => {},
    }
}

/// What a key does on the task detail screen.
pub open spec fn task_detail_post(pre: App, post: App, key: Key) -> bool {
    if key.code == KeyCode::Esc {
        &&& popped(pre.breadcrumb@, post.breadcrumb@)
        &&& post.comments@.len() == 0
        &&& post == (App { breadcrumb: post.breadcrumb, current_task: None, comments: post.comments,
                selected_index: pre.saved_task_index, scroll_offset: 0, screen: Screen::TaskList, ..pre })
    } else if is_down(key) {
        post == (App { scroll_offset: if pre.scroll_offset == u16::MAX { u16::MAX } else { (pre.scroll_offset + 1) as u16 }, ..pre })
    } else if is_up(key) {
        post == (App { scroll_offset: if pre.scroll_offset == 0 { 0 } else { (pre.scroll_offset - 1) as u16 }, ..pre })
    } else {
        post == pre
    }
}

/// Handles a key on the task detail screen: Esc goes back to the task list,
/// up and down scroll.
fn handle_task_detail(app: &mut App, key: Key)
    ensures
        task_detail_post(*old(app), *final(app), key),
{
    match key.code {
        KeyCode::Esc => {
            app.pop_breadcrumb();
            app.current_task = None;
            app.comments.clear();
            app.selected_index = app.saved_task_index;
            app.scroll_offset = 0;
            app.screen = Screen::TaskList;
        },
        KeyCode::Down | KeyCode::Char('j') => {
            app.scroll_offset = if app.scroll_offset == u16::MAX { u16::MAX } else { app.scroll_offset + 1 };
        },
        KeyCode::Up | KeyCode::Char('k') => {
            app.scroll_offset = if app.scroll_offset == 0 { 0 } else { app.scroll_offset - 1 };
        },
        _ => {},
    }
}

/// The selection after a click on row `row` of a list of `count` rows.
pub open spec fn clicked(app: App, row: int, count: int) -> App {
    if row < count { App { selected_index: row as usize, ..app } } else { app }
}

/// What a mouse event does: a left click on a row of a list screen selects
/// that row (the task list has a header row), a left click on the task detail
/// screen clears the error; nothing else changes anything.
pub open spec fn mouse_post(pre: App, post: App, left_click: bool, row: u16, content_y_offset: u16) -> bool {
    let r: int = if row >= content_y_offset { row - content_y_offset } else { 0 };
    if !left_click {
        post == pre
    } else {
        match pre.screen {
            Screen::WorkspaceSelect => post == clicked(pre, r, workspace_rows(pre).len() as int),
            Screen::SpaceList => post == clicked(pre, r, space_rows(pre).len() as int),
            Screen::SpaceContent => post == clicked(pre, r, content_rows(pre).len() as int),
            Screen::TaskList => post == clicked(pre, if r >= 1 { r - 1 } else { 0 }, task_rows(pre).len() as int),
            Screen::TaskDetail => post == (App { error_message: None, error_set_at: None, ..pre }),
            Screen::Loading => post == pre,
        }
    }
}

/// Handles mouse events — click to select items. `left_click` tells whether the
/// event is a press of the left button, `row` is the terminal row of the event
/// and `content_y_offset` the row where the content area starts.
pub fn handle_mouse(app: &mut App, left_click: bool, row: u16, content_y_offset: u16)
    ensures
        mouse_post(*old(app), *final(app), left_click, row, content_y_offset),
{
    if left_click {
        let r: usize = if row >= content_y_offset { (row - content_y_offset) as usize } else { 0 };
        match app.screen {
            Screen::WorkspaceSelect => {
                let indices = app.filtered_workspace_indices();
                if r < indices.len() {
                    app.selected_index = r;
                }
            },
            Screen::SpaceList => {
                let indices = app.filtered_space_indices();
                if r < indices.len() {
                    app.selected_index = r;
                }
            },
            Screen::SpaceContent => {
                let indices = app.filtered_content_indices();
                if r < indices.len() {
                    app.selected_index = r;
                }
            },
            Screen::TaskList => {
                let task_row: usize = if r >= 1 { r - 1 } else { 0 };
                let indices = app.filtered_task_indices();
                if task_row < indices.len() {
                    app.selected_index = task_row;
                }
            },
            Screen::TaskDetail => {
                app.clear_error();
            },
            Screen::Loading => {},
        }
    }
}

/// What a key does on the workspace list.
pub open spec fn workspace_select_post(pre: App, post: App, key: Key, acts: Seq<Action>) -> bool {
    let rows = workspace_rows(pre);
    let nav = navigated(pre, key, rows.len() as int);
    if key.code == KeyCode::Enter && rows.len() > 0 {
        let ws = pre.workspaces@[rows[pre.selected_index as int] as int];
        &&& post.filter_text@.len() == 0
        &&& labels(post.breadcrumb@) == labels(pre.breadcrumb@).push(ws.name@)
        &&& (post.current_workspace matches Some(w) && workspace_same(w, ws))
        &&& post == (App { filter_active: false, filter_text: post.filter_text, breadcrumb: post.breadcrumb,
                current_workspace: post.current_workspace, selected_index: 0, scroll_offset: 0,
                screen: Screen::SpaceList, loading: true, ..nav })
        &&& acts.len() == 1
        &&& (acts[0] matches Action::LoadSpaces { team_id } && team_id@ == ws.id@)
    } else if key.code == KeyCode::Char('r') {
        post == (App { loading: true, ..nav }) && acts.len() == 1 && acts[0] is LoadWorkspaces
    } else {
        post == nav && acts.len() == 0
    }
}

/// Handles a key on the workspace list: up and down move, Enter opens the
/// selected workspace's spaces, `r` reloads the workspaces.
fn handle_workspace_select(app: &mut App, key: Key) -> (r: Vec<Action>)
    requires
        old(app).selected_index < usize::MAX,
        key.code == KeyCode::Enter ==> workspace_rows(*old(app)).len() == 0
            || old(app).selected_index < workspace_rows(*old(app)).len(),
    ensures
        workspace_select_post(*old(app), *final(app), key, r@),
{
    let indices = app.filtered_workspace_indices();
    navigate(app, key, indices.len());
    let mut out: Vec<Action> = Vec::new();
    match key.code {
        KeyCode::Enter => {
            if indices.len() > 0 {
                proof {
                    lemma_rows_in_range(app.workspaces@.map_values(|w: Workspace| w.name@), app.filter_text@,
                        app.workspaces@.len() as int);
                }
                let real_idx = indices[app.selected_index];
                let ws = app.workspaces[real_idx].clone();
                app.cancel_filter();
                app.push_breadcrumb(ws.name.as_str());
                let id = ws.id.clone();
                app.current_workspace = Some(ws);
                app.reset_selection();
                app.screen = Screen::SpaceList;
                app.loading = true;
                out.push(Action::LoadSpaces { team_id: id });
            }
        },
        KeyCode::Char('r') => {
            app.loading = true;
            out.push(Action::LoadWorkspaces);
        },
        _ => {},
    }
    out
}

/// What a key does on the space list.
pub open spec fn space_list_post(pre: App, post: App, key: Key, acts: Seq<Action>) -> bool {
    let rows = space_rows(pre);
    let nav = navigated(pre, key, rows.len() as int);
    if key.code == KeyCode::Esc {
        &&& post.filter_text@.len() == 0
        &&& popped(pre.breadcrumb@, post.breadcrumb@)
        &&& post == (App { filter_active: false, filter_text: post.filter_text, breadcrumb: post.breadcrumb,
                selected_index: 0, scroll_offset: 0, screen: Screen::WorkspaceSelect, ..nav })
        &&& acts.len() == 0
    } else if key.code == KeyCode::Enter && rows.len() > 0 {
        let space = pre.spaces@[rows[pre.selected_index as int] as int];
        &&& post.filter_text@.len() == 0
        &&& labels(post.breadcrumb@) == labels(pre.breadcrumb@).push(space.name@)
        &&& (post.current_space matches Some(s) && space_same(s, space))
        &&& post == (App { filter_active: false, filter_text: post.filter_text, breadcrumb: post.breadcrumb,
                current_space: post.current_space, selected_index: 0, scroll_offset: 0,
                screen: Screen::SpaceContent, loading: true, ..nav })
        &&& acts.len() == 1
        &&& (acts[0] matches Action::LoadFoldersAndLists { space_id } && space_id@ == space.id@)
    } else if key.code == KeyCode::Char('r') && pre.current_workspace is Some {
        &&& post == (App { loading: true, ..nav })
        &&& acts.len() == 1
        &&& (acts[0] matches Action::LoadSpaces { team_id } && team_id@ == pre.current_workspace->0.id@)
    } else {
        post == nav && acts.len() == 0
    }
}

/// Handles a key on the space list: up and down move, Esc goes back to the
/// workspaces (the spaces stay loaded), Enter opens the selected space's
/// folders and lists, `r` reloads the spaces.
fn handle_space_list(app: &mut App, key: Key) -> (r: Vec<Action>)
    requires
        old(app).selected_index < usize::MAX,
        key.code == KeyCode::Enter ==> space_rows(*old(app)).len() == 0
            || old(app).selected_index < space_rows(*old(app)).len(),
    ensures
        space_list_post(*old(app), *final(app), key, r@),
{
    let indices = app.filtered_space_indices();
    navigate(app, key, indices.len());
    let mut out: Vec<Action> = Vec::new();
    match key.code {
        KeyCode::Esc => {
            app.cancel_filter();
            app.pop_breadcrumb();
            app.reset_selection();
            app.screen = Screen::WorkspaceSelect;
        },
        KeyCode::Enter => {
            if indices.len() > 0 {
                proof {
                    lemma_rows_in_range(app.spaces@.map_values(|s: Space| s.name@), app.filter_text@,
                        app.spaces@.len() as int);
                }
                let real_idx = indices[app.selected_index];
                let space = app.spaces[real_idx].clone();
                app.cancel_filter();
                app.push_breadcrumb(space.name.as_str());
                let id = space.id.clone();
                app.current_space = Some(space);
                app.reset_selection();
                app.screen = Screen::SpaceContent;
                app.loading = true;
                out.push(Action::LoadFoldersAndLists { space_id: id });
            }
        },
        KeyCode::Char('r') => {
            if let Some(ws) = &app.current_workspace {
                let id = ws.id.clone();
                app.loading = true;
                out.push(Action::LoadSpaces { team_id: id });
            }
        },
        _ => {},
    }
    out
}

/// The list an item of the space content opens, if it is a list.
pub open spec fn item_list(item: SpaceContentItem) -> Option<List> {
    match item {
        SpaceContentItem::ListInFolder { list, .. } => Some(list),
        SpaceContentItem::FolderlessList { list } => Some(list),
        SpaceContentItem::FolderItem { .. } => None,
    }
}

/// What a key does on the space content screen.
pub open spec fn space_content_post(pre: App, post: App, key: Key, acts: Seq<Action>) -> bool {
    let rows = content_rows(pre);
    let nav = navigated(pre, key, rows.len() as int);
    if key.code == KeyCode::Esc {
        &&& post.filter_text@.len() == 0
        &&& popped(pre.breadcrumb@, post.breadcrumb@)
        &&& post.space_content@.len() == 0
        &&& post == (App { filter_active: false, filter_text: post.filter_text, breadcrumb: post.breadcrumb,
                selected_index: 0, scroll_offset: 0, space_content: post.space_content,
                screen: Screen::SpaceList, ..nav })
        &&& acts.len() == 0
    } else if key.code == KeyCode::Enter && rows.len() > 0 {
        let at = rows[pre.selected_index as int] as int;
        match item_list(pre.space_content@[at]) {
            None => {
                &&& items_same(post.space_content@, regenerated(flipped(pre.space_content@, at)))
                &&& post == (App { space_content: post.space_content, ..nav })
                &&& acts.len() == 0
            },
            Some(list) => {
                &&& post.filter_text@.len() == 0
                &&& labels(post.breadcrumb@) == labels(pre.breadcrumb@).push(list.name@)
                &&& post == (App { saved_content_index: pre.selected_index, filter_active: false,
                        filter_text: post.filter_text, breadcrumb: post.breadcrumb, current_list: Some(list),
                        selected_index: 0, scroll_offset: 0, current_page: 0, has_more_pages: false,
                        loading_more: false, screen: Screen::TaskList, loading: true, ..nav })
                &&& acts.len() == 1
                &&& (acts[0] matches Action::LoadSavedFilters { list_id } && list_id@ == list.id@)
            },
        }
    } else if key.code == KeyCode::Char('r') && pre.current_space is Some {
        &&& post == (App { loading: true, ..nav })
        &&& acts.len() == 1
        &&& (acts[0] matches Action::LoadFoldersAndLists { space_id } && space_id@ == pre.current_space->0.id@)
    } else {
        post == nav && acts.len() == 0
    }
}

/// Handles a key on the space content screen: up and down move, Esc goes back
/// to the spaces, Enter expands or collapses the selected folder or opens the
/// selected list (its saved filters are read first, see
/// `apply_saved_filters`), `r` reloads the folders and lists.
fn handle_space_content(app: &mut App, key: Key) -> (r: Vec<Action>)
    requires
        old(app).selected_index < usize::MAX,
        key.code == KeyCode::Enter ==> content_rows(*old(app)).len() == 0
            || old(app).selected_index < content_rows(*old(app)).len(),
    ensures
        space_content_post(*old(app), *final(app), key, r@),
{
    let indices = app.filtered_content_indices();
    navigate(app, key, indices.len());
    let mut out: Vec<Action> = Vec::new();
    match key.code {
        KeyCode::Esc => {
            app.cancel_filter();
            app.pop_breadcrumb();
            app.reset_selection();
            app.space_content.clear();
            app.screen = Screen::SpaceList;
        },
        KeyCode::Enter => {
            if indices.len() > 0 {
                proof {
                    lemma_rows_in_range(app.space_content@.map_values(|c: SpaceContentItem| c.spec_display_name()),
                        app.filter_text@, app.space_content@.len() as int);
                }
                let real_idx = indices[app.selected_index];
                let opened: Option<List> = match &app.space_content[real_idx] {
                    SpaceContentItem::FolderItem { .. } => None,
                    SpaceContentItem::ListInFolder { list, .. } => Some(list.clone()),
                    SpaceContentItem::FolderlessList { list } => Some(list.clone()),
                };
                match opened {
                    None => {
                        app.toggle_folder(real_idx);
                    },
                    Some(list) => {
                        app.saved_content_index = app.selected_index;
                        app.cancel_filter();
                        app.push_breadcrumb(list.name.as_str());
                        let id = list.id.clone();
                        app.current_list = Some(list);
                        app.reset_selection();
                        app.reset_pagination();
                        app.screen = Screen::TaskList;
                        app.loading = true;
                        out.push(Action::LoadSavedFilters { list_id: id });
                    },
                }
            }
        },
        KeyCode::Char('r') => {
            if let Some(space) = &app.current_space {
                let id = space.id.clone();
                app.loading = true;
                out.push(Action::LoadFoldersAndLists { space_id: id });
            }
        },
        _ => {},
    }
    out
}

/// The filters of `f` are the defaults: nothing filtered.
pub open spec fn default_filters(f: TaskFilters) -> bool {
    &&& f.statuses@.len() == 0
    &&& f.assignees@.len() == 0
    &&& f.priorities@.len() == 0
    &&& f.tags@.len() == 0
    &&& f.due_date_filter == DueDateFilter::All
    &&& !f.me_mode
    &&& !f.include_closed
}

/// Applies the filters saved for the list just opened (`None` when none were
/// saved or they could not be read: the defaults apply), then asks for the
/// first page of the list's tasks with them.
pub fn apply_saved_filters(app: &mut App, saved: Option<ListFilterConfig>) -> (r: Vec<Action>)
    ensures
        match saved {
            Some(cfg) => final(app).task_filters == <TaskFilters as vstd::std_specs::convert::FromSpec<ListFilterConfig>>::from_spec(cfg)
                && final(app).view_mode == <ViewMode as vstd::std_specs::convert::FromSpec<ViewModeConfig>>::from_spec(cfg.view_mode),
            None => default_filters(final(app).task_filters) && final(app).view_mode == ViewMode::List,
        },
        *final(app) == (App { task_filters: final(app).task_filters, view_mode: final(app).view_mode, ..*old(app) }),
        refetches(r@, *final(app)),
{
    match saved {
        Some(cfg) => {
            app.view_mode = ViewMode::from(cfg.view_mode);
            app.task_filters = TaskFilters::from(cfg);
        },
        None => {
            app.task_filters = TaskFilters::default();
            app.view_mode = ViewMode::default();
        },
    }
    let mut out: Vec<Action> = Vec::new();
    if let Some(list) = &app.current_list {
        let id = list.id.clone();
        out.push(page_action(app, &id, 0));
    }
    out
}

/// `acts` asks for the details and then the comments of `task`.
pub open spec fn opens_task(acts: Seq<Action>, task: Task) -> bool {
    &&& acts.len() == 2
    &&& (acts[0] matches Action::LoadTaskDetail { task_id } && task_id@ == task.id@)
    &&& (acts[1] matches Action::LoadComments { task_id } && task_id@ == task.id@)
}

/// Leaving the task list for the space content: the search is cancelled, the
/// breadcrumb popped, the tasks and the list dropped, the selection restored
/// and pagination reset.
pub open spec fn left_task_list(pre: App, post: App) -> bool {
    &&& post.filter_text@.len() == 0
    &&& popped(pre.breadcrumb@, post.breadcrumb@)
    &&& post.tasks@.len() == 0
    &&& post.status_groups@.len() == 0
}

/// What the key itself does on the task list in list view, from `mid` (the
/// state after moving the selection and asking for the next page).
pub open spec fn task_list_key_post(mid: App, post: App, key: Key, rows: Seq<usize>, acts: Seq<Action>) -> bool {
    if key.code == KeyCode::Esc {
        &&& left_task_list(mid, post)
        &&& post == (App { filter_active: false, filter_text: post.filter_text, breadcrumb: post.breadcrumb,
                tasks: post.tasks, status_groups: post.status_groups, current_list: None,
                selected_index: mid.saved_content_index, current_page: 0, has_more_pages: false, loading_more: false,
                screen: Screen::SpaceContent, ..mid })
        &&& acts.len() == 0
    } else if key.code == KeyCode::Enter && rows.len() > 0 {
        let task = mid.tasks@[rows[mid.selected_index as int] as int];
        &&& post.filter_text@.len() == 0
        &&& labels(post.breadcrumb@) == labels(mid.breadcrumb@).push(task.name@)
        &&& post == (App { saved_task_index: mid.selected_index, filter_active: false, filter_text: post.filter_text,
                breadcrumb: post.breadcrumb, selected_index: 0, scroll_offset: 0, screen: Screen::TaskDetail,
                loading: true, ..mid })
        &&& opens_task(acts, task)
    } else if key.code == KeyCode::Char('r') && mid.current_list is Some {
        &&& post == (App { loading: true, current_page: 0, has_more_pages: false, loading_more: false, ..mid })
        &&& refetches(acts, post)
    } else {
        post == mid && acts.len() == 0
    }
}

/// Moving near the bottom of the task list asks for the next page, when there
/// is one and none is loading.
pub open spec fn wants_next_page(nav: App, rows: Seq<usize>) -> bool {
    &&& nav.has_more_pages
    &&& !nav.loading_more
    &&& rows.len() > 0
    &&& nav.selected_index + 5 >= rows.len()
    &&& nav.current_list is Some
}

/// What a key does on the task list in list view.
pub open spec fn task_list_view_post(pre: App, post: App, key: Key, acts: Seq<Action>) -> bool {
    let rows = task_rows(pre);
    let nav = navigated(pre, key, rows.len() as int);
    if wants_next_page(nav, rows) {
        let mid = App { loading_more: true, ..nav };
        &&& acts.len() >= 1
        &&& page_request(acts[0], nav.current_list->0.id@, nav.current_page + 1, mid)
        &&& task_list_key_post(mid, post, key, rows, acts.subrange(1, acts.len() as int))
    } else {
        task_list_key_post(nav, post, key, rows, acts)
    }
}

/// Handles a key on the task list in list view: up and down move (asking for
/// the next page near the bottom), Esc goes back to the space content, Enter
/// opens the selected task, `r` reloads the first page.
fn handle_task_list_view(app: &mut App, key: Key) -> (r: Vec<Action>)
    requires
        counters_ok(*old(app)),
        key.code == KeyCode::Enter ==> task_rows(*old(app)).len() == 0
            || old(app).selected_index < task_rows(*old(app)).len(),
    ensures
        task_list_view_post(*old(app), *final(app), key, r@),
{
    let ghost pre = *app;
    let indices = app.filtered_task_indices();
    navigate(app, key, indices.len());
    let ghost nav = *app;
    let mut out: Vec<Action> = Vec::new();
    if app.has_more_pages && !app.loading_more && indices.len() > 0 && (indices.len() <= 5 || app.selected_index >= indices.len() - 5) {
        if let Some(list) = &app.current_list {
            let id = list.id.clone();
            app.loading_more = true;
            out.push(page_action(app, &id, app.current_page + 1));
        }
    }
    let ghost mid = *app;
    let ghost n1 = out@.len();
    match key.code {
        KeyCode::Esc => {
            app.cancel_filter();
            app.pop_breadcrumb();
            app.clear_tasks();
            app.current_list = None;
            app.selected_index = app.saved_content_index;
            app.reset_pagination();
            app.screen = Screen::SpaceContent;
        },
        KeyCode::Enter => {
            if indices.len() > 0 {
                proof {
                    lemma_rows_in_range(app.tasks@.map_values(|t: Task| t.name@), app.filter_text@,
                        app.tasks@.len() as int);
                }
                let real_idx = indices[app.selected_index];
                let id = app.tasks[real_idx].id.clone();
                let name = app.tasks[real_idx].name.clone();
                app.saved_task_index = app.selected_index;
                app.cancel_filter();
                app.push_breadcrumb(name.as_str());
                app.reset_selection();
                app.screen = Screen::TaskDetail;
                app.loading = true;
                out.push(Action::LoadTaskDetail { task_id: id.clone() });
                out.push(Action::LoadComments { task_id: id });
            }
        },
        KeyCode::Char('r') => {
            if app.current_list.is_some() {
                app.loading = true;
                app.reset_pagination();
                let mut more = refetch_tasks(app);
                out.append(&mut more);
            }
        },
        _ => {},
    }
    proof {
        assert(out@.subrange(0, n1 as int) =~= out@.subrange(0, n1 as int));
        if n1 == 0 {
            assert(out@.subrange(0, out@.len() as int) =~= out@);
        }
    }
    out
}

/// Near the end of the last status group, the Vision views ask for the next
/// page, when there is one and none is loading.
pub open spec fn vision_wants_next_page(app: App) -> bool {
    let num = app.status_groups@.len();
    let fg = app.focused_group as int;
    &&& app.has_more_pages
    &&& !app.loading_more
    &&& fg + 1 >= num
    &&& fg < num
    &&& (app.status_groups@[fg].task_indices@.len() == 0
        || app.group_selected_index + 3 >= app.status_groups@[fg].task_indices@.len())
    &&& app.current_list is Some
}

/// What the check for the next page does in the Vision views.
pub open spec fn vision_page_post(pre: App, post: App, acts: Seq<Action>) -> bool {
    if vision_wants_next_page(pre) {
        &&& post == (App { loading_more: true, ..pre })
        &&& acts.len() == 1
        &&& page_request(acts[0], pre.current_list->0.id@, pre.current_page + 1, post)
    } else {
        post == pre && acts.len() == 0
    }
}

/// Check if we need to auto-load the next page in vision views.
fn check_vision_pagination(app: &mut App) -> (r: Vec<Action>)
    requires
        old(app).current_page < usize::MAX,
        old(app).focused_group < usize::MAX,
    ensures
        vision_page_post(*old(app), *final(app), r@),
{
    let mut out: Vec<Action> = Vec::new();
    if !app.has_more_pages || app.loading_more {
        return out;
    }
    if app.focused_group + 1 >= app.status_groups.len() && app.focused_group < app.status_groups.len() {
        let len = app.status_groups[app.focused_group].task_indices.len();
        if len == 0 || len <= 3 || app.group_selected_index >= len - 3 {
            if let Some(list) = &app.current_list {
                let id = list.id.clone();
                app.loading_more = true;
                out.push(page_action(app, &id, app.current_page + 1));
            }
        }
    }
    out
}

/// The size of the focused status group, if the focus is on one.
pub open spec fn focused_size(app: App) -> Option<int> {
    if app.focused_group < app.status_groups@.len() {
        Some(app.status_groups@[app.focused_group as int].task_indices@.len() as int)
    } else {
        None
    }
}

/// What a key does on the task list in the Vision views.
pub open spec fn vision_post(pre: App, post: App, key: Key, acts: Seq<Action>) -> bool {
    let num = pre.status_groups@.len() as int;
    let fg = pre.focused_group as int;
    let gs = pre.group_selected_index as int;
    if key.code == KeyCode::Tab {
        &&& post == (if num > 0 { App { focused_group: ((fg + 1) % num) as usize, group_selected_index: 0, ..pre } } else { pre })
        &&& acts.len() == 0
    } else if key.code == KeyCode::BackTab {
        &&& post == (if num > 0 {
                App { focused_group: (if fg == 0 { num - 1 } else { fg - 1 }) as usize, group_selected_index: 0, ..pre }
            } else { pre })
        &&& acts.len() == 0
    } else if is_down(key) {
        let mid = match focused_size(pre) {
            Some(max) if max > 0 => App { group_selected_index: ((gs + 1) % max) as usize, ..pre },
            _ => pre,
        };
        vision_page_post(mid, post, acts)
    } else if is_up(key) {
        &&& post == (match focused_size(pre) {
                Some(max) => if max > 0 && gs == 0 {
                    App { group_selected_index: (max - 1) as usize, ..pre }
                } else if gs > 0 {
                    App { group_selected_index: (gs - 1) as usize, ..pre }
                } else {
                    pre
                },
                None => pre,
            })
        &&& acts.len() == 0
    } else if key.code == KeyCode::Esc {
        &&& left_task_list(pre, post)
        &&& post == (App { filter_active: false, filter_text: post.filter_text, breadcrumb: post.breadcrumb,
                tasks: post.tasks, status_groups: post.status_groups, current_list: None,
                selected_index: pre.saved_content_index, current_page: 0, has_more_pages: false, loading_more: false,
                focused_group: 0, group_selected_index: 0, screen: Screen::SpaceContent, ..pre })
        &&& acts.len() == 0
    } else if key.code == KeyCode::Enter && focused_size(pre) is Some && gs < focused_size(pre)->0 {
        let task = pre.tasks@[pre.status_groups@[fg].task_indices@[gs] as int];
        &&& post.filter_text@.len() == 0
        &&& labels(post.breadcrumb@) == labels(pre.breadcrumb@).push(task.name@)
        &&& post == (App { saved_task_index: pre.selected_index, filter_active: false, filter_text: post.filter_text,
                breadcrumb: post.breadcrumb, selected_index: 0, scroll_offset: 0, screen: Screen::TaskDetail,
                loading: true, ..pre })
        &&& opens_task(acts, task)
    } else if key.code == KeyCode::Char('r') && pre.current_list is Some {
        &&& post == (App { loading: true, current_page: 0, has_more_pages: false, loading_more: false,
                focused_group: 0, group_selected_index: 0, ..pre })
        &&& refetches(acts, post)
    } else {
        post == pre && acts.len() == 0
    }
}

/// Tab then Shift-Tab in the Vision views returns the focus to the status group it
/// started on, with the first task of that group selected; the tasks and groups
/// are unchanged and neither key asks for anything.
pub proof fn law_tab_then_backtab(a: App, b: App, c: App, tab: Key, back: Key, acts1: Seq<Action>, acts2: Seq<Action>)
    requires
        tab.code == KeyCode::Tab,
        back.code == KeyCode::BackTab,
        a.focused_group < a.status_groups@.len(),
        vision_post(a, b, tab, acts1),
        vision_post(b, c, back, acts2),
    ensures
        c == (App { group_selected_index: 0, ..a }),
        acts1.len() == 0 && acts2.len() == 0,
{
    let n = a.status_groups@.len() as int;
    let fg = a.focused_group as int;
    assert(a.status_groups@.len() == a.status_groups.len());
    if fg + 1 < n {
        vstd::arithmetic::div_mod::lemma_small_mod((fg + 1) as nat, n as nat);
        assert((fg + 1) % n == fg + 1);
    } else {
        vstd::arithmetic::div_mod::lemma_mod_self_0(n);
        assert((fg + 1) % n == 0);
    }
    assert(b == (App { focused_group: ((fg + 1) % n) as usize, group_selected_index: 0, ..a }));
    assert(b.status_groups@.len() == n);
    let back_to: int = if b.focused_group == 0 { n - 1 } else { b.focused_group - 1 };
    assert(back_to == fg);
    assert(c == (App { focused_group: back_to as usize, group_selected_index: 0, ..b }));
}

/// Handles a key on the task list in the Vision views: Tab and Shift-Tab move
/// between status groups, up and down move within the focused group (asking
/// for the next page near the end of the last group), Esc goes back to the
/// space content, Enter opens the selected task, `r` reloads the first page.
#[verifier::spinoff_prover]
#[verifier::rlimit(60)]
fn handle_task_vision_view(app: &mut App, key: Key) -> (r: Vec<Action>)
    requires
        counters_ok(*old(app)),
        key.code == KeyCode::Enter ==> groups_ok(*old(app)),
    ensures
        vision_post(*old(app), *final(app), key, r@),
{
    let num_groups = app.status_groups.len();
    let mut out: Vec<Action> = Vec::new();
    match key.code {
        KeyCode::Tab => {
            if num_groups > 0 {
                app.focused_group = (app.focused_group + 1) % num_groups;
                app.group_selected_index = 0;
            }
        },
        KeyCode::BackTab => {
            if num_groups > 0 {
                app.focused_group = if app.focused_group == 0 { num_groups - 1 } else { app.focused_group - 1 };
                app.group_selected_index = 0;
            }
        },
        KeyCode::Down | KeyCode::Char('j') => {
            if app.focused_group < num_groups {
                let max = app.status_groups[app.focused_group].task_indices.len();
                if max > 0 {
                    app.group_selected_index = (app.group_selected_index + 1) % max;
                }
            }
            out = check_vision_pagination(app);
        },
        KeyCode::Up | KeyCode::Char('k') => {
            if app.focused_group < num_groups {
                let max = app.status_groups[app.focused_group].task_indices.len();
                if max > 0 && app.group_selected_index == 0 {
                    app.group_selected_index = max - 1;
                } else if app.group_selected_index > 0 {
                    app.group_selected_index = app.group_selected_index - 1;
                }
            }
        },
        KeyCode::Esc => {
            app.cancel_filter();
            app.pop_breadcrumb();
            app.clear_tasks();
            app.current_list = None;
            app.selected_index = app.saved_content_index;
            app.reset_pagination();
            app.reset_vision_selection();
            app.screen = Screen::SpaceContent;
        },
        KeyCode::Enter => {
            if app.focused_group < num_groups
                && app.group_selected_index < app.status_groups[app.focused_group].task_indices.len() {
                let task_idx = app.status_groups[app.focused_group].task_indices[app.group_selected_index];
                let id = app.tasks[task_idx].id.clone();
                let name = app.tasks[task_idx].name.clone();
                app.saved_task_index = app.selected_index;
                app.cancel_filter();
                app.push_breadcrumb(name.as_str());
                app.reset_selection();
                app.screen = Screen::TaskDetail;
                app.loading = true;
                out.push(Action::LoadTaskDetail { task_id: id.clone() });
                out.push(Action::LoadComments { task_id: id });
            }
        },
        KeyCode::Char('r') => {
            if app.current_list.is_some() {
                app.loading = true;
                app.reset_pagination();
                app.reset_vision_selection();
                out = refetch_tasks(app);
            }
        },
        _ => {},
    }
    out
}

/// What a key does on the task list, by view mode.
pub open spec fn task_list_post(pre: App, post: App, key: Key, acts: Seq<Action>) -> bool {
    if pre.view_mode == ViewMode::List {
        task_list_view_post(pre, post, key, acts)
    } else {
        vision_post(pre, post, key, acts)
    }
}

/// Handles a key on the task list, in list view or in the Vision views.
fn handle_task_list(app: &mut App, key: Key) -> (r: Vec<Action>)
    requires
        counters_ok(*old(app)),
        key.code == KeyCode::Enter ==> selection_ok(*old(app)),
        old(app).screen == Screen::TaskList,
    ensures
        task_list_post(*old(app), *final(app), key, r@),
{
    match app.view_mode {
        ViewMode::List => handle_task_list_view(app, key),
        _ => handle_task_vision_view(app, key),
    }
}

/// `p` is the first position of `v` holding `item`, ignoring ASCII case.
pub open spec fn is_first_match(v: Seq<Seq<char>>, item: Seq<char>, p: int) -> bool {
    &&& 0 <= p < v.len()
    &&& eq_ignore_ascii_case(v[p], item)
    &&& forall|q: int| 0 <= q < p ==> !eq_ignore_ascii_case(#[trigger] v[q], item)
}

/// `v` with `item` toggled: its first occurrence (ignoring ASCII case) removed,
/// or `item` appended when it does not occur.
pub open spec fn toggled(v: Seq<Seq<char>>, item: Seq<char>) -> Seq<Seq<char>> {
    if exists|p: int| is_first_match(v, item, p) {
        v.remove(choose|p: int| is_first_match(v, item, p))
    } else {
        v.push(item)
    }
}

/// Toggles an item in a Vec<String> (add if absent, remove if present,
/// ignoring ASCII case).
pub fn toggle_vec_item(vec: &mut Vec<String>, item: &str)
    ensures
        strings_view(final(vec)@) == toggled(strings_view(old(vec)@), item@),
{
    let ghost before = strings_view(vec@);
    let mut i: usize = 0;
    while i < vec.len()
        invariant
            i <= vec.len(),
            before == strings_view(vec@),
            before == strings_view(old(vec)@),
            forall|q: int| 0 <= q < i ==> !eq_ignore_ascii_case(#[trigger] before[q], item@),
        decreases vec.len() - i,
    {
        if str_eq_ignore_ascii_case(vec[i].as_str(), item) {
            proof {
                assert(is_first_match(before, item@, i as int));
                let p = choose|p: int| is_first_match(before, item@, p);
                if p < i {
                    assert(!eq_ignore_ascii_case(before[p], item@));
                } else if p > i {
                    assert(!eq_ignore_ascii_case(before[i as int], item@));
                }
                assert(p == i);
                assert(toggled(before, item@) == before.remove(i as int));
            }
            vec.remove(i);
            proof { assert(strings_view(vec@) =~= before.remove(i as int)); }
            return;
        }
        i += 1;
    }
    proof {
        assert(!exists|p: int| is_first_match(before, item@, p));
    }
    vec.push(string_of(&chars_of(item)));
    proof { assert(strings_view(vec@) =~= before.push(item@)); }
}

/// The status names of the current space, in order.
pub open spec fn status_names(app: App) -> Seq<Seq<char>> {
    match app.current_space {
        Some(space) => space.statuses@.map_values(|st: Status| st.status@),
        None => Seq::empty(),
    }
}

/// The priority label at a row of the priority section.
pub open spec fn priority_option(i: int) -> Seq<char> {
    if i == 0 {
        "urgent"@
    } else if i == 1 {
        "high"@
    } else if i == 2 {
        "normal"@
    } else if i == 3 {
        "low"@
    } else {
        "none"@
    }
}

/// The due-date preset at a row of the due-date section.
pub open spec fn due_option(i: int) -> DueDateFilter {
    if i == 0 {
        DueDateFilter::All
    } else if i == 1 {
        DueDateFilter::Overdue
    } else if i == 2 {
        DueDateFilter::Today
    } else if i == 3 {
        DueDateFilter::ThisWeek
    } else {
        DueDateFilter::NoDueDate
    }
}

/// The filters after toggling the focused item of the filter panel.
pub open spec fn toggled_filters(app: App, g: TaskFilters) -> bool {
    let f = app.task_filters;
    let c = app.filter_panel_state.cursor as int;
    match app.filter_panel_state.section {
        FilterSection::Statuses => {
            &&& g == (TaskFilters { statuses: g.statuses, ..f })
            &&& strings_view(g.statuses@) == (if c < status_names(app).len() {
                    toggled(strings_view(f.statuses@), status_names(app)[c])
                } else {
                    strings_view(f.statuses@)
                })
        },
        FilterSection::Priorities => {
            &&& g == (TaskFilters { priorities: g.priorities, ..f })
            &&& strings_view(g.priorities@) == (if c < 5 {
                    toggled(strings_view(f.priorities@), priority_option(c))
                } else {
                    strings_view(f.priorities@)
                })
        },
        FilterSection::DueDate => g == (if c < 5 { TaskFilters { due_date_filter: due_option(c), ..f } } else { f }),
        FilterSection::MeMode => g == (TaskFilters { me_mode: !f.me_mode, ..f }),
        FilterSection::IncludeClosed => g == (TaskFilters { include_closed: !f.include_closed, ..f }),
    }
}

/// Toggling the focused item of `app` into filters `g` changed the server-side
/// filters (statuses, assignees, Me Mode or closed tasks), so that the tasks are
/// fetched again.
pub open spec fn needs_refetch(app: App, g: TaskFilters) -> bool {
    let f = app.task_filters;
    ||| strings_view(f.statuses@) != strings_view(g.statuses@)
    ||| strings_view(f.assignees@) != strings_view(g.assignees@)
    ||| f.me_mode != g.me_mode
    ||| f.include_closed != g.include_closed
}

proof fn lemma_toggled_changes(v: Seq<Seq<char>>, item: Seq<char>)
    ensures
        toggled(v, item) != v,
{
    if exists|p: int| is_first_match(v, item, p) {
        let p = choose|p: int| is_first_match(v, item, p);
        assert(0 <= p < v.len());
        assert(toggled(v, item).len() == v.len() - 1);
    } else {
        assert(toggled(v, item).len() == v.len() + 1);
    }
}

/// Toggles the currently focused filter item. Returns `true` if server-side
/// filters changed and a re-fetch is needed.
fn toggle_filter_item(app: &mut App) -> (r: bool)
    ensures
        toggled_filters(*old(app), final(app).task_filters),
        *final(app) == (App { task_filters: final(app).task_filters, ..*old(app) }),
        r == needs_refetch(*old(app), final(app).task_filters),
{
    let section = app.filter_panel_state.section;
    let cursor = app.filter_panel_state.cursor;
    let ghost before = app.task_filters;
    let mut changed = false;
    match section {
        FilterSection::Statuses => {
            let name: Option<String> = match &app.current_space {
                Some(space) => if cursor < space.statuses.len() { Some(space.statuses[cursor].status.clone()) } else { None },
                None => None,
            };
            if let Some(status_name) = name {
                toggle_vec_item(&mut app.task_filters.statuses, status_name.as_str());
                proof { lemma_toggled_changes(strings_view(before.statuses@), status_name@); }
                changed = true;
            }
        },
        FilterSection::Priorities => {
            if cursor < 5 {
                let prio: &str = if cursor == 0 {
                    "urgent"
                } else if cursor == 1 {
                    "high"
                } else if cursor == 2 {
                    "normal"
                } else if cursor == 3 {
                    "low"
                } else {
                    "none"
                };
                toggle_vec_item(&mut app.task_filters.priorities, prio);
            }
        },
        FilterSection::DueDate => {
            if cursor < 5 {
                app.task_filters.due_date_filter = if cursor == 0 {
                    DueDateFilter::All
                } else if cursor == 1 {
                    DueDateFilter::Overdue
                } else if cursor == 2 {
                    DueDateFilter::Today
                } else if cursor == 3 {
                    DueDateFilter::ThisWeek
                } else {
                    DueDateFilter::NoDueDate
                };
            }
        },
        FilterSection::MeMode => {
            app.task_filters.me_mode = !app.task_filters.me_mode;
            changed = true;
        },
        FilterSection::IncludeClosed => {
            app.task_filters.include_closed = !app.task_filters.include_closed;
            changed = true;
        },
    }
    changed
}

/// After the filters of `pre` changed into those of `mid`: when the server-side
/// filters changed and a list is open, the first page is fetched again; then
/// the filters are saved.
pub open spec fn refetched_and_saved(mid: App, post: App, refetch: bool, acts: Seq<Action>) -> bool {
    if refetch && mid.current_list is Some {
        &&& post == (App { loading: true, current_page: 0, has_more_pages: false, loading_more: false, ..mid })
        &&& acts.len() == 2
        &&& page_request(acts[0], mid.current_list->0.id@, 0, post)
        &&& saves(acts.subrange(1, 2), post)
    } else {
        post == mid && saves(acts, post)
    }
}

/// What a key does while the filter panel is open.
pub open spec fn filter_panel_post(pre: App, post: App, key: Key, acts: Seq<Action>) -> bool {
    let st = pre.filter_panel_state;
    if key.code == KeyCode::Esc || key.code == KeyCode::Char('f') {
        post == (App { filter_panel_open: false, ..pre }) && acts.len() == 0
    } else if key.code == KeyCode::Tab {
        post == (App { filter_panel_state: FilterPanelState { section: st.section.spec_next(), cursor: 0 }, ..pre })
            && acts.len() == 0
    } else if key.code == KeyCode::BackTab {
        post == (App { filter_panel_state: FilterPanelState { section: st.section.spec_prev(), cursor: 0 }, ..pre })
            && acts.len() == 0
    } else if is_down(key) {
        &&& post == (if st.cursor + 1 < spec_section_item_count(pre, st.section) {
                App { filter_panel_state: FilterPanelState { cursor: (st.cursor + 1) as usize, ..st }, ..pre }
            } else {
                pre
            })
        &&& acts.len() == 0
    } else if is_up(key) {
        &&& post == (if st.cursor > 0 {
                App { filter_panel_state: FilterPanelState { cursor: (st.cursor - 1) as usize, ..st }, ..pre }
            } else {
                pre
            })
        &&& acts.len() == 0
    } else if key.code == KeyCode::Char(' ') || key.code == KeyCode::Enter {
        let mid = App { task_filters: post.task_filters, ..pre };
        &&& toggled_filters(pre, post.task_filters)
        &&& refetched_and_saved(mid, post, needs_refetch(pre, post.task_filters), acts)
    } else {
        post == pre && acts.len() == 0
    }
}

/// Handles a key while the filter panel is open: Esc or `f` closes it, Tab
/// and Shift-Tab move between sections, up and down move the cursor within
/// the section, Space or Enter toggles the focused item (fetching the tasks
/// again when the server-side filters changed) and saves the filters.
fn handle_filter_panel_input(app: &mut App, key: Key) -> (r: Vec<Action>)
    requires
        old(app).filter_panel_state.cursor < usize::MAX,
    ensures
        filter_panel_post(*old(app), *final(app), key, r@),
{
    let mut out: Vec<Action> = Vec::new();
    match key.code {
        KeyCode::Esc | KeyCode::Char('f') => {
            app.filter_panel_open = false;
        },
        KeyCode::Tab => {
            app.filter_panel_state.next_section();
        },
        KeyCode::BackTab => {
            app.filter_panel_state.prev_section();
        },
        KeyCode::Down | KeyCode::Char('j') => {
            let max = section_item_count(app, app.filter_panel_state.section);
            if app.filter_panel_state.cursor + 1 < max {
                app.filter_panel_state.cursor = app.filter_panel_state.cursor + 1;
            }
        },
        KeyCode::Up | KeyCode::Char('k') => {
            if app.filter_panel_state.cursor > 0 {
                app.filter_panel_state.cursor = app.filter_panel_state.cursor - 1;
            }
        },
        KeyCode::Char(' ') | KeyCode::Enter => {
            let needs_refetch = toggle_filter_item(app);
            if needs_refetch {
                out = refetch_tasks(app);
            }
            let mut saved = save_filters(app);
            let ghost n1 = out@.len();
            let ghost sv = saved@;
            out.append(&mut saved);
            proof {
                assert(out@.subrange(n1 as int, out@.len() as int) =~= sv);
                if n1 == 0 {
                    assert(out@ =~= sv);
                }
            }
        },
        _ => {},
    }
    out
}

/// What `m` does on the task list: Me Mode flips, the first page is fetched
/// again and the filters are saved.
pub open spec fn me_mode_post(pre: App, post: App, acts: Seq<Action>) -> bool {
    let f = pre.task_filters;
    let mid = App { task_filters: TaskFilters { me_mode: !f.me_mode, ..f }, ..pre };
    refetched_and_saved(mid, post, true, acts)
}

/// Toggles Me Mode and refetches if needed.
fn toggle_me_mode(app: &mut App) -> (r: Vec<Action>)
    ensures
        me_mode_post(*old(app), *final(app), r@),
{
    app.task_filters.me_mode = !app.task_filters.me_mode;
    let mut out = refetch_tasks(app);
    let mut saved = save_filters(app);
    let ghost sv = saved@;
    out.append(&mut saved);
    proof {
        if old(app).current_list is Some {
            assert(out@.subrange(1, 2) =~= sv);
        } else {
            assert(out@ =~= sv);
        }
    }
    out
}

/// The screens that list items and offer a search.
pub open spec fn list_screen(screen: Screen) -> bool {
    ||| screen == Screen::WorkspaceSelect
    ||| screen == Screen::SpaceList
    ||| screen == Screen::SpaceContent
    ||| screen == Screen::TaskList
}

/// What a key press does to the application: the error is cleared; the filter
/// panel, when open, takes the key, else the search bar, when active; then
/// come the global keys (quit, help, search, filter panel, Me Mode, view
/// mode), a key that closes the help overlay, and the keys of each screen.
pub open spec fn key_post(before: App, post: App, key: Key, acts: Seq<Action>) -> bool {
    let pre = App { error_message: None, error_set_at: None, ..before };
    if pre.filter_panel_open {
        filter_panel_post(pre, post, key, acts)
    } else if pre.filter_active {
        filter_input_post(pre, post, key) && acts.len() == 0
    } else if key.code == KeyCode::Char('q') || (key.code == KeyCode::Char('c') && key.ctrl) {
        post == (App { should_quit: true, ..pre }) && acts.len() == 0
    } else if key.code == KeyCode::Char('?') {
        post == (App { show_help: !pre.show_help, ..pre }) && acts.len() == 0
    } else if key.code == KeyCode::Char('/') && list_screen(pre.screen) {
        &&& post.filter_text@.len() == 0
        &&& post == (App { filter_active: true, filter_text: post.filter_text, ..pre })
        &&& acts.len() == 0
    } else if key.code == KeyCode::Char('f') && pre.screen == Screen::TaskList {
        &&& post == (App { filter_panel_open: true,
                filter_panel_state: FilterPanelState { section: FilterSection::Statuses, cursor: 0 }, ..pre })
        &&& acts.len() == 0
    } else if key.code == KeyCode::Char('m') && pre.screen == Screen::TaskList {
        me_mode_post(pre, post, acts)
    } else if key.code == KeyCode::Char('v') && pre.screen == Screen::TaskList {
        let cycled = App { view_mode: pre.view_mode.spec_next(), focused_group: 0, group_selected_index: 0, ..pre };
        post == cycled && saves(acts, cycled)
    } else if pre.show_help {
        post == (App { show_help: false, ..pre }) && acts.len() == 0
    } else {
        match pre.screen {
            Screen::Loading => post == pre && acts.len() == 0,
            Screen::WorkspaceSelect => workspace_select_post(pre, post, key, acts),
            Screen::SpaceList => space_list_post(pre, post, key, acts),
            Screen::SpaceContent => space_content_post(pre, post, key, acts),
            Screen::TaskList => task_list_post(pre, post, key, acts),
            Screen::TaskDetail => task_detail_post(pre, post, key) && acts.len() == 0,
        }
    }
}

/// Tab then Shift-Tab, handled by `handle_key` on the task list in a Vision view
/// (no filter panel, search or help open), returns the focus to the status group
/// it started on with the first task of that group selected; nothing else changes
/// but the cleared error message, and neither key asks for anything.
pub proof fn law_keys_tab_then_backtab(a: App, b: App, c: App, tab: Key, back: Key, acts1: Seq<Action>,
    acts2: Seq<Action>)
    requires
        tab.code == KeyCode::Tab,
        back.code == KeyCode::BackTab,
        a.screen == Screen::TaskList,
        a.view_mode != ViewMode::List,
        !a.filter_panel_open,
        !a.filter_active,
        !a.show_help,
        a.focused_group < a.status_groups@.len(),
        key_post(a, b, tab, acts1),
        key_post(b, c, back, acts2),
    ensures
        c == (App { error_message: None, error_set_at: None, group_selected_index: 0, ..a }),
        acts1.len() == 0 && acts2.len() == 0,
{
    let pa = App { error_message: None, error_set_at: None, ..a };
    assert(vision_post(pa, b, tab, acts1));
    assert(b.error_message is None && b.error_set_at is None);
    assert(b == App { error_message: None, error_set_at: None, ..b });
    assert(vision_post(b, c, back, acts2));
    law_tab_then_backtab(pa, b, c, tab, back, acts1, acts2);
}

/// The due-date presets in the order the filter panel lists them: All, Overdue,
/// Today, This Week, No Due Date.
pub open spec fn due_presets_in_panel_order() -> Seq<DueDateFilter> {
    seq![DueDateFilter::All, DueDateFilter::Overdue, DueDateFilter::Today, DueDateFilter::ThisWeek,
        DueDateFilter::NoDueDate]
}

/// Pressing Enter or Space on a row of the due-date section of the filter panel
/// sets exactly the preset that row shows, in the panel's order, and changes no
/// other filter.
pub proof fn law_due_date_row_selects_its_preset(a: App, b: App, key: Key, acts: Seq<Action>)
    requires
        a.filter_panel_open,
        a.filter_panel_state.section == FilterSection::DueDate,
        a.filter_panel_state.cursor < 5,
        key.code == KeyCode::Enter || key.code == KeyCode::Char(' '),
        key_post(a, b, key, acts),
    ensures
        b.task_filters == (TaskFilters {
            due_date_filter: due_presets_in_panel_order()[a.filter_panel_state.cursor as int],
            ..a.task_filters
        }),
{
    let pa = App { error_message: None, error_set_at: None, ..a };
    assert(filter_panel_post(pa, b, key, acts));
    assert(toggled_filters(pa, b.task_filters));
    let c = a.filter_panel_state.cursor as int;
    assert(due_option(c) == due_presets_in_panel_order()[c]) by {
        if c == 0 {} else if c == 1 {} else if c == 2 {} else if c == 3 {} else {}
    }
}

/// Handles a key event, updating app state and returning the data loads and
/// saves it asks for, in order.
pub fn handle_key(app: &mut App, key: Key) -> (r: Vec<Action>)
    requires
        counters_ok(*old(app)),
        key.code == KeyCode::Enter ==> selection_ok(*old(app)),
    ensures
        key_post(*old(app), *final(app), key, r@),
{
    app.clear_error();
    if app.filter_panel_open {
        return handle_filter_panel_input(app, key);
    }
    if app.filter_active {
        handle_filter_input(app, key);
        return Vec::new();
    }
    match key.code {
        KeyCode::Char('q') => {
            app.should_quit = true;
            return Vec::new();
        },
        KeyCode::Char('c') => {
            if key.ctrl {
                app.should_quit = true;
                return Vec::new();
            }
        },
        KeyCode::Char('?') => {
            app.show_help = !app.show_help;
            return Vec::new();
        },
        KeyCode::Char('/') => {
            if app.screen == Screen::WorkspaceSelect || app.screen == Screen::SpaceList
                || app.screen == Screen::SpaceContent || app.screen == Screen::TaskList {
                app.start_filter();
                return Vec::new();
            }
        },
        KeyCode::Char('f') => {
            if app.screen == Screen::TaskList {
                app.filter_panel_open = true;
                app.filter_panel_state.reset();
                return Vec::new();
            }
        },
        KeyCode::Char('m') => {
            if app.screen == Screen::TaskList {
                return toggle_me_mode(app);
            }
        },
        KeyCode::Char('v') => {
            if app.screen == Screen::TaskList {
                app.view_mode = app.view_mode.next();
                app.reset_vision_selection();
                return save_filters(app);
            }
        },
        _ => {},
    }
    if app.show_help {
        app.show_help = false;
        return Vec::new();
    }
    match app.screen {
        Screen::Loading => Vec::new(),
        Screen::WorkspaceSelect => handle_workspace_select(app, key),
        Screen::SpaceList => handle_space_list(app, key),
        Screen::SpaceContent => handle_space_content(app, key),
        Screen::TaskList => handle_task_list(app, key),
        Screen::TaskDetail => {
            handle_task_detail(app, key);
            Vec::new()
        },
    }
}


/// Every index held by a status group names a loaded task.
fn groups_in_range(app: &App) -> (r: bool)
    ensures
        r == groups_ok(*app),
{
    let mut g: usize = 0;
    while g < app.status_groups.len()
        invariant
            g <= app.status_groups.len(),
            forall|a: int, k: int| 0 <= a < g && 0 <= k < app.status_groups@[a].task_indices@.len()
                ==> #[trigger] app.status_groups@[a].task_indices@[k] < app.tasks@.len(),
        decreases app.status_groups.len() - g,
    {
        let mut k: usize = 0;
        while k < app.status_groups[g].task_indices.len()
            invariant
                g < app.status_groups.len(),
                k <= app.status_groups@[g as int].task_indices@.len(),
                forall|a: int, m: int| 0 <= a < g && 0 <= m < app.status_groups@[a].task_indices@.len()
                    ==> #[trigger] app.status_groups@[a].task_indices@[m] < app.tasks@.len(),
                forall|m: int| 0 <= m < k ==> #[trigger] app.status_groups@[g as int].task_indices@[m] < app.tasks@.len(),
            decreases app.status_groups@[g as int].task_indices@.len() - k,
        {
            if app.status_groups[g].task_indices[k] >= app.tasks.len() {
                return false;
            }
            k += 1;
        }
        g += 1;
    }
    true
}

/// Whether `handle_key` can take the key in this state: the counters can
/// still grow, and for Enter the selection lies within the rows shown (the
/// status groups naming loaded tasks in the Vision views).
pub fn key_ready(app: &App, key: &Key) -> (r: bool)
    ensures
        r == (counters_ok(*app) && (key.code == KeyCode::Enter ==> selection_ok(*app))),
{
    let counters = app.selected_index < usize::MAX && app.current_page < usize::MAX && app.focused_group < usize::MAX
        && app.group_selected_index < usize::MAX && app.filter_panel_state.cursor < usize::MAX;
    if !counters {
        return false;
    }
    if key.code != KeyCode::Enter {
        return true;
    }
    match app.screen {
        Screen::WorkspaceSelect => {
            let rows = app.filtered_workspace_indices();
            rows.len() == 0 || app.selected_index < rows.len()
        },
        Screen::SpaceList => {
            let rows = app.filtered_space_indices();
            rows.len() == 0 || app.selected_index < rows.len()
        },
        Screen::SpaceContent => {
            let rows = app.filtered_content_indices();
            rows.len() == 0 || app.selected_index < rows.len()
        },
        Screen::TaskList => if app.view_mode == ViewMode::List {
            let rows = app.filtered_task_indices();
            rows.len() == 0 || app.selected_index < rows.len()
        } else {
            groups_in_range(app)
        },
        _ => true,
    }
}

} // verus!
