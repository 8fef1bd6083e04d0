//! Data delivered by the background loads, and how the application state
//! takes it in.
use vstd::prelude::*;
use crate::app::{folderless_rows, folders_rows, groups_for, items_same, space_statuses, App, Screen};
use crate::models::{Comment, Folder, List, Space, Task, User, Workspace};

verus! {

/// Payloads delivered by background data-loading tasks.
pub enum DataPayload {
    /// Workspace list loaded.
    Workspaces(Vec<Workspace>),
    /// Space list loaded.
    Spaces(Vec<Space>),
    /// Folders and folderless lists loaded for a space.
    FoldersAndLists(Vec<Folder>, Vec<List>),
    /// Tasks loaded for a list.
    Tasks(Vec<Task>),
    /// Single task detail loaded.
    TaskDetail(Box<Task>),
    /// Comments loaded for a task.
    Comments(Vec<Comment>),
    /// A single page of tasks loaded (for progressive pagination).
    TasksPage {
        /// Tasks on this page.
        tasks: Vec<Task>,
        /// Page number (0-indexed).
        page: usize,
        /// Whether this is the last page.
        last_page: bool,
    },
    /// The authenticated user loaded.
    CurrentUser(User),
}

/// What loaded data does to the application state; `now_ms` is the time of
/// arrival on the UI's clock.
pub open spec fn data_post(pre: App, post: App, payload: DataPayload, now_ms: u64) -> bool {
    let base = App { loading: false, last_updated: Some(now_ms), ..pre };
    match payload {
        DataPayload::Workspaces(ws) => post == (App { workspaces: ws, screen: Screen::WorkspaceSelect,
            selected_index: 0, scroll_offset: 0, ..base }),
        DataPayload::Spaces(spaces) => post == (App { spaces, selected_index: 0, scroll_offset: 0, ..base }),
        DataPayload::FoldersAndLists(folders, lists) => {
            &&& items_same(post.space_content@, folders_rows(folders@, pre.space_content@) + folderless_rows(lists@))
            &&& post == (App { folders, lists, space_content: post.space_content, selected_index: 0,
                    scroll_offset: 0, ..base })
        },
        DataPayload::Tasks(tasks) => {
            &&& groups_for(tasks@, space_statuses(pre.current_space), post.status_groups@)
            &&& post == (App { tasks, status_groups: post.status_groups, selected_index: 0, scroll_offset: 0, ..base })
        },
        DataPayload::TaskDetail(task) => post == (App { current_task: Some(*task), ..base }),
        DataPayload::Comments(comments) => post == (App { comments, ..base }),
        DataPayload::TasksPage { tasks, page, last_page } => {
            &&& post.tasks@ == (if page == 0 { tasks@ } else { pre.tasks@ + tasks@ })
            &&& groups_for(post.tasks@, space_statuses(pre.current_space), post.status_groups@)
            &&& post == (App { tasks: post.tasks, status_groups: post.status_groups, current_page: page,
                    has_more_pages: !last_page, loading_more: false,
                    selected_index: if page == 0 { 0 } else { pre.selected_index },
                    scroll_offset: if page == 0 { 0 } else { pre.scroll_offset }, ..base })
        },
        DataPayload::CurrentUser(user) => post == (App { current_user: Some(user), ..base }),
    }
}

/// Takes in data loaded in the background: stores it, resets the selection
/// where a list was replaced, and rebuilds the derived views (space content,
/// status groups). `now_ms` is the time of arrival on the UI's clock.
#[verifier::spinoff_prover]
#[verifier::rlimit(60)]
pub fn handle_data(app: &mut App, payload: DataPayload, now_ms: u64)
    ensures
        data_post(*old(app), *final(app), payload, now_ms),
{
    app.loading = false;
    app.last_updated = Some(now_ms);
    match payload {
        DataPayload::Workspaces(ws) => {
            app.workspaces = ws;
            app.screen = Screen::WorkspaceSelect;
            app.reset_selection();
        },
        DataPayload::Spaces(spaces) => {
            app.spaces = spaces;
            app.reset_selection();
        },
        DataPayload::FoldersAndLists(folders, folderless_lists) => {
            app.folders = folders;
            app.lists = folderless_lists;
            app.rebuild_space_content();
            app.reset_selection();
        },
        DataPayload::Tasks(tasks) => {
            app.tasks = tasks;
            app.reset_selection();
            app.rebuild_status_groups();
        },
        DataPayload::TaskDetail(task) => {
            app.current_task = Some(*task);
        },
        DataPayload::Comments(comments) => {
            app.comments = comments;
        },
        DataPayload::TasksPage { tasks, page, last_page } => {
            if page == 0 {
                app.tasks = tasks;
                app.reset_selection();
            } else {
                let mut more = tasks;
                app.tasks.append(&mut more);
            }
            app.current_page = page;
            app.has_more_pages = !last_page;
            app.loading_more = false;
            app.rebuild_status_groups();
        },
        DataPayload::CurrentUser(user) => {
            app.current_user = Some(user);
        },
    }
}

/// Takes in a failed background load: loading stops and the error shows,
/// set at `now_ms` on the UI's clock.
pub fn handle_error(app: &mut App, msg: String, now_ms: u64)
    ensures
        final(app).error_message matches Some(m) && m@ == crate::app::enhanced_error(msg@),
        *final(app) == (App { loading: false, error_message: final(app).error_message,
            error_set_at: Some(now_ms), ..*old(app) }),
{
    app.loading = false;
    app.set_error(msg, now_ms);
}

} // verus!
