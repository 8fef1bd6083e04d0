//! Data models of the ClickUp API as the clients use them.
use vstd::prelude::*;
use crate::json::JsonValue;

verus! {

/// A ClickUp user.
#[derive(Debug)]
pub struct User {
    /// Numeric user ID (may be `-1` for system/unknown users on linked tasks).
    pub id: i64,
    /// Display name.
    pub username: String,
    /// Email address.
    pub email: String,
    /// Hex colour associated with the user.
    pub color: Option<String>,
    /// URL of the user's profile picture.
    pub profile_picture: Option<String>,
    /// User initials (used as avatar fallback).
    pub initials: Option<String>,
}

impl Clone for User {
    fn clone(&self) -> (r: Self)
        ensures
            r == *self,
    {
        User {
            id: self.id,
            username: self.username.clone(),
            email: self.email.clone(),
            color: self.color.clone(),
            profile_picture: self.profile_picture.clone(),
            initials: self.initials.clone(),
        }
    }
}

/// Response wrapper returned by `GET /user`.
#[derive(Debug)]
pub struct AuthenticatedUser {
    /// The authenticated user.
    pub user: User,
}

/// A member within a workspace.
#[derive(Debug)]
pub struct WorkspaceMember {
    /// The user record.
    pub user: User,
}

impl Clone for WorkspaceMember {
    fn clone(&self) -> (r: Self)
        ensures
            r == *self,
    {
        WorkspaceMember { user: self.user.clone() }
    }
}

/// Status of a task or list in ClickUp.
#[derive(Debug)]
pub struct Status {
    /// Status ID (may be absent on some responses).
    pub id: Option<String>,
    /// Status name (e.g. "Open", "In Progress").
    pub status: String,
    /// Hex colour for the status.
    pub color: String,
    /// Status type (e.g. "open", "closed", "custom").
    pub status_type: String,
    /// Display order index.
    pub orderindex: i32,
}

impl Clone for Status {
    fn clone(&self) -> (r: Self)
        ensures
            r == *self,
    {
        Status {
            id: self.id.clone(),
            status: self.status.clone(),
            color: self.color.clone(),
            status_type: self.status_type.clone(),
            orderindex: self.orderindex,
        }
    }
}

/// Minimal space reference embedded in a list.
#[derive(Debug)]
pub struct ListSpace {
    /// Space ID.
    pub id: String,
}

impl Clone for ListSpace {
    fn clone(&self) -> (r: Self)
        ensures
            r == *self,
    {
        ListSpace {
            id: self.id.clone(),
        }
    }
}

/// Minimal folder reference embedded in a list.
#[derive(Debug)]
pub struct ListFolder {
    /// Folder ID.
    pub id: String,
    /// Folder name (may be absent).
    pub name: Option<String>,
    /// Whether the folder is hidden.
    pub hidden: Option<bool>,
}

impl Clone for ListFolder {
    fn clone(&self) -> (r: Self)
        ensures
            r == *self,
    {
        ListFolder {
            id: self.id.clone(),
            name: self.name.clone(),
            hidden: self.hidden,
        }
    }
}

/// A ClickUp list.
#[derive(Debug)]
pub struct List {
    /// List ID.
    pub id: String,
    /// List name.
    pub name: String,
    /// Display order index.
    pub orderindex: i32,
    /// Current list status.
    pub status: Option<Status>,
    /// List description / content.
    pub content: Option<String>,
    /// Number of tasks (returned as a string by the API).
    pub task_count: Option<String>,
    /// The parent space.
    pub space: ListSpace,
    /// The parent folder.
    pub folder: ListFolder,
}

impl Clone for List {
    fn clone(&self) -> (r: Self)
        ensures
            r == *self,
    {
        List {
            id: self.id.clone(),
            name: self.name.clone(),
            orderindex: self.orderindex,
            status: self.status.clone(),
            content: self.content.clone(),
            task_count: self.task_count.clone(),
            space: self.space.clone(),
            folder: self.folder.clone(),
        }
    }
}

/// Minimal space reference embedded in a folder.
#[derive(Debug)]
pub struct FolderSpace {
    /// Space ID.
    pub id: String,
    /// Space name (may be absent).
    pub name: Option<String>,
}

impl Clone for FolderSpace {
    fn clone(&self) -> (r: Self)
        ensures
            r == *self,
    {
        FolderSpace {
            id: self.id.clone(),
            name: self.name.clone(),
        }
    }
}

/// Inline status on a task.
#[derive(Debug)]
pub struct TaskStatus {
    /// Status name.
    pub status: String,
    /// Hex colour.
    pub color: String,
    /// Status type (e.g. "open", "closed", "custom").
    pub status_type: String,
}

impl Clone for TaskStatus {
    fn clone(&self) -> (r: Self)
        ensures
            r == *self,
    {
        TaskStatus {
            status: self.status.clone(),
            color: self.color.clone(),
            status_type: self.status_type.clone(),
        }
    }
}

/// Task priority.
#[derive(Debug)]
pub struct TaskPriority {
    /// Priority ID.
    pub id: Option<String>,
    /// Priority label (e.g. "urgent", "high").
    pub priority: Option<String>,
    /// Hex colour.
    pub color: Option<String>,
}

impl Clone for TaskPriority {
    fn clone(&self) -> (r: Self)
        ensures
            r == *self,
    {
        TaskPriority {
            id: self.id.clone(),
            priority: self.priority.clone(),
            color: self.color.clone(),
        }
    }
}

/// A tag on a task.
#[derive(Debug)]
pub struct Tag {
    /// Tag name.
    pub name: String,
    /// Foreground colour.
    pub tag_fg: Option<String>,
    /// Background colour.
    pub tag_bg: Option<String>,
}

impl Clone for Tag {
    fn clone(&self) -> (r: Self)
        ensures
            r == *self,
    {
        Tag {
            name: self.name.clone(),
            tag_fg: self.tag_fg.clone(),
            tag_bg: self.tag_bg.clone(),
        }
    }
}

/// Minimal list reference embedded in a task.
#[derive(Debug)]
pub struct TaskList {
    /// List ID.
    pub id: String,
    /// List name.
    pub name: Option<String>,
}

impl Clone for TaskList {
    fn clone(&self) -> (r: Self)
        ensures
            r == *self,
    {
        TaskList {
            id: self.id.clone(),
            name: self.name.clone(),
        }
    }
}

/// Minimal folder reference embedded in a task.
#[derive(Debug)]
pub struct TaskFolder {
    /// Folder ID.
    pub id: String,
    /// Folder name.
    pub name: Option<String>,
}

impl Clone for TaskFolder {
    fn clone(&self) -> (r: Self)
        ensures
            r == *self,
    {
        TaskFolder {
            id: self.id.clone(),
            name: self.name.clone(),
        }
    }
}

/// Minimal space reference embedded in a task.
#[derive(Debug)]
pub struct TaskSpace {
    /// Space ID.
    pub id: String,
}

impl Clone for TaskSpace {
    fn clone(&self) -> (r: Self)
        ensures
            r == *self,
    {
        TaskSpace {
            id: self.id.clone(),
        }
    }
}

/// A file attachment on a task.
#[derive(Debug)]
pub struct Attachment {
    /// Attachment ID.
    pub id: String,
    /// File title / name.
    pub title: Option<String>,
    /// URL to download the attachment.
    pub url: Option<String>,
    /// File extension (e.g. "pdf", "png").
    pub extension: Option<String>,
    /// Upload timestamp (milliseconds).
    pub date: Option<String>,
    /// Thumbnail URL for image attachments.
    pub thumbnail_small: Option<String>,
}

impl Clone for Attachment {
    fn clone(&self) -> (r: Self)
        ensures
            r == *self,
    {
        Attachment {
            id: self.id.clone(),
            title: self.title.clone(),
            url: self.url.clone(),
            extension: self.extension.clone(),
            date: self.date.clone(),
            thumbnail_small: self.thumbnail_small.clone(),
        }
    }
}

/// A task linked to the current task.
#[derive(Debug)]
pub struct LinkedTask {
    /// The linked task's ID.
    pub task_id: String,
    /// The link relationship ID.
    pub link_id: Option<String>,
    /// Timestamp when the link was created (milliseconds).
    pub date_created: Option<String>,
    /// ID of the user who created the link.
    pub userid: Option<String>,
    /// Workspace ID where the linked task resides.
    pub workspace_id: Option<String>,
}

impl Clone for LinkedTask {
    fn clone(&self) -> (r: Self)
        ensures
            r == *self,
    {
        LinkedTask {
            task_id: self.task_id.clone(),
            link_id: self.link_id.clone(),
            date_created: self.date_created.clone(),
            userid: self.userid.clone(),
            workspace_id: self.workspace_id.clone(),
        }
    }
}

/// A dependency relationship between tasks.
#[derive(Debug)]
pub struct TaskDependency {
    /// The task that has this dependency.
    pub task_id: String,
    /// The task being depended upon.
    pub depends_on: String,
    /// Dependency type (1 = waiting on, 0 = blocking).
    pub dependency_type: Option<i32>,
    /// Timestamp when the dependency was created (milliseconds).
    pub date_created: Option<String>,
    /// ID of the user who created the dependency.
    pub userid: Option<String>,
    /// Workspace ID.
    pub workspace_id: Option<String>,
}

impl Clone for TaskDependency {
    fn clone(&self) -> (r: Self)
        ensures
            r == *self,
    {
        TaskDependency {
            task_id: self.task_id.clone(),
            depends_on: self.depends_on.clone(),
            dependency_type: self.dependency_type,
            date_created: self.date_created.clone(),
            userid: self.userid.clone(),
            workspace_id: self.workspace_id.clone(),
        }
    }
}

/// A user reference embedded in a comment content tag item.
#[derive(Debug)]
pub struct TaggedUser {
    /// ClickUp user ID.
    pub id: i64,
    /// Display username (present on GET responses, omitted when sending).
    pub username: Option<String>,
    /// Email (present on GET responses, omitted when sending).
    pub email: Option<String>,
}

impl Clone for TaggedUser {
    fn clone(&self) -> (r: Self)
        ensures
            r == *self,
    {
        TaggedUser {
            id: self.id,
            username: self.username.clone(),
            email: self.email.clone(),
        }
    }
}

/// Request body for updating an existing comment.
#[derive(Debug)]
pub struct UpdateCommentRequest {
    /// Updated plain-text comment body.
    pub comment_text: String,
    /// User ID to assign the comment to.
    pub assignee: Option<i64>,
    /// Whether the comment is resolved.
    pub resolved: Option<bool>,
}

impl Clone for UpdateCommentRequest {
    fn clone(&self) -> (r: Self)
        ensures
            r == *self,
    {
        UpdateCommentRequest {
            comment_text: self.comment_text.clone(),
            assignee: self.assignee,
            resolved: self.resolved,
        }
    }
}

/// A ClickUp workspace (team).
#[derive(Debug)]
pub struct Workspace {
    /// Workspace ID.
    pub id: String,
    /// Workspace name.
    pub name: String,
    /// Hex colour.
    pub color: Option<String>,
    /// Avatar URL.
    pub avatar: Option<String>,
    /// Members of the workspace.
    pub members: Vec<WorkspaceMember>,
}

/// Two workspaces hold the same data.
pub open spec fn workspace_same(a: Workspace, b: Workspace) -> bool {
    &&& a.id == b.id
    &&& a.name == b.name
    &&& a.color == b.color
    &&& a.avatar == b.avatar
    &&& a.members@ == b.members@
}

impl Clone for Workspace {
    fn clone(&self) -> (r: Self)
        ensures
            workspace_same(r, *self),
    {
        let members = self.members.clone();
        proof {
            assert forall|i: int| 0 <= i < members@.len() implies members@[i] == self.members@[i] by {
                assert(cloned::<WorkspaceMember>(self.members[i], members[i]));
            }
            assert(members@ =~= self.members@);
        }
        Workspace {
            id: self.id.clone(),
            name: self.name.clone(),
            color: self.color.clone(),
            avatar: self.avatar.clone(),
            members,
        }
    }
}

/// Response wrapper returned by `GET /team`.
#[derive(Debug, Clone)]
pub struct WorkspacesResponse {
    /// List of workspaces the authenticated user belongs to.
    pub teams: Vec<Workspace>,
}

/// A ClickUp space.
#[derive(Debug)]
pub struct Space {
    /// Space ID.
    pub id: String,
    /// Space name.
    pub name: String,
    /// Whether the space is private.
    pub private: bool,
    /// Hex colour.
    pub color: Option<String>,
    /// Avatar URL.
    pub avatar: Option<String>,
    /// Available statuses in this space.
    pub statuses: Vec<Status>,
    /// Whether multiple assignees are enabled.
    pub multiple_assignees: bool,
    /// Enabled feature flags.
    pub features: Option<JsonValue>,
}

/// Two spaces hold the same data, but for their feature flags.
pub open spec fn space_same(a: Space, b: Space) -> bool {
    &&& a.id == b.id
    &&& a.name == b.name
    &&& a.private == b.private
    &&& a.color == b.color
    &&& a.avatar == b.avatar
    &&& a.statuses@ == b.statuses@
    &&& a.multiple_assignees == b.multiple_assignees
    &&& a.features is Some <==> b.features is Some
}

impl Clone for Space {
    /// Copies the space; the copy of the feature flags is a deep copy of the
    /// JSON value, whose contents no clause here states.
    fn clone(&self) -> (r: Self)
        ensures
            space_same(r, *self),
    {
        let statuses = self.statuses.clone();
        proof {
            assert forall|i: int| 0 <= i < statuses@.len() implies statuses@[i] == self.statuses@[i] by {
                assert(cloned::<Status>(self.statuses[i], statuses[i]));
            }
            assert(statuses@ =~= self.statuses@);
        }
        let features = match &self.features {
            Some(f) => Some(f.deep_copy()),
            None => None,
        };
        Space {
            id: self.id.clone(),
            name: self.name.clone(),
            private: self.private,
            color: self.color.clone(),
            avatar: self.avatar.clone(),
            statuses,
            multiple_assignees: self.multiple_assignees,
            features,
        }
    }
}

/// Response wrapper returned by `GET /team/{id}/space`.
#[derive(Debug, Clone)]
pub struct SpacesResponse {
    /// List of spaces.
    pub spaces: Vec<Space>,
}

/// A ClickUp folder within a space.
#[derive(Debug)]
pub struct Folder {
    /// Folder ID.
    pub id: String,
    /// Folder name.
    pub name: String,
    /// Display order index.
    pub orderindex: i32,
    /// Whether the folder is hidden.
    pub hidden: bool,
    /// The parent space.
    pub space: FolderSpace,
    /// Number of tasks in the folder (returned as a string by the API).
    pub task_count: Option<String>,
    /// Lists inside this folder.
    pub lists: Vec<List>,
}

/// Two folders hold the same data: equal fields and the same lists.
pub open spec fn folder_same(a: Folder, b: Folder) -> bool {
    &&& a.id == b.id
    &&& a.name == b.name
    &&& a.orderindex == b.orderindex
    &&& a.hidden == b.hidden
    &&& a.space == b.space
    &&& a.task_count == b.task_count
    &&& a.lists@ == b.lists@
}

/// Copies a sequence of lists.
pub fn copy_lists(lists: &Vec<List>) -> (r: Vec<List>)
    ensures
        r@ == lists@,
{
    let mut out: Vec<List> = Vec::new();
    let mut i: usize = 0;
    while i < lists.len()
        invariant
            i <= lists.len(),
            out@ == lists@.subrange(0, i as int),
        decreases lists.len() - i,
    {
        out.push(lists[i].clone());
        i += 1;
        proof { assert(out@ =~= lists@.subrange(0, i as int)); }
    }
    proof { assert(out@ =~= lists@); }
    out
}

impl Clone for Folder {
    fn clone(&self) -> (r: Self)
        ensures
            folder_same(r, *self),
    {
        Folder {
            id: self.id.clone(),
            name: self.name.clone(),
            orderindex: self.orderindex,
            hidden: self.hidden,
            space: self.space.clone(),
            task_count: self.task_count.clone(),
            lists: copy_lists(&self.lists),
        }
    }
}

/// Response wrapper returned by `GET /space/{id}/folder`.
#[derive(Debug, Clone)]
pub struct FoldersResponse {
    /// List of folders.
    pub folders: Vec<Folder>,
}

/// Response wrapper returned by `GET /folder/{id}/list` and `GET /space/{id}/list`.
#[derive(Debug, Clone)]
pub struct ListsResponse {
    /// List of lists.
    pub lists: Vec<List>,
}

/// A checklist attached to a ClickUp task.
#[derive(Debug, Clone)]
pub struct Checklist {
    /// Checklist ID.
    pub id: String,
    /// Checklist name.
    pub name: String,
    /// Whether the entire checklist is resolved.
    pub resolved: Option<bool>,
    /// Items in the checklist.
    pub items: Vec<ChecklistItem>,
    /// Display order.
    pub orderindex: Option<i32>,
    /// Number of items in the checklist.
    pub task_count: Option<i32>,
    /// Number of unresolved items.
    pub unresolved: Option<i32>,
}

/// An individual item within a checklist.
#[derive(Debug, Clone)]
pub struct ChecklistItem {
    /// Item ID.
    pub id: String,
    /// Item name / description.
    pub name: String,
    /// Whether this item is resolved (checked).
    pub resolved: bool,
    /// User assigned to this item, if any.
    pub assignee: Option<User>,
    /// Display order.
    pub orderindex: Option<i32>,
    /// Parent item ID (for nested checklist items).
    pub parent: Option<String>,
}

/// A custom field value on a task.
#[derive(Debug, Clone)]
pub struct CustomField {
    /// Field ID.
    pub id: String,
    /// Field display name.
    pub name: String,
    /// Field type (e.g. "text", "number", "drop_down", "labels").
    pub field_type: String,
    /// Field configuration (options list for drop_down/labels, precision for
    /// currency, code_point for emoji, etc.).
    pub type_config: Option<JsonValue>,
    /// Current value (shape varies by field type).
    pub value: Option<JsonValue>,
    /// For `manual_progress` fields, the progress worked out from the value and
    /// the configured range (a floating-point computation).
    pub progress: Option<ProgressValue>,
}

/// The progress of a `manual_progress` field.
#[derive(Debug, Clone, Copy)]
pub enum ProgressValue {
    /// `round((current - start) / (end - start) * 100)` when the range is positive.
    Percent(i64),
    /// The current value truncated to an integer, when the range is empty or negative.
    Current(i64),
}

/// A ClickUp task.
#[derive(Debug)]
pub struct Task {
    /// Task ID (alphanumeric).
    pub id: String,
    /// Custom (human-readable) task ID, if enabled.
    pub custom_id: Option<String>,
    /// Task name / title.
    pub name: String,
    /// Plain-text description.
    pub description: Option<String>,
    /// Raw text content (without formatting).
    pub text_content: Option<String>,
    /// Current status.
    pub status: TaskStatus,
    /// Display order.
    pub orderindex: String,
    /// Creation timestamp (milliseconds).
    pub date_created: String,
    /// Last update timestamp (milliseconds).
    pub date_updated: String,
    /// Closed timestamp (milliseconds), if closed.
    pub date_closed: Option<String>,
    /// Done timestamp (milliseconds), if done.
    pub date_done: Option<String>,
    /// The user who created the task (absent on some task variants).
    pub creator: Option<User>,
    /// Assigned users.
    pub assignees: Vec<User>,
    /// Task priority.
    pub priority: Option<TaskPriority>,
    /// Due-date timestamp (milliseconds).
    pub due_date: Option<String>,
    /// Start-date timestamp (milliseconds).
    pub start_date: Option<String>,
    /// Tags attached to the task.
    pub tags: Vec<Tag>,
    /// Parent list reference.
    pub list: Option<TaskList>,
    /// Parent folder reference.
    pub folder: Option<TaskFolder>,
    /// Parent space reference.
    pub space: Option<TaskSpace>,
    /// Web URL for the task.
    pub url: String,
    /// Markdown-formatted description.
    pub markdown_description: Option<String>,
    /// Parent task ID (for subtasks).
    pub parent: Option<String>,
    /// Subtasks.
    pub subtasks: Option<Vec<Task>>,
    /// Custom field values.
    pub custom_fields: Option<Vec<CustomField>>,
    /// Checklists attached to the task.
    pub checklists: Vec<Checklist>,
    /// Tasks linked to the task.
    pub linked_tasks: Vec<LinkedTask>,
    /// Task dependencies (blocking/waiting relationships).
    pub dependencies: Vec<TaskDependency>,
    /// Estimated time for the task (milliseconds).
    pub time_estimate: Option<u64>,
    /// Time spent on the task (milliseconds).
    pub time_spent: Option<u64>,
    /// Users watching the task.
    pub watchers: Vec<User>,
    /// File attachments on the task.
    pub attachments: Vec<Attachment>,
    /// Story points assigned to the task.
    pub points: Option<JsonValue>,
    /// Permission level of the current user on the task.
    pub permission_level: Option<String>,
}

impl Task {
    /// A copy of the task, subtasks included.
    pub fn deep_copy(&self) -> (r: Self)
        ensures
            r.id == self.id,
            r.name == self.name,
            r.status == self.status,
            r.priority == self.priority,
            r.due_date == self.due_date,
        decreases self,
    {
        let subtasks = match &self.subtasks {
            None => None,
            Some(subs) => {
                let mut out: Vec<Task> = Vec::new();
                let mut i: usize = 0;
                while i < subs.len()
                    invariant
                        i <= subs.len(),
                        self.subtasks == Some(*subs),
                    decreases subs.len() - i,
                {
                    proof {
                        assert(decreases_to!(*self => self.subtasks));
                        assert(decreases_to!(self.subtasks => (self.subtasks)->0));
                        assert(decreases_to!(*subs => subs@));
                        assert(decreases_to!(subs@ => subs@[i as int]));
                        assert(decreases_to!(*self => subs@[i as int]));
                    }
                    out.push(subs[i].deep_copy());
                    i += 1;
                }
                Some(out)
            }
        };
        Task {
            id: self.id.clone(),
            custom_id: self.custom_id.clone(),
            name: self.name.clone(),
            description: self.description.clone(),
            text_content: self.text_content.clone(),
            status: self.status.clone(),
            orderindex: self.orderindex.clone(),
            date_created: self.date_created.clone(),
            date_updated: self.date_updated.clone(),
            date_closed: self.date_closed.clone(),
            date_done: self.date_done.clone(),
            creator: self.creator.clone(),
            assignees: self.assignees.clone(),
            priority: self.priority.clone(),
            due_date: self.due_date.clone(),
            start_date: self.start_date.clone(),
            tags: self.tags.clone(),
            list: self.list.clone(),
            folder: self.folder.clone(),
            space: self.space.clone(),
            url: self.url.clone(),
            markdown_description: self.markdown_description.clone(),
            parent: self.parent.clone(),
            subtasks,
            custom_fields: self.custom_fields.clone(),
            checklists: self.checklists.clone(),
            linked_tasks: self.linked_tasks.clone(),
            dependencies: self.dependencies.clone(),
            time_estimate: self.time_estimate,
            time_spent: self.time_spent,
            watchers: self.watchers.clone(),
            attachments: self.attachments.clone(),
            points: self.points.clone(),
            permission_level: self.permission_level.clone(),
        }
    }
}

impl Clone for Task {
    fn clone(&self) -> Self {
        self.deep_copy()
    }
}

/// Response wrapper returned by `GET /list/{id}/task`.
#[derive(Debug, Clone)]
pub struct TasksResponse {
    /// Tasks on this page.
    pub tasks: Vec<Task>,
    /// Whether this is the last page of results.
    pub last_page: Option<bool>,
}

/// A single segment in a ClickUp structured comment body.
#[derive(Debug, Clone)]
pub enum CommentContentItem {
    /// An @mention tag referencing a workspace user.
    Tag {
        /// The item type; `"tag"` for mentions.
        content_type: String,
        /// The mentioned user.
        user: TaggedUser,
        /// Plain-text representation of the mention (e.g. `"@alice"`).
        text: Option<String>,
    },
    /// A plain-text segment, optionally with formatting attributes.
    Text {
        /// The text content.
        text: String,
        /// Formatting attributes (bold, italic, code, links, list, etc.).
        attributes: Option<JsonValue>,
    },
    /// Any other item (emoticons, attachments, etc.).
    Unknown(JsonValue),
}

/// A comment on a ClickUp task.
#[derive(Debug, Clone)]
pub struct Comment {
    /// Comment ID.
    pub id: String,
    /// Plain-text comment body.
    pub comment_text: String,
    /// Structured comment content array (rich text with @mention tags).
    pub comment: Vec<CommentContentItem>,
    /// The user who posted the comment.
    pub user: Option<User>,
    /// Timestamp (milliseconds).
    pub date: String,
    /// Number of replies to this comment.
    pub reply_count: u64,
    /// Whether the comment has been resolved.
    pub resolved: Option<bool>,
    /// Parent comment ID when this comment is a reply.
    pub parent: Option<String>,
    /// User the comment is assigned to.
    pub assignee: Option<User>,
}

/// Response wrapper returned by `GET /task/{id}/comment`.
#[derive(Debug, Clone)]
pub struct CommentsResponse {
    /// List of comments.
    pub comments: Vec<Comment>,
}

/// Request body for creating a new comment.
#[derive(Debug, Clone)]
pub struct CreateCommentRequest {
    /// Plain-text comment body (used when `comment` array is empty).
    pub comment_text: String,
    /// Structured comment content with @mention tags and rich formatting.
    pub comment: Vec<CommentContentItem>,
    /// Whether to notify all assignees.
    pub notify_all: Option<bool>,
}

} // verus!
