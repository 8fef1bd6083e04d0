//! Task filters of the list view: server-side and client-side.
use vstd::prelude::*;
use crate::filter_config::{DueDateFilter, ListFilterConfig, ViewModeConfig, strings_view, copy_strings};
use crate::models::{Task, User};
use crate::text::{eq_ignore_ascii_case, str_eq_ignore_ascii_case, parse_i64, parse_i64_str,
    signed_decimal, push_signed_decimal, string_of, lowercase, to_lowercase, contains_seq, str_contains};

verus! {

/// Active task filters for the current list view.
///
/// Combines server-side filters (status, assignee) that trigger re-fetches
/// with client-side filters (priority, tags, due date) applied locally.
#[derive(Debug)]
pub struct TaskFilters {
    /// Status names to include (empty = all).
    pub statuses: Vec<String>,
    /// Assignee user IDs to include (empty = all).
    pub assignees: Vec<String>,
    /// Priority labels to include (empty = all, e.g. "urgent", "high").
    pub priorities: Vec<String>,
    /// Tag names to include (empty = all).
    pub tags: Vec<String>,
    /// Due-date filter preset.
    pub due_date_filter: DueDateFilter,
    /// Whether "Me Mode" is active.
    pub me_mode: bool,
    /// Whether to include closed tasks (server-side).
    pub include_closed: bool,
}

impl Default for TaskFilters {
    fn default() -> (r: Self)
        ensures
            r.statuses@.len() == 0,
            r.assignees@.len() == 0,
            r.priorities@.len() == 0,
            r.tags@.len() == 0,
            r.due_date_filter == DueDateFilter::All,
            !r.me_mode,
            !r.include_closed,
    {
        TaskFilters {
            statuses: Vec::new(),
            assignees: Vec::new(),
            priorities: Vec::new(),
            tags: Vec::new(),
            due_date_filter: DueDateFilter::All,
            me_mode: false,
            include_closed: false,
        }
    }
}

impl Clone for TaskFilters {
    fn clone(&self) -> (r: Self)
        ensures
            strings_view(r.statuses@) == strings_view(self.statuses@),
            strings_view(r.assignees@) == strings_view(self.assignees@),
            strings_view(r.priorities@) == strings_view(self.priorities@),
            strings_view(r.tags@) == strings_view(self.tags@),
            r.due_date_filter == self.due_date_filter,
            r.me_mode == self.me_mode,
            r.include_closed == self.include_closed,
    {
        TaskFilters {
            statuses: copy_strings(&self.statuses),
            assignees: copy_strings(&self.assignees),
            priorities: copy_strings(&self.priorities),
            tags: copy_strings(&self.tags),
            due_date_filter: self.due_date_filter,
            me_mode: self.me_mode,
            include_closed: self.include_closed,
        }
    }
}

/// Milliseconds in a day.
pub open spec fn day_ms() -> int {
    86_400_000
}

/// Integer division rounding toward zero, as Rust's `/` on signed integers.
pub open spec fn div_trunc(a: int, b: int) -> int {
    if a >= 0 { a / b } else { -((-a) / b) }
}

/// Some label among `wanted` equals `label` ignoring ASCII case.
pub open spec fn any_eq_ignore_case(wanted: Seq<String>, label: Seq<char>) -> bool {
    exists|k: int| 0 <= k < wanted.len() && eq_ignore_ascii_case(#[trigger] wanted[k]@, label)
}

/// The word `none`.
pub open spec fn none_word() -> Seq<char> {
    seq!['n', 'o', 'n', 'e']
}

/// The assignee IDs sent to the API: the filter's own, plus the current user's
/// (`me`) in Me Mode when it is not among them already.
pub open spec fn assignees_for(f: TaskFilters, me: Option<i64>) -> Seq<Seq<char>> {
    let base = strings_view(f.assignees@);
    match me {
        Some(id) if f.me_mode => {
            let uid = signed_decimal(id as int);
            if base.contains(uid) { base } else { base.push(uid) }
        },
        _ => base,
    }
}

impl TaskFilters {
    /// Any server-side filter is active.
    pub open spec fn spec_has_server_filters(&self) -> bool {
        self.statuses@.len() > 0 || self.assignees@.len() > 0 || self.include_closed
    }

    /// Any client-side filter is active.
    pub open spec fn spec_has_client_filters(&self) -> bool {
        self.priorities@.len() > 0 || self.tags@.len() > 0 || self.due_date_filter != DueDateFilter::All
    }

    /// The priority filter admits `task`.
    pub open spec fn priority_ok(&self, task: Task) -> bool {
        if self.priorities@.len() == 0 {
            true
        } else {
            match task.priority {
                Some(p) => match p.priority {
                    Some(label) => any_eq_ignore_case(self.priorities@, label@),
                    None => any_eq_ignore_case(self.priorities@, none_word()),
                },
                None => any_eq_ignore_case(self.priorities@, none_word()),
            }
        }
    }

    /// The tag filter admits `task`: some tag of the task is among the wanted tags.
    pub open spec fn tags_ok(&self, task: Task) -> bool {
        self.tags@.len() == 0 || exists|j: int| 0 <= j < task.tags@.len()
            && any_eq_ignore_case(self.tags@, #[trigger] task.tags@[j].name@)
    }

    /// The due-date filter admits `task` at time `now_ms`.
    pub open spec fn due_ok(&self, task: Task, now_ms: i64) -> bool {
        let due = match task.due_date { Some(d) => parse_i64(d@), None => None };
        match self.due_date_filter {
            DueDateFilter::All => true,
            DueDateFilter::NoDueDate => task.due_date is None,
            DueDateFilter::Overdue => due matches Some(d) && d < now_ms,
            DueDateFilter::Today => due matches Some(d) && {
                let start = div_trunc(now_ms as int, day_ms()) * day_ms();
                start <= d < start + day_ms()
            },
            DueDateFilter::ThisWeek => due matches Some(d) && now_ms <= d < now_ms + 7 * day_ms(),
        }
    }

    /// The due-date check of `task` would overflow `i64` arithmetic.
    pub open spec fn due_overflows(&self, task: Task, now_ms: i64) -> bool {
        let due = match task.due_date { Some(d) => parse_i64(d@), None => None };
        match self.due_date_filter {
            DueDateFilter::Today => due is Some
                && div_trunc(now_ms as int, day_ms()) * day_ms() + day_ms() > i64::MAX,
            DueDateFilter::ThisWeek => due matches Some(d) && d >= now_ms
                && now_ms + 7 * day_ms() > i64::MAX,
            _ => false,
        }
    }

    /// All client-side filters admit `task`.
    pub open spec fn client_ok(&self, task: Task, now_ms: i64) -> bool {
        self.priority_ok(task) && self.tags_ok(task) && self.due_ok(task, now_ms)
    }

    /// Returns `true` if any server-side filter is active.
    ///
    /// When server-side filters change, we need to re-fetch from the API.
    pub fn has_server_filters(&self) -> (r: bool)
        ensures
            r == self.spec_has_server_filters(),
    {
        !self.statuses.is_empty() || !self.assignees.is_empty() || self.include_closed
    }

    /// Returns `true` if any client-side filter is active.
    pub fn has_client_filters(&self) -> (r: bool)
        ensures
            r == self.spec_has_client_filters(),
    {
        !self.priorities.is_empty() || !self.tags.is_empty() || self.due_date_filter != DueDateFilter::All
    }

    /// Returns `true` if any filter is active (server or client).
    pub fn is_active(&self) -> (r: bool)
        ensures
            r == (self.spec_has_server_filters() || self.spec_has_client_filters() || self.me_mode),
    {
        self.has_server_filters() || self.has_client_filters() || self.me_mode
    }

    /// Returns the server-side status filter strings for the API call.
    pub fn server_statuses(&self) -> (r: Vec<&str>)
        ensures
            r@.len() == self.statuses@.len(),
            forall|i: int| 0 <= i < r@.len() ==> #[trigger] r@[i]@ == self.statuses@[i]@,
    {
        let mut out: Vec<&str> = Vec::new();
        let mut i: usize = 0;
        while i < self.statuses.len()
            invariant
                i <= self.statuses.len(),
                out@.len() == i,
                forall|k: int| 0 <= k < i ==> #[trigger] out@[k]@ == self.statuses@[k]@,
            decreases self.statuses.len() - i,
        {
            out.push(self.statuses[i].as_str());
            i += 1;
        }
        out
    }

    /// Returns the server-side assignee IDs for the API call.
    ///
    /// If Me Mode is active and the current user is provided, includes
    /// the current user's ID in the assignee filter.
    pub fn server_assignees(&self, current_user: Option<&User>) -> (r: Vec<String>)
        ensures
            strings_view(r@) == assignees_for(*self, match current_user { Some(u) => Some(u.id), None => None }),
    {
        let mut ids = copy_strings(&self.assignees);
        if self.me_mode {
            if let Some(user) = current_user {
                let mut digits: Vec<char> = Vec::new();
                push_signed_decimal(&mut digits, user.id);
                let uid = string_of(&digits);
                let mut found = false;
                let mut i: usize = 0;
                while i < ids.len()
                    invariant
                        i <= ids.len(),
                        uid@ == signed_decimal(user.id as int),
                        found == exists|k: int| 0 <= k < i && #[trigger] ids@[k]@ == uid@,
                    decreases ids.len() - i,
                {
                    if ids[i] == uid {
                        found = true;
                    }
                    i += 1;
                }
                proof {
                    let base = strings_view(ids@);
                    if found {
                        let k = choose|k: int| 0 <= k < ids@.len() && #[trigger] ids@[k]@ == uid@;
                        assert(base[k] == uid@);
                    } else {
                        assert(!base.contains(uid@)) by {
                            if base.contains(uid@) {
                                let k = choose|k: int| 0 <= k < base.len() && base[k] == uid@;
                                assert(ids@[k]@ == uid@);
                            }
                        }
                    }
                }
                if !found {
                    let ghost before = ids@;
                    ids.push(uid);
                    proof { assert(strings_view(ids@) =~= strings_view(before).push(uid@)); }
                }
            }
        }
        ids
    }

    fn any_matches(wanted: &Vec<String>, label: &str) -> (r: bool)
        ensures
            r == any_eq_ignore_case(wanted@, label@),
    {
        let mut i: usize = 0;
        while i < wanted.len()
            invariant
                i <= wanted.len(),
                forall|k: int| 0 <= k < i ==> !eq_ignore_ascii_case(#[trigger] wanted@[k]@, label@),
            decreases wanted.len() - i,
        {
            if str_eq_ignore_ascii_case(wanted[i].as_str(), label) {
                return true;
            }
            i += 1;
        }
        false
    }

    fn matches_priority(&self, task: &Task) -> (r: bool)
        ensures
            r == self.priority_ok(*task),
    {
        if self.priorities.is_empty() {
            return true;
        }
        match &task.priority {
            Some(p) => match &p.priority {
                Some(label) => Self::any_matches(&self.priorities, label.as_str()),
                None => {
                    let none = string_of(&vec_none());
                    Self::any_matches(&self.priorities, none.as_str())
                }
            },
            None => {
                let none = string_of(&vec_none());
                Self::any_matches(&self.priorities, none.as_str())
            }
        }
    }

    fn matches_tags(&self, task: &Task) -> (r: bool)
        ensures
            r == self.tags_ok(*task),
    {
        if self.tags.is_empty() {
            return true;
        }
        let mut j: usize = 0;
        while j < task.tags.len()
            invariant
                j <= task.tags.len(),
                self.tags@.len() > 0,
                forall|k: int| 0 <= k < j ==> !any_eq_ignore_case(self.tags@, #[trigger] task.tags@[k].name@),
            decreases task.tags.len() - j,
        {
            if Self::any_matches(&self.tags, task.tags[j].name.as_str()) {
                return true;
            }
            j += 1;
        }
        false
    }

    fn matches_due_date(&self, task: &Task, now_ms: i64) -> (r: bool)
        requires
            !self.due_overflows(*task, now_ms),
        ensures
            r == self.due_ok(*task, now_ms),
    {
        let due = match &task.due_date {
            Some(d) => parse_i64_str(d.as_str()),
            None => None,
        };
        match self.due_date_filter {
            DueDateFilter::All => true,
            DueDateFilter::NoDueDate => task.due_date.is_none(),
            DueDateFilter::Overdue => match due {
                Some(d) => d < now_ms,
                None => false,
            },
            DueDateFilter::Today => match due {
                Some(d) => {
                    let day: i64 = 86_400_000;
                    let today_start = (now_ms / day) * day;
                    let today_end = today_start + day;
                    d >= today_start && d < today_end
                }
                None => false,
            },
            DueDateFilter::ThisWeek => match due {
                Some(d) => {
                    let week: i64 = 7 * 86_400_000;
                    d >= now_ms && d < now_ms + week
                }
                None => false,
            },
        }
    }

    /// Filters a task list client-side, returning indices of matching tasks.
    ///
    /// Applies priority, tag, and due-date filters. Status and assignee
    /// filters are handled server-side and NOT applied here.
    pub fn apply_client_filters(&self, tasks: &[Task], now_ms: i64) -> (r: Vec<usize>)
        requires
            forall|i: int| 0 <= i < tasks@.len() ==> !self.due_overflows(#[trigger] tasks@[i], now_ms),
        ensures
            r@ == client_indices(*self, tasks@, now_ms, tasks@.len() as int),
    {
        let mut out: Vec<usize> = Vec::new();
        let mut i: usize = 0;
        while i < tasks.len()
            invariant
                i <= tasks.len(),
                forall|k: int| 0 <= k < tasks@.len() ==> !self.due_overflows(#[trigger] tasks@[k], now_ms),
                out@ == client_indices(*self, tasks@, now_ms, i as int),
            decreases tasks.len() - i,
        {
            if self.matches_priority(&tasks[i]) && self.matches_tags(&tasks[i])
                && self.matches_due_date(&tasks[i], now_ms) {
                out.push(i);
            }
            i += 1;
        }
        out
    }

    /// Full filter pipeline: apply client-side filters then text search.
    ///
    /// Returns indices into the original `tasks` slice.
    pub fn apply_all(&self, tasks: &[Task], text_query: &str, now_ms: i64) -> (r: Vec<usize>)
        requires
            forall|i: int| 0 <= i < tasks@.len() ==> !self.due_overflows(#[trigger] tasks@[i], now_ms),
        ensures
            text_query@.len() == 0 ==> r@ == client_indices(*self, tasks@, now_ms, tasks@.len() as int),
            text_query@.len() > 0 ==> r@ == client_indices(*self, tasks@, now_ms, tasks@.len() as int)
                .filter(query_match(tasks@, text_query@)),
    {
        let indices = self.apply_client_filters(tasks, now_ms);
        if text_query.is_empty() {
            return indices;
        }
        let q = to_lowercase(text_query);
        let mut out: Vec<usize> = Vec::new();
        let mut k: usize = 0;
        let ghost pred = query_match(tasks@, text_query@);
        let ntasks = tasks.len();
        proof {
            lemma_client_indices_bounded(*self, tasks@, now_ms, ntasks as int);
            assert(indices@.subrange(0, 0) =~= Seq::<usize>::empty());
        }
        while k < indices.len()
            invariant
                k <= indices.len(),
                indices@ == client_indices(*self, tasks@, now_ms, tasks@.len() as int),
                forall|j: int| 0 <= j < indices@.len() ==> #[trigger] indices@[j] < tasks@.len(),
                q@ == lowercase(text_query@),
                pred == query_match(tasks@, text_query@),
                out@ == indices@.subrange(0, k as int).filter(pred),
            decreases indices.len() - k,
        {
            let idx = indices[k];
            let task_name = tasks[idx].name.as_str();
            proof { assert(task_name@ == tasks@[idx as int].name@); }
            let name = to_lowercase(task_name);
            let keep = str_contains(name.as_str(), q.as_str());
            proof {
                let s1 = indices@.subrange(0, k + 1);
                assert(s1.drop_last() =~= indices@.subrange(0, k as int));
                assert(s1.last() == idx);
                assert(keep == contains_seq(name@, q@));
                assert(name@ == lowercase(tasks@[idx as int].name@));
                assert(keep == contains_seq(lowercase(tasks@[idx as int].name@), lowercase(text_query@)));
                assert(keep == pred(idx));
                reveal_with_fuel(Seq::<usize>::filter, 1);
                assert(s1.filter(pred) == if pred(idx) { indices@.subrange(0, k as int).filter(pred).push(idx) }
                    else { indices@.subrange(0, k as int).filter(pred) });
            }
            if keep {
                out.push(idx);
            }
            k += 1;
        }
        proof { assert(indices@.subrange(0, indices@.len() as int) =~= indices@); }
        out
    }
}

/// The task at an index has a name containing `query`, both lower-cased.
pub open spec fn query_match(tasks: Seq<Task>, query: Seq<char>) -> spec_fn(usize) -> bool {
    |i: usize| contains_seq(lowercase(tasks[i as int].name@), lowercase(query))
}

/// The word `none` as characters.
fn vec_none() -> (r: Vec<char>)
    ensures
        r@ == none_word(),
{
    let mut v: Vec<char> = Vec::new();
    v.push('n'); v.push('o'); v.push('n'); v.push('e');
    proof { assert(v@ =~= none_word()); }
    v
}

/// Indices below `n` of the tasks that all client-side filters admit, in order.
pub open spec fn client_indices(f: TaskFilters, tasks: Seq<Task>, now_ms: i64, n: int) -> Seq<usize>
    decreases n,
{
    if n <= 0 {
        seq![]
    } else if f.client_ok(tasks[n - 1], now_ms) {
        client_indices(f, tasks, now_ms, n - 1).push((n - 1) as usize)
    } else {
        client_indices(f, tasks, now_ms, n - 1)
    }
}

proof fn lemma_client_indices_bounded(f: TaskFilters, tasks: Seq<Task>, now_ms: i64, n: int)
    requires
        n <= tasks.len(),
        n <= usize::MAX,
    ensures
        forall|j: int| 0 <= j < client_indices(f, tasks, now_ms, n).len()
            ==> #[trigger] client_indices(f, tasks, now_ms, n)[j] < n,
    decreases n,
{
    if n > 0 {
        lemma_client_indices_bounded(f, tasks, now_ms, n - 1);
        let prev = client_indices(f, tasks, now_ms, n - 1);
        let cur = client_indices(f, tasks, now_ms, n);
        assert forall|j: int| 0 <= j < cur.len() implies #[trigger] cur[j] < n by {
            if j < prev.len() {
                assert(cur[j] == prev[j]);
            }
        }
    }
}

proof fn lemma_client_indices_contains(f: TaskFilters, tasks: Seq<Task>, now_ms: i64, n: int, i: usize)
    requires
        0 <= n <= tasks.len(),
        n <= usize::MAX,
    ensures
        client_indices(f, tasks, now_ms, n).contains(i) <==> ((i as int) < n && f.client_ok(tasks[i as int], now_ms)),
    decreases n,
{
    if n > 0 {
        lemma_client_indices_contains(f, tasks, now_ms, n - 1, i);
        lemma_client_indices_bounded(f, tasks, now_ms, n - 1);
        let prev = client_indices(f, tasks, now_ms, n - 1);
        let cur = client_indices(f, tasks, now_ms, n);
        if f.client_ok(tasks[n - 1], now_ms) {
            assert(cur == prev.push((n - 1) as usize));
            if cur.contains(i) {
                let j = choose|j: int| 0 <= j < cur.len() && cur[j] == i;
                if j < prev.len() {
                    assert(prev[j] == i);
                    assert(prev.contains(i));
                }
            }
            if (i as int) == n - 1 {
                assert(cur[prev.len() as int] == i);
            } else if prev.contains(i) {
                let j = choose|j: int| 0 <= j < prev.len() && prev[j] == i;
                assert(cur[j] == i);
            }
        } else {
            if prev.contains(i) {
                let j = choose|j: int| 0 <= j < prev.len() && prev[j] == i;
                assert(prev[j] < n - 1);
            }
        }
    }
}

/// Under the Today filter a task is kept exactly when the other filters admit
/// it and its due date lies in the UTC day that holds `now_ms`: at or after
/// that day's start (now rounded down to a multiple of 86 400 000 ms, as Rust's
/// `/` rounds) and before the next day's start. A task due tomorrow or later,
/// or earlier than today, is never kept.
pub proof fn law_today_keeps_only_tasks_due_today(f: TaskFilters, tasks: Seq<Task>, now_ms: i64, i: usize)
    requires
        f.due_date_filter == DueDateFilter::Today,
        tasks.len() <= usize::MAX,
        (i as int) < tasks.len(),
    ensures
        client_indices(f, tasks, now_ms, tasks.len() as int).contains(i) <==> (
            f.priority_ok(tasks[i as int]) && f.tags_ok(tasks[i as int]) && match tasks[i as int].due_date {
                Some(d) => match parse_i64(d@) {
                    Some(v) => div_trunc(now_ms as int, 86_400_000) * 86_400_000 <= v
                        && v < div_trunc(now_ms as int, 86_400_000) * 86_400_000 + 86_400_000,
                    None => false,
                },
                None => false,
            }),
{
    lemma_client_indices_contains(f, tasks, now_ms, tasks.len() as int, i);
}

} // verus!

verus! {

/// Number of entries among `indices` whose task has status `name`.
pub open spec fn status_count(tasks: Seq<Task>, indices: Seq<usize>, name: Seq<char>) -> nat
    decreases indices.len(),
{
    if indices.len() == 0 {
        0
    } else {
        status_count(tasks, indices.drop_last(), name)
            + if tasks[indices.last() as int].status.status@ == name { 1nat } else { 0nat }
    }
}

impl TaskFilters {
    /// Counts tasks per status from a set of filtered task indices: one entry per
    /// status name that occurs, in order of first occurrence, with its count.
    pub fn count_by_status(tasks: &[Task], indices: &[usize]) -> (r: Vec<(String, usize)>)
        requires
            forall|k: int| 0 <= k < indices@.len() ==> #[trigger] indices@[k] < tasks@.len(),
        ensures
            forall|a: int, b: int| 0 <= a < b < r@.len() ==> #[trigger] r@[a].0@ != #[trigger] r@[b].0@,
            forall|a: int| 0 <= a < r@.len() ==>
                #[trigger] r@[a].1 == status_count(tasks@, indices@, r@[a].0@) && r@[a].1 > 0,
            forall|k: int| 0 <= k < indices@.len() ==> exists|a: int| 0 <= a < r@.len()
                && #[trigger] r@[a].0@ == tasks@[#[trigger] indices@[k] as int].status.status@,
    {
        let mut counts: Vec<(String, usize)> = Vec::new();
        let mut k: usize = 0;
        while k < indices.len()
            invariant
                k <= indices.len(),
                forall|j: int| 0 <= j < indices@.len() ==> #[trigger] indices@[j] < tasks@.len(),
                forall|a: int, b: int| 0 <= a < b < counts@.len() ==> #[trigger] counts@[a].0@ != #[trigger] counts@[b].0@,
                forall|a: int| 0 <= a < counts@.len() ==>
                    #[trigger] counts@[a].1 == status_count(tasks@, indices@.subrange(0, k as int), counts@[a].0@)
                    && counts@[a].1 > 0,
                forall|j: int| 0 <= j < k ==> exists|a: int| 0 <= a < counts@.len()
                    && #[trigger] counts@[a].0@ == tasks@[#[trigger] indices@[j] as int].status.status@,
                forall|name: Seq<char>| status_count(tasks@, indices@.subrange(0, k as int), name) > 0
                    ==> exists|a: int| 0 <= a < counts@.len() && #[trigger] counts@[a].0@ == name,
                counts@.len() <= k,
                forall|a: int| 0 <= a < counts@.len() ==> #[trigger] counts@[a].1 <= k,
            decreases indices.len() - k,
        {
            let idx = indices[k];
            let name = &tasks[idx].status.status;
            let ghost nm = tasks@[idx as int].status.status@;
            let ghost before = counts@;
            proof {
                let s1 = indices@.subrange(0, k + 1);
                assert(s1.drop_last() =~= indices@.subrange(0, k as int));
                assert(s1.last() == idx);
            }
            let mut a: usize = 0;
            let mut found = false;
            proof { assert(name@ == nm); }
            while a < counts.len() && !found
                invariant
                    a <= counts.len(),
                    counts@ == before,
                    name@ == nm,
                    found ==> a < counts.len() && counts@[a as int].0@ == nm,
                    !found ==> forall|b: int| 0 <= b < a ==> #[trigger] counts@[b].0@ != nm,
                decreases counts.len() - a, if found { 0int } else { 1int },
            {
                if counts[a].0 == *name {
                    found = true;
                } else {
                    a += 1;
                }
            }
            if found {
                let c = counts[a].1;
                let key = counts[a].0.clone();
                counts.set(a, (key, c + 1));
            } else {
                counts.push((name.clone(), 1));
            }
            k += 1;
            proof {
                assert forall|b: int| 0 <= b < counts@.len() implies
                    #[trigger] counts@[b].1 == status_count(tasks@, indices@.subrange(0, k as int), counts@[b].0@)
                    && counts@[b].1 > 0 && counts@[b].1 <= k by {
                }
                assert forall|j: int| 0 <= j < k implies exists|b: int| 0 <= b < counts@.len()
                    && #[trigger] counts@[b].0@ == tasks@[#[trigger] indices@[j] as int].status.status@ by {
                    if j < k - 1 {
                        let b = choose|b: int| 0 <= b < before.len() && #[trigger] before[b].0@ == tasks@[indices@[j] as int].status.status@;
                        assert(counts@[b].0@ == before[b].0@);
                    } else if found {
                        assert(counts@[a as int].0@ == nm);
                    } else {
                        assert(counts@[counts@.len() - 1].0@ == nm);
                    }
                }
                assert forall|n2: Seq<char>| status_count(tasks@, indices@.subrange(0, k as int), n2) > 0
                    implies exists|b: int| 0 <= b < counts@.len() && #[trigger] counts@[b].0@ == n2 by {
                    if n2 == nm {
                        if found { assert(counts@[a as int].0@ == nm); }
                        else { assert(counts@[counts@.len() - 1].0@ == nm); }
                    } else {
                        assert(status_count(tasks@, indices@.subrange(0, k - 1), n2) > 0);
                        let b = choose|b: int| 0 <= b < before.len() && #[trigger] before[b].0@ == n2;
                        assert(counts@[b].0@ == before[b].0@);
                    }
                }
            }
        }
        proof {
            assert(indices@.subrange(0, indices@.len() as int) =~= indices@);
        }
        counts
    }
}

/// The count that `count_by_status` gave for `name` (zero when absent).
pub fn count_of(counts: &Vec<(String, usize)>, name: &str) -> (r: usize)
    ensures
        (exists|a: int| 0 <= a < counts@.len() && #[trigger] counts@[a].0@ == name@
            && r == counts@[a].1) || (r == 0 && forall|a: int| 0 <= a < counts@.len() ==> #[trigger] counts@[a].0@ != name@),
{
    let mut a: usize = 0;
    while a < counts.len()
        invariant
            a <= counts.len(),
            forall|b: int| 0 <= b < a ==> #[trigger] counts@[b].0@ != name@,
        decreases counts.len() - a,
    {
        if crate::text::str_eq(counts[a].0.as_str(), name) {
            return counts[a].1;
        }
        a += 1;
    }
    0
}

/// Converts persistent filter config to active task filters.
impl From<ListFilterConfig> for TaskFilters {
    fn from(cfg: ListFilterConfig) -> (r: Self) {
        TaskFilters {
            statuses: cfg.statuses,
            assignees: cfg.assignees,
            priorities: cfg.priorities,
            tags: cfg.tags,
            due_date_filter: cfg.due_date_filter,
            me_mode: cfg.me_mode,
            include_closed: cfg.include_closed,
        }
    }
}

impl vstd::std_specs::convert::FromSpecImpl<ListFilterConfig> for TaskFilters {
    open spec fn obeys_from_spec() -> bool {
        true
    }

    open spec fn from_spec(cfg: ListFilterConfig) -> Self {
        TaskFilters {
            statuses: cfg.statuses,
            assignees: cfg.assignees,
            priorities: cfg.priorities,
            tags: cfg.tags,
            due_date_filter: cfg.due_date_filter,
            me_mode: cfg.me_mode,
            include_closed: cfg.include_closed,
        }
    }
}

/// Converts active task filters to persistent filter config for saving (with the
/// default view mode).
pub fn config_from_filters(filters: &TaskFilters) -> (r: ListFilterConfig)
    ensures
        r@.statuses == strings_view(filters.statuses@),
        r@.assignees == strings_view(filters.assignees@),
        r@.priorities == strings_view(filters.priorities@),
        r@.tags == strings_view(filters.tags@),
        r@.due_date_filter == filters.due_date_filter,
        r@.me_mode == filters.me_mode,
        r@.view_mode == ViewModeConfig::List,
        r@.include_closed == filters.include_closed,
{
    ListFilterConfig {
        statuses: copy_strings(&filters.statuses),
        assignees: copy_strings(&filters.assignees),
        priorities: copy_strings(&filters.priorities),
        tags: copy_strings(&filters.tags),
        due_date_filter: filters.due_date_filter,
        me_mode: filters.me_mode,
        view_mode: ViewModeConfig::List,
        include_closed: filters.include_closed,
    }
}

/// Saving filters and loading them back gives the same filters: converting to a
/// persistent config and back keeps every filter setting.
pub proof fn law_filters_roundtrip(filters: TaskFilters, cfg: ListFilterConfig)
    requires
        cfg@.statuses == strings_view(filters.statuses@),
        cfg@.assignees == strings_view(filters.assignees@),
        cfg@.priorities == strings_view(filters.priorities@),
        cfg@.tags == strings_view(filters.tags@),
        cfg@.due_date_filter == filters.due_date_filter,
        cfg@.me_mode == filters.me_mode,
        cfg@.include_closed == filters.include_closed,
    ensures
        ({
            let back = <TaskFilters as vstd::std_specs::convert::FromSpec<ListFilterConfig>>::from_spec(cfg);
            &&& strings_view(back.statuses@) == strings_view(filters.statuses@)
            &&& strings_view(back.assignees@) == strings_view(filters.assignees@)
            &&& strings_view(back.priorities@) == strings_view(filters.priorities@)
            &&& strings_view(back.tags@) == strings_view(filters.tags@)
            &&& back.due_date_filter == filters.due_date_filter
            &&& back.me_mode == filters.me_mode
            &&& back.include_closed == filters.include_closed
        }),
{
}

} // verus!
