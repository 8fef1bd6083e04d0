//! Per-list filter settings and their store.
use vstd::prelude::*;
use crate::text::str_eq;

verus! {

/// Due-date filter presets.
#[derive(Debug, Clone, Copy, PartialEq, Eq, Structural)]
pub enum DueDateFilter {
    /// No date filtering.
    All,
    /// Tasks past their due date.
    Overdue,
    /// Tasks due today.
    Today,
    /// Tasks due this week (next 7 days).
    ThisWeek,
    /// Tasks with no due date set.
    NoDueDate,
}

impl Default for DueDateFilter {
    fn default() -> (r: Self)
        ensures
            r == DueDateFilter::All,
    {
        DueDateFilter::All
    }
}

/// View mode preference stored per list.
#[derive(Debug, Clone, Copy, PartialEq, Eq, Structural)]
pub enum ViewModeConfig {
    /// Standard flat task list.
    List,
    /// Vertical sections grouped by status.
    VisionSections,
    /// Horizontal kanban board grouped by status.
    VisionBoard,
}

impl Default for ViewModeConfig {
    fn default() -> (r: Self)
        ensures
            r == ViewModeConfig::List,
    {
        ViewModeConfig::List
    }
}

/// The views of a vector of strings.
pub open spec fn strings_view(v: Seq<String>) -> Seq<Seq<char>> {
    v.map_values(|s: String| s@)
}

/// The contents of a [`ListFilterConfig`].
pub struct ListFilterView {
    /// Status names to include.
    pub statuses: Seq<Seq<char>>,
    /// Assignee user IDs to include.
    pub assignees: Seq<Seq<char>>,
    /// Priority labels to include.
    pub priorities: Seq<Seq<char>>,
    /// Tag names to include.
    pub tags: Seq<Seq<char>>,
    /// Due-date filter preset.
    pub due_date_filter: DueDateFilter,
    /// Whether "Me Mode" is active.
    pub me_mode: bool,
    /// Preferred view mode.
    pub view_mode: ViewModeConfig,
    /// Whether to include closed tasks.
    pub include_closed: bool,
}

/// Persistent filter settings for a single list.
#[derive(Debug)]
pub struct ListFilterConfig {
    /// Status names to include (empty = all).
    pub statuses: Vec<String>,
    /// Assignee user IDs to include (empty = all).
    pub assignees: Vec<String>,
    /// Priority labels to include (empty = all).
    pub priorities: Vec<String>,
    /// Tag names to include (empty = all).
    pub tags: Vec<String>,
    /// Due-date filter preset.
    pub due_date_filter: DueDateFilter,
    /// Whether "Me Mode" is active (show only tasks assigned to current user).
    pub me_mode: bool,
    /// Preferred view mode for this list.
    pub view_mode: ViewModeConfig,
    /// Whether to include closed tasks.
    pub include_closed: bool,
}

impl View for ListFilterConfig {
    type V = ListFilterView;

    open spec fn view(&self) -> ListFilterView {
        ListFilterView {
            statuses: strings_view(self.statuses@),
            assignees: strings_view(self.assignees@),
            priorities: strings_view(self.priorities@),
            tags: strings_view(self.tags@),
            due_date_filter: self.due_date_filter,
            me_mode: self.me_mode,
            view_mode: self.view_mode,
            include_closed: self.include_closed,
        }
    }
}

/// A copy of a vector of strings.
pub fn copy_strings(v: &Vec<String>) -> (r: Vec<String>)
    ensures
        strings_view(r@) == strings_view(v@),
{
    let mut out: Vec<String> = Vec::new();
    let mut i: usize = 0;
    while i < v.len()
        invariant
            i <= v.len(),
            out@.len() == i,
            forall|k: int| 0 <= k < i ==> #[trigger] out@[k]@ == v@[k]@,
        decreases v.len() - i,
    {
        out.push(v[i].clone());
        i += 1;
    }
    proof { assert(strings_view(out@) =~= strings_view(v@)); }
    out
}

impl Clone for ListFilterConfig {
    fn clone(&self) -> (r: Self)
        ensures
            r@ == self@,
    {
        ListFilterConfig {
            statuses: copy_strings(&self.statuses),
            assignees: copy_strings(&self.assignees),
            priorities: copy_strings(&self.priorities),
            tags: copy_strings(&self.tags),
            due_date_filter: self.due_date_filter,
            me_mode: self.me_mode,
            view_mode: self.view_mode,
            include_closed: self.include_closed,
        }
    }
}

impl Default for ListFilterConfig {
    fn default() -> (r: Self)
        ensures
            r@.statuses.len() == 0,
            r@.assignees.len() == 0,
            r@.priorities.len() == 0,
            r@.tags.len() == 0,
            r@.due_date_filter == DueDateFilter::All,
            !r@.me_mode,
            r@.view_mode == ViewModeConfig::List,
            !r@.include_closed,
    {
        ListFilterConfig {
            statuses: Vec::new(),
            assignees: Vec::new(),
            priorities: Vec::new(),
            tags: Vec::new(),
            due_date_filter: DueDateFilter::All,
            me_mode: false,
            view_mode: ViewModeConfig::List,
            include_closed: false,
        }
    }
}

/// The contents of the filters file: per-list configurations keyed by list ID.
#[derive(Debug)]
pub struct FilterFile {
    /// Per-list filter configurations, keyed by list ID, each ID at most once.
    pub filters: Vec<(String, ListFilterConfig)>,
}

/// The saved configuration for `list_id` among `entries`.
pub open spec fn entry_for(entries: Seq<(String, ListFilterConfig)>, list_id: Seq<char>) -> Option<ListFilterView>
    decreases entries.len(),
{
    if entries.len() == 0 {
        None
    } else if entries.last().0@ == list_id {
        Some(entries.last().1@)
    } else {
        entry_for(entries.drop_last(), list_id)
    }
}

impl FilterFile {
    /// The configuration saved for `list_id`, if any.
    pub open spec fn lookup(&self, list_id: Seq<char>) -> Option<ListFilterView> {
        entry_for(self.filters@, list_id)
    }

    /// Each list ID occurs at most once.
    pub open spec fn well_formed(&self) -> bool {
        forall|i: int, j: int| 0 <= i < j < self.filters@.len()
            ==> #[trigger] self.filters@[i].0@ != #[trigger] self.filters@[j].0@
    }

    /// An empty filters file.
    pub fn new() -> (r: Self)
        ensures
            r.well_formed(),
            forall|id: Seq<char>| r.lookup(id) is None,
    {
        FilterFile { filters: Vec::new() }
    }

    fn position(&self, list_id: &str) -> (r: Option<usize>)
        requires
            self.well_formed(),
        ensures
            match r {
                Some(i) => i < self.filters@.len() && self.filters@[i as int].0@ == list_id@,
                None => forall|i: int| 0 <= i < self.filters@.len() ==> self.filters@[i].0@ != list_id@,
            },
    {
        let mut i: usize = 0;
        while i < self.filters.len()
            invariant
                i <= self.filters.len(),
                forall|k: int| 0 <= k < i ==> self.filters@[k].0@ != list_id@,
            decreases self.filters.len() - i,
        {
            if str_eq(self.filters[i].0.as_str(), list_id) {
                return Some(i);
            }
            i += 1;
        }
        None
    }
}

proof fn lemma_entry_absent(entries: Seq<(String, ListFilterConfig)>, id: Seq<char>)
    requires
        forall|i: int| 0 <= i < entries.len() ==> entries[i].0@ != id,
    ensures
        entry_for(entries, id) is None,
    decreases entries.len(),
{
    if entries.len() > 0 {
        lemma_entry_absent(entries.drop_last(), id);
    }
}

proof fn lemma_entry_at(entries: Seq<(String, ListFilterConfig)>, id: Seq<char>, k: int)
    requires
        0 <= k < entries.len(),
        entries[k].0@ == id,
        forall|i: int, j: int| 0 <= i < j < entries.len() ==> #[trigger] entries[i].0@ != #[trigger] entries[j].0@,
    ensures
        entry_for(entries, id) == Some(entries[k].1@),
    decreases entries.len(),
{
    if k < entries.len() - 1 {
        assert(entries.last().0@ != id) by {
            assert(entries[k].0@ != entries[entries.len() - 1].0@);
        }
        lemma_entry_at(entries.drop_last(), id, k);
    }
}

proof fn lemma_lookup_by_position(f: &FilterFile, id: Seq<char>)
    requires
        f.well_formed(),
    ensures
        f.lookup(id) is Some <==> exists|k: int| 0 <= k < f.filters@.len() && f.filters@[k].0@ == id,
        forall|k: int| 0 <= k < f.filters@.len() && f.filters@[k].0@ == id ==> f.lookup(id) == Some(f.filters@[k].1@),
{
    assert forall|k: int| 0 <= k < f.filters@.len() && f.filters@[k].0@ == id implies f.lookup(id) == Some(f.filters@[k].1@) by {
        lemma_entry_at(f.filters@, id, k);
    }
    if !(exists|k: int| 0 <= k < f.filters@.len() && f.filters@[k].0@ == id) {
        lemma_entry_absent(f.filters@, id);
    }
}

/// Manages persistent per-list filter settings.
pub struct FilterStore;

impl FilterStore {
    /// Returns the path to the filters file (`~/.config/clickup-rs/filters.toml`).
    pub fn filters_file_path() -> (r: String)
        ensures
            exists|d: Seq<char>| crate::config::is_config_dir(d) && r@ == crate::config::join_path(d, "filters.toml"@),
    {
        let d = crate::config::Config::config_dir();
        crate::config::join(d.as_str(), "filters.toml")
    }

    /// Loads the filter configuration saved for `list_id`; `None` if there is none.
    pub fn load(file: &FilterFile, list_id: &str) -> (r: Option<ListFilterConfig>)
        requires
            file.well_formed(),
        ensures
            match r {
                Some(c) => file.lookup(list_id@) == Some(c@),
                None => file.lookup(list_id@) is None,
            },
    {
        proof { lemma_lookup_by_position(file, list_id@); }
        match file.position(list_id) {
            Some(i) => Some(file.filters[i].1.clone()),
            None => None,
        }
    }

    /// Saves `config` as the filter configuration for `list_id`, replacing any
    /// earlier one.
    pub fn save(file: &mut FilterFile, list_id: &str, config: &ListFilterConfig)
        requires
            old(file).well_formed(),
        ensures
            final(file).well_formed(),
            final(file).lookup(list_id@) == Some(config@),
            forall|other: Seq<char>| other != list_id@ ==> #[trigger] final(file).lookup(other) == old(file).lookup(other),
    {
        proof { lemma_lookup_by_position(old(file), list_id@); }
        let entry = (crate::text::string_of(&crate::text::chars_of(list_id)), config.clone());
        match file.position(list_id) {
            Some(i) => {
                file.filters.set(i, entry);
                proof {
                    assert(file.filters@[i as int].0@ == list_id@);
                    assert(file.well_formed());
                    lemma_lookup_by_position(file, list_id@);
                }
            }
            None => {
                file.filters.push(entry);
                proof {
                    let n = file.filters@.len() - 1;
                    assert(file.filters@[n].0@ == list_id@);
                    assert(file.well_formed());
                    lemma_lookup_by_position(file, list_id@);
                }
            }
        }
        proof {
            assert forall|other: Seq<char>| other != list_id@ implies #[trigger] file.lookup(other) == old(file).lookup(other) by {
                lemma_lookup_by_position(file, other);
                lemma_lookup_by_position(old(file), other);
                if exists|k: int| 0 <= k < old(file).filters@.len() && old(file).filters@[k].0@ == other {
                    let k = choose|k: int| 0 <= k < old(file).filters@.len() && old(file).filters@[k].0@ == other;
                    assert(file.filters@[k].0@ == other);
                }
                if exists|k: int| 0 <= k < file.filters@.len() && file.filters@[k].0@ == other {
                    let k = choose|k: int| 0 <= k < file.filters@.len() && file.filters@[k].0@ == other;
                    assert(old(file).filters@[k].0@ == other);
                }
            }
        }
    }

    /// Removes the filter configuration saved for `list_id`.
    pub fn remove(file: &mut FilterFile, list_id: &str)
        requires
            old(file).well_formed(),
        ensures
            final(file).well_formed(),
            final(file).lookup(list_id@) is None,
            forall|other: Seq<char>| other != list_id@ ==> #[trigger] final(file).lookup(other) == old(file).lookup(other),
    {
        proof { lemma_lookup_by_position(old(file), list_id@); }
        match file.position(list_id) {
            Some(i) => {
                file.filters.remove(i);
            }
            None => {}
        }
        proof {
            lemma_lookup_by_position(file, list_id@);
            assert forall|other: Seq<char>| other != list_id@ implies #[trigger] file.lookup(other) == old(file).lookup(other) by {
                lemma_lookup_by_position(file, other);
                lemma_lookup_by_position(old(file), other);
                if exists|k: int| 0 <= k < old(file).filters@.len() && old(file).filters@[k].0@ == other {
                    let k = choose|k: int| 0 <= k < old(file).filters@.len() && old(file).filters@[k].0@ == other;
                    let i = choose|i: int| 0 <= i < old(file).filters@.len() && old(file).filters@[i].0@ == list_id@;
                    if exists|i: int| 0 <= i < old(file).filters@.len() && old(file).filters@[i].0@ == list_id@ {
                        if k < i { assert(file.filters@[k].0@ == other); }
                        else { assert(file.filters@[k - 1].0@ == other); }
                    } else {
                        assert(file.filters@[k].0@ == other);
                    }
                }
                if exists|k: int| 0 <= k < file.filters@.len() && file.filters@[k].0@ == other {
                    let k = choose|k: int| 0 <= k < file.filters@.len() && file.filters@[k].0@ == other;
                    if exists|i: int| 0 <= i < old(file).filters@.len() && old(file).filters@[i].0@ == list_id@ {
                        let i = choose|i: int| 0 <= i < old(file).filters@.len() && old(file).filters@[i].0@ == list_id@;
                        if k < i { assert(old(file).filters@[k].0@ == other); }
                        else { assert(old(file).filters@[k + 1].0@ == other); }
                    } else {
                        assert(old(file).filters@[k].0@ == other);
                    }
                }
            }
        }
    }
}

} // verus!
