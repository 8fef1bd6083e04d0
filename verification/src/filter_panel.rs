//! State of the filter panel overlay.
use vstd::prelude::*;
use crate::app::App;

verus! {

/// Index of the currently focused filter section in the panel.
#[derive(Debug, Clone, Copy, PartialEq, Eq, Structural)]
pub enum FilterSection {
    /// Status filter (multi-select).
    Statuses,
    /// Priority filter (multi-select).
    Priorities,
    /// Due date filter (radio select).
    DueDate,
    /// Me Mode toggle.
    MeMode,
    /// Include closed toggle.
    IncludeClosed,
}

impl Default for FilterSection {
    fn default() -> (r: Self)
        ensures
            r == FilterSection::Statuses,
    {
        FilterSection::Statuses
    }
}

impl FilterSection {
    /// The section after `self`, wrapping around.
    pub open spec fn spec_next(self) -> FilterSection {
        match self {
            FilterSection::Statuses => FilterSection::Priorities,
            FilterSection::Priorities => FilterSection::DueDate,
            FilterSection::DueDate => FilterSection::MeMode,
            FilterSection::MeMode => FilterSection::IncludeClosed,
            FilterSection::IncludeClosed => FilterSection::Statuses,
        }
    }

    /// The section before `self`, wrapping around.
    pub open spec fn spec_prev(self) -> FilterSection {
        match self {
            FilterSection::Statuses => FilterSection::IncludeClosed,
            FilterSection::Priorities => FilterSection::Statuses,
            FilterSection::DueDate => FilterSection::Priorities,
            FilterSection::MeMode => FilterSection::DueDate,
            FilterSection::IncludeClosed => FilterSection::MeMode,
        }
    }

    /// Moves to the next section.
    pub fn next(self) -> (r: Self)
        ensures
            r == self.spec_next(),
    {
        match self {
            FilterSection::Statuses => FilterSection::Priorities,
            FilterSection::Priorities => FilterSection::DueDate,
            FilterSection::DueDate => FilterSection::MeMode,
            FilterSection::MeMode => FilterSection::IncludeClosed,
            FilterSection::IncludeClosed => FilterSection::Statuses,
        }
    }

    /// Moves to the previous section.
    pub fn prev(self) -> (r: Self)
        ensures
            r == self.spec_prev(),
    {
        match self {
            FilterSection::Statuses => FilterSection::IncludeClosed,
            FilterSection::Priorities => FilterSection::Statuses,
            FilterSection::DueDate => FilterSection::Priorities,
            FilterSection::MeMode => FilterSection::DueDate,
            FilterSection::IncludeClosed => FilterSection::MeMode,
        }
    }
}

/// `prev` undoes `next` and `next` undoes `prev`; five steps come back around.
pub proof fn law_section_cycle(s: FilterSection)
    ensures
        s.spec_next().spec_prev() == s,
        s.spec_prev().spec_next() == s,
        s.spec_next().spec_next().spec_next().spec_next().spec_next() == s,
{
}

/// State for the filter panel overlay.
#[derive(Debug, Clone, Copy)]
pub struct FilterPanelState {
    /// Which section is currently focused.
    pub section: FilterSection,
    /// Cursor within the current section's items.
    pub cursor: usize,
}

impl Default for FilterPanelState {
    fn default() -> (r: Self)
        ensures
            r.section == FilterSection::Statuses,
            r.cursor == 0,
    {
        FilterPanelState { section: FilterSection::Statuses, cursor: 0 }
    }
}

impl FilterPanelState {
    /// Resets the panel state.
    pub fn reset(&mut self)
        ensures
            final(self).section == FilterSection::Statuses,
            final(self).cursor == 0,
    {
        self.section = FilterSection::Statuses;
        self.cursor = 0;
    }

    /// Moves focus to the next section.
    pub fn next_section(&mut self)
        ensures
            final(self).section == old(self).section.spec_next(),
            final(self).cursor == 0,
    {
        self.section = self.section.next();
        self.cursor = 0;
    }

    /// Moves focus to the previous section.
    pub fn prev_section(&mut self)
        ensures
            final(self).section == old(self).section.spec_prev(),
            final(self).cursor == 0,
    {
        self.section = self.section.prev();
        self.cursor = 0;
    }
}

/// The number of statuses the current space offers to filter by.
pub open spec fn available_status_count(app: App) -> int {
    match app.current_space {
        Some(space) => space.statuses@.len() as int,
        None => 0,
    }
}

/// The number of items in a section of the filter panel.
pub open spec fn spec_section_item_count(app: App, section: FilterSection) -> int {
    match section {
        FilterSection::Statuses => if available_status_count(app) > 1 { available_status_count(app) } else { 1 },
        FilterSection::Priorities => 5,
        FilterSection::DueDate => 5,
        FilterSection::MeMode => 1,
        FilterSection::IncludeClosed => 1,
    }
}

/// Returns the number of items in a section for cursor bounds: the statuses of
/// the current space (at least one row), five priorities, five due-date
/// presets, and one row for each toggle.
pub fn section_item_count(app: &App, section: FilterSection) -> (r: usize)
    ensures
        r == spec_section_item_count(*app, section),
{
    match section {
        FilterSection::Statuses => {
            let n: usize = match &app.current_space {
                Some(space) => space.statuses.len(),
                None => 0,
            };
            if n > 1 { n } else { 1 }
        },
        FilterSection::Priorities => 5,
        FilterSection::DueDate => 5,
        FilterSection::MeMode => 1,
        FilterSection::IncludeClosed => 1,
    }
}

} // verus!
