//! Navigation and view state of the terminal UI.
use vstd::prelude::*;
use crate::filter_config::ViewModeConfig;
use crate::filters::TaskFilters;
use crate::models::{folder_same, Comment, Folder, List, Space, Status, Task, User, Workspace};
use crate::text::{chars_of, contains_seq, lowercase, push_seq, str_contains, string_of, to_lowercase};

verus! {

/// The current screen of the TUI.
#[derive(Debug, Clone, Copy, PartialEq, Eq, Structural)]
pub enum Screen {
    /// Initial loading state.
    Loading,
    /// Select a workspace.
    WorkspaceSelect,
    /// Browse spaces in a workspace.
    SpaceList,
    /// Browse folders and lists in a space.
    SpaceContent,
    /// Browse tasks in a single list.
    TaskList,
    /// View a single task's details.
    TaskDetail,
}

/// View mode for the task list screen.
#[derive(Debug, Clone, Copy, PartialEq, Eq, Structural)]
pub enum ViewMode {
    /// Standard flat task list.
    List,
    /// Vertical sections grouped by status.
    VisionSections,
    /// Horizontal kanban board grouped by status.
    VisionBoard,
}

impl Default for ViewMode {
    fn default() -> (r: Self)
        ensures
            r == ViewMode::List,
    {
        ViewMode::List
    }
}

impl ViewMode {
    /// The mode that follows `self` in the cycle List, Sections, Board.
    pub open spec fn spec_next(self) -> ViewMode {
        match self {
            ViewMode::List => ViewMode::VisionSections,
            ViewMode::VisionSections => ViewMode::VisionBoard,
            ViewMode::VisionBoard => ViewMode::List,
        }
    }

    /// Cycles to the next view mode.
    pub fn next(self) -> (r: Self)
        ensures
            r == self.spec_next(),
    {
        match self {
            ViewMode::List => ViewMode::VisionSections,
            ViewMode::VisionSections => ViewMode::VisionBoard,
            ViewMode::VisionBoard => ViewMode::List,
        }
    }

    /// Human-readable label for the current view mode.
    pub fn label(self) -> (r: &'static str)
        ensures
            self == ViewMode::List ==> r@ == "List"@,
            self == ViewMode::VisionSections ==> r@ == "Vision (Sections)"@,
            self == ViewMode::VisionBoard ==> r@ == "Vision (Board)"@,
    {
        match self {
            ViewMode::List => "List",
            ViewMode::VisionSections => "Vision (Sections)",
            ViewMode::VisionBoard => "Vision (Board)",
        }
    }
}

/// Cycling through the view modes three times comes back to the start.
pub proof fn law_view_mode_cycle(mode: ViewMode)
    ensures
        mode.spec_next().spec_next().spec_next() == mode,
        mode.spec_next() != mode,
{
}

impl From<ViewMode> for ViewModeConfig {
    fn from(mode: ViewMode) -> (r: Self) {
        match mode {
            ViewMode::List => ViewModeConfig::List,
            ViewMode::VisionSections => ViewModeConfig::VisionSections,
            ViewMode::VisionBoard => ViewModeConfig::VisionBoard,
        }
    }
}

impl vstd::std_specs::convert::FromSpecImpl<ViewMode> for ViewModeConfig {
    open spec fn obeys_from_spec() -> bool {
        true
    }

    open spec fn from_spec(mode: ViewMode) -> Self {
        match mode {
            ViewMode::List => ViewModeConfig::List,
            ViewMode::VisionSections => ViewModeConfig::VisionSections,
            ViewMode::VisionBoard => ViewModeConfig::VisionBoard,
        }
    }
}

impl From<ViewModeConfig> for ViewMode {
    fn from(mode: ViewModeConfig) -> (r: Self) {
        match mode {
            ViewModeConfig::List => ViewMode::List,
            ViewModeConfig::VisionSections => ViewMode::VisionSections,
            ViewModeConfig::VisionBoard => ViewMode::VisionBoard,
        }
    }
}

impl vstd::std_specs::convert::FromSpecImpl<ViewModeConfig> for ViewMode {
    open spec fn obeys_from_spec() -> bool {
        true
    }

    open spec fn from_spec(mode: ViewModeConfig) -> Self {
        match mode {
            ViewModeConfig::List => ViewMode::List,
            ViewModeConfig::VisionSections => ViewMode::VisionSections,
            ViewModeConfig::VisionBoard => ViewMode::VisionBoard,
        }
    }
}

/// Converting a view mode to its stored form and back gives the same mode, and
/// so does the other order.
pub proof fn law_view_mode_conversion_roundtrip(mode: ViewMode, cfg: ViewModeConfig)
    ensures
        <ViewMode as vstd::std_specs::convert::FromSpec<ViewModeConfig>>::from_spec(
            <ViewModeConfig as vstd::std_specs::convert::FromSpec<ViewMode>>::from_spec(mode)) == mode,
        <ViewModeConfig as vstd::std_specs::convert::FromSpec<ViewMode>>::from_spec(
            <ViewMode as vstd::std_specs::convert::FromSpec<ViewModeConfig>>::from_spec(cfg)) == cfg,
{
}

/// An item displayed in the SpaceContent screen.
#[derive(Debug, Clone)]
pub enum SpaceContentItem {
    /// A folder that can be expanded to show its lists.
    FolderItem {
        /// The folder.
        folder: Folder,
        /// Whether the folder's lists are visible.
        expanded: bool,
    },
    /// A list inside an expanded folder.
    ListInFolder {
        /// The list.
        list: List,
        /// Name of the parent folder (used for context).
        folder_name: String,
    },
    /// A folderless list at the space root level.
    FolderlessList {
        /// The list.
        list: List,
    },
}

impl SpaceContentItem {
    /// The display name of an item: the folder's or the list's name.
    pub open spec fn spec_display_name(self) -> Seq<char> {
        match self {
            SpaceContentItem::FolderItem { folder, .. } => folder.name@,
            SpaceContentItem::ListInFolder { list, .. } => list.name@,
            SpaceContentItem::FolderlessList { list } => list.name@,
        }
    }

    /// Returns the display name for this item.
    pub fn display_name(&self) -> (r: &str)
        ensures
            r@ == self.spec_display_name(),
    {
        match self {
            SpaceContentItem::FolderItem { folder, .. } => folder.name.as_str(),
            SpaceContentItem::ListInFolder { list, .. } => list.name.as_str(),
            SpaceContentItem::FolderlessList { list } => list.name.as_str(),
        }
    }
}

/// Two content items hold the same data.
pub open spec fn item_same(a: SpaceContentItem, b: SpaceContentItem) -> bool {
    match (a, b) {
        (SpaceContentItem::FolderItem { folder: f1, expanded: e1 },
            SpaceContentItem::FolderItem { folder: f2, expanded: e2 }) => folder_same(f1, f2) && e1 == e2,
        (SpaceContentItem::ListInFolder { list: l1, folder_name: n1 },
            SpaceContentItem::ListInFolder { list: l2, folder_name: n2 }) => l1 == l2 && n1 == n2,
        (SpaceContentItem::FolderlessList { list: l1 }, SpaceContentItem::FolderlessList { list: l2 }) => l1 == l2,
        _ => false,
    }
}

/// Two content sequences hold the same data, item by item.
pub open spec fn items_same(a: Seq<SpaceContentItem>, b: Seq<SpaceContentItem>) -> bool {
    &&& a.len() == b.len()
    &&& forall|k: int| 0 <= k < a.len() ==> item_same(#[trigger] a[k], b[k])
}

/// The rows of a folder: the folder itself, then its lists when it is expanded.
pub open spec fn folder_rows(folder: Folder, expanded: bool) -> Seq<SpaceContentItem> {
    seq![SpaceContentItem::FolderItem { folder, expanded }] + if expanded {
        folder.lists@.map_values(|list: List| SpaceContentItem::ListInFolder { list, folder_name: folder.name })
    } else {
        Seq::<SpaceContentItem>::empty()
    }
}

/// Whether `content` shows the folder with this id expanded.
pub open spec fn expanded_at(item: SpaceContentItem, id: Seq<char>) -> bool {
    match item {
        SpaceContentItem::FolderItem { folder, expanded } => expanded && folder.id@ == id,
        _ => false,
    }
}

/// Whether some item of `content` is the folder with this id, expanded.
pub open spec fn was_expanded(content: Seq<SpaceContentItem>, id: Seq<char>) -> bool {
    exists|i: int| 0 <= i < content.len() && expanded_at(#[trigger] content[i], id)
}

/// The rows of `folders`, each expanded when `content` shows it expanded.
pub open spec fn folders_rows(folders: Seq<Folder>, content: Seq<SpaceContentItem>) -> Seq<SpaceContentItem>
    decreases folders.len(),
{
    if folders.len() == 0 {
        Seq::empty()
    } else {
        folders_rows(folders.drop_last(), content)
            + folder_rows(folders.last(), was_expanded(content, folders.last().id@))
    }
}

/// The rows of folderless lists.
pub open spec fn folderless_rows(lists: Seq<List>) -> Seq<SpaceContentItem> {
    lists.map_values(|list: List| SpaceContentItem::FolderlessList { list })
}

/// What an existing item becomes when the content is regenerated from it.
pub open spec fn regenerated_item(item: SpaceContentItem) -> Seq<SpaceContentItem> {
    match item {
        SpaceContentItem::FolderItem { folder, expanded } => folder_rows(folder, expanded),
        SpaceContentItem::FolderlessList { list } => seq![SpaceContentItem::FolderlessList { list }],
        SpaceContentItem::ListInFolder { .. } => Seq::empty(),
    }
}

/// The content regenerated from existing items: lists inside folders are
/// dropped and generated again from the folders that are expanded.
pub open spec fn regenerated(items: Seq<SpaceContentItem>) -> Seq<SpaceContentItem>
    decreases items.len(),
{
    if items.len() == 0 {
        Seq::empty()
    } else {
        regenerated(items.drop_last()) + regenerated_item(items.last())
    }
}

/// The items with the folder at `index` flipped between expanded and collapsed;
/// unchanged where `index` holds no folder.
pub open spec fn flipped(items: Seq<SpaceContentItem>, index: int) -> Seq<SpaceContentItem> {
    if 0 <= index < items.len() {
        match items[index] {
            SpaceContentItem::FolderItem { folder, expanded } =>
                items.update(index, SpaceContentItem::FolderItem { folder, expanded: !expanded }),
            _ => items,
        }
    } else {
        items
    }
}

/// Appends a copy of `list` inside the folder named `folder_name`, for each list.
fn push_folder_rows(out: &mut Vec<SpaceContentItem>, folder: &Folder, expanded: bool)
    ensures
        final(out)@.len() == old(out)@.len() + folder_rows(*folder, expanded).len(),
        final(out)@.subrange(0, old(out)@.len() as int) == old(out)@,
        items_same(final(out)@.subrange(old(out)@.len() as int, final(out)@.len() as int), folder_rows(*folder, expanded)),
{
    let ghost start = out@.len();
    let ghost rows = folder_rows(*folder, expanded);
    out.push(SpaceContentItem::FolderItem { folder: folder.clone(), expanded });
    if expanded {
        let mut j: usize = 0;
        while j < folder.lists.len()
            invariant
                j <= folder.lists.len(),
                rows == folder_rows(*folder, expanded),
                expanded,
                out@.len() == start + 1 + j,
                out@.subrange(0, start as int) == old(out)@,
                item_same(out@[start as int], rows[0]),
                forall|k: int| 1 <= k <= j ==> item_same(#[trigger] out@[start + k], rows[k]),
            decreases folder.lists.len() - j,
        {
            let ghost before = out@;
            out.push(SpaceContentItem::ListInFolder { list: folder.lists[j].clone(), folder_name: folder.name.clone() });
            proof {
                assert(out@.subrange(0, start as int) =~= before.subrange(0, start as int));
                assert(rows[j + 1] == SpaceContentItem::ListInFolder { list: folder.lists@[j as int], folder_name: folder.name });
                assert forall|k: int| 1 <= k <= j + 1 implies item_same(#[trigger] out@[start + k], rows[k]) by {
                    if k <= j { assert(out@[start + k] == before[start + k]); }
                }
                assert(out@[start as int] == before[start as int]);
            }
            j += 1;
        }
    }
    proof {
        let tail = out@.subrange(start as int, out@.len() as int);
        assert(tail.len() == rows.len());
        assert forall|k: int| 0 <= k < tail.len() implies item_same(#[trigger] tail[k], rows[k]) by {
            assert(tail[k] == out@[start + k]);
        }
    }
}

/// Whether `content` holds the folder with this id, expanded.
fn find_expanded(content: &Vec<SpaceContentItem>, id: &String) -> (r: bool)
    ensures
        r == was_expanded(content@, id@),
{
    let mut i: usize = 0;
    while i < content.len()
        invariant
            i <= content.len(),
            forall|k: int| 0 <= k < i ==> !expanded_at(#[trigger] content@[k], id@),
        decreases content.len() - i,
    {
        match &content[i] {
            SpaceContentItem::FolderItem { folder, expanded } => {
                if *expanded && folder.id == *id {
                    assert(expanded_at(content@[i as int], id@));
                    return true;
                }
            },
            _ => {},
        }
        i += 1;
    }
    false
}

proof fn lemma_items_same_append(a: Seq<SpaceContentItem>, b: Seq<SpaceContentItem>, x: Seq<SpaceContentItem>, y: Seq<SpaceContentItem>)
    requires
        items_same(a, x),
        items_same(b, y),
    ensures
        items_same(a + b, x + y),
{
    assert forall|k: int| 0 <= k < (a + b).len() implies item_same(#[trigger] (a + b)[k], (x + y)[k]) by {
        if k < a.len() {
            assert(item_same(a[k], x[k]));
        } else {
            assert(item_same(b[k - a.len()], y[k - a.len()]));
        }
    }
}

/// Splits `out` at `mid` and restates `items_same` of its two parts.
proof fn lemma_items_same_split(out: Seq<SpaceContentItem>, mid: int, x: Seq<SpaceContentItem>, y: Seq<SpaceContentItem>)
    requires
        0 <= mid <= out.len(),
        items_same(out.subrange(0, mid), x),
        items_same(out.subrange(mid, out.len() as int), y),
    ensures
        items_same(out, x + y),
{
    lemma_items_same_append(out.subrange(0, mid), out.subrange(mid, out.len() as int), x, y);
    assert(out.subrange(0, mid) + out.subrange(mid, out.len() as int) =~= out);
}

proof fn lemma_folders_rows_step(folders: Seq<Folder>, content: Seq<SpaceContentItem>, i: int)
    requires
        0 <= i < folders.len(),
    ensures
        folders_rows(folders.subrange(0, i + 1), content)
            == folders_rows(folders.subrange(0, i), content) + folder_rows(folders[i], was_expanded(content, folders[i].id@)),
{
    assert(folders.subrange(0, i + 1).drop_last() =~= folders.subrange(0, i));
}

proof fn lemma_regenerated_step(items: Seq<SpaceContentItem>, i: int)
    requires
        0 <= i < items.len(),
    ensures
        regenerated(items.subrange(0, i + 1)) == regenerated(items.subrange(0, i)) + regenerated_item(items[i]),
{
    assert(items.subrange(0, i + 1).drop_last() =~= items.subrange(0, i));
}

proof fn lemma_regenerated_concat(a: Seq<SpaceContentItem>, b: Seq<SpaceContentItem>)
    ensures
        regenerated(a + b) == regenerated(a) + regenerated(b),
    decreases b.len(),
{
    if b.len() == 0 {
        assert(a + b =~= a);
        assert(regenerated(a) + regenerated(b) =~= regenerated(a));
    } else {
        assert((a + b).drop_last() =~= a + b.drop_last());
        assert((a + b).last() == b.last());
        lemma_regenerated_concat(a, b.drop_last());
        assert(regenerated(a + b) =~= regenerated(a) + regenerated(b));
    }
}

proof fn lemma_regenerated_single(x: SpaceContentItem)
    ensures
        regenerated(seq![x]) == regenerated_item(x),
{
    assert(seq![x].drop_last() =~= Seq::<SpaceContentItem>::empty());
    assert(seq![x].last() == x);
    assert(regenerated(Seq::<SpaceContentItem>::empty()) =~= Seq::<SpaceContentItem>::empty());
    assert(regenerated(seq![x]) =~= regenerated_item(x));
}

proof fn lemma_regenerated_lists(lists: Seq<List>, name: String)
    ensures
        regenerated(lists.map_values(|list: List| SpaceContentItem::ListInFolder { list, folder_name: name }))
            == Seq::<SpaceContentItem>::empty(),
    decreases lists.len(),
{
    let m = lists.map_values(|list: List| SpaceContentItem::ListInFolder { list, folder_name: name });
    if lists.len() > 0 {
        assert(m.drop_last() =~= lists.drop_last().map_values(|list: List| SpaceContentItem::ListInFolder { list, folder_name: name }));
        lemma_regenerated_lists(lists.drop_last(), name);
        assert(m.last() == SpaceContentItem::ListInFolder { list: lists.last(), folder_name: name });
        assert(regenerated(m) =~= Seq::<SpaceContentItem>::empty());
    }
}

/// Regenerating the rows of one item gives them back.
proof fn lemma_regenerated_item_fixed(x: SpaceContentItem)
    ensures
        regenerated(regenerated_item(x)) == regenerated_item(x),
{
    match x {
        SpaceContentItem::FolderItem { folder, expanded } => {
            let head = seq![SpaceContentItem::FolderItem { folder, expanded }];
            let tail = if expanded {
                folder.lists@.map_values(|list: List| SpaceContentItem::ListInFolder { list, folder_name: folder.name })
            } else {
                Seq::<SpaceContentItem>::empty()
            };
            assert(regenerated_item(x) == head + tail);
            lemma_regenerated_concat(head, tail);
            lemma_regenerated_single(head[0]);
            lemma_regenerated_lists(folder.lists@, folder.name);
            assert(regenerated(Seq::<SpaceContentItem>::empty()) == Seq::<SpaceContentItem>::empty());
            assert(regenerated(regenerated_item(x)) =~= regenerated_item(x));
        },
        SpaceContentItem::FolderlessList { list } => {
            lemma_regenerated_single(x);
        },
        SpaceContentItem::ListInFolder { .. } => {
            assert(regenerated(Seq::<SpaceContentItem>::empty()) == Seq::<SpaceContentItem>::empty());
        },
    }
}

/// Regenerated content regenerates to itself.
proof fn lemma_regenerated_idempotent(x: Seq<SpaceContentItem>)
    ensures
        regenerated(regenerated(x)) == regenerated(x),
    decreases x.len(),
{
    if x.len() > 0 {
        lemma_regenerated_idempotent(x.drop_last());
        lemma_regenerated_concat(regenerated(x.drop_last()), regenerated_item(x.last()));
        lemma_regenerated_item_fixed(x.last());
    }
}

/// A folder item stands at row `i` of the content regenerated from `x`: it is the
/// item `x[j]` whose rows start there, and flipping row `i` and regenerating is
/// regenerating `x` with `x[j]` flipped.
proof fn lemma_locate_folder(x: Seq<SpaceContentItem>, i: int) -> (j: int)
    requires
        0 <= i < regenerated(x).len(),
        regenerated(x)[i] is FolderItem,
    ensures
        0 <= j < x.len(),
        x[j] == regenerated(x)[i],
        regenerated(x.subrange(0, j)).len() == i,
        regenerated(flipped(regenerated(x), i)) == regenerated(flipped(x, j)),
    decreases x.len(),
{
    let xs = x.drop_last();
    let l = x.last();
    let p = regenerated(xs);
    let q = regenerated_item(l);
    assert(regenerated(x) == p + q);
    assert(x =~= xs.push(l));
    if i < p.len() {
        assert(p[i] == regenerated(x)[i]);
        let j = lemma_locate_folder(xs, i);
        assert(x.subrange(0, j) =~= xs.subrange(0, j));
        assert(flipped(regenerated(x), i) =~= flipped(p, i) + q);
        lemma_regenerated_concat(flipped(p, i), q);
        lemma_regenerated_item_fixed(l);
        assert(flipped(x, j) =~= flipped(xs, j).push(l));
        assert(flipped(x, j).drop_last() =~= flipped(xs, j));
        j
    } else {
        let k = i - p.len();
        assert(q[k] == regenerated(x)[i]);
        match l {
            SpaceContentItem::FolderItem { folder, expanded } => {
                if k > 0 {
                    assert(q[k] == SpaceContentItem::ListInFolder { list: folder.lists@[k - 1], folder_name: folder.name });
                }
                assert(k == 0);
                let j = xs.len() as int;
                assert(x.subrange(0, j) =~= xs);
                let fq = flipped(q, 0);
                assert(flipped(regenerated(x), i) =~= p + fq);
                lemma_regenerated_concat(p, fq);
                lemma_regenerated_idempotent(xs);
                let nl = SpaceContentItem::FolderItem { folder, expanded: !expanded };
                let tail = if expanded {
                    folder.lists@.map_values(|list: List| SpaceContentItem::ListInFolder { list, folder_name: folder.name })
                } else {
                    Seq::<SpaceContentItem>::empty()
                };
                assert(fq =~= seq![nl] + tail);
                lemma_regenerated_concat(seq![nl], tail);
                lemma_regenerated_single(nl);
                lemma_regenerated_lists(folder.lists@, folder.name);
                assert(regenerated(Seq::<SpaceContentItem>::empty()) == Seq::<SpaceContentItem>::empty());
                assert(regenerated(fq) =~= regenerated_item(nl));
                assert(flipped(x, j) =~= xs.push(nl));
                assert(flipped(x, j).drop_last() =~= xs);
                j
            },
            SpaceContentItem::FolderlessList { list } => {
                assert(false);
                0
            },
            SpaceContentItem::ListInFolder { .. } => {
                assert(false);
                0
            },
        }
    }
}

/// Only one folder item of `y` has its rows start at a given row.
proof fn lemma_folder_start_unique(y: Seq<SpaceContentItem>, j1: int, j2: int)
    requires
        0 <= j1 < y.len(),
        0 <= j2 < y.len(),
        y[j1] is FolderItem,
        y[j2] is FolderItem,
        regenerated(y.subrange(0, j1)).len() == regenerated(y.subrange(0, j2)).len(),
    ensures
        j1 == j2,
{
    if j1 < j2 {
        lemma_folder_rows_push(y, j1, j2);
    } else if j2 < j1 {
        lemma_folder_rows_push(y, j2, j1);
    }
}

proof fn lemma_folder_rows_push(y: Seq<SpaceContentItem>, a: int, b: int)
    requires
        0 <= a < b <= y.len(),
        y[a] is FolderItem,
    ensures
        regenerated(y.subrange(0, b)).len() > regenerated(y.subrange(0, a)).len(),
{
    assert(y.subrange(0, b) =~= y.subrange(0, a) + (seq![y[a]] + y.subrange(a + 1, b)));
    lemma_regenerated_concat(y.subrange(0, a), seq![y[a]] + y.subrange(a + 1, b));
    lemma_regenerated_concat(seq![y[a]], y.subrange(a + 1, b));
    lemma_regenerated_single(y[a]);
}

/// Toggling the same folder row twice restores the space content: the first
/// toggle flips that folder and shows or hides its lists right after it, the
/// second flips it back. Stated for content regenerated from items `x`, which is
/// the shape the space content always has: each folder followed by its lists
/// exactly when it is expanded.
pub proof fn law_toggle_folder_twice(x: Seq<SpaceContentItem>, i: int)
    requires
        0 <= i < regenerated(x).len(),
        regenerated(x)[i] is FolderItem,
    ensures
        regenerated(flipped(regenerated(flipped(regenerated(x), i)), i)) == regenerated(x),
{
    let j = lemma_locate_folder(x, i);
    let y = flipped(x, j);
    let f = x[j];
    assert(y[j] is FolderItem);
    assert(y.subrange(0, j) =~= x.subrange(0, j));
    assert(y =~= y.subrange(0, j) + (seq![y[j]] + y.subrange(j + 1, y.len() as int)));
    lemma_regenerated_concat(y.subrange(0, j), seq![y[j]] + y.subrange(j + 1, y.len() as int));
    lemma_regenerated_concat(seq![y[j]], y.subrange(j + 1, y.len() as int));
    lemma_regenerated_single(y[j]);
    assert(regenerated(y)[i] == y[j]);
    let j2 = lemma_locate_folder(y, i);
    lemma_folder_start_unique(y, j, j2);
    assert(flipped(y, j) =~= x);
}

/// Two calls of `toggle_folder` at the same row restore the space content, up
/// to the same data in each item: `c0` is the content before, of the shape the
/// space content always has (the content regenerated from some items `x`, each
/// folder followed by its lists exactly when it is expanded), `c1` what the first
/// call leaves as its `ensures` states it, and `c2` what the second call leaves.
pub proof fn law_toggle_folder_twice_restores(x: Seq<SpaceContentItem>, c0: Seq<SpaceContentItem>,
    c1: Seq<SpaceContentItem>, c2: Seq<SpaceContentItem>, i: int)
    requires
        items_same(c0, regenerated(x)),
        0 <= i < c0.len(),
        c0[i] is FolderItem,
        items_same(c1, regenerated(flipped(c0, i))),
        items_same(c2, regenerated(flipped(c1, i))),
    ensures
        items_same(c2, c0),
{
    let r = regenerated(x);
    assert(item_same(c0[i], r[i]));
    law_toggle_folder_twice(x, i);
    let t1 = regenerated(flipped(r, i));
    lemma_flipped_same(c0, r, i);
    lemma_regenerated_same(flipped(c0, i), flipped(r, i));
    lemma_items_same_transitive(c1, regenerated(flipped(c0, i)), t1);
    lemma_flipped_same(c1, t1, i);
    lemma_regenerated_same(flipped(c1, i), flipped(t1, i));
    lemma_items_same_transitive(c2, regenerated(flipped(c1, i)), regenerated(flipped(t1, i)));
    lemma_items_same_symmetric(c0, r);
    lemma_items_same_transitive(c2, r, c0);
}

proof fn lemma_items_same_symmetric(a: Seq<SpaceContentItem>, b: Seq<SpaceContentItem>)
    requires
        items_same(a, b),
    ensures
        items_same(b, a),
{
    assert forall|k: int| 0 <= k < b.len() implies item_same(#[trigger] b[k], a[k]) by {
        assert(item_same(a[k], b[k]));
    }
}

proof fn lemma_items_same_transitive(a: Seq<SpaceContentItem>, b: Seq<SpaceContentItem>, c: Seq<SpaceContentItem>)
    requires
        items_same(a, b),
        items_same(b, c),
    ensures
        items_same(a, c),
{
    assert forall|k: int| 0 <= k < a.len() implies item_same(#[trigger] a[k], c[k]) by {
        assert(item_same(a[k], b[k]));
        assert(item_same(b[k], c[k]));
    }
}

proof fn lemma_items_same_refl(a: Seq<SpaceContentItem>)
    ensures
        items_same(a, a),
{
    assert forall|k: int| 0 <= k < a.len() implies item_same(#[trigger] a[k], a[k]) by {}
}

proof fn lemma_flipped_same(a: Seq<SpaceContentItem>, b: Seq<SpaceContentItem>, i: int)
    requires
        items_same(a, b),
    ensures
        items_same(flipped(a, i), flipped(b, i)),
{
    if 0 <= i < a.len() {
        assert(item_same(a[i], b[i]));
    }
    assert forall|k: int| 0 <= k < flipped(a, i).len() implies item_same(#[trigger] flipped(a, i)[k], flipped(b, i)[k]) by {
        assert(item_same(a[k], b[k]));
    }
}

proof fn lemma_regenerated_item_same(x: SpaceContentItem, y: SpaceContentItem)
    requires
        item_same(x, y),
    ensures
        items_same(regenerated_item(x), regenerated_item(y)),
{
    match (x, y) {
        (SpaceContentItem::FolderItem { folder: f1, expanded: e1 }, SpaceContentItem::FolderItem { folder: f2, expanded: e2 }) => {
            let r1 = regenerated_item(x);
            let r2 = regenerated_item(y);
            assert(r1.len() == r2.len());
            assert forall|k: int| 0 <= k < r1.len() implies item_same(#[trigger] r1[k], r2[k]) by {
                if k > 0 {
                    assert(r1[k] == SpaceContentItem::ListInFolder { list: f1.lists@[k - 1], folder_name: f1.name });
                    assert(r2[k] == SpaceContentItem::ListInFolder { list: f2.lists@[k - 1], folder_name: f2.name });
                }
            }
        },
        _ => {
            lemma_items_same_refl(regenerated_item(x));
        },
    }
}

proof fn lemma_regenerated_same(a: Seq<SpaceContentItem>, b: Seq<SpaceContentItem>)
    requires
        items_same(a, b),
    ensures
        items_same(regenerated(a), regenerated(b)),
    decreases a.len(),
{
    if a.len() > 0 {
        assert forall|k: int| 0 <= k < a.drop_last().len() implies item_same(#[trigger] a.drop_last()[k], b.drop_last()[k]) by {
            assert(item_same(a[k], b[k]));
        }
        lemma_regenerated_same(a.drop_last(), b.drop_last());
        assert(item_same(a.last(), b.last())) by {
            assert(item_same(a[a.len() - 1], b[b.len() - 1]));
        }
        lemma_regenerated_item_same(a.last(), b.last());
        lemma_items_same_append(regenerated(a.drop_last()), regenerated_item(a.last()),
            regenerated(b.drop_last()), regenerated_item(b.last()));
    }
}

impl App {
    /// Rebuilds the SpaceContent list from the folders and folderless lists:
    /// each folder, followed by its lists when the current content shows that
    /// folder expanded, then each folderless list.
    pub fn rebuild_space_content(&mut self)
        ensures
            items_same(final(self).space_content@,
                folders_rows(old(self).folders@, old(self).space_content@) + folderless_rows(old(self).lists@)),
            *final(self) == (App { space_content: final(self).space_content, ..*old(self) }),
    {
        let mut items: Vec<SpaceContentItem> = Vec::new();
        let mut i: usize = 0;
        while i < self.folders.len()
            invariant
                i <= self.folders.len(),
                items_same(items@, folders_rows(self.folders@.subrange(0, i as int), self.space_content@)),
            decreases self.folders.len() - i,
        {
            let e = find_expanded(&self.space_content, &self.folders[i].id);
            let ghost before = items@;
            push_folder_rows(&mut items, &self.folders[i], e);
            proof {
                lemma_items_same_split(items@, before.len() as int,
                    folders_rows(self.folders@.subrange(0, i as int), self.space_content@),
                    folder_rows(self.folders@[i as int], e));
                lemma_folders_rows_step(self.folders@, self.space_content@, i as int);
            }
            i += 1;
        }
        proof { assert(self.folders@.subrange(0, self.folders@.len() as int) =~= self.folders@); }
        let ghost head = folders_rows(self.folders@, self.space_content@);
        let mut j: usize = 0;
        while j < self.lists.len()
            invariant
                j <= self.lists.len(),
                head == folders_rows(self.folders@, self.space_content@),
                items_same(items@, head + folderless_rows(self.lists@.subrange(0, j as int))),
            decreases self.lists.len() - j,
        {
            let ghost before = items@;
            items.push(SpaceContentItem::FolderlessList { list: self.lists[j].clone() });
            proof {
                let next = head + folderless_rows(self.lists@.subrange(0, j + 1));
                assert(next =~= (head + folderless_rows(self.lists@.subrange(0, j as int)))
                    .push(SpaceContentItem::FolderlessList { list: self.lists@[j as int] }));
                assert forall|k: int| 0 <= k < items@.len() implies item_same(#[trigger] items@[k], next[k]) by {
                    if k < before.len() { assert(items@[k] == before[k]); }
                }
            }
            j += 1;
        }
        proof { assert(self.lists@.subrange(0, self.lists@.len() as int) =~= self.lists@); }
        self.space_content = items;
    }

    /// Flips the folder at `content_index` between expanded and collapsed (nothing
    /// flips where that index holds no folder), then regenerates the content:
    /// the lists inside folders are generated again from the expanded folders.
    pub fn toggle_folder(&mut self, content_index: usize)
        ensures
            items_same(final(self).space_content@, regenerated(flipped(old(self).space_content@, content_index as int))),
            *final(self) == (App { space_content: final(self).space_content, ..*old(self) }),
    {
        let ghost fl = flipped(self.space_content@, content_index as int);
        let mut items: Vec<SpaceContentItem> = Vec::new();
        let mut i: usize = 0;
        while i < self.space_content.len()
            invariant
                i <= self.space_content.len(),
                fl == flipped(self.space_content@, content_index as int),
                items_same(items@, regenerated(fl.subrange(0, i as int))),
            decreases self.space_content.len() - i,
        {
            let ghost before = items@;
            proof { lemma_regenerated_step(fl, i as int); }
            match &self.space_content[i] {
                SpaceContentItem::FolderItem { folder, expanded } => {
                    let e = if i == content_index { !*expanded } else { *expanded };
                    push_folder_rows(&mut items, folder, e);
                    proof {
                        assert(fl[i as int] == SpaceContentItem::FolderItem { folder: *folder, expanded: e });
                        lemma_items_same_split(items@, before.len() as int,
                            regenerated(fl.subrange(0, i as int)), folder_rows(*folder, e));
                    }
                },
                SpaceContentItem::FolderlessList { list } => {
                    items.push(SpaceContentItem::FolderlessList { list: list.clone() });
                    proof {
                        assert(fl[i as int] == self.space_content@[i as int]);
                        let next = regenerated(fl.subrange(0, i + 1));
                        assert(next =~= regenerated(fl.subrange(0, i as int)).push(SpaceContentItem::FolderlessList { list: *list }));
                        assert forall|k: int| 0 <= k < items@.len() implies item_same(#[trigger] items@[k], next[k]) by {
                            if k < before.len() { assert(items@[k] == before[k]); }
                        }
                    }
                },
                SpaceContentItem::ListInFolder { .. } => {
                    proof {
                        assert(fl[i as int] == self.space_content@[i as int]);
                        assert(regenerated(fl.subrange(0, i + 1)) =~= regenerated(fl.subrange(0, i as int)));
                    }
                },
            }
            i += 1;
        }
        proof { assert(fl.subrange(0, fl.len() as int) =~= fl); }
        self.space_content = items;
    }
}

/// A group of tasks sharing the same status, used for Vision views.
#[derive(Debug, Clone)]
pub struct StatusGroup {
    /// Status name.
    pub name: String,
    /// Status hex colour.
    pub color: String,
    /// Status type ("open", "closed", "custom").
    pub status_type: String,
    /// Indices into `App::tasks` for tasks in this group.
    pub task_indices: Vec<usize>,
}

/// The spinner frames of the loading animation.
pub open spec fn spinner_frames() -> Seq<char> {
    seq!['⠋', '⠙', '⠹', '⠸', '⠼', '⠴', '⠦', '⠧', '⠇', '⠏']
}

/// Indices below `n` of the names that contain `query`, both lower-cased; all of
/// them when the query is empty.
pub open spec fn name_filter(names: Seq<Seq<char>>, query: Seq<char>, n: int) -> Seq<usize>
    decreases n,
{
    if n <= 0 {
        seq![]
    } else if query.len() == 0 || contains_seq(lowercase(names[n - 1]), lowercase(query)) {
        name_filter(names, query, n - 1).push((n - 1) as usize)
    } else {
        name_filter(names, query, n - 1)
    }
}

/// Case-insensitive filter returning the indices of the matching names.
pub fn filter_indices(names: &Vec<&str>, query: &str) -> (r: Vec<usize>)
    ensures
        r@ == name_filter(names@.map_values(|s: &str| s@), query@, names@.len() as int),
{
    let ghost views = names@.map_values(|s: &str| s@);
    let q = to_lowercase(query);
    let empty = query.is_empty();
    let mut out: Vec<usize> = Vec::new();
    let mut i: usize = 0;
    while i < names.len()
        invariant
            i <= names.len(),
            views == names@.map_values(|s: &str| s@),
            q@ == lowercase(query@),
            empty == (query@.len() == 0),
            out@ == name_filter(views, query@, i as int),
        decreases names.len() - i,
    {
        let keep = if empty {
            true
        } else {
            let l = to_lowercase(names[i]);
            str_contains(l.as_str(), q.as_str())
        };
        proof { assert(views[i as int] == names@[i as int]@); }
        if keep {
            out.push(i);
        }
        i += 1;
    }
    out
}

/// Top-level application state.
pub struct App {
    /// Current screen being displayed.
    pub screen: Screen,
    /// Whether the application should exit.
    pub should_quit: bool,
    /// Loaded workspaces.
    pub workspaces: Vec<Workspace>,
    /// Loaded spaces for the current workspace.
    pub spaces: Vec<Space>,
    /// Currently selected workspace.
    pub current_workspace: Option<Workspace>,
    /// Currently selected space.
    pub current_space: Option<Space>,
    /// Folders within the current space.
    pub folders: Vec<Folder>,
    /// Lists within the current space (folderless).
    pub lists: Vec<List>,
    /// Flat list of items for the SpaceContent screen.
    pub space_content: Vec<SpaceContentItem>,
    /// Tasks in the current list.
    pub tasks: Vec<Task>,
    /// Currently viewed task.
    pub current_task: Option<Task>,
    /// Currently selected list.
    pub current_list: Option<List>,
    /// Comments on the current task.
    pub comments: Vec<Comment>,
    /// The authenticated user (loaded on startup for Me Mode).
    pub current_user: Option<User>,
    /// Index of the highlighted item in the current list.
    pub selected_index: usize,
    /// Saved task list selection index (preserved on back-nav).
    pub saved_task_index: usize,
    /// Saved space content selection index (preserved on back-nav).
    pub saved_content_index: usize,
    /// Breadcrumb trail for navigation context.
    pub breadcrumb: Vec<String>,
    /// Whether the search bar is active.
    pub filter_active: bool,
    /// Current filter text.
    pub filter_text: String,
    /// Active structured filters for the current list.
    pub task_filters: TaskFilters,
    /// Whether the filter panel overlay is visible.
    pub filter_panel_open: bool,
    /// Filter panel navigation state.
    pub filter_panel_state: crate::filter_panel::FilterPanelState,
    /// Current view mode for the task list.
    pub view_mode: ViewMode,
    /// Tasks grouped by status (for Vision views).
    pub status_groups: Vec<StatusGroup>,
    /// In Vision views, which status group is focused.
    pub focused_group: usize,
    /// In Vision views, which item within the focused group is selected.
    pub group_selected_index: usize,
    /// Current page of task results (0-indexed).
    pub current_page: usize,
    /// Whether more pages are available.
    pub has_more_pages: bool,
    /// Whether a background page load is in progress.
    pub loading_more: bool,
    /// Error message to display (auto-dismisses).
    pub error_message: Option<String>,
    /// When the current error message was set (milliseconds on the UI's clock).
    pub error_set_at: Option<u64>,
    /// Whether a background data load is in progress.
    pub loading: bool,
    /// Vertical scroll offset for long content.
    pub scroll_offset: u16,
    /// Whether the help overlay is visible.
    pub show_help: bool,
    /// Tick counter for spinner animation.
    pub tick_count: usize,
    /// When the current screen's data was last refreshed (milliseconds on the UI's clock).
    pub last_updated: Option<u64>,
}

} // verus!

verus! {

/// The root breadcrumb label.
pub open spec fn root_label() -> Seq<char> {
    "ClickUp"@
}

/// The hint added to authentication errors.
pub open spec fn auth_hint() -> Seq<char> {
    " — run `clickup auth login` to re-authenticate"@
}

/// The hint added to connection errors.
pub open spec fn network_hint() -> Seq<char> {
    " — check your connection and token"@
}

/// The message `set_error` shows for `msg`.
pub open spec fn enhanced_error(msg: Seq<char>) -> Seq<char> {
    if contains_seq(msg, "401"@) || contains_seq(msg, "auth"@) || contains_seq(msg, "Auth"@) {
        msg + auth_hint()
    } else if contains_seq(msg, "timed out"@) || contains_seq(msg, "connection"@)
        || contains_seq(msg, "network"@) {
        msg + network_hint()
    } else {
        msg
    }
}

/// The views of a vector of strings.
pub open spec fn labels(v: Seq<String>) -> Seq<Seq<char>> {
    v.map_values(|s: String| s@)
}

/// Whole seconds between two clock readings in milliseconds, zero when the
/// second is earlier (as `Instant::elapsed` saturates).
pub open spec fn elapsed_secs(from_ms: u64, now_ms: u64) -> int {
    if now_ms >= from_ms { (now_ms - from_ms) / 1000 } else { 0 }
}

impl App {
    /// Creates a new `App` with default state.
    pub fn new() -> (r: Self)
        ensures
            r.screen == Screen::Loading,
            !r.should_quit,
            labels(r.breadcrumb@) == seq![root_label()],
            r.selected_index == 0,
            r.view_mode == ViewMode::List,
            r.error_message is None,
            r.error_set_at is None,
            !r.loading,
            r.tick_count == 0,
            r.workspaces@.len() == 0,
            r.tasks@.len() == 0,
            r.status_groups@.len() == 0,
            r.current_space is None,
            r.current_list is None,
            r.current_user is None,
            !r.filter_active,
            r.filter_text@.len() == 0,
            !r.filter_panel_open,
            r.current_page == 0,
            !r.has_more_pages,
            !r.loading_more,
            r.focused_group == 0,
            r.group_selected_index == 0,
            r.scroll_offset == 0,
            !r.show_help,
            r.last_updated is None,
    {
        let mut breadcrumb: Vec<String> = Vec::new();
        breadcrumb.push(string_of(&chars_of("ClickUp")));
        proof { assert(labels(breadcrumb@) =~= seq![root_label()]); }
        App {
            screen: Screen::Loading,
            should_quit: false,
            workspaces: Vec::new(),
            spaces: Vec::new(),
            current_workspace: None,
            current_space: None,
            folders: Vec::new(),
            lists: Vec::new(),
            space_content: Vec::new(),
            tasks: Vec::new(),
            current_task: None,
            current_list: None,
            comments: Vec::new(),
            current_user: None,
            selected_index: 0,
            saved_task_index: 0,
            saved_content_index: 0,
            breadcrumb,
            filter_active: false,
            filter_text: String::new(),
            task_filters: TaskFilters::default(),
            filter_panel_open: false,
            filter_panel_state: crate::filter_panel::FilterPanelState::default(),
            view_mode: ViewMode::List,
            status_groups: Vec::new(),
            focused_group: 0,
            group_selected_index: 0,
            current_page: 0,
            has_more_pages: false,
            loading_more: false,
            error_message: None,
            error_set_at: None,
            loading: false,
            scroll_offset: 0,
            show_help: false,
            tick_count: 0,
            last_updated: None,
        }
    }

    /// Pushes a label onto the breadcrumb trail.
    pub fn push_breadcrumb(&mut self, label: &str)
        ensures
            labels(final(self).breadcrumb@) == labels(old(self).breadcrumb@).push(label@),
            *final(self) == (App { breadcrumb: final(self).breadcrumb, ..*old(self) }),
    {
        let ghost before = self.breadcrumb@;
        self.breadcrumb.push(string_of(&chars_of(label)));
        proof { assert(labels(self.breadcrumb@) =~= labels(before).push(label@)); }
    }

    /// Pops the last breadcrumb label, never the root.
    pub fn pop_breadcrumb(&mut self)
        ensures
            old(self).breadcrumb@.len() > 1 ==> labels(final(self).breadcrumb@) == labels(old(self).breadcrumb@).drop_last(),
            old(self).breadcrumb@.len() <= 1 ==> labels(final(self).breadcrumb@) == labels(old(self).breadcrumb@),
            *final(self) == (App { breadcrumb: final(self).breadcrumb, ..*old(self) }),
    {
        if self.breadcrumb.len() > 1 {
            let ghost before = self.breadcrumb@;
            self.breadcrumb.pop();
            proof { assert(labels(self.breadcrumb@) =~= labels(before).drop_last()); }
        }
    }

    /// Moves the selection to the next item, wrapping around.
    pub fn select_next(&mut self, max: usize)
        requires
            max == 0 || old(self).selected_index < usize::MAX,
        ensures
            max == 0 ==> final(self).selected_index == old(self).selected_index,
            max > 0 ==> final(self).selected_index == (old(self).selected_index + 1) % (max as int),
            *final(self) == (App { selected_index: final(self).selected_index, ..*old(self) }),
    {
        if max == 0 {
            return;
        }
        self.selected_index = (self.selected_index + 1) % max;
    }

    /// Moves the selection to the previous item, wrapping around.
    pub fn select_previous(&mut self, max: usize)
        ensures
            max == 0 ==> final(self).selected_index == old(self).selected_index,
            max > 0 && old(self).selected_index == 0 ==> final(self).selected_index == max - 1,
            max > 0 && old(self).selected_index > 0 ==> final(self).selected_index == old(self).selected_index - 1,
            *final(self) == (App { selected_index: final(self).selected_index, ..*old(self) }),
    {
        if max == 0 {
            return;
        }
        if self.selected_index == 0 {
            self.selected_index = max - 1;
        } else {
            self.selected_index -= 1;
        }
    }

    /// Resets the selection index and scroll offset.
    pub fn reset_selection(&mut self)
        ensures
            *final(self) == (App { selected_index: 0, scroll_offset: 0, ..*old(self) }),
    {
        self.selected_index = 0;
        self.scroll_offset = 0;
    }

    /// Sets an error message, with a hint for common errors, and records when it
    /// was set (`now_ms`, on the UI's clock) for auto-dismiss.
    pub fn set_error(&mut self, msg: String, now_ms: u64)
        ensures
            final(self).error_message matches Some(m) && m@ == enhanced_error(msg@),
            final(self).error_set_at == Some(now_ms),
            *final(self) == (App { error_message: final(self).error_message, error_set_at: Some(now_ms), ..*old(self) }),
    {
        let auth = str_contains(msg.as_str(), "401") || str_contains(msg.as_str(), "auth")
            || str_contains(msg.as_str(), "Auth");
        let net = str_contains(msg.as_str(), "timed out") || str_contains(msg.as_str(), "connection")
            || str_contains(msg.as_str(), "network");
        let enhanced = if auth {
            let mut v = chars_of(msg.as_str());
            push_seq(&mut v, &chars_of(" — run `clickup auth login` to re-authenticate"));
            string_of(&v)
        } else if net {
            let mut v = chars_of(msg.as_str());
            push_seq(&mut v, &chars_of(" — check your connection and token"));
            string_of(&v)
        } else {
            msg
        };
        self.error_message = Some(enhanced);
        self.error_set_at = Some(now_ms);
    }

    /// Clears all task data and associated status groups.
    pub fn clear_tasks(&mut self)
        ensures
            final(self).tasks@.len() == 0,
            final(self).status_groups@.len() == 0,
            *final(self) == (App { tasks: final(self).tasks, status_groups: final(self).status_groups, ..*old(self) }),
    {
        self.tasks.clear();
        self.status_groups.clear();
    }

    /// Clears the error message.
    pub fn clear_error(&mut self)
        ensures
            *final(self) == (App { error_message: None, error_set_at: None, ..*old(self) }),
    {
        self.error_message = None;
        self.error_set_at = None;
    }

    /// Dismisses the error once five seconds have passed since it was set.
    pub fn maybe_dismiss_error(&mut self, now_ms: u64)
        ensures
            (old(self).error_set_at matches Some(at) && elapsed_secs(at, now_ms) >= 5)
                ==> final(self).error_message is None && final(self).error_set_at is None,
            !(old(self).error_set_at matches Some(at) && elapsed_secs(at, now_ms) >= 5)
                ==> final(self).error_message == old(self).error_message
                    && final(self).error_set_at == old(self).error_set_at,
            *final(self) == (App { error_message: final(self).error_message, error_set_at: final(self).error_set_at, ..*old(self) }),
    {
        if let Some(set_at) = self.error_set_at {
            let elapsed: u64 = if now_ms >= set_at { now_ms - set_at } else { 0 };
            if elapsed / 1000 >= 5 {
                self.error_message = None;
                self.error_set_at = None;
            }
        }
    }

    /// Advances the tick counter (wrapping) and dismisses a stale error.
    pub fn tick(&mut self, now_ms: u64)
        ensures
            final(self).tick_count == (if old(self).tick_count == usize::MAX { 0 } else { old(self).tick_count + 1 }),
            (old(self).error_set_at matches Some(at) && elapsed_secs(at, now_ms) >= 5)
                ==> final(self).error_message is None && final(self).error_set_at is None,
            !(old(self).error_set_at matches Some(at) && elapsed_secs(at, now_ms) >= 5)
                ==> final(self).error_message == old(self).error_message && final(self).error_set_at == old(self).error_set_at,
            *final(self) == (App { tick_count: final(self).tick_count, error_message: final(self).error_message,
                error_set_at: final(self).error_set_at, ..*old(self) }),
    {
        self.tick_count = if self.tick_count == usize::MAX { 0 } else { self.tick_count + 1 };
        self.maybe_dismiss_error(now_ms);
    }

    /// Returns the current spinner character.
    pub fn spinner_char(&self) -> (r: char)
        ensures
            r == spinner_frames()[(self.tick_count % 10) as int],
    {
        let frames: [char; 10] = ['⠋', '⠙', '⠹', '⠸', '⠼', '⠴', '⠦', '⠧', '⠇', '⠏'];
        proof { assert(frames@ =~= spinner_frames()); }
        frames[self.tick_count % 10]
    }

    /// Activates the filter/search bar.
    pub fn start_filter(&mut self)
        ensures
            final(self).filter_text@.len() == 0,
            *final(self) == (App { filter_active: true, filter_text: final(self).filter_text, ..*old(self) }),
    {
        self.filter_active = true;
        self.filter_text = String::new();
    }

    /// Cancels the filter, restoring the full list.
    pub fn cancel_filter(&mut self)
        ensures
            final(self).filter_text@.len() == 0,
            *final(self) == (App { filter_active: false, filter_text: final(self).filter_text, selected_index: 0, ..*old(self) }),
    {
        self.filter_active = false;
        self.filter_text = String::new();
        self.selected_index = 0;
    }

    /// Confirms the filter (stays filtered).
    pub fn confirm_filter(&mut self)
        ensures
            *final(self) == (App { filter_active: false, selected_index: 0, ..*old(self) }),
    {
        self.filter_active = false;
        self.selected_index = 0;
    }

    /// Resets pagination state for a fresh task load.
    pub fn reset_pagination(&mut self)
        ensures
            *final(self) == (App { current_page: 0, has_more_pages: false, loading_more: false, ..*old(self) }),
    {
        self.current_page = 0;
        self.has_more_pages = false;
        self.loading_more = false;
    }

    /// Resets view mode navigation state.
    pub fn reset_vision_selection(&mut self)
        ensures
            *final(self) == (App { focused_group: 0, group_selected_index: 0, ..*old(self) }),
    {
        self.focused_group = 0;
        self.group_selected_index = 0;
    }

    /// Human-readable "last updated" string for the clock reading `now_ms`.
    pub fn last_updated_label(&self, now_ms: u64) -> (r: String)
        ensures
            self.last_updated is None ==> r@.len() == 0,
            self.last_updated matches Some(at) ==> {
                let secs = elapsed_secs(at, now_ms);
                if secs < 60 { r@ == "just now"@ }
                else if secs / 60 == 1 { r@ == "1 min ago"@ }
                else { r@ == crate::text::decimal((secs / 60) as nat) + " min ago"@ }
            },
    {
        match self.last_updated {
            Some(at) => {
                let secs: u64 = if now_ms >= at { (now_ms - at) / 1000 } else { 0 };
                if secs < 60 {
                    string_of(&chars_of("just now"))
                } else {
                    let mins = secs / 60;
                    if mins == 1 {
                        string_of(&chars_of("1 min ago"))
                    } else {
                        let mut v: Vec<char> = Vec::new();
                        crate::text::push_decimal(&mut v, mins);
                        push_seq(&mut v, &chars_of(" min ago"));
                        string_of(&v)
                    }
                }
            }
            None => String::new(),
        }
    }

    /// Total number of visible tasks across all status groups.
    pub fn total_grouped_tasks(&self) -> (r: usize)
        requires
            group_total(self.status_groups@, self.status_groups@.len() as int) <= usize::MAX,
        ensures
            r == group_total(self.status_groups@, self.status_groups@.len() as int),
    {
        let mut total: usize = 0;
        let mut k: usize = 0;
        while k < self.status_groups.len()
            invariant
                k <= self.status_groups.len(),
                total == group_total(self.status_groups@, k as int),
                group_total(self.status_groups@, self.status_groups@.len() as int) <= usize::MAX,
            decreases self.status_groups.len() - k,
        {
            proof { lemma_group_total_mono(self.status_groups@, k + 1, self.status_groups@.len() as int); }
            total = total + self.status_groups[k].task_indices.len();
            k += 1;
        }
        total
    }

    /// Returns filtered workspace indices matching the current filter.
    pub fn filtered_workspace_indices(&self) -> (r: Vec<usize>)
        ensures
            r@ == name_filter(self.workspaces@.map_values(|w: Workspace| w.name@), self.filter_text@,
                self.workspaces@.len() as int),
    {
        let mut names: Vec<&str> = Vec::new();
        let mut i: usize = 0;
        while i < self.workspaces.len()
            invariant
                i <= self.workspaces.len(),
                names@.len() == i,
                forall|k: int| 0 <= k < i ==> #[trigger] names@[k]@ == self.workspaces@[k].name@,
            decreases self.workspaces.len() - i,
        {
            names.push(self.workspaces[i].name.as_str());
            i += 1;
        }
        proof {
            assert(names@.map_values(|s: &str| s@) =~= self.workspaces@.map_values(|w: Workspace| w.name@));
        }
        filter_indices(&names, self.filter_text.as_str())
    }

    /// Returns filtered space indices matching the current filter.
    pub fn filtered_space_indices(&self) -> (r: Vec<usize>)
        ensures
            r@ == name_filter(self.spaces@.map_values(|s: Space| s.name@), self.filter_text@,
                self.spaces@.len() as int),
    {
        let mut names: Vec<&str> = Vec::new();
        let mut i: usize = 0;
        while i < self.spaces.len()
            invariant
                i <= self.spaces.len(),
                names@.len() == i,
                forall|k: int| 0 <= k < i ==> #[trigger] names@[k]@ == self.spaces@[k].name@,
            decreases self.spaces.len() - i,
        {
            names.push(self.spaces[i].name.as_str());
            i += 1;
        }
        proof {
            assert(names@.map_values(|s: &str| s@) =~= self.spaces@.map_values(|s: Space| s.name@));
        }
        filter_indices(&names, self.filter_text.as_str())
    }

    /// Returns filtered task indices matching the current filter.
    pub fn filtered_task_indices(&self) -> (r: Vec<usize>)
        ensures
            r@ == name_filter(self.tasks@.map_values(|t: Task| t.name@), self.filter_text@,
                self.tasks@.len() as int),
    {
        let mut names: Vec<&str> = Vec::new();
        let mut i: usize = 0;
        while i < self.tasks.len()
            invariant
                i <= self.tasks.len(),
                names@.len() == i,
                forall|k: int| 0 <= k < i ==> #[trigger] names@[k]@ == self.tasks@[k].name@,
            decreases self.tasks.len() - i,
        {
            names.push(self.tasks[i].name.as_str());
            i += 1;
        }
        proof {
            assert(names@.map_values(|s: &str| s@) =~= self.tasks@.map_values(|t: Task| t.name@));
        }
        filter_indices(&names, self.filter_text.as_str())
    }

    /// Returns filtered space content indices matching the current filter.
    pub fn filtered_content_indices(&self) -> (r: Vec<usize>)
        ensures
            r@ == name_filter(self.space_content@.map_values(|c: SpaceContentItem| c.spec_display_name()),
                self.filter_text@, self.space_content@.len() as int),
    {
        let mut names: Vec<&str> = Vec::new();
        let mut i: usize = 0;
        while i < self.space_content.len()
            invariant
                i <= self.space_content.len(),
                names@.len() == i,
                forall|k: int| 0 <= k < i ==> #[trigger] names@[k]@ == self.space_content@[k].spec_display_name(),
            decreases self.space_content.len() - i,
        {
            names.push(self.space_content[i].display_name());
            i += 1;
        }
        proof {
            assert(names@.map_values(|s: &str| s@)
                =~= self.space_content@.map_values(|c: SpaceContentItem| c.spec_display_name()));
        }
        filter_indices(&names, self.filter_text.as_str())
    }
}

/// Total size of the first `k` groups.
pub open spec fn group_total(groups: Seq<StatusGroup>, k: int) -> int
    decreases k,
{
    if k <= 0 { 0 } else { group_total(groups, k - 1) + groups[k - 1].task_indices@.len() }
}

proof fn lemma_group_total_mono(groups: Seq<StatusGroup>, a: int, b: int)
    requires
        0 <= a <= b,
    ensures
        group_total(groups, a) <= group_total(groups, b),
    decreases b - a,
{
    if a < b {
        lemma_group_total_mono(groups, a, b - 1);
    }
}

} // verus!

verus! {

/// Lower-cased status name of each task.
pub open spec fn task_keys(tasks: Seq<Task>) -> Seq<Seq<char>> {
    tasks.map_values(|t: Task| lowercase(t.status.status@))
}

/// Lower-cased name of each status.
pub open spec fn status_keys(statuses: Seq<Status>) -> Seq<Seq<char>> {
    statuses.map_values(|s: Status| lowercase(s.status@))
}

/// Indices below `n` whose key equals `key`, in order.
pub open spec fn keys_matching(keys: Seq<Seq<char>>, key: Seq<char>, n: int) -> Seq<usize>
    decreases n,
{
    if n <= 0 {
        seq![]
    } else if keys[n - 1] == key {
        keys_matching(keys, key, n - 1).push((n - 1) as usize)
    } else {
        keys_matching(keys, key, n - 1)
    }
}

/// Task status keys that no space status has, in order of first appearance
/// among the first `n` tasks.
pub open spec fn extra_keys(tkeys: Seq<Seq<char>>, skeys: Seq<Seq<char>>, n: int) -> Seq<Seq<char>>
    decreases n,
{
    if n <= 0 {
        seq![]
    } else {
        let prev = extra_keys(tkeys, skeys, n - 1);
        let key = tkeys[n - 1];
        if !skeys.contains(key) && !prev.contains(key) { prev.push(key) } else { prev }
    }
}

/// The statuses of the current space (none without a space).
pub open spec fn space_statuses(space: Option<Space>) -> Seq<Status> {
    match space {
        Some(s) => s.statuses@,
        None => seq![],
    }
}

/// The group of status `k` is what `rebuild_status_groups` makes of it.
pub open spec fn status_group_ok(g: StatusGroup, statuses: Seq<Status>, tasks: Seq<Task>, k: int) -> bool {
    let skeys = status_keys(statuses);
    &&& g.name@ == statuses[k].status@
    &&& g.color@ == statuses[k].color@
    &&& g.status_type@ == statuses[k].status_type@
    &&& g.task_indices@ == (if skeys.subrange(0, k).contains(skeys[k]) { seq![] }
        else { keys_matching(task_keys(tasks), skeys[k], tasks.len() as int) })
}

/// The group of an extra key is what `rebuild_status_groups` makes of it.
pub open spec fn extra_group_ok(g: StatusGroup, key: Seq<char>, tasks: Seq<Task>) -> bool {
    &&& g.name@ == key
    &&& g.color@ == "#808080"@
    &&& g.status_type@ == "custom"@
    &&& g.task_indices@ == keys_matching(task_keys(tasks), key, tasks.len() as int)
}

/// `gs` are the status groups of `tasks` under the statuses `sts`: one group
/// for each status, in order, then one for each other status the tasks carry.
pub open spec fn groups_for(tasks: Seq<Task>, sts: Seq<Status>, gs: Seq<StatusGroup>) -> bool {
    let extras = extra_keys(task_keys(tasks), status_keys(sts), tasks.len() as int);
    &&& gs.len() == sts.len() + extras.len()
    &&& forall|k: int| 0 <= k < sts.len() ==> status_group_ok(#[trigger] gs[k], sts, tasks, k)
    &&& forall|e: int| 0 <= e < extras.len() ==> extra_group_ok(#[trigger] gs[sts.len() + e], extras[e], tasks)
}

fn collect_matching(keys: &Vec<String>, key: &String) -> (r: Vec<usize>)
    ensures
        r@ == keys_matching(labels(keys@), key@, keys@.len() as int),
{
    let mut out: Vec<usize> = Vec::new();
    let mut i: usize = 0;
    while i < keys.len()
        invariant
            i <= keys.len(),
            out@ == keys_matching(labels(keys@), key@, i as int),
        decreases keys.len() - i,
    {
        if keys[i] == *key {
            out.push(i);
        }
        i += 1;
    }
    out
}

fn contains_string(v: &Vec<String>, upto: usize, key: &String) -> (r: bool)
    requires
        upto <= v.len(),
    ensures
        r == labels(v@).subrange(0, upto as int).contains(key@),
{
    let mut j: usize = 0;
    while j < upto
        invariant
            j <= upto <= v.len(),
            forall|k: int| 0 <= k < j ==> v@[k]@ != key@,
        decreases upto - j,
    {
        if v[j] == *key {
            proof { assert(labels(v@).subrange(0, upto as int)[j as int] == key@); }
            return true;
        }
        j += 1;
    }
    proof {
        assert forall|k: int| 0 <= k < upto implies labels(v@).subrange(0, upto as int)[k] != key@ by {
            assert(labels(v@).subrange(0, upto as int)[k] == v@[k]@);
        }
    }
    false
}

fn lower_keys_of_tasks(tasks: &Vec<Task>) -> (r: Vec<String>)
    ensures
        labels(r@) == task_keys(tasks@),
{
    let mut out: Vec<String> = Vec::new();
    let mut i: usize = 0;
    while i < tasks.len()
        invariant
            i <= tasks.len(),
            out@.len() == i,
            forall|k: int| 0 <= k < i ==> #[trigger] out@[k]@ == lowercase(tasks@[k].status.status@),
        decreases tasks.len() - i,
    {
        out.push(to_lowercase(tasks[i].status.status.as_str()));
        i += 1;
    }
    proof { assert(labels(out@) =~= task_keys(tasks@)); }
    out
}

fn lower_keys_of_statuses(statuses: &Vec<Status>) -> (r: Vec<String>)
    ensures
        labels(r@) == status_keys(statuses@),
{
    let mut out: Vec<String> = Vec::new();
    let mut i: usize = 0;
    while i < statuses.len()
        invariant
            i <= statuses.len(),
            out@.len() == i,
            forall|k: int| 0 <= k < i ==> #[trigger] out@[k]@ == lowercase(statuses@[k].status@),
        decreases statuses.len() - i,
    {
        out.push(to_lowercase(statuses[i].status.as_str()));
        i += 1;
    }
    proof { assert(labels(out@) =~= status_keys(statuses@)); }
    out
}

fn grey() -> (r: String)
    ensures
        r@ == "#808080"@,
{
    string_of(&chars_of("#808080"))
}

fn custom_type() -> (r: String)
    ensures
        r@ == "custom"@,
{
    string_of(&chars_of("custom"))
}

impl App {
    /// Rebuilds status groups from the current tasks, in the order of the current
    /// space's statuses (each status gets a group, possibly empty; a status whose
    /// lower-cased name repeats an earlier one gets an empty group), followed by
    /// one group for each other status name the tasks carry, lower-cased, in
    /// order of first appearance. Names are compared lower-cased.
    pub fn rebuild_status_groups(&mut self)
        ensures
            groups_for(old(self).tasks@, space_statuses(old(self).current_space), final(self).status_groups@),
            *final(self) == (App { status_groups: final(self).status_groups, ..*old(self) }),
    {
        let empty: Vec<Status> = Vec::new();
        let statuses: &Vec<Status> = match &self.current_space {
            Some(s) => &s.statuses,
            None => &empty,
        };
        let ghost sts = statuses@;
        proof { assert(sts == space_statuses(self.current_space)); }
        let tkeys = lower_keys_of_tasks(&self.tasks);
        let skeys = lower_keys_of_statuses(statuses);
        proof {
            assert(labels(skeys@).len() == skeys@.len());
            assert(status_keys(sts).len() == sts.len());
            assert(labels(tkeys@).len() == tkeys@.len());
            assert(task_keys(self.tasks@).len() == self.tasks@.len());
        }
        let mut groups: Vec<StatusGroup> = Vec::new();
        let mut k: usize = 0;
        while k < statuses.len()
            invariant
                k <= statuses.len(),
                sts == statuses@,
                labels(tkeys@) == task_keys(self.tasks@),
                labels(skeys@) == status_keys(sts),
                skeys@.len() == sts.len(),
                tkeys@.len() == self.tasks@.len(),
                groups@.len() == k,
                forall|j: int| 0 <= j < k ==> status_group_ok(#[trigger] groups@[j], sts, self.tasks@, j),
            decreases statuses.len() - k,
        {
            let dup = contains_string(&skeys, k, &skeys[k]);
            let task_indices = if dup { Vec::new() } else { collect_matching(&tkeys, &skeys[k]) };
            proof { assert(labels(skeys@)[k as int] == skeys@[k as int]@); }
            groups.push(StatusGroup {
                name: statuses[k].status.clone(),
                color: statuses[k].color.clone(),
                status_type: statuses[k].status_type.clone(),
                task_indices,
            });
            k += 1;
        }
        let ns = statuses.len();
        let mut extras: Vec<String> = Vec::new();
        let mut i: usize = 0;
        while i < tkeys.len()
            invariant
                i <= tkeys.len(),
                tkeys@.len() == self.tasks@.len(),
                labels(tkeys@) == task_keys(self.tasks@),
                labels(skeys@) == status_keys(sts),
                skeys@.len() == ns,
                ns == sts.len(),
                labels(extras@) == extra_keys(task_keys(self.tasks@), status_keys(sts), i as int),
                groups@.len() == ns + extras@.len(),
                forall|j: int| 0 <= j < ns ==> status_group_ok(#[trigger] groups@[j], sts, self.tasks@, j),
                forall|e: int| 0 <= e < extras@.len()
                    ==> extra_group_ok(#[trigger] groups@[ns + e], extras@[e]@, self.tasks@),
            decreases tkeys.len() - i,
        {
            let key = &tkeys[i];
            let in_status = contains_string(&skeys, skeys.len(), key);
            let seen = contains_string(&extras, extras.len(), key);
            proof {
                assert(labels(skeys@).subrange(0, ns as int) =~= labels(skeys@));
                assert(labels(extras@).subrange(0, extras@.len() as int) =~= labels(extras@));
                assert(labels(tkeys@)[i as int] == key@);
            }
            if !in_status && !seen {
                let ghost before = extras@;
                extras.push(key.clone());
                let task_indices = collect_matching(&tkeys, key);
                groups.push(StatusGroup { name: key.clone(), color: grey(), status_type: custom_type(), task_indices });
                proof {
                    assert(labels(extras@) =~= labels(before).push(key@));
                }
            }
            i += 1;
        }
        self.status_groups = groups;
    }
}

proof fn lemma_keys_matching(keys: Seq<Seq<char>>, key: Seq<char>, n: int, i: usize)
    requires
        0 <= n <= keys.len(),
        n <= usize::MAX + 1,
    ensures
        keys_matching(keys, key, n).contains(i) <==> (i < n && keys[i as int] == key),
    decreases n,
{
    if n > 0 {
        lemma_keys_matching(keys, key, n - 1, i);
        let prev = keys_matching(keys, key, n - 1);
        if keys[n - 1] == key {
            assert(prev.push((n - 1) as usize).contains(i) <==> (prev.contains(i) || i == (n - 1) as usize)) by {
                if prev.push((n - 1) as usize).contains(i) {
                    let j = choose|j: int| 0 <= j < prev.len() + 1 && #[trigger] prev.push((n - 1) as usize)[j] == i;
                    if j < prev.len() { assert(prev[j] == i); }
                }
                if prev.contains(i) {
                    let j = choose|j: int| 0 <= j < prev.len() && #[trigger] prev[j] == i;
                    assert(prev.push((n - 1) as usize)[j] == i);
                }
                if i == (n - 1) as usize {
                    assert(prev.push((n - 1) as usize)[prev.len() as int] == i);
                }
            }
        }
    }
}

proof fn lemma_extra_keys(tkeys: Seq<Seq<char>>, skeys: Seq<Seq<char>>, n: int)
    requires
        0 <= n <= tkeys.len(),
    ensures
        forall|i: int| 0 <= i < n && !skeys.contains(tkeys[i]) ==> extra_keys(tkeys, skeys, n).contains(#[trigger] tkeys[i]),
        forall|e: int| 0 <= e < extra_keys(tkeys, skeys, n).len()
            ==> !skeys.contains(#[trigger] extra_keys(tkeys, skeys, n)[e]),
        forall|a: int, b: int| 0 <= a < b < extra_keys(tkeys, skeys, n).len()
            ==> #[trigger] extra_keys(tkeys, skeys, n)[a] != #[trigger] extra_keys(tkeys, skeys, n)[b],
    decreases n,
{
    if n > 0 {
        lemma_extra_keys(tkeys, skeys, n - 1);
        let prev = extra_keys(tkeys, skeys, n - 1);
        let cur = extra_keys(tkeys, skeys, n);
        let key = tkeys[n - 1];
        assert forall|i: int| 0 <= i < n && !skeys.contains(tkeys[i]) implies cur.contains(#[trigger] tkeys[i]) by {
            if i < n - 1 {
                let j = choose|j: int| 0 <= j < prev.len() && prev[j] == tkeys[i];
                assert(cur[j] == prev[j]);
            } else if !prev.contains(key) {
                assert(cur[prev.len() as int] == key);
            }
        }
        assert forall|a: int, b: int| 0 <= a < b < cur.len() implies #[trigger] cur[a] != #[trigger] cur[b] by {
            if b == prev.len() {
                assert(cur[a] == prev[a]);
            } else {
                assert(cur[a] == prev[a]);
                assert(cur[b] == prev[b]);
            }
        }
        assert forall|e: int| 0 <= e < cur.len() implies !skeys.contains(#[trigger] cur[e]) by {
            if e < prev.len() { assert(cur[e] == prev[e]); }
        }
    }
}

/// Some group holds task index `i`.
pub open spec fn in_some_group(groups: Seq<StatusGroup>, i: usize) -> bool {
    exists|g: int| 0 <= g < groups.len() && (#[trigger] groups[g].task_indices@).contains(i)
}

/// Rebuilding the status groups sorts every task into exactly one group: each
/// task index lies in the indices of one and only one group.
pub proof fn law_status_groups_partition(tasks: Seq<Task>, statuses: Seq<Status>, groups: Seq<StatusGroup>)
    requires
        tasks.len() <= usize::MAX,
        groups_for(tasks, statuses, groups),
    ensures
        forall|i: usize| (i as int) < tasks.len() ==> #[trigger] in_some_group(groups, i),
        forall|i: usize, g1: int, g2: int| (i as int) < tasks.len() && 0 <= g1 < groups.len() && 0 <= g2 < groups.len()
            && #[trigger] groups[g1].task_indices@.contains(i) && #[trigger] groups[g2].task_indices@.contains(i)
            ==> g1 == g2,
{
    let tk = task_keys(tasks);
    let sk = status_keys(statuses);
    let n = tasks.len() as int;
    let ns = statuses.len() as int;
    let extras = extra_keys(tk, sk, n);
    lemma_extra_keys(tk, sk, n);
    assert(tk.len() == n);
    assert(sk.len() == ns);
    // Every index a group holds carries that group's key.
    assert forall|g: int, i: usize| 0 <= g < groups.len() && #[trigger] groups[g].task_indices@.contains(i)
        implies (i as int) < n && (if g < ns { !sk.subrange(0, g).contains(sk[g]) && tk[i as int] == sk[g] }
            else { tk[i as int] == extras[g - ns] }) by {
        if g < ns {
            assert(status_group_ok(groups[g], statuses, tasks, g));
            if sk.subrange(0, g).contains(sk[g]) {
                assert(groups[g].task_indices@ == Seq::<usize>::empty());
            } else {
                lemma_keys_matching(tk, sk[g], n, i);
            }
        } else {
            assert(extra_group_ok(groups[ns + (g - ns)], extras[g - ns], tasks));
            lemma_keys_matching(tk, extras[g - ns], n, i);
        }
    }
    assert forall|i: usize| (i as int) < tasks.len() implies #[trigger] in_some_group(groups, i) by {
        let key = tk[i as int];
        if sk.contains(key) {
            let k0 = choose|k: int| 0 <= k < ns && sk[k] == key;
            // take the first status with this key
            let k = first_index(sk, key, k0);
            assert(status_group_ok(groups[k], statuses, tasks, k));
            assert(!sk.subrange(0, k).contains(sk[k]));
            lemma_keys_matching(tk, key, n, i);
        } else {
            let e = choose|e: int| 0 <= e < extras.len() && extras[e] == key;
            assert(extra_group_ok(groups[ns + e], extras[e], tasks));
            lemma_keys_matching(tk, key, n, i);
        }
    }
    assert forall|i: usize, g1: int, g2: int| (i as int) < tasks.len() && 0 <= g1 < groups.len() && 0 <= g2 < groups.len()
        && #[trigger] groups[g1].task_indices@.contains(i) && #[trigger] groups[g2].task_indices@.contains(i)
        implies g1 == g2 by {
        if g1 != g2 {
            if g1 < ns && g2 < ns {
                if g1 < g2 { assert(sk.subrange(0, g2)[g1] == sk[g1]); }
                else { assert(sk.subrange(0, g1)[g2] == sk[g2]); }
            } else if g1 < ns {
                assert(sk.contains(extras[g2 - ns]));
            } else if g2 < ns {
                assert(sk.contains(extras[g1 - ns]));
            } else {
                if g1 < g2 { assert(extras[g1 - ns] != extras[g2 - ns]); }
                else { assert(extras[g2 - ns] != extras[g1 - ns]); }
            }
        }
    }
}

/// The first index of `key` in `s`, at or before `k`.
proof fn first_index(s: Seq<Seq<char>>, key: Seq<char>, k: int) -> (f: int)
    requires
        0 <= k < s.len(),
        s[k] == key,
    ensures
        0 <= f <= k,
        s[f] == key,
        !s.subrange(0, f).contains(key),
    decreases k,
{
    if s.subrange(0, k).contains(key) {
        let j = choose|j: int| 0 <= j < k && s.subrange(0, k)[j] == key;
        assert(s[j] == key);
        first_index(s, key, j)
    } else {
        k
    }
}

} // verus!
