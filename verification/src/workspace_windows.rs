//! Workspace tabs shown in a second window: moving a chart tab there, and bringing the
//! second window's tabs back into the main one.
use vstd::prelude::*;
use crate::models::{Chart, ExtraTab, Workspace};
use crate::state::{is_notes_tab, notes_tab_view, AppState};
use crate::tabs::{
    active_chart_index, chart_ids, chart_tab_state, close_active, close_tabs, close_tab_by_id,
    ensure_notes_tab, views,
};
use crate::text::{same_text, strings_view};

verus! {

broadcast use vstd::string::group_string_axioms;

/// Where workspaces are stored: the workspaces, their tabs and the tabs of their second
/// window. The application provides it.
pub trait WorkspaceRepository {
    fn list_workspaces(&self) -> Vec<Workspace>;

    fn add_chart_to_workspace(&self, workspace_id: &str, airport: &str, chart: &Chart);

    fn add_extra_tab(&self, workspace_id: &str, tab: &ExtraTab);

    fn remove_extra_tab(&self, workspace_id: &str, tab: &ExtraTab);

    fn save_tab_state(
        &self,
        workspace_id: &str,
        open_tabs: &[String],
        active_tab_index: Option<usize>,
        extra_tabs: &[ExtraTab],
    );

    fn load_popout_tab_state(&self, workspace_id: &str) -> (Vec<String>, Option<usize>);

    fn save_popout_tab_state(
        &self,
        workspace_id: &str,
        popout_tabs: &[String],
        active_tab_index: Option<usize>,
    );
}

/// A write to the workspace store.
#[derive(Debug, PartialEq)]
pub enum WorkspaceWrite {
    /// The tabs of a workspace's main window, its active tab and its other tabs.
    TabState {
        workspace_id: String,
        open_tabs: Vec<String>,
        active_tab_index: Option<usize>,
        extra_tabs: Vec<ExtraTab>,
    },
    /// The tabs of a workspace's second window and its active tab.
    PopoutTabState { workspace_id: String, popout_tabs: Vec<String>, active_tab_index: Option<usize> },
}

/// A write to the workspace store, as values.
pub enum StoreWrite {
    TabState {
        workspace_id: Seq<char>,
        open_tabs: Seq<Seq<char>>,
        active_tab_index: Option<usize>,
        extra_tabs: Seq<ExtraTab>,
    },
    PopoutTabState { workspace_id: Seq<char>, popout_tabs: Seq<Seq<char>>, active_tab_index: Option<usize> },
}

/// A write, as values.
pub open spec fn write_view(w: WorkspaceWrite) -> StoreWrite {
    match w {
        WorkspaceWrite::TabState { workspace_id, open_tabs, active_tab_index, extra_tabs } => StoreWrite::TabState {
            workspace_id: workspace_id@,
            open_tabs: strings_view(open_tabs@),
            active_tab_index,
            extra_tabs: extra_tabs@,
        },
        WorkspaceWrite::PopoutTabState { workspace_id, popout_tabs, active_tab_index } => StoreWrite::PopoutTabState {
            workspace_id: workspace_id@,
            popout_tabs: strings_view(popout_tabs@),
            active_tab_index,
        },
    }
}

/// Writes, as values.
pub open spec fn writes_view(ws: Seq<WorkspaceWrite>) -> Seq<StoreWrite> {
    ws.map_values(|w: WorkspaceWrite| write_view(w))
}

// ---------------------------------------------------------------- tab id lists

/// Position of the first occurrence of `id`, or the length when there is none.
pub open spec fn first_index(ids: Seq<Seq<char>>, id: Seq<char>) -> int
    decreases ids.len(),
{
    if ids.len() == 0 {
        0
    } else if ids[0] == id {
        0
    } else {
        1 + first_index(ids.drop_first(), id)
    }
}

/// The second window's tab ids with `id` added at the end when it is missing.
pub open spec fn with_popout_id(ids: Seq<Seq<char>>, id: Seq<char>) -> Seq<Seq<char>> {
    if ids.contains(id) { ids } else { ids.push(id) }
}

/// `open` followed by the ids of `pop` that are not already there, in order, each once.
pub open spec fn merge_ids(open: Seq<Seq<char>>, pop: Seq<Seq<char>>) -> Seq<Seq<char>>
    decreases pop.len(),
{
    if pop.len() == 0 {
        open
    } else {
        let m = merge_ids(open, pop.drop_last());
        if m.contains(pop.last()) { m } else { m.push(pop.last()) }
    }
}

proof fn lemma_first_index(ids: Seq<Seq<char>>, id: Seq<char>, i: int)
    requires
        0 <= i <= ids.len(),
        forall|j: int| 0 <= j < i ==> ids[j] != id,
        i == ids.len() || ids[i] == id,
    ensures
        first_index(ids, id) == i,
    decreases i,
{
    if i > 0 {
        lemma_first_index(ids.drop_first(), id, i - 1);
    }
}

/// The second window's tab ids with `chart_id` added at the end when it is missing, and the
/// position of `chart_id` in them.
pub fn popout_ids_with(pop_ids: Vec<String>, chart_id: &str) -> (r: (Vec<String>, usize))
    ensures
        strings_view(r.0@) == with_popout_id(strings_view(pop_ids@), chart_id@),
        r.1 == first_index(strings_view(r.0@), chart_id@),
        r.1 < r.0@.len(),
{
    let ghost pv = strings_view(pop_ids@);
    let mut i: usize = 0;
    while i < pop_ids.len()
        invariant
            i <= pop_ids.len(),
            pv == strings_view(pop_ids@),
            forall|j: int| 0 <= j < i ==> pv[j] != chart_id@,
        decreases pop_ids.len() - i,
    {
        if same_text(pop_ids[i].as_str(), chart_id) {
            assert(pv[i as int] == chart_id@);
            proof { lemma_first_index(pv, chart_id@, i as int); }
            return (pop_ids, i);
        }
        i = i + 1;
    }
    let mut ids = pop_ids;
    ids.push(String::from_str(chart_id));
    let ghost nv = strings_view(ids@);
    assert(nv =~= pv.push(chart_id@));
    assert(!pv.contains(chart_id@));
    proof { lemma_first_index(nv, chart_id@, pv.len() as int); }
    let n = ids.len() - 1;
    (ids, n)
}

/// The main window's tab ids followed by the second window's that are missing, each once.
pub fn merge_tab_ids(open_tabs: &Vec<String>, popout_tabs: &Vec<String>) -> (r: Vec<String>)
    ensures
        strings_view(r@) == merge_ids(strings_view(open_tabs@), strings_view(popout_tabs@)),
{
    let ghost ov = strings_view(open_tabs@);
    let ghost pv = strings_view(popout_tabs@);
    let mut merged = crate::text::clone_strings(open_tabs);
    let mut i: usize = 0;
    assert(pv.take(0) =~= Seq::<Seq<char>>::empty());
    while i < popout_tabs.len()
        invariant
            i <= popout_tabs.len(),
            ov == strings_view(open_tabs@),
            pv == strings_view(popout_tabs@),
            strings_view(merged@) == merge_ids(ov, pv.take(i as int)),
        decreases popout_tabs.len() - i,
    {
        assert(pv.take(i + 1).drop_last() =~= pv.take(i as int));
        assert(pv.take(i + 1).last() == popout_tabs@[i as int]@);
        if !crate::text::contains_string(&merged, popout_tabs[i].as_str()) {
            let ghost before = strings_view(merged@);
            let id = popout_tabs[i].clone();
            merged.push(id);
            assert(strings_view(merged@) =~= before.push(id@));
        }
        i = i + 1;
    }
    assert(pv.take(i as int) =~= pv);
    merged
}

/// Merging keeps the main window's tabs first and in order.
pub proof fn law_merge_keeps_main_tabs_first(open: Seq<Seq<char>>, pop: Seq<Seq<char>>)
    ensures
        merge_ids(open, pop).len() >= open.len(),
        merge_ids(open, pop).take(open.len() as int) == open,
    decreases pop.len(),
{
    if pop.len() > 0 {
        law_merge_keeps_main_tabs_first(open, pop.drop_last());
        let m = merge_ids(open, pop.drop_last());
        if !m.contains(pop.last()) {
            assert(m.push(pop.last()).take(open.len() as int) =~= m.take(open.len() as int));
        }
    }
}

/// After merging, every tab of either window is there, and nothing else.
pub proof fn law_merge_holds_both_windows(open: Seq<Seq<char>>, pop: Seq<Seq<char>>, x: Seq<char>)
    ensures
        merge_ids(open, pop).contains(x) <==> (open.contains(x) || pop.contains(x)),
    decreases pop.len(),
{
    if pop.len() > 0 {
        let d = pop.drop_last();
        law_merge_holds_both_windows(open, d, x);
        let m = merge_ids(open, d);
        if d.contains(x) {
            let q = choose|q: int| 0 <= q < d.len() && d[q] == x;
            assert(pop[q] == x);
        }
        if pop.contains(x) && x != pop.last() {
            let q = choose|q: int| 0 <= q < pop.len() && pop[q] == x;
            assert(q < d.len());
            assert(d[q] == x);
        }
        if !m.contains(pop.last()) {
            let n = m.push(pop.last());
            if m.contains(x) {
                let q = choose|q: int| 0 <= q < m.len() && m[q] == x;
                assert(n[q] == x);
            }
            if n.contains(x) && x != pop.last() {
                let q = choose|q: int| 0 <= q < n.len() && n[q] == x;
                assert(m[q] == x);
            }
            assert(n[m.len() as int] == pop.last());
        }
        assert(pop[pop.len() - 1] == pop.last());
    }
}

proof fn lemma_merge_of_contained(m: Seq<Seq<char>>, pop: Seq<Seq<char>>)
    requires
        forall|j: int| 0 <= j < pop.len() ==> m.contains(#[trigger] pop[j]),
    ensures
        merge_ids(m, pop) == m,
    decreases pop.len(),
{
    if pop.len() > 0 {
        let d = pop.drop_last();
        assert forall|j: int| 0 <= j < d.len() implies m.contains(#[trigger] d[j]) by {
            assert(d[j] == pop[j]);
        }
        lemma_merge_of_contained(m, d);
        assert(m.contains(pop[pop.len() - 1]));
    }
}

/// Merging the same second-window tabs again changes nothing.
pub proof fn law_merge_is_idempotent(open: Seq<Seq<char>>, pop: Seq<Seq<char>>)
    ensures
        merge_ids(merge_ids(open, pop), pop) == merge_ids(open, pop),
{
    let m = merge_ids(open, pop);
    assert forall|j: int| 0 <= j < pop.len() implies m.contains(#[trigger] pop[j]) by {
        law_merge_holds_both_windows(open, pop, pop[j]);
        assert(pop.contains(pop[j]));
    }
    lemma_merge_of_contained(m, pop);
}

// ---------------------------------------------------------------- moving a chart tab

/// Tabs of the main window once the chart tab `chart_id` left it: the tab closed, and the
/// notes tab opened first when no notes tab is left.
pub open spec fn tabs_after_move(tabs: Seq<crate::state::TabView>, chart_id: Seq<char>) -> Seq<crate::state::TabView> {
    let c = close_tabs(tabs, chart_id);
    if exists|i: int| 0 <= i < c.len() && is_notes_tab(c[i]) { c } else { seq![notes_tab_view()] + c }
}

/// Position of the first workspace with id `id`, or the length when there is none.
pub open spec fn workspace_index(ws: Seq<Workspace>, id: Seq<char>) -> int
    decreases ws.len(),
{
    if ws.len() == 0 {
        0
    } else if ws[0].id@ == id {
        0
    } else {
        1 + workspace_index(ws.drop_first(), id)
    }
}

pub(crate) proof fn lemma_workspace_index(ws: Seq<Workspace>, id: Seq<char>, i: int)
    requires
        0 <= i <= ws.len(),
        forall|j: int| 0 <= j < i ==> ws[j].id@ != id,
        i == ws.len() || ws[i].id@ == id,
    ensures
        workspace_index(ws, id) == i,
    decreases i,
{
    if i > 0 {
        lemma_workspace_index(ws.drop_first(), id, i - 1);
    }
}

proof fn lemma_workspace_index_bound(ws: Seq<Workspace>, id: Seq<char>)
    ensures
        0 <= workspace_index(ws, id) <= ws.len(),
    decreases ws.len(),
{
    if ws.len() > 0 {
        lemma_workspace_index_bound(ws.drop_first(), id);
    }
}

fn find_workspace(ws: &Vec<Workspace>, id: &str) -> (r: usize)
    ensures
        r as int == workspace_index(ws@, id@),
        r <= ws.len(),
{
    let mut i: usize = 0;
    while i < ws.len()
        invariant
            i <= ws.len(),
            forall|j: int| 0 <= j < i ==> ws@[j].id@ != id@,
        decreases ws.len() - i,
    {
        if same_text(ws[i].id.as_str(), id) {
            proof { lemma_workspace_index(ws@, id@, i as int); }
            return i;
        }
        i = i + 1;
    }
    proof { lemma_workspace_index(ws@, id@, i as int); }
    i
}

impl ExtraTab {
    /// A copy of this tab.
    pub fn duplicate(&self) -> (r: ExtraTab)
        ensures
            r == *self,
    {
        match self {
            ExtraTab::Atis { icao } => ExtraTab::Atis { icao: icao.clone() },
            ExtraTab::AipDoc { doc } => ExtraTab::AipDoc { doc: doc.duplicate() },
        }
    }
}

fn copy_extra_tabs(v: &Vec<ExtraTab>) -> (r: Vec<ExtraTab>)
    ensures
        r@ == v@,
{
    let mut out: Vec<ExtraTab> = Vec::new();
    let mut i: usize = 0;
    while i < v.len()
        invariant
            i <= v.len(),
            out@ == v@.take(i as int),
        decreases v.len() - i,
    {
        out.push(v[i].duplicate());
        i = i + 1;
        assert(out@ =~= v@.take(i as int));
    }
    assert(v@.take(i as int) =~= v@);
    out
}

/// Whether two workspaces agree but for their open tabs and active tab.
pub open spec fn same_but_tabs(a: Workspace, b: Workspace) -> bool {
    &&& a.id == b.id
    &&& a.name == b.name
    &&& a.airports == b.airports
    &&& a.chart_refs == b.chart_refs
    &&& a.extra_tabs == b.extra_tabs
    &&& a.notes == b.notes
    &&& a.notes_pinned == b.notes_pinned
    &&& a.notes_panel_width == b.notes_panel_width
    &&& a.created_at == b.created_at
    &&& a.updated_at == b.updated_at
}

/// Moves the chart tab `chart_id` out of the main window: closes it, keeps a notes tab open,
/// records the main window's chart tabs in the workspace `workspace_id`, and marks the tabs
/// to be synchronised. Returns the main window's chart tab ids, the active one among them and
/// the workspace's other tabs, as they are to be saved.
pub fn move_chart_tab_out(state: &mut AppState, workspace_id: &str, chart_id: &str) -> (r: (Vec<String>, Option<usize>, Vec<ExtraTab>))
    ensures
        views(final(state).tabs@) == tabs_after_move(views(old(state).tabs@), chart_id@),
        strings_view(r.0@) == chart_ids(views(final(state).tabs@)),
        r.1 == active_chart_index(views(final(state).tabs@), final(state).active_tab),
        final(state).active_tab == (match close_active(views(old(state).tabs@), old(state).active_tab, chart_id@) {
            Some(a) => Some(a),
            None => Some(0usize),
        }),
        ({
            let k = workspace_index(old(state).workspaces@, workspace_id@);
            &&& k < old(state).workspaces@.len() ==> {
                &&& r.2@ == old(state).workspaces@[k].extra_tabs@
                &&& final(state).workspaces@.len() == old(state).workspaces@.len()
                &&& forall|j: int| 0 <= j < old(state).workspaces@.len() && j != k
                    ==> final(state).workspaces@[j] == old(state).workspaces@[j]
                &&& final(state).workspaces@[k].open_tabs@ == r.0@
                &&& final(state).workspaces@[k].active_tab_index == r.1
                &&& same_but_tabs(final(state).workspaces@[k], old(state).workspaces@[k])
            }
            &&& k == old(state).workspaces@.len() ==> r.2@.len() == 0
                && final(state).workspaces@ == old(state).workspaces@
        }),
        final(state).popout_sync_pending,
{
    close_tab_by_id(state, chart_id);
    let ghost closed = views(state.tabs@);
    let ghost before_tabs = state.tabs@;
    ensure_notes_tab(state);
    proof {
        let has_raw = exists|i: int| 0 <= i < before_tabs.len() && is_notes_tab(before_tabs[i]@);
        let has_view = exists|i: int| 0 <= i < closed.len() && is_notes_tab(closed[i]);
        if has_raw {
            let i = choose|i: int| 0 <= i < before_tabs.len() && is_notes_tab(before_tabs[i]@);
            assert(closed[i] == before_tabs[i]@);
        }
        if has_view {
            let i = choose|i: int| 0 <= i < closed.len() && is_notes_tab(closed[i]);
            assert(closed[i] == before_tabs[i]@);
        }
        assert(has_raw == has_view);
    }
    assert(views(state.tabs@) == tabs_after_move(views(old(state).tabs@), chart_id@));
    let (tab_ids, active) = chart_tab_state(state.tabs.as_slice(), state.active_tab);
    assert(tab_ids@.map_values(|s: String| s@) == strings_view(tab_ids@));
    let k = find_workspace(&state.workspaces, workspace_id);
    let ghost ws0 = state.workspaces@;
    let extra = if k < state.workspaces.len() {
        copy_extra_tabs(&state.workspaces[k].extra_tabs)
    } else {
        Vec::new()
    };
    if k < state.workspaces.len() {
        let mut w = state.workspaces.remove(k);
        w.open_tabs = crate::text::clone_strings(&tab_ids);
        w.active_tab_index = active;
        state.workspaces.insert(k, w);
        assert(state.workspaces@[k as int].open_tabs@ == tab_ids@);
        assert forall|j: int| 0 <= j < ws0.len() && j != k implies state.workspaces@[j] == ws0[j] by {
            if j > k {
                assert(state.workspaces@[j] == ws0.remove(k as int)[j - 1]);
            } else {
                assert(state.workspaces@[j] == ws0.remove(k as int)[j]);
            }
        }
    }
    state.popout_sync_pending = true;
    (tab_ids, active, extra)
}

/// What moving a chart tab to the second window of a workspace loaded, and the writes to
/// make for it.
pub struct PopoutMoveWrites {
    /// The second window's tabs as they were loaded.
    pub loaded_popout_tabs: Vec<String>,
    /// The writes to make, in order.
    pub writes: Vec<WorkspaceWrite>,
}

/// The other tabs saved with the main window of workspace `id`: those of the first workspace
/// with that id, none when there is no such workspace.
pub open spec fn saved_extra_tabs(ws: Seq<Workspace>, id: Seq<char>) -> Seq<ExtraTab> {
    let k = workspace_index(ws, id);
    if k < ws.len() { ws[k].extra_tabs@ } else { Seq::empty() }
}

/// Moves the chart tab `chart_id` of workspace `workspace_id` to the workspace's second
/// window: takes it out of the main window and records the main window's chart tabs in the
/// workspace, as [`move_chart_tab_out`] does, and returns the writes that store the move, in
/// order: the second window's tabs with the chart added and active (see
/// [`popout_ids_with`]), then the main window's chart tabs, active chart tab and other tabs.
/// The caller makes the writes.
pub fn move_chart_tab_to_workspace_popout<R: WorkspaceRepository>(
    state: &mut AppState,
    repo: &R,
    workspace_id: &str,
    chart_id: &str,
) -> (r: PopoutMoveWrites)
    ensures
        views(final(state).tabs@) == tabs_after_move(views(old(state).tabs@), chart_id@),
        final(state).active_tab == (match close_active(views(old(state).tabs@), old(state).active_tab, chart_id@) {
            Some(a) => Some(a),
            None => Some(0usize),
        }),
        ({
            let k = workspace_index(old(state).workspaces@, workspace_id@);
            &&& k < old(state).workspaces@.len() ==> {
                &&& final(state).workspaces@.len() == old(state).workspaces@.len()
                &&& forall|j: int| 0 <= j < old(state).workspaces@.len() && j != k
                    ==> final(state).workspaces@[j] == old(state).workspaces@[j]
                &&& strings_view(final(state).workspaces@[k].open_tabs@) == chart_ids(views(final(state).tabs@))
                &&& final(state).workspaces@[k].active_tab_index == active_chart_index(views(final(state).tabs@), final(state).active_tab)
                &&& same_but_tabs(final(state).workspaces@[k], old(state).workspaces@[k])
            }
            &&& k == old(state).workspaces@.len() ==> final(state).workspaces@ == old(state).workspaces@
        }),
        final(state).popout_sync_pending,
        ({
            let pop = with_popout_id(strings_view(r.loaded_popout_tabs@), chart_id@);
            writes_view(r.writes@) == seq![
                StoreWrite::PopoutTabState {
                    workspace_id: workspace_id@,
                    popout_tabs: pop,
                    active_tab_index: Some(first_index(pop, chart_id@) as usize),
                },
                StoreWrite::TabState {
                    workspace_id: workspace_id@,
                    open_tabs: chart_ids(views(final(state).tabs@)),
                    active_tab_index: active_chart_index(views(final(state).tabs@), final(state).active_tab),
                    extra_tabs: saved_extra_tabs(old(state).workspaces@, workspace_id@),
                },
            ]
        }),
{
    let (loaded, _pop_active) = repo.load_popout_tab_state(workspace_id);
    let (pop_ids, target) = popout_ids_with(crate::text::clone_strings(&loaded), chart_id);
    proof { lemma_workspace_index_bound(state.workspaces@, workspace_id@); }
    let ghost ws0 = state.workspaces@;
    let (tab_ids, active, extra) = move_chart_tab_out(state, workspace_id, chart_id);
    assert(extra@ =~= saved_extra_tabs(ws0, workspace_id@));
    let w1 = WorkspaceWrite::PopoutTabState {
        workspace_id: String::from_str(workspace_id),
        popout_tabs: pop_ids,
        active_tab_index: Some(target),
    };
    let w2 = WorkspaceWrite::TabState {
        workspace_id: String::from_str(workspace_id),
        open_tabs: tab_ids,
        active_tab_index: active,
        extra_tabs: extra,
    };
    let ghost v1 = write_view(w1);
    let ghost v2 = write_view(w2);
    let writes = vec![w1, w2];
    assert(writes@[0] == w1 && writes@[1] == w2);
    assert(writes_view(writes@) =~= seq![v1, v2]);
    PopoutMoveWrites { loaded_popout_tabs: loaded, writes }
}

/// Whether `r` is what is saved for the main window of workspace `id` when the second
/// window's tabs `pop` come back into it, the workspaces being `all`: `None` when no workspace
/// has that id; otherwise the first such workspace's tab ids merged with `pop`, its active tab
/// index and its other tabs.
pub open spec fn is_merge_plan(
    all: Seq<Workspace>,
    id: Seq<char>,
    pop: Seq<Seq<char>>,
    r: Option<(Vec<String>, Option<usize>, Vec<ExtraTab>)>,
) -> bool {
    let k = workspace_index(all, id);
    &&& (r is None <==> k == all.len())
    &&& r matches Some(p) ==> {
        &&& strings_view(p.0@) == merge_ids(strings_view(all[k].open_tabs@), pop)
        &&& p.1 == all[k].active_tab_index
        &&& p.2@ == all[k].extra_tabs@
    }
}

/// What is saved for the main window of workspace `workspace_id` when the second window's
/// tabs `popout_tabs` come back into it: the first workspace of `all` with that id gives its
/// tab ids merged with them (see [`merge_tab_ids`]), its active tab index and its other tabs;
/// `None` when no workspace has that id, and nothing is to be saved for the main window.
pub fn popout_merge_plan(all: &Vec<Workspace>, workspace_id: &str, popout_tabs: &Vec<String>) -> (r: Option<(Vec<String>, Option<usize>, Vec<ExtraTab>)>)
    ensures
        is_merge_plan(all@, workspace_id@, strings_view(popout_tabs@), r),
{
    let k = find_workspace(all, workspace_id);
    proof { lemma_workspace_index_bound(all@, workspace_id@); }
    if k < all.len() {
        let ws = &all[k];
        Some((merge_tab_ids(&ws.open_tabs, popout_tabs), ws.active_tab_index, copy_extra_tabs(&ws.extra_tabs)))
    } else {
        None
    }
}

/// The writes that bring the second window's tabs `pop` back into the main window of
/// workspace `id`, the workspaces being `all`: the main window's tabs as
/// [`is_merge_plan`] gives them, when a workspace has that id, then the second window's tabs
/// emptied.
pub open spec fn merge_writes(all: Seq<Workspace>, id: Seq<char>, pop: Seq<Seq<char>>) -> Seq<StoreWrite> {
    let k = workspace_index(all, id);
    let clear = StoreWrite::PopoutTabState { workspace_id: id, popout_tabs: Seq::empty(), active_tab_index: None };
    if k < all.len() {
        seq![
            StoreWrite::TabState {
                workspace_id: id,
                open_tabs: merge_ids(strings_view(all[k].open_tabs@), pop),
                active_tab_index: all[k].active_tab_index,
                extra_tabs: all[k].extra_tabs@,
            },
            clear,
        ]
    } else {
        seq![clear]
    }
}

/// What bringing the second window's tabs back into the main window loaded, and the writes to
/// make for it.
pub struct PopoutMergeWrites {
    /// The second window's tabs as they were loaded.
    pub loaded_popout_tabs: Vec<String>,
    /// The workspaces as they were listed.
    pub listed_workspaces: Vec<Workspace>,
    /// The writes to make, in order.
    pub writes: Vec<WorkspaceWrite>,
}

/// Brings the tabs of the second window of workspace `workspace_id` back into its main window:
/// returns the writes that do it, in order, as [`merge_writes`] gives them from what was loaded
/// and listed: the main window's tabs as [`popout_merge_plan`] gives them, when the workspace
/// is found, then the second window's tabs emptied. The caller makes the writes.
pub fn merge_workspace_popout_tabs_into_main<R: WorkspaceRepository>(repo: &R, workspace_id: &str) -> (r: PopoutMergeWrites)
    ensures
        writes_view(r.writes@) == merge_writes(r.listed_workspaces@, workspace_id@, strings_view(r.loaded_popout_tabs@)),
{
    let (pop_tabs, _) = repo.load_popout_tab_state(workspace_id);
    let all = repo.list_workspaces();
    let main = popout_merge_plan(&all, workspace_id, &pop_tabs);
    let mut writes: Vec<WorkspaceWrite> = Vec::new();
    match main {
        Some(p) => {
            writes.push(WorkspaceWrite::TabState {
                workspace_id: String::from_str(workspace_id),
                open_tabs: p.0,
                active_tab_index: p.1,
                extra_tabs: p.2,
            });
        },
        None => {},
    }
    let ghost before = writes@;
    writes.push(WorkspaceWrite::PopoutTabState {
        workspace_id: String::from_str(workspace_id),
        popout_tabs: Vec::new(),
        active_tab_index: None,
    });
    proof {
        lemma_workspace_index_bound(all@, workspace_id@);
        assert(strings_view(Seq::<String>::empty()) =~= Seq::<Seq<char>>::empty());
        assert(writes_view(writes@) =~= writes_view(before).push(write_view(writes@[writes@.len() - 1])));
    }
    assert(writes_view(writes@) =~= merge_writes(all@, workspace_id@, strings_view(pop_tabs@)));
    PopoutMergeWrites { loaded_popout_tabs: pop_tabs, listed_workspaces: all, writes }
}

} // verus!
