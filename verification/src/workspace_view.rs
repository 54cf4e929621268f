//! Decisions of the workspace view: which viewer shows the active tab, what is saved of the
//! tabs, the notes side panel's width and pinning, and the popout window of a workspace
//! (opening it on its own, and taking its tabs back once it is closed).
use vstd::prelude::*;
use crate::models::{ExtraTab, Workspace};
use crate::navigation::{active_workspace, active_workspace_position};
use crate::notes::{record_notes_pinned, with_notes_pinned};
use crate::state::{AppState, TabContent, TabContentView, TabView};
use crate::tabs::{
    active_chart_index, chart_ids, chart_tab_state, rebuild_workspace_tabs, restore_tabs, views,
    workspace_active, workspace_base_tabs,
};
use crate::text::{opt_string_view, strings_view};
use crate::workspace_windows::workspace_index;

verus! {

broadcast use vstd::string::group_string_axioms;

// ---------------------------------------------------------------- the viewer

/// What the workspace view shows.
#[derive(Debug, Clone, Copy, PartialEq, Eq, Structural)]
pub enum ActiveView {
    /// The chart's header and pages.
    Chart,
    /// An AIP text document.
    AipDoc,
    /// An ATIS.
    Atis,
    /// The notes editor.
    NotesEditor,
    /// The empty page: no active tab, or the notes tab while the notes are pinned aside.
    Empty,
}

/// What the workspace view shows for the active tab.
pub open spec fn active_view_of(tabs: Seq<TabView>, active: Option<usize>, notes_pinned: bool) -> ActiveView {
    match active {
        Some(a) => if a < tabs.len() {
            match tabs[a as int].content {
                TabContentView::Chart { .. } => ActiveView::Chart,
                TabContentView::AipDoc { .. } => ActiveView::AipDoc,
                TabContentView::Atis { .. } => ActiveView::Atis,
                TabContentView::Notes => if notes_pinned { ActiveView::Empty } else { ActiveView::NotesEditor },
            }
        } else {
            ActiveView::Empty
        },
        None => ActiveView::Empty,
    }
}

/// What the workspace view shows for the active tab.
pub fn active_view(state: &AppState) -> (r: ActiveView)
    ensures
        r == active_view_of(views(state.tabs@), state.active_tab, state.notes_pinned),
{
    match state.active_tab {
        Some(a) => if a < state.tabs.len() {
            assert(views(state.tabs@)[a as int] == state.tabs@[a as int]@);
            match state.tabs[a].content {
                TabContent::Chart { .. } => ActiveView::Chart,
                TabContent::AipDoc { .. } => ActiveView::AipDoc,
                TabContent::Atis { .. } => ActiveView::Atis,
                TabContent::Notes => if state.notes_pinned { ActiveView::Empty } else { ActiveView::NotesEditor },
            }
        } else {
            ActiveView::Empty
        },
        None => ActiveView::Empty,
    }
}

// ---------------------------------------------------------------- saving the tabs

/// The tab state a workspace saves: the workspace, its chart tabs, the active one among them,
/// and, from the main window, the workspace's ATIS and document tabs (a popout window saves
/// its own tabs without them).
pub struct TabStateSave {
    pub workspace_id: String,
    pub tab_ids: Vec<String>,
    pub active: Option<usize>,
    pub extra_tabs: Option<Vec<ExtraTab>>,
}

/// The tab state to save for the active workspace, if any.
pub fn tab_state_to_save(state: &AppState) -> (r: Option<TabStateSave>)
    ensures
        match r {
            None => state.active_workspace_id is None,
            Some(s) => {
                &&& opt_string_view(state.active_workspace_id) == Some(s.workspace_id@)
                &&& strings_view(s.tab_ids@) == chart_ids(views(state.tabs@))
                &&& s.active == active_chart_index(views(state.tabs@), state.active_tab)
                &&& state.is_popout ==> s.extra_tabs is None
                &&& !state.is_popout ==> (s.extra_tabs matches Some(e) && e@ == (match active_workspace(*state) {
                    Some(w) => w.extra_tabs@,
                    None => Seq::empty(),
                }))
            },
        },
{
    let id = match &state.active_workspace_id {
        Some(id) => id.clone(),
        None => {
            return None;
        },
    };
    let (tab_ids, active) = chart_tab_state(state.tabs.as_slice(), state.active_tab);
    assert(tab_ids@.map_values(|s: String| s@) == strings_view(tab_ids@));
    let extra_tabs = if state.is_popout {
        None
    } else {
        match active_workspace_position(state) {
            Some(k) => {
                let mut out: Vec<ExtraTab> = Vec::new();
                let src = &state.workspaces[k].extra_tabs;
                let mut i: usize = 0;
                while i < src.len()
                    invariant
                        i <= src.len(),
                        out@ == src@.take(i as int),
                    decreases src.len() - i,
                {
                    out.push(src[i].duplicate());
                    i = i + 1;
                    assert(out@ =~= src@.take(i as int));
                }
                assert(src@.take(i as int) =~= src@);
                Some(out)
            },
            None => Some(Vec::new()),
        }
    };
    Some(TabStateSave { workspace_id: id, tab_ids, active, extra_tabs })
}

// ---------------------------------------------------------------- the notes side panel

/// The width of the notes side panel while it is dragged: the width when the drag began, plus
/// how far the pointer moved left, kept between 260 and 800 pixels.
pub fn resized_notes_width(start_width: i32, start_x: i32, x: i32) -> (r: i32)
    requires
        i32::MIN <= start_x - x <= i32::MAX,
        i32::MIN <= start_width + (start_x - x) <= i32::MAX,
    ensures
        r == (if start_width + (start_x - x) < 260 {
            260
        } else if start_width + (start_x - x) > 800 {
            800
        } else {
            start_width + (start_x - x)
        }),
{
    let delta = start_x - x;
    let next = start_width + delta;
    if next < 260 {
        260
    } else if next > 800 {
        800
    } else {
        next
    }
}

/// The workspaces once the first one with id `id`, if any, records `width` as its notes
/// panel's width.
pub open spec fn with_notes_width(ws: Seq<Workspace>, id: Seq<char>, width: i32) -> Seq<Workspace> {
    let k = workspace_index(ws, id);
    if k < ws.len() { ws.update(k, Workspace { notes_panel_width: Some(width), ..ws[k] }) } else { ws }
}

/// Ends a drag of the notes side panel: the active workspace, if any, records the width, and
/// its id is returned so that the width is saved.
pub fn record_notes_panel_width(state: &mut AppState, width: i32) -> (r: Option<String>)
    ensures
        opt_string_view(r) == opt_string_view(old(state).active_workspace_id),
        match r {
            Some(id) => final(state).workspaces@ == with_notes_width(old(state).workspaces@, id@, width),
            None => final(state).workspaces == old(state).workspaces,
        },
        final(state).tabs == old(state).tabs,
        final(state).active_tab == old(state).active_tab,
        final(state).active_workspace_id == old(state).active_workspace_id,
{
    let id = match &state.active_workspace_id {
        Some(id) => id.clone(),
        None => {
            return None;
        },
    };
    let k = crate::notes::find_workspace(&state.workspaces, id.as_str());
    if k < state.workspaces.len() {
        state.workspaces[k].notes_panel_width = Some(width);
    }
    Some(id)
}

/// Unpins the notes side panel; in the main window, the active workspace, if any, records it,
/// and its id is returned so that the state is saved.
pub fn unpin_notes(state: &mut AppState) -> (r: Option<String>)
    ensures
        !final(state).notes_pinned,
        final(state).tabs == old(state).tabs,
        final(state).active_tab == old(state).active_tab,
        match r {
            Some(id) => !old(state).is_popout && opt_string_view(old(state).active_workspace_id) == Some(id@)
                && final(state).workspaces@ == with_notes_pinned(old(state).workspaces@, id@, false),
            None => (old(state).is_popout || old(state).active_workspace_id is None)
                && final(state).workspaces == old(state).workspaces,
        },
{
    state.notes_pinned = false;
    if state.is_popout {
        return None;
    }
    let id = match &state.active_workspace_id {
        Some(id) => id.clone(),
        None => {
            return None;
        },
    };
    record_notes_pinned(state, id.as_str(), false);
    Some(id)
}

// ---------------------------------------------------------------- the workspace popout window

/// Whether the main window opens the active workspace's popout window on its own: it is the
/// main window, a workspace is active, its popout window is not open nor opening, and saved
/// popout tabs wait for it. Also whether an opening is under way afterwards.
pub open spec fn auto_open_of(state: AppState, popout_open: bool, opening: bool, popout_tabs_saved: bool) -> (bool, bool) {
    if state.is_popout {
        (false, opening)
    } else if state.active_workspace_id is None || popout_open {
        (false, false)
    } else if opening || !popout_tabs_saved {
        (false, opening)
    } else {
        (true, true)
    }
}

/// Whether the main window opens the active workspace's popout window, and whether an opening
/// is under way afterwards.
pub fn auto_open_popout(state: &AppState, popout_open: bool, opening: bool, popout_tabs_saved: bool) -> (r: (bool, bool))
    ensures
        r == auto_open_of(*state, popout_open, opening, popout_tabs_saved),
{
    if state.is_popout {
        (false, opening)
    } else if state.active_workspace_id.is_none() || popout_open {
        (false, false)
    } else if opening || !popout_tabs_saved {
        (false, opening)
    } else {
        (true, true)
    }
}

/// Whether the main window takes back its workspace's tabs: a sync is pending in the main
/// window, a workspace is active, its popout window is closed and no popout tabs are saved.
pub open spec fn takes_tabs_back(state: AppState, popout_open: bool, popout_tabs_saved: bool) -> bool {
    !state.is_popout && state.popout_sync_pending && state.active_workspace_id is Some && !popout_open
        && !popout_tabs_saved
}

/// Takes the tabs of the active workspace back into the main window once its popout window
/// is closed: the workspaces become the freshly listed `fresh`, the tabs are rebuilt from the
/// workspace's saved state there, and the sync is done. Returns whether it happened.
pub fn take_tabs_back(state: &mut AppState, popout_open: bool, popout_tabs_saved: bool, fresh: Vec<Workspace>) -> (r: bool)
    ensures
        r == takes_tabs_back(*old(state), popout_open, popout_tabs_saved),
        !r ==> *final(state) == *old(state),
        r ==> {
            &&& final(state).workspaces == fresh
            &&& !final(state).popout_sync_pending
            &&& final(state).active_workspace_id == old(state).active_workspace_id
            &&& ({
                let k = workspace_index(fresh@, opt_string_view(old(state).active_workspace_id)->0);
                if k < fresh@.len() {
                    let w = fresh@[k];
                    let base = workspace_base_tabs(crate::tabs::chart_views(old(state).charts@), w.chart_refs@, w.open_tabs@);
                    &&& views(final(state).tabs@) == restore_tabs(base, w.extra_tabs@)
                    &&& final(state).active_tab == workspace_active(base.len() as int, w.open_tabs@, w.active_tab_index)
                } else {
                    final(state).tabs == old(state).tabs && final(state).active_tab == old(state).active_tab
                }
            })
        },
{
    if state.is_popout || !state.popout_sync_pending || popout_open || popout_tabs_saved {
        return false;
    }
    let id = match &state.active_workspace_id {
        Some(id) => id.clone(),
        None => {
            return false;
        },
    };
    let k = crate::notes::find_workspace(&fresh, id.as_str());
    if k < fresh.len() {
        let w = &fresh[k];
        rebuild_workspace_tabs(
            state,
            w.chart_refs.as_slice(),
            w.open_tabs.as_slice(),
            w.active_tab_index,
            w.extra_tabs.as_slice(),
        );
    }
    state.workspaces = fresh;
    state.popout_sync_pending = false;
    true
}

} // verus!
