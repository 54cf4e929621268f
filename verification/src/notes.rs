//! The briefing notes of a workspace: pinning the notes panel, the value saved from the editor,
//! when the editor takes the saved notes, and the keyboard shortcuts of the main window.
use vstd::prelude::*;
use crate::models::Workspace;
use crate::state::{is_notes_tab, AppState, TabView};
use crate::tabs::views;
use crate::text::{opt_string_view, same_text};
use crate::workspace_windows::workspace_index;

verus! {

broadcast use vstd::string::group_string_axioms;

/// Position of the first tab that is not the notes tab, or the number of tabs.
pub open spec fn first_non_notes(tabs: Seq<TabView>) -> int
    decreases tabs.len(),
{
    if tabs.len() == 0 {
        0
    } else if !is_notes_tab(tabs[0]) {
        0
    } else {
        1 + first_non_notes(tabs.drop_first())
    }
}

proof fn lemma_first_non_notes(tabs: Seq<TabView>, i: int)
    requires
        0 <= i <= tabs.len(),
        forall|j: int| 0 <= j < i ==> is_notes_tab(#[trigger] tabs[j]),
        i == tabs.len() || !is_notes_tab(tabs[i]),
    ensures
        first_non_notes(tabs) == i,
    decreases i,
{
    if i > 0 {
        assert forall|j: int| 0 <= j < i - 1 implies is_notes_tab(#[trigger] tabs.drop_first()[j]) by {
            assert(tabs.drop_first()[j] == tabs[j + 1]);
        }
        lemma_first_non_notes(tabs.drop_first(), i - 1);
    }
}

/// Position of the first tab that is not the notes tab, or the number of tabs.
pub fn first_non_notes_of(state: &AppState) -> (r: usize)
    ensures
        r == first_non_notes(views(state.tabs@)),
        r <= state.tabs.len(),
{
    let ghost tv = views(state.tabs@);
    let mut i: usize = 0;
    while i < state.tabs.len()
        invariant
            i <= state.tabs.len(),
            tv == views(state.tabs@),
            forall|j: int| 0 <= j < i ==> is_notes_tab(#[trigger] tv[j]),
        decreases state.tabs.len() - i,
    {
        if !state.tabs[i].is_notes() {
            proof { lemma_first_non_notes(tv, i as int); }
            return i;
        }
        i = i + 1;
    }
    proof { lemma_first_non_notes(tv, i as int); }
    i
}

/// The workspaces once the first one with id `id`, if any, records `pinned` as its notes
/// panel's pinned state.
pub open spec fn with_notes_pinned(ws: Seq<Workspace>, id: Seq<char>, pinned: bool) -> Seq<Workspace> {
    let k = workspace_index(ws, id);
    if k < ws.len() { ws.update(k, Workspace { notes_pinned: Some(pinned), ..ws[k] }) } else { ws }
}

/// The workspaces once the first one with id `id`, if any, records `notes` as its notes.
pub open spec fn with_notes(ws: Seq<Workspace>, id: Seq<char>, notes: Option<String>) -> Seq<Workspace> {
    let k = workspace_index(ws, id);
    if k < ws.len() { ws.update(k, Workspace { notes, ..ws[k] }) } else { ws }
}

pub(crate) fn find_workspace(ws: &Vec<Workspace>, id: &str) -> (r: usize)
    ensures
        r as int == workspace_index(ws@, id@),
        r <= ws.len(),
{
    let mut i: usize = 0;
    while i < ws.len()
        invariant
            i <= ws.len(),
            forall|j: int| 0 <= j < i ==> ws@[j].id@ != id@,
        decreases ws.len() - i,
    {
        if same_text(ws[i].id.as_str(), id) {
            proof { crate::workspace_windows::lemma_workspace_index(ws@, id@, i as int); }
            return i;
        }
        i = i + 1;
    }
    proof { crate::workspace_windows::lemma_workspace_index(ws@, id@, i as int); }
    i
}

/// Records in the listed workspace `id` that its notes panel is pinned as `pinned`.
pub fn record_notes_pinned(state: &mut AppState, id: &str, pinned: bool)
    ensures
        final(state).workspaces@ == with_notes_pinned(old(state).workspaces@, id@, pinned),
        final(state).tabs == old(state).tabs,
        final(state).active_tab == old(state).active_tab,
        final(state).notes_pinned == old(state).notes_pinned,
        final(state).active_workspace_id == old(state).active_workspace_id,
        final(state).is_popout == old(state).is_popout,
        final(state).nav_open == old(state).nav_open,
        final(state).quick_switcher_open == old(state).quick_switcher_open,
        final(state).quick_switcher_query == old(state).quick_switcher_query,
{
    let k = find_workspace(&state.workspaces, id);
    if k < state.workspaces.len() {
        state.workspaces[k].notes_pinned = Some(pinned);
    }
}

/// The active tab once the notes panel is pinned as `pinned`: pinning makes the first tab that
/// is not the notes tab active, if there is one.
pub open spec fn active_after_pin(tabs: Seq<TabView>, active: Option<usize>, pinned: bool) -> Option<usize> {
    if pinned && first_non_notes(tabs) < tabs.len() { Some(first_non_notes(tabs) as usize) } else { active }
}

/// Pins or unpins the notes panel. Pinning makes the first tab that is not the notes tab
/// active. In the main window with a workspace active, the workspace records the new state,
/// and the function returns the workspace id and the state, to be saved.
pub fn toggle_notes_pinned(state: &mut AppState) -> (r: Option<(String, bool)>)
    ensures
        final(state).notes_pinned == !old(state).notes_pinned,
        final(state).tabs == old(state).tabs,
        final(state).active_tab == active_after_pin(views(old(state).tabs@), old(state).active_tab, final(state).notes_pinned),
        final(state).active_workspace_id == old(state).active_workspace_id,
        final(state).is_popout == old(state).is_popout,
        final(state).nav_open == old(state).nav_open,
        final(state).quick_switcher_open == old(state).quick_switcher_open,
        final(state).quick_switcher_query == old(state).quick_switcher_query,
        match r {
            Some((id, p)) => !old(state).is_popout && opt_string_view(old(state).active_workspace_id) == Some(id@)
                && p == final(state).notes_pinned
                && final(state).workspaces@ == with_notes_pinned(old(state).workspaces@, id@, p),
            None => (old(state).is_popout || old(state).active_workspace_id is None)
                && final(state).workspaces == old(state).workspaces,
        },
{
    let now_pinned = !state.notes_pinned;
    state.notes_pinned = now_pinned;
    if now_pinned {
        let k = first_non_notes_of(state);
        if k < state.tabs.len() {
            state.active_tab = Some(k);
        }
    }
    if state.is_popout {
        return None;
    }
    let id = match &state.active_workspace_id {
        Some(id) => id.clone(),
        None => {
            return None;
        },
    };
    record_notes_pinned(state, id.as_str(), now_pinned);
    Some((id, now_pinned))
}

/// Records in the listed workspace `id` its notes.
pub fn record_notes(state: &mut AppState, id: &str, notes: Option<String>)
    ensures
        final(state).workspaces@ == with_notes(old(state).workspaces@, id@, notes),
        final(state).tabs == old(state).tabs,
        final(state).active_tab == old(state).active_tab,
        final(state).active_workspace_id == old(state).active_workspace_id,
{
    let k = find_workspace(&state.workspaces, id);
    if k < state.workspaces.len() {
        state.workspaces[k].notes = notes;
    }
}

/// The notes saved from the editor's contents: none for an empty editor (no text, or a lone
/// line break).
pub fn notes_value(html: &str) -> (r: Option<String>)
    ensures
        opt_string_view(r) == (if html@.len() == 0 || html@ == "<br>"@ { None } else { Some(html@) }),
{
    if html.is_empty() || same_text(html, "<br>") {
        None
    } else {
        Some(crate::text::string_of(&crate::text::chars_of(html)))
    }
}

/// Whether the editor takes the saved notes when it gets the focus: not while it holds unsaved
/// changes, and not to replace what it shows with nothing.
pub fn editor_takes_saved_notes(dirty: bool, current: &str, saved: &str) -> (r: bool)
    ensures
        r == (!dirty && !(current@.len() > 0 && saved@.len() == 0)),
{
    !dirty && !(!current.is_empty() && saved.is_empty())
}

/// Id of the notes editor element: the pinned panel's, or the notes tab's.
pub fn notes_editor_id(pinned: bool) -> (r: &'static str)
    ensures
        r@ == (if pinned { "notes-editor-pinned"@ } else { "notes-editor-content"@ }),
{
    if pinned { "notes-editor-pinned" } else { "notes-editor-content" }
}

// ---------------------------------------------------------------- keyboard shortcuts

/// Whether `key` is the letter `c`, in either case.
pub open spec fn is_letter_key(key: Seq<char>, lower: char, upper: char) -> bool {
    key == seq![lower] || key == seq![upper]
}

fn letter_key(key: &str, lower: char, upper: char) -> (r: bool)
    ensures
        r == is_letter_key(key@, lower, upper),
{
    let k = crate::text::chars_of(key);
    if k.len() != 1 {
        return false;
    }
    assert(k@ =~= seq![k@[0]]);
    k[0] == lower || k[0] == upper
}

/// Handles a key pressed in the main window with `ctrl` and `shift` as given: Ctrl+Shift+N pins
/// or unpins the notes panel, Ctrl+Shift+B opens or closes the navigator, and Ctrl+P (with or
/// without Shift) opens the quick switcher with an empty query. Returns what pinning asks to
/// save.
pub fn handle_shortcut(state: &mut AppState, ctrl: bool, shift: bool, key: &str) -> (r: Option<(String, bool)>)
    ensures
        final(state).tabs == old(state).tabs,
        final(state).nav_open == (if ctrl && shift && is_letter_key(key@, 'b', 'B') { !old(state).nav_open } else { old(state).nav_open }),
        final(state).notes_pinned == (if ctrl && shift && is_letter_key(key@, 'n', 'N') { !old(state).notes_pinned } else { old(state).notes_pinned }),
        ctrl && is_letter_key(key@, 'p', 'P') ==> final(state).quick_switcher_open && final(state).quick_switcher_query@.len() == 0,
        !(ctrl && is_letter_key(key@, 'p', 'P')) ==> final(state).quick_switcher_open == old(state).quick_switcher_open
            && final(state).quick_switcher_query == old(state).quick_switcher_query,
        !(ctrl && shift && is_letter_key(key@, 'n', 'N')) ==> r is None && final(state).workspaces == old(state).workspaces
            && final(state).active_tab == old(state).active_tab,
        ctrl && shift && is_letter_key(key@, 'n', 'N') ==> {
            &&& final(state).active_tab == active_after_pin(views(old(state).tabs@), old(state).active_tab, final(state).notes_pinned)
            &&& match r {
                Some((id, p)) => !old(state).is_popout && opt_string_view(old(state).active_workspace_id) == Some(id@)
                    && p == final(state).notes_pinned
                    && final(state).workspaces@ == with_notes_pinned(old(state).workspaces@, id@, p),
                None => (old(state).is_popout || old(state).active_workspace_id is None)
                    && final(state).workspaces == old(state).workspaces,
            }
        },
{
    let mut out: Option<(String, bool)> = None;
    if ctrl && shift {
        if letter_key(key, 'n', 'N') {
            assert(!is_letter_key(key@, 'b', 'B')) by {
                assert(key@[0] == 'n' || key@[0] == 'N');
            }
            out = toggle_notes_pinned(state);
        } else if letter_key(key, 'b', 'B') {
            state.nav_open = !state.nav_open;
        }
    }
    if ctrl && letter_key(key, 'p', 'P') {
        state.quick_switcher_open = true;
        state.quick_switcher_query = String::new();
    }
    out
}

} // verus!
