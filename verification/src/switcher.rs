//! The quick chart switcher and the tab actions menu: which charts and workspaces they offer,
//! and what choosing one does.
use vstd::prelude::*;
use crate::models::{chart_display_title, Chart, ChartView, ExtraTab, Workspace};
use crate::popouts::{parse_popout_target, PopoutTarget};
use crate::navigation::{active_workspace, active_workspace_position};
use crate::state::{chart_tab_view, AppState, Tab, TabContent, TabContentView, TabView};
use crate::tabs::{
    focus_active, focus_tabs, has_id, index_of_id, lemma_index_of_id_bounds, open_or_focus_chart,
    position_of_id, same_except_tabs, views,
};
use crate::text::{
    chars_of, contains_of, contains_text, has_prefix, has_prefix_of, lowercase, push_str,
    string_of, to_lowercase_of,
};

verus! {

broadcast use vstd::string::group_string_axioms;

/// A chart the switcher offers: its id, its label, the chart and its aerodrome.
pub type SwitcherItem = (String, String, Chart, String);

/// A switcher entry, as values.
pub type SwitcherView = (Seq<char>, Seq<char>, ChartView, Seq<char>);

/// Views of switcher entries.
pub open spec fn switcher_view(v: Seq<SwitcherItem>) -> Seq<SwitcherView> {
    v.map_values(|x: SwitcherItem| (x.0@, x.1@, x.2@, x.3@))
}

/// The label of a chart in the switcher: `<aerodrome> · <title>`.
pub open spec fn switcher_label(airport: Seq<char>, c: ChartView) -> Seq<char> {
    airport + " · "@ + chart_display_title(c)
}

/// The switcher entry of a chart of an aerodrome.
pub open spec fn switcher_entry(c: ChartView, airport: Seq<char>) -> SwitcherView {
    (c.id, switcher_label(airport, c), c, airport)
}

/// The entries of the chart tabs of the first `n` tabs.
pub open spec fn tab_entries(tabs: Seq<TabView>, n: int) -> Seq<SwitcherView>
    decreases n,
{
    if n <= 0 || n > tabs.len() {
        Seq::empty()
    } else {
        let prev = tab_entries(tabs, n - 1);
        match tabs[n - 1].content {
            TabContentView::Chart { chart, airport } => prev.push(switcher_entry(chart, airport)),
            _ => prev,
        }
    }
}

/// The charts the switcher offers: those of the active workspace, in order; with no active
/// workspace, those of the open chart tabs; none when the active workspace is not listed.
pub open spec fn switcher_entries(state: AppState) -> Seq<SwitcherView> {
    match state.active_workspace_id {
        Some(_) => match active_workspace(state) {
            Some(w) => w.chart_refs@.map_values(|wc: crate::models::WorkspaceChart| switcher_entry(wc.chart@, wc.airport@)),
            None => Seq::empty(),
        },
        None => tab_entries(views(state.tabs@), state.tabs@.len() as int),
    }
}

fn entry_of(c: &Chart, airport: &String) -> (r: SwitcherItem)
    ensures
        (r.0@, r.1@, r.2@, r.3@) == switcher_entry(c@, airport@),
{
    let mut label = chars_of(airport.as_str());
    push_str(&mut label, " · ");
    push_str(&mut label, c.display_title());
    (c.id.clone(), string_of(&label), c.duplicate(), airport.clone())
}

/// The charts the quick switcher offers.
pub fn switcher_items(state: &AppState) -> (r: Vec<SwitcherItem>)
    ensures
        switcher_view(r@) == switcher_entries(*state),
{
    let mut out: Vec<SwitcherItem> = Vec::new();
    if state.active_workspace_id.is_some() {
        match active_workspace_position(state) {
            Some(k) => {
                let refs = &state.workspaces[k].chart_refs;
                let ghost target = refs@.map_values(|wc: crate::models::WorkspaceChart| switcher_entry(wc.chart@, wc.airport@));
                let mut i: usize = 0;
                while i < refs.len()
                    invariant
                        i <= refs.len(),
                        target == refs@.map_values(|wc: crate::models::WorkspaceChart| switcher_entry(wc.chart@, wc.airport@)),
                        switcher_view(out@) == target.take(i as int),
                    decreases refs.len() - i,
                {
                    let e = entry_of(&refs[i].chart, &refs[i].airport);
                    let ghost before = switcher_view(out@);
                    out.push(e);
                    assert(switcher_view(out@) =~= before.push((e.0@, e.1@, e.2@, e.3@)));
                    assert(target.take(i + 1) =~= target.take(i as int).push(target[i as int]));
                    i = i + 1;
                }
                assert(target.take(i as int) =~= target);
            },
            None => {
                assert(switcher_view(out@) =~= Seq::<SwitcherView>::empty());
            },
        }
        return out;
    }
    let ghost tv = views(state.tabs@);
    let mut i: usize = 0;
    assert(switcher_view(out@) =~= Seq::<SwitcherView>::empty());
    while i < state.tabs.len()
        invariant
            i <= state.tabs.len(),
            tv == views(state.tabs@),
            switcher_view(out@) == tab_entries(tv, i as int),
        decreases state.tabs.len() - i,
    {
        assert(tv[i as int] == state.tabs@[i as int]@);
        match &state.tabs[i].content {
            TabContent::Chart { chart, airport } => {
                let e = entry_of(chart, airport);
                let ghost before = switcher_view(out@);
                out.push(e);
                assert(switcher_view(out@) =~= before.push((e.0@, e.1@, e.2@, e.3@)));
            },
            _ => {},
        }
        i = i + 1;
    }
    out
}

/// Whether an entry matches the query `q` (already in lower case): an empty query matches
/// everything; otherwise the lower-case label, chart id or aerodrome holds it.
pub open spec fn entry_matches(e: SwitcherView, q: Seq<char>) -> bool {
    q.len() == 0 || contains_text(lowercase(e.1), q) || contains_text(lowercase(e.0), q) || contains_text(
        lowercase(e.3),
        q,
    )
}

fn lower_contains(s: &String, q: &Vec<char>) -> (r: bool)
    ensures
        r == contains_text(lowercase(s@), q@),
{
    let l = to_lowercase_of(s.as_str());
    contains_of(&chars_of(l.as_str()), q)
}

/// The entries that match a switcher query, in order.
pub fn filter_switcher_items(items: Vec<SwitcherItem>, query: &str) -> (r: Vec<SwitcherItem>)
    ensures
        switcher_view(r@) == switcher_view(items@).filter(|e: SwitcherView| entry_matches(e, lowercase(query@))),
{
    let q = chars_of(to_lowercase_of(query).as_str());
    let ghost iv = switcher_view(items@);
    let ghost pred = |e: SwitcherView| entry_matches(e, lowercase(query@));
    let mut out: Vec<SwitcherItem> = Vec::new();
    let mut i: usize = 0;
    assert(iv.take(0).filter(pred) =~= Seq::<SwitcherView>::empty()) by {
        reveal(Seq::filter);
    }
    while i < items.len()
        invariant
            i <= items.len(),
            iv == switcher_view(items@),
            q@ == lowercase(query@),
            pred == (|e: SwitcherView| entry_matches(e, lowercase(query@))),
            switcher_view(out@) == iv.take(i as int).filter(pred),
        decreases items.len() - i,
    {
        let ghost before = switcher_view(out@);
        assert(iv.take(i + 1).drop_last() =~= iv.take(i as int));
        assert(iv.take(i + 1).filter(pred) == if pred(iv[i as int]) {
            iv.take(i as int).filter(pred).push(iv[i as int])
        } else {
            iv.take(i as int).filter(pred)
        }) by {
            reveal(Seq::filter);
            assert(iv.take(i + 1).last() == iv[i as int]);
        }
        let item = &items[i];
        let hit = q.len() == 0 || lower_contains(&item.1, &q) || lower_contains(&item.0, &q)
            || lower_contains(&item.3, &q);
        assert(hit == pred(iv[i as int]));
        if hit {
            let e: SwitcherItem = (item.0.clone(), item.1.clone(), item.2.duplicate(), item.3.clone());
            out.push(e);
            assert(switcher_view(out@) =~= before.push(iv[i as int]));
        }
        i = i + 1;
    }
    assert(iv.take(i as int) =~= iv);
    out
}

/// The tabs after choosing the chart `chart_id` in the switcher: unchanged when a tab has that
/// id, else with the chart's tab opened.
pub open spec fn switched_tabs(tabs: Seq<TabView>, chart_id: Seq<char>, c: ChartView, airport: Seq<char>) -> Seq<TabView> {
    if has_id(tabs, chart_id) { tabs } else { focus_tabs(tabs, chart_tab_view(c, airport)) }
}

/// The active tab after choosing the chart `chart_id` in the switcher: the first tab with that
/// id, else the tab of the chart opened or focused.
pub open spec fn switched_active(tabs: Seq<TabView>, chart_id: Seq<char>, c: ChartView, airport: Seq<char>) -> int {
    if has_id(tabs, chart_id) {
        index_of_id(tabs, chart_id)
    } else {
        focus_active(tabs, chart_tab_view(c, airport))
    }
}

/// The state with the quick switcher closed.
pub open spec fn switcher_closed(s: AppState) -> AppState {
    AppState { quick_switcher_open: false, ..s }
}

/// Chooses a switcher entry: focuses the tab with the chart's id, or opens the chart's tab,
/// and closes the switcher.
pub fn select_switcher_item(state: &mut AppState, chart_id: &String, chart: Chart, airport: String)
    ensures
        views(final(state).tabs@) == switched_tabs(views(old(state).tabs@), chart_id@, chart@, airport@),
        final(state).active_tab == Some(switched_active(views(old(state).tabs@), chart_id@, chart@, airport@) as usize),
        !final(state).quick_switcher_open,
        same_except_tabs(*final(state), switcher_closed(*old(state))),
{
    let k = position_of_id(&state.tabs, chart_id);
    proof { lemma_index_of_id_bounds(views(state.tabs@), chart_id@); }
    if k < state.tabs.len() {
        state.active_tab = Some(k);
    } else {
        open_or_focus_chart(state, chart, airport);
    }
    state.quick_switcher_open = false;
}

// ---------------------------------------------------------------- the tab actions menu

/// Whether the active tab can be sent to a workspace: every tab but the notes.
pub fn can_add_to_workspace(tab: &Tab) -> (r: bool)
    ensures
        r == !(tab@.content is Notes),
{
    match tab.content {
        TabContent::Notes => false,
        _ => true,
    }
}

/// Whether a workspace name matches the menu's filter (already in lower case).
pub open spec fn name_matches(name: Seq<char>, filter: Seq<char>) -> bool {
    filter.len() == 0 || contains_text(lowercase(name), filter)
}

/// Positions, in order, of the first `n` workspaces whose name matches `filter`.
pub open spec fn matching_positions(ws: Seq<Workspace>, filter: Seq<char>, n: int) -> Seq<usize>
    decreases n,
{
    if n <= 0 || n > ws.len() {
        Seq::empty()
    } else {
        let prev = matching_positions(ws, filter, n - 1);
        if name_matches(ws[n - 1].name@, filter) { prev.push((n - 1) as usize) } else { prev }
    }
}

/// Positions, in order, of the workspaces that the menu lists for the filter typed: those whose
/// lower-case name holds the lower-case filter; all of them for an empty filter.
pub fn filter_workspaces_by_name(workspaces: &Vec<Workspace>, filter: &str) -> (r: Vec<usize>)
    ensures
        r@ == matching_positions(workspaces@, lowercase(filter@), workspaces@.len() as int),
{
    let f = chars_of(to_lowercase_of(filter).as_str());
    let mut out: Vec<usize> = Vec::new();
    let mut i: usize = 0;
    while i < workspaces.len()
        invariant
            i <= workspaces.len(),
            f@ == lowercase(filter@),
            out@ == matching_positions(workspaces@, f@, i as int),
        decreases workspaces.len() - i,
    {
        if f.len() == 0 || lower_contains(&workspaces[i].name, &f) {
            out.push(i);
        }
        i = i + 1;
    }
    out
}

/// Whether a popout window can take the active tab: a workspace popout only takes charts.
pub open spec fn popout_accepts(key: Seq<char>, is_chart_tab: bool) -> bool {
    has_prefix(key, "workspace:"@) ==> is_chart_tab
}

/// The popout windows, as (key, title), that can take the active tab, in order.
pub fn supported_popout_targets(targets: Vec<(String, String)>, is_chart_tab: bool) -> (r: Vec<(String, String)>)
    ensures
        r@.map_values(|t: (String, String)| (t.0@, t.1@)) == targets@.map_values(
            |t: (String, String)| (t.0@, t.1@),
        ).filter(|t: (Seq<char>, Seq<char>)| popout_accepts(t.0, is_chart_tab)),
{
    let ghost tv = targets@.map_values(|t: (String, String)| (t.0@, t.1@));
    let ghost pred = |t: (Seq<char>, Seq<char>)| popout_accepts(t.0, is_chart_tab);
    let prefix = chars_of("workspace:");
    let mut out: Vec<(String, String)> = Vec::new();
    let mut i: usize = 0;
    assert(tv.take(0).filter(pred) =~= Seq::<(Seq<char>, Seq<char>)>::empty()) by {
        reveal(Seq::filter);
    }
    while i < targets.len()
        invariant
            i <= targets.len(),
            tv == targets@.map_values(|t: (String, String)| (t.0@, t.1@)),
            prefix@ == "workspace:"@,
            pred == (|t: (Seq<char>, Seq<char>)| popout_accepts(t.0, is_chart_tab)),
            out@.map_values(|t: (String, String)| (t.0@, t.1@)) == tv.take(i as int).filter(pred),
        decreases targets.len() - i,
    {
        let ghost before = out@.map_values(|t: (String, String)| (t.0@, t.1@));
        assert(tv.take(i + 1).drop_last() =~= tv.take(i as int));
        assert(tv.take(i + 1).filter(pred) == if pred(tv[i as int]) {
            tv.take(i as int).filter(pred).push(tv[i as int])
        } else {
            tv.take(i as int).filter(pred)
        }) by {
            reveal(Seq::filter);
            assert(tv.take(i + 1).last() == tv[i as int]);
        }
        let ok = !has_prefix_of(&chars_of(targets[i].0.as_str()), &prefix) || is_chart_tab;
        if ok {
            let t = (targets[i].0.clone(), targets[i].1.clone());
            out.push(t);
            assert(out@.map_values(|t: (String, String)| (t.0@, t.1@)) =~= before.push(tv[i as int]));
        }
        i = i + 1;
    }
    assert(tv.take(i as int) =~= tv);
    out
}

/// What "new window" does with the active tab.
pub enum NewWindowAction {
    /// Opens a standalone popout window with the tab, then closes it here.
    OpenTabPopout,
    /// Moves the chart tab to the popout window of workspace `id`, which is then opened.
    MoveToWorkspacePopout(String),
}

/// What "new window" does with a tab: a chart tab of an active workspace that has no popout
/// window yet goes to a new popout window of the workspace; any other tab gets a standalone
/// popout window.
pub fn new_window_action(tab: &Tab, active_workspace_id: &Option<String>, workspace_has_popout: bool) -> (r: NewWindowAction)
    ensures
        match r {
            NewWindowAction::MoveToWorkspacePopout(id) => tab@.content is Chart && !workspace_has_popout
                && crate::text::opt_string_view(*active_workspace_id) == Some(id@),
            NewWindowAction::OpenTabPopout => !(tab@.content is Chart) || workspace_has_popout
                || active_workspace_id is None,
        },
{
    match (&tab.content, active_workspace_id) {
        (TabContent::Chart { .. }, Some(id)) => if workspace_has_popout {
            NewWindowAction::OpenTabPopout
        } else {
            NewWindowAction::MoveToWorkspacePopout(id.clone())
        },
        _ => NewWindowAction::OpenTabPopout,
    }
}

/// What sending a tab to a workspace adds to it.
pub enum WorkspaceAddition {
    /// The chart, under its aerodrome.
    Chart { airport: String, chart: Chart },
    /// An ATIS or document tab.
    Extra(ExtraTab),
    /// Nothing: the notes stay out of workspaces.
    Nothing,
}

/// What sending a tab to a workspace adds to it.
pub fn workspace_addition(tab: &Tab) -> (r: WorkspaceAddition)
    ensures
        match tab@.content {
            TabContentView::Chart { chart, airport } => r matches WorkspaceAddition::Chart { airport: a, chart: c }
                && a@ == airport && c@ == chart,
            TabContentView::AipDoc { doc } => r == WorkspaceAddition::Extra(ExtraTab::AipDoc { doc }),
            TabContentView::Atis { icao } => r matches WorkspaceAddition::Extra(ExtraTab::Atis { icao: i }) && i@ == icao,
            TabContentView::Notes => r is Nothing,
        },
{
    match &tab.content {
        TabContent::Chart { chart, airport } => WorkspaceAddition::Chart { airport: airport.clone(), chart: chart.duplicate() },
        TabContent::AipDoc { doc } => WorkspaceAddition::Extra(ExtraTab::AipDoc { doc: doc.duplicate() }),
        TabContent::Atis { icao } => WorkspaceAddition::Extra(ExtraTab::Atis { icao: icao.clone() }),
        TabContent::Notes => WorkspaceAddition::Nothing,
    }
}

/// What sending the active tab to an open popout window does.
pub enum SendToPopout {
    /// Moves the chart tab to the popout window of workspace `id`.
    MoveToWorkspacePopout(String),
    /// Pushes the tab to standalone popout window `id`, then closes it here.
    PushToStandalone(String),
    /// Nothing.
    Nothing,
}

/// What sending a tab to the popout window `key` does: a workspace window takes chart tabs
/// only; a standalone window takes any tab.
pub fn send_to_popout(key: &str, tab: &Tab) -> (r: SendToPopout)
    ensures
        match r {
            SendToPopout::MoveToWorkspacePopout(id) => has_prefix(key@, "workspace:"@) && id@ == key@.skip(10)
                && tab@.content is Chart,
            SendToPopout::PushToStandalone(id) => !has_prefix(key@, "workspace:"@) && has_prefix(key@, "standalone:"@)
                && id@ == key@.skip(11),
            SendToPopout::Nothing => (has_prefix(key@, "workspace:"@) && !(tab@.content is Chart))
                || (!has_prefix(key@, "workspace:"@) && !has_prefix(key@, "standalone:"@)),
        },
{
    match parse_popout_target(key) {
        PopoutTarget::Workspace(id) => match tab.content {
            TabContent::Chart { .. } => SendToPopout::MoveToWorkspacePopout(id),
            _ => SendToPopout::Nothing,
        },
        PopoutTarget::Standalone(id) => SendToPopout::PushToStandalone(id),
        PopoutTarget::Unknown => SendToPopout::Nothing,
    }
}

} // verus!
