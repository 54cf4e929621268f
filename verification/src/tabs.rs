//! Opening, focusing, closing and rebuilding the tabs of the workspace.
use vstd::prelude::*;
use crate::models::{AipDocument, Chart, ChartView, ExtraTab, WorkspaceChart};
use crate::state::{aip_tab_view, atis_tab_view, chart_tab_view, is_notes_tab, notes_tab_view, tab_chart_id, AppState, Tab, TabView};
use vstd::string::StringExecFns;

verus! {

/// The tabs as values.
pub open spec fn views(tabs: Seq<Tab>) -> Seq<TabView> {
    tabs.map_values(|t: Tab| t@)
}

/// Position of the first tab with id `id`, or the number of tabs when there is none.
pub open spec fn index_of_id(tabs: Seq<TabView>, id: Seq<char>) -> int
    decreases tabs.len(),
{
    if tabs.len() == 0 {
        0
    } else if tabs[0].id == id {
        0
    } else {
        1 + index_of_id(tabs.drop_first(), id)
    }
}

/// Whether some tab has id `id`.
pub open spec fn has_id(tabs: Seq<TabView>, id: Seq<char>) -> bool {
    exists|i: int| 0 <= i < tabs.len() && tabs[i].id == id
}

/// Whether the active index, if any, designates a tab.
pub open spec fn active_in_range(tabs_len: int, active: Option<usize>) -> bool {
    match active {
        Some(a) => a < tabs_len,
        None => true,
    }
}

/// The fields of the state other than the tabs and the active tab are those of `b`.
pub open spec fn same_except_tabs(a: AppState, b: AppState) -> bool {
    &&& a.sidebar_mode == b.sidebar_mode
    &&& a.nav_open == b.nav_open
    &&& a.search_icao == b.search_icao
    &&& a.loading == b.loading
    &&& a.error == b.error
    &&& a.charts == b.charts
    &&& a.notices == b.notices
    &&& a.aip_doc == b.aip_doc
    &&& a.workspaces == b.workspaces
    &&& a.active_workspace_id == b.active_workspace_id
    &&& a.pdf_cache == b.pdf_cache
    &&& a.chart_zoom == b.chart_zoom
    &&& a.notes_pinned == b.notes_pinned
    &&& a.quick_switcher_open == b.quick_switcher_open
    &&& a.quick_switcher_query == b.quick_switcher_query
    &&& a.is_popout == b.is_popout
    &&& a.popout_sync_pending == b.popout_sync_pending
    &&& a.night_mode == b.night_mode
    &&& a.theme_mode == b.theme_mode
    &&& a.language == b.language
}

/// Tabs after opening or focusing `tab`: appended when no tab has its id.
pub open spec fn focus_tabs(tabs: Seq<TabView>, tab: TabView) -> Seq<TabView> {
    if has_id(tabs, tab.id) { tabs } else { tabs.push(tab) }
}

/// Active tab after opening or focusing `tab`: the first tab with its id.
pub open spec fn focus_active(tabs: Seq<TabView>, tab: TabView) -> int {
    index_of_id(focus_tabs(tabs, tab), tab.id)
}

/// Tabs after closing the first tab with id `id`, if any.
pub open spec fn close_tabs(tabs: Seq<TabView>, id: Seq<char>) -> Seq<TabView> {
    if has_id(tabs, id) { tabs.remove(index_of_id(tabs, id)) } else { tabs }
}

/// Active tab after closing the tab at `pos` out of `old_len` tabs.
pub open spec fn active_after_close(active: Option<usize>, pos: int, old_len: int) -> Option<usize> {
    match active {
        Some(a) => if a == pos {
            if old_len - 1 == 0 {
                None
            } else if a <= old_len - 2 {
                Some(a)
            } else {
                Some((old_len - 2) as usize)
            }
        } else if a > pos {
            Some((a - 1) as usize)
        } else {
            Some(a)
        },
        None => None,
    }
}

/// Active tab after closing the first tab with id `id`.
pub open spec fn close_active(tabs: Seq<TabView>, active: Option<usize>, id: Seq<char>) -> Option<usize> {
    if has_id(tabs, id) {
        active_after_close(active, index_of_id(tabs, id), tabs.len() as int)
    } else {
        active
    }
}

pub(crate) proof fn lemma_index_of_id(tabs: Seq<TabView>, id: Seq<char>, i: int)
    requires
        0 <= i <= tabs.len(),
        forall|j: int| 0 <= j < i ==> tabs[j].id != id,
        i == tabs.len() || tabs[i].id == id,
    ensures
        index_of_id(tabs, id) == i,
    decreases i,
{
    if i > 0 {
        lemma_index_of_id(tabs.drop_first(), id, i - 1);
    }
}

pub(crate) proof fn lemma_index_of_id_bounds(tabs: Seq<TabView>, id: Seq<char>)
    ensures
        0 <= index_of_id(tabs, id) <= tabs.len(),
        index_of_id(tabs, id) < tabs.len() <==> has_id(tabs, id),
        index_of_id(tabs, id) < tabs.len() ==> tabs[index_of_id(tabs, id)].id == id,
        forall|j: int| 0 <= j < index_of_id(tabs, id) ==> tabs[j].id != id,
    decreases tabs.len(),
{
    if tabs.len() > 0 && tabs[0].id != id {
        lemma_index_of_id_bounds(tabs.drop_first(), id);
        let rest = tabs.drop_first();
        if has_id(rest, id) {
            let k = choose|k: int| 0 <= k < rest.len() && rest[k].id == id;
            assert(tabs[k + 1].id == id);
        }
        if has_id(tabs, id) {
            let k = choose|k: int| 0 <= k < tabs.len() && tabs[k].id == id;
            assert(k > 0);
            assert(rest[k - 1].id == id);
        }
        assert forall|j: int| 0 <= j < index_of_id(tabs, id) implies tabs[j].id != id by {
            if j > 0 {
                assert(tabs[j] == rest[j - 1]);
            }
        }
    }
}

/// Position of the first tab with id `id`, or the number of tabs.
pub(crate) fn position_of_id(tabs: &Vec<Tab>, id: &String) -> (r: usize)
    ensures
        r == index_of_id(views(tabs@), id@),
        r <= tabs.len(),
{
    let ghost vs = views(tabs@);
    let mut i: usize = 0;
    while i < tabs.len()
        invariant
            i <= tabs.len(),
            vs == views(tabs@),
            forall|j: int| 0 <= j < i ==> vs[j].id != id@,
        decreases tabs.len() - i,
    {
        if tabs[i].id == *id {
            proof { lemma_index_of_id(vs, id@, i as int); }
            return i;
        }
        i = i + 1;
    }
    proof { lemma_index_of_id(vs, id@, i as int); }
    i
}

/// Opens `tab`, unless a tab with its id is open, and makes the tab with its id active.
pub fn open_or_focus(state: &mut AppState, tab: Tab)
    ensures
        views(final(state).tabs@) == focus_tabs(views(old(state).tabs@), tab@),
        final(state).active_tab == Some(focus_active(views(old(state).tabs@), tab@) as usize),
        focus_active(views(old(state).tabs@), tab@) < final(state).tabs@.len(),
        views(final(state).tabs@)[focus_active(views(old(state).tabs@), tab@)].id == tab@.id,
        same_except_tabs(*final(state), *old(state)),
{
    let tab_id = tab.id.clone();
    let ghost old_views = views(state.tabs@);
    let ghost tv = tab@;
    let p = position_of_id(&state.tabs, &tab_id);
    proof { lemma_index_of_id_bounds(old_views, tv.id); }
    if p == state.tabs.len() {
        state.tabs.push(tab);
        assert(views(state.tabs@) =~= old_views.push(tv));
        assert(views(state.tabs@)[old_views.len() as int].id == tv.id);
    }
    assert(has_id(views(state.tabs@), tv.id));
    let q = position_of_id(&state.tabs, &tab_id);
    proof { lemma_index_of_id_bounds(views(state.tabs@), tv.id); }
    state.active_tab = Some(q);
}

/// Opens the notes tab first when no notes tab is open, and activates the first tab when
/// none is active.
pub fn ensure_notes_tab(state: &mut AppState)
    ensures
        (exists|i: int| 0 <= i < old(state).tabs@.len() && is_notes_tab(old(state).tabs@[i]@))
            ==> views(final(state).tabs@) == views(old(state).tabs@),
        !(exists|i: int| 0 <= i < old(state).tabs@.len() && is_notes_tab(old(state).tabs@[i]@))
            ==> views(final(state).tabs@) == seq![notes_tab_view()] + views(old(state).tabs@),
        final(state).active_tab == (match old(state).active_tab {
            Some(a) => Some(a),
            None => Some(0usize),
        }),
        active_in_range(old(state).tabs@.len() as int, old(state).active_tab) ==> active_in_range(
            final(state).tabs@.len() as int,
            final(state).active_tab,
        ),
        final(state).tabs@.len() >= 1,
        exists|i: int| 0 <= i < final(state).tabs@.len() && is_notes_tab(final(state).tabs@[i]@),
        same_except_tabs(*final(state), *old(state)),
{
    let ghost old_views = views(state.tabs@);
    let mut i: usize = 0;
    let mut found = false;
    while i < state.tabs.len()
        invariant
            i <= state.tabs.len(),
            found == (exists|j: int| 0 <= j < i && is_notes_tab(state.tabs@[j]@)),
        decreases state.tabs.len() - i,
    {
        if state.tabs[i].is_notes() {
            found = true;
        }
        i = i + 1;
    }
    if !found {
        let n = Tab::notes();
        state.tabs.insert(0, n);
        assert(views(state.tabs@) =~= seq![notes_tab_view()] + old_views);
        assert(is_notes_tab(state.tabs@[0]@));
    } else {
        proof {
            let j = choose|j: int| 0 <= j < i && is_notes_tab(state.tabs@[j]@);
            assert(0 <= j < state.tabs@.len() && is_notes_tab(state.tabs@[j]@));
        }
    }
    if state.active_tab.is_none() {
        state.active_tab = Some(0);
    }
}

/// Closes the first tab with id `tab_id`, keeping the active tab on the same tab when
/// another tab was active, and on a neighbour when the closed tab was active.
pub fn close_tab_by_id(state: &mut AppState, tab_id: &str)
    ensures
        views(final(state).tabs@) == close_tabs(views(old(state).tabs@), tab_id@),
        final(state).active_tab == close_active(views(old(state).tabs@), old(state).active_tab, tab_id@),
        active_in_range(old(state).tabs@.len() as int, old(state).active_tab) ==> active_in_range(
            final(state).tabs@.len() as int,
            final(state).active_tab,
        ),
        same_except_tabs(*final(state), *old(state)),
{
    let id = String::from_str(tab_id);
    let ghost old_views = views(state.tabs@);
    let pos = position_of_id(&state.tabs, &id);
    proof { lemma_index_of_id_bounds(old_views, tab_id@); }
    if pos < state.tabs.len() {
        state.tabs.remove(pos);
        assert(views(state.tabs@) =~= old_views.remove(pos as int));
        match state.active_tab {
            Some(a) => {
                if a == pos {
                    state.active_tab = if state.tabs.len() == 0 {
                        None
                    } else if a <= state.tabs.len() - 1 {
                        Some(a)
                    } else {
                        Some(state.tabs.len() - 1)
                    };
                } else if a > pos {
                    state.active_tab = Some(a - 1);
                }
            },
            None => {},
        }
    }
}

/// Opens or focuses the tab of `chart` at `airport`.
pub fn open_or_focus_chart(state: &mut AppState, chart: Chart, airport: String)
    ensures
        views(final(state).tabs@) == focus_tabs(views(old(state).tabs@), chart_tab_view(chart@, airport@)),
        final(state).active_tab == Some(
            focus_active(views(old(state).tabs@), chart_tab_view(chart@, airport@)) as usize,
        ),
        same_except_tabs(*final(state), *old(state)),
{
    open_or_focus(state, Tab::chart(chart, airport));
}

/// Opens or focuses the tab of AIP document `doc`.
pub fn open_or_focus_aip(state: &mut AppState, doc: AipDocument)
    ensures
        views(final(state).tabs@) == focus_tabs(views(old(state).tabs@), aip_tab_view(doc)),
        final(state).active_tab == Some(focus_active(views(old(state).tabs@), aip_tab_view(doc)) as usize),
        same_except_tabs(*final(state), *old(state)),
{
    open_or_focus(state, Tab::aip_doc(doc));
}

/// Opens or focuses the ATIS tab of aerodrome `icao`.
pub fn open_or_focus_atis(state: &mut AppState, icao: String)
    ensures
        views(final(state).tabs@) == focus_tabs(views(old(state).tabs@), atis_tab_view(icao@)),
        final(state).active_tab == Some(focus_active(views(old(state).tabs@), atis_tab_view(icao@)) as usize),
        same_except_tabs(*final(state), *old(state)),
{
    open_or_focus(state, Tab::atis(icao));
}


/// Chart ids of the chart tabs, in order.
pub open spec fn chart_ids(tabs: Seq<TabView>) -> Seq<Seq<char>>
    decreases tabs.len(),
{
    if tabs.len() == 0 {
        Seq::empty()
    } else {
        let rest = chart_ids(tabs.drop_last());
        match tab_chart_id(tabs.last()) {
            Some(id) => rest.push(id),
            None => rest,
        }
    }
}

/// Position of the active tab among the chart tabs, when the active tab is a chart tab.
pub open spec fn active_chart_index(tabs: Seq<TabView>, active: Option<usize>) -> Option<usize> {
    match active {
        Some(a) => if a < tabs.len() && tab_chart_id(tabs[a as int]) is Some {
            Some(chart_ids(tabs.take(a as int)).len() as usize)
        } else {
            None
        },
        None => None,
    }
}

/// Chart ids of the chart tabs, and the position of the active tab among them, as a
/// workspace saves them.
pub fn chart_tab_state(tabs: &[Tab], active_tab: Option<usize>) -> (r: (Vec<String>, Option<usize>))
    ensures
        r.0@.map_values(|s: String| s@) == chart_ids(views(tabs@)),
        r.1 == active_chart_index(views(tabs@), active_tab),
{
    let ghost vs = views(tabs@);
    let mut ids: Vec<String> = Vec::new();
    let mut active_chart_index: Option<usize> = None;
    let mut i: usize = 0;
    assert(vs.take(0) =~= Seq::<TabView>::empty());
    while i < tabs.len()
        invariant
            i <= tabs.len(),
            vs == views(tabs@),
            ids@.map_values(|s: String| s@) == chart_ids(vs.take(i as int)),
            active_chart_index == (match active_tab {
                Some(a) => if a < i && tab_chart_id(vs[a as int]) is Some {
                    Some(chart_ids(vs.take(a as int)).len() as usize)
                } else {
                    None
                },
                None => None,
            }),
            ids@.len() <= i,
        decreases tabs.len() - i,
    {
        assert(vs.take(i + 1).drop_last() =~= vs.take(i as int));
        assert(vs.take(i + 1).last() == vs[i as int]);
        match tabs[i].chart_id() {
            Some(id) => {
                let idx = ids.len();
                let mut v: Vec<char> = crate::text::chars_of(id);
                ids.push(crate::text::string_of(&v));
                assert(ids@.map_values(|s: String| s@) =~= chart_ids(vs.take(i as int)).push(id@));
                if active_tab == Some(i) {
                    active_chart_index = Some(idx);
                }
            },
            None => {},
        }
        i = i + 1;
    }
    assert(vs.take(i as int) =~= vs);
    (ids, active_chart_index)
}

/// The charts as values.
pub open spec fn chart_views(charts: Seq<Chart>) -> Seq<ChartView> {
    charts.map_values(|c: Chart| c@)
}

/// Whether a freshly searched chart is the same document as a saved chart.
pub open spec fn same_document(fresh: ChartView, saved: ChartView) -> bool {
    fresh.source == saved.source && fresh.provider_relative_url == saved.provider_relative_url
}

/// A saved workspace chart brought up to date with the first freshly searched chart of the
/// same document, keeping the saved id and custom title; the saved chart when none matches.
pub open spec fn hydrate(charts: Seq<ChartView>, saved: ChartView) -> ChartView
    decreases charts.len(),
{
    if charts.len() == 0 {
        saved
    } else if same_document(charts[0], saved) {
        ChartView {
            id: saved.id,
            source: charts[0].source,
            category: charts[0].category,
            subtitle: charts[0].subtitle,
            filename: charts[0].filename,
            provider_relative_url: charts[0].provider_relative_url,
            linked_provider_relative_urls: charts[0].linked_provider_relative_urls,
            airac_code: charts[0].airac_code,
            page: charts[0].page,
            tags: charts[0].tags,
            runways: charts[0].runways,
            custom_title: saved.custom_title,
        }
    } else {
        hydrate(charts.drop_first(), saved)
    }
}

proof fn lemma_hydrate_id(charts: Seq<ChartView>, saved: ChartView)
    ensures
        hydrate(charts, saved).id == saved.id,
    decreases charts.len(),
{
    if charts.len() > 0 && !same_document(charts[0], saved) {
        lemma_hydrate_id(charts.drop_first(), saved);
    }
}

/// The saved chart of `wc`, brought up to date with the charts of the last search.
pub(crate) fn hydrated_workspace_chart(state: &AppState, wc: &WorkspaceChart) -> (r: Chart)
    ensures
        r@ == hydrate(chart_views(state.charts@), wc.chart@),
{
    let ghost cv = chart_views(state.charts@);
    let mut i: usize = 0;
    assert(cv.skip(0) =~= cv);
    while i < state.charts.len()
        invariant
            i <= state.charts.len(),
            cv == chart_views(state.charts@),
            hydrate(cv, wc.chart@) == hydrate(cv.skip(i as int), wc.chart@),
        decreases state.charts.len() - i,
    {
        let c = &state.charts[i];
        assert(cv.skip(i as int)[0] == c@);
        if c.source == wc.chart.source && c.provider_relative_url == wc.chart.provider_relative_url {
            let mut merged = c.duplicate();
            merged.id = wc.chart.id.clone();
            merged.custom_title = crate::text::clone_opt_string(&wc.chart.custom_title);
            assert(same_document(cv.skip(i as int)[0], wc.chart@));
            assert(merged@ == hydrate(cv.skip(i as int), wc.chart@));
            assert(merged@ == hydrate(cv, wc.chart@));
            return merged;
        }
        assert(cv.skip(i as int).drop_first() =~= cv.skip(i + 1));
        i = i + 1;
    }
    assert(cv.skip(i as int) =~= Seq::<ChartView>::empty());
    wc.chart.duplicate()
}

/// The chart tab that a workspace chart opens as.
pub open spec fn workspace_chart_tab(charts: Seq<ChartView>, wc: WorkspaceChart) -> TabView {
    chart_tab_view(hydrate(charts, wc.chart@), wc.airport@)
}

/// Tabs after opening every chart of `refs` not open yet, in order.
pub open spec fn open_all_tabs(tabs: Seq<TabView>, charts: Seq<ChartView>, refs: Seq<WorkspaceChart>) -> Seq<TabView>
    decreases refs.len(),
{
    if refs.len() == 0 {
        tabs
    } else {
        focus_tabs(open_all_tabs(tabs, charts, refs.drop_last()), workspace_chart_tab(charts, refs.last()))
    }
}

proof fn lemma_focus_keeps_ids(tabs: Seq<TabView>, t: TabView, id: Seq<char>)
    ensures
        has_id(tabs, id) ==> has_id(focus_tabs(tabs, t), id),
        has_id(focus_tabs(tabs, t), t.id),
{
    if has_id(tabs, id) {
        let k = choose|k: int| 0 <= k < tabs.len() && tabs[k].id == id;
        assert(focus_tabs(tabs, t)[k] == tabs[k]);
    }
    if !has_id(tabs, t.id) {
        assert(focus_tabs(tabs, t)[tabs.len() as int] == t);
    }
}

/// A chart tab, built from a workspace chart.
fn workspace_chart_tab_of(state: &AppState, wc: &WorkspaceChart) -> (r: Tab)
    ensures
        r@ == workspace_chart_tab(chart_views(state.charts@), *wc),
{
    let chart = hydrated_workspace_chart(state, wc);
    Tab::chart(chart, wc.airport.clone())
}

/// Opens, in order, the tabs of the charts of `chart_refs` that are not open yet, and
/// activates the tab of the first of them.
pub fn open_all_workspace_charts(state: &mut AppState, chart_refs: &[WorkspaceChart])
    ensures
        views(final(state).tabs@) == open_all_tabs(
            views(old(state).tabs@),
            chart_views(old(state).charts@),
            chart_refs@,
        ),
        chart_refs@.len() > 0 ==> final(state).active_tab == Some(
            index_of_id(views(final(state).tabs@), chart_refs@[0].chart@.id) as usize,
        ),
        chart_refs@.len() == 0 ==> final(state).active_tab == old(state).active_tab,
        active_in_range(old(state).tabs@.len() as int, old(state).active_tab) ==> active_in_range(
            final(state).tabs@.len() as int,
            final(state).active_tab,
        ),
        same_except_tabs(*final(state), *old(state)),
{
    let ghost old_views = views(state.tabs@);
    let ghost cv = chart_views(state.charts@);
    let ghost old_state = *state;
    let mut i: usize = 0;
    assert(chart_refs@.take(0) =~= Seq::<WorkspaceChart>::empty());
    while i < chart_refs.len()
        invariant
            i <= chart_refs.len(),
            cv == chart_views(state.charts@),
            views(state.tabs@) == open_all_tabs(old_views, cv, chart_refs@.take(i as int)),
            i > 0 ==> has_id(views(state.tabs@), chart_refs@[0].chart@.id),
            state.tabs@.len() >= old_views.len(),
            state.active_tab == old_state.active_tab,
            same_except_tabs(*state, old_state),
            old_views.len() == old_state.tabs@.len(),
        decreases chart_refs.len() - i,
    {
        let wc = &chart_refs[i];
        let ghost prev = views(state.tabs@);
        let t = workspace_chart_tab_of(state, wc);
        let ghost tv = t@;
        assert(chart_refs@.take(i + 1).drop_last() =~= chart_refs@.take(i as int));
        assert(chart_refs@.take(i + 1).last() == chart_refs@[i as int]);
        proof { lemma_hydrate_id(cv, wc.chart@); }
        assert(tv.id == wc.chart@.id);
        let p = position_of_id(&state.tabs, &wc.chart.id);
        proof { lemma_index_of_id_bounds(prev, wc.chart@.id); }
        if p == state.tabs.len() {
            state.tabs.push(t);
            assert(views(state.tabs@) =~= prev.push(tv));
        }
        proof {
            lemma_focus_keeps_ids(prev, tv, chart_refs@[0].chart@.id);
        }
        i = i + 1;
    }
    assert(chart_refs@.take(i as int) =~= chart_refs@);
    if chart_refs.len() > 0 {
        let q = position_of_id(&state.tabs, &chart_refs[0].chart.id);
        proof { lemma_index_of_id_bounds(views(state.tabs@), chart_refs@[0].chart@.id); }
        if q < state.tabs.len() {
            state.active_tab = Some(q);
        }
    }
}

/// The tab that a persisted extra tab opens as.
pub open spec fn extra_tab_view(e: ExtraTab) -> TabView {
    match e {
        ExtraTab::Atis { icao } => atis_tab_view(icao@),
        ExtraTab::AipDoc { doc } => aip_tab_view(doc),
    }
}

/// Tabs after opening, in order, each extra tab whose id is not open yet.
pub open spec fn restore_tabs(tabs: Seq<TabView>, extras: Seq<ExtraTab>) -> Seq<TabView>
    decreases extras.len(),
{
    if extras.len() == 0 {
        tabs
    } else {
        focus_tabs(restore_tabs(tabs, extras.drop_last()), extra_tab_view(extras.last()))
    }
}

/// Opens, in order, the persisted extra tabs whose ids are not open yet.
pub fn restore_extra_tabs(state: &mut AppState, extra_tabs: &[ExtraTab])
    ensures
        views(final(state).tabs@) == restore_tabs(views(old(state).tabs@), extra_tabs@),
        final(state).active_tab == old(state).active_tab,
        final(state).tabs@.len() >= old(state).tabs@.len(),
        same_except_tabs(*final(state), *old(state)),
{
    let ghost old_views = views(state.tabs@);
    let ghost old_state = *state;
    let mut i: usize = 0;
    assert(extra_tabs@.take(0) =~= Seq::<ExtraTab>::empty());
    while i < extra_tabs.len()
        invariant
            i <= extra_tabs.len(),
            views(state.tabs@) == restore_tabs(old_views, extra_tabs@.take(i as int)),
            state.tabs@.len() >= old_views.len(),
            state.active_tab == old_state.active_tab,
            same_except_tabs(*state, old_state),
            old_views.len() == old_state.tabs@.len(),
        decreases extra_tabs.len() - i,
    {
        let ghost prev = views(state.tabs@);
        assert(extra_tabs@.take(i + 1).drop_last() =~= extra_tabs@.take(i as int));
        let t = match &extra_tabs[i] {
            ExtraTab::Atis { icao } => Tab::atis(icao.clone()),
            ExtraTab::AipDoc { doc } => Tab::aip_doc(doc.duplicate()),
        };
        let ghost tv = t@;
        assert(tv == extra_tab_view(extra_tabs@[i as int]));
        assert(extra_tabs@.take(i + 1).last() == extra_tabs@[i as int]);
        let p = position_of_id(&state.tabs, &t.id);
        proof { lemma_index_of_id_bounds(prev, tv.id); }
        if p == state.tabs.len() {
            state.tabs.push(t);
            assert(views(state.tabs@) =~= prev.push(tv));
        }
        i = i + 1;
    }
    assert(extra_tabs@.take(i as int) =~= extra_tabs@);
}


/// The first workspace chart whose chart has id `id`.
pub open spec fn find_ref(refs: Seq<WorkspaceChart>, id: Seq<char>) -> Option<WorkspaceChart>
    decreases refs.len(),
{
    if refs.len() == 0 {
        None
    } else if refs[0].chart@.id == id {
        Some(refs[0])
    } else {
        find_ref(refs.drop_first(), id)
    }
}

/// Chart tabs for saved tab ids, in order, skipping ids with no workspace chart.
pub open spec fn tabs_for_ids(charts: Seq<ChartView>, refs: Seq<WorkspaceChart>, ids: Seq<Seq<char>>) -> Seq<TabView>
    decreases ids.len(),
{
    if ids.len() == 0 {
        Seq::empty()
    } else {
        let prev = tabs_for_ids(charts, refs, ids.drop_last());
        match find_ref(refs, ids.last()) {
            Some(wc) => prev.push(workspace_chart_tab(charts, wc)),
            None => prev,
        }
    }
}

/// Chart tabs for all workspace charts, in order.
pub open spec fn tabs_for_refs(charts: Seq<ChartView>, refs: Seq<WorkspaceChart>) -> Seq<TabView> {
    refs.map_values(|wc: WorkspaceChart| workspace_chart_tab(charts, wc))
}

/// Active tab restored from a saved chart-tab index, shifted past the notes tab and kept
/// within the `len` tabs.
pub open spec fn restored_active(saved: Option<usize>, len: int) -> Option<usize> {
    match saved {
        Some(i) => if i + 1 <= len - 1 { Some((i + 1) as usize) } else { Some((len - 1) as usize) },
        None => Some(0usize),
    }
}

/// The first workspace chart whose chart has id `id`.
fn find_ref_of(refs: &[WorkspaceChart], id: &String) -> (r: Option<usize>)
    ensures
        match r {
            Some(k) => k < refs@.len() && find_ref(refs@, id@) == Some(refs@[k as int]),
            None => find_ref(refs@, id@) is None,
        },
{
    let mut k: usize = 0;
    assert(refs@.skip(0) =~= refs@);
    while k < refs.len()
        invariant
            k <= refs.len(),
            find_ref(refs@, id@) == find_ref(refs@.skip(k as int), id@),
        decreases refs.len() - k,
    {
        assert(refs@.skip(k as int)[0] == refs@[k as int]);
        if refs[k].chart.id == *id {
            return Some(k);
        }
        assert(refs@.skip(k as int).drop_first() =~= refs@.skip(k + 1));
        k = k + 1;
    }
    assert(refs@.skip(k as int) =~= Seq::<WorkspaceChart>::empty());
    None
}

/// Appends the chart tabs of the saved tab ids `ids`.
fn push_tabs_for_ids(state: &mut AppState, chart_refs: &[WorkspaceChart], ids: &[String])
    ensures
        views(final(state).tabs@) == views(old(state).tabs@) + tabs_for_ids(
            chart_views(old(state).charts@),
            chart_refs@,
            ids@.map_values(|s: String| s@),
        ),
        final(state).active_tab == old(state).active_tab,
        same_except_tabs(*final(state), *old(state)),
{
    let ghost old_views = views(state.tabs@);
    let ghost old_state = *state;
    let ghost cv = chart_views(state.charts@);
    let ghost idv = ids@.map_values(|s: String| s@);
    let mut i: usize = 0;
    assert(idv.take(0) =~= Seq::<Seq<char>>::empty());
    assert(old_views + Seq::<TabView>::empty() =~= old_views);
    while i < ids.len()
        invariant
            i <= ids.len(),
            idv == ids@.map_values(|s: String| s@),
            cv == chart_views(state.charts@),
            views(state.tabs@) == old_views + tabs_for_ids(cv, chart_refs@, idv.take(i as int)),
            state.active_tab == old_state.active_tab,
            same_except_tabs(*state, old_state),
        decreases ids.len() - i,
    {
        let ghost prev = views(state.tabs@);
        assert(idv.take(i + 1).drop_last() =~= idv.take(i as int));
        assert(idv.take(i + 1).last() == ids@[i as int]@);
        match find_ref_of(chart_refs, &ids[i]) {
            Some(k) => {
                let t = workspace_chart_tab_of(state, &chart_refs[k]);
                state.tabs.push(t);
                assert(views(state.tabs@) =~= prev.push(t@));
                assert(views(state.tabs@) =~= old_views + tabs_for_ids(cv, chart_refs@, idv.take(i + 1)));
            },
            None => {
                assert(views(state.tabs@) =~= old_views + tabs_for_ids(cv, chart_refs@, idv.take(i + 1)));
            },
        }
        i = i + 1;
    }
    assert(idv.take(i as int) =~= idv);
}

/// Appends the chart tabs of all workspace charts.
fn push_tabs_for_refs(state: &mut AppState, chart_refs: &[WorkspaceChart])
    ensures
        views(final(state).tabs@) == views(old(state).tabs@) + tabs_for_refs(
            chart_views(old(state).charts@),
            chart_refs@,
        ),
        final(state).active_tab == old(state).active_tab,
        same_except_tabs(*final(state), *old(state)),
{
    let ghost old_state = *state;
    let ghost start = views(state.tabs@);
    let ghost cv = chart_views(state.charts@);
    let mut k: usize = 0;
    assert(start + tabs_for_refs(cv, chart_refs@.take(0)) =~= start);
    while k < chart_refs.len()
        invariant
            k <= chart_refs.len(),
            cv == chart_views(state.charts@),
            views(state.tabs@) == start + tabs_for_refs(cv, chart_refs@.take(k as int)),
            state.active_tab == old_state.active_tab,
            same_except_tabs(*state, old_state),
        decreases chart_refs.len() - k,
    {
        let ghost prev = views(state.tabs@);
        let t = workspace_chart_tab_of(state, &chart_refs[k]);
        state.tabs.push(t);
        let ghost a = tabs_for_refs(cv, chart_refs@.take(k as int));
        let ghost b = tabs_for_refs(cv, chart_refs@.take(k + 1));
        assert(b =~= a.push(t@));
        assert(views(state.tabs@) =~= prev.push(t@));
        assert(start + b =~= (start + a).push(t@));
        k = k + 1;
    }
    assert(chart_refs@.take(k as int) =~= chart_refs@);
}

/// Base tabs of a loaded workspace, before its extra tabs.
pub open spec fn workspace_base_tabs(
    cv: Seq<ChartView>,
    refs: Seq<WorkspaceChart>,
    open_tabs: Seq<String>,
) -> Seq<TabView> {
    seq![notes_tab_view()] + if open_tabs.len() > 0 {
        tabs_for_ids(cv, refs, open_tabs.map_values(|s: String| s@))
    } else {
        tabs_for_refs(cv, refs)
    }
}

/// Active tab of a loaded workspace.
pub open spec fn workspace_active(
    base_len: int,
    open_tabs: Seq<String>,
    active_tab_index: Option<usize>,
) -> Option<usize> {
    if open_tabs.len() > 0 { restored_active(active_tab_index, base_len) } else { Some(0usize) }
}

fn reset_to_notes(state: &mut AppState)
    ensures
        views(final(state).tabs@) == seq![notes_tab_view()],
        final(state).active_tab == old(state).active_tab,
        same_except_tabs(*final(state), *old(state)),
{
    state.tabs.clear();
    state.tabs.push(Tab::notes());
    assert(views(state.tabs@) =~= seq![notes_tab_view()]);
}

/// Active index restored from a saved chart-tab index, for `len` tabs.
fn restored_active_of(saved: Option<usize>, len: usize) -> (r: Option<usize>)
    requires
        len >= 1,
    ensures
        r == restored_active(saved, len as int),
{
    match saved {
        Some(i) => if i < len - 1 { Some(i + 1) } else { Some(len - 1) },
        None => Some(0),
    }
}

fn rebuild_workspace_base(
    state: &mut AppState,
    chart_refs: &[WorkspaceChart],
    open_tabs: &[String],
    active_tab_index: Option<usize>,
)
    ensures
        views(final(state).tabs@) == workspace_base_tabs(chart_views(old(state).charts@), chart_refs@, open_tabs@),
        final(state).active_tab == workspace_active(final(state).tabs@.len() as int, open_tabs@, active_tab_index),
        same_except_tabs(*final(state), *old(state)),
{
    reset_to_notes(state);
    if open_tabs.len() > 0 {
        push_tabs_for_ids(state, chart_refs, open_tabs);
        assert(views(state.tabs@).len() == state.tabs@.len());
        let len = state.tabs.len();
        state.active_tab = restored_active_of(active_tab_index, len);
    } else {
        push_tabs_for_refs(state, chart_refs);
        state.active_tab = Some(0);
    }
}

/// Rebuilds the tabs of a loaded workspace: the notes tab, then the chart tabs of the saved
/// open tab ids (all workspace charts when none was saved), then the extra tabs.
pub fn rebuild_workspace_tabs(
    state: &mut AppState,
    chart_refs: &[WorkspaceChart],
    open_tabs: &[String],
    active_tab_index: Option<usize>,
    extra_tabs: &[ExtraTab],
)
    ensures
        views(final(state).tabs@) == restore_tabs(
            workspace_base_tabs(chart_views(old(state).charts@), chart_refs@, open_tabs@),
            extra_tabs@,
        ),
        final(state).active_tab == workspace_active(
            workspace_base_tabs(chart_views(old(state).charts@), chart_refs@, open_tabs@).len() as int,
            open_tabs@,
            active_tab_index,
        ),
        active_in_range(final(state).tabs@.len() as int, final(state).active_tab),
        same_except_tabs(*final(state), *old(state)),
{
    rebuild_workspace_base(state, chart_refs, open_tabs, active_tab_index);
    restore_extra_tabs(state, extra_tabs);
}

/// Rebuilds the tabs of a workspace popout window: the notes tab, then the chart tabs of
/// the saved popout tab ids.
pub fn rebuild_popout_tabs(
    state: &mut AppState,
    chart_refs: &[WorkspaceChart],
    popout_tabs: &[String],
    popout_active: Option<usize>,
)
    ensures
        ({
            let base = seq![notes_tab_view()] + tabs_for_ids(
                chart_views(old(state).charts@),
                chart_refs@,
                popout_tabs@.map_values(|s: String| s@),
            );
            &&& views(final(state).tabs@) == base
            &&& final(state).active_tab == restored_active(popout_active, base.len() as int)
        }),
        active_in_range(final(state).tabs@.len() as int, final(state).active_tab),
        same_except_tabs(*final(state), *old(state)),
{
    reset_to_notes(state);
    push_tabs_for_ids(state, chart_refs, popout_tabs);
    assert(views(state.tabs@).len() == state.tabs@.len());
    let len = state.tabs.len();
    state.active_tab = restored_active_of(popout_active, len);
}


/// Opening or focusing a tab twice does what doing it once does.
pub proof fn law_focus_is_idempotent(tabs: Seq<TabView>, tab: TabView)
    ensures
        focus_tabs(focus_tabs(tabs, tab), tab) == focus_tabs(tabs, tab),
        focus_active(focus_tabs(tabs, tab), tab) == focus_active(tabs, tab),
{
    lemma_focus_keeps_ids(tabs, tab, tab.id);
}

/// Closing a tab that was just opened gives back the tabs there were before it.
pub proof fn law_close_undoes_open(tabs: Seq<TabView>, tab: TabView)
    requires
        !has_id(tabs, tab.id),
    ensures
        close_tabs(focus_tabs(tabs, tab), tab.id) == tabs,
{
    let t = focus_tabs(tabs, tab);
    assert(t == tabs.push(tab));
    assert forall|j: int| 0 <= j < tabs.len() implies t[j].id != tab.id by {
        assert(t[j] == tabs[j]);
    }
    lemma_index_of_id(t, tab.id, tabs.len() as int);
    assert(t[tabs.len() as int].id == tab.id);
    assert(t.remove(tabs.len() as int) =~= tabs);
}

/// Closing a tab other than the active one leaves the same tab active.
pub proof fn law_close_keeps_the_active_tab(tabs: Seq<TabView>, a: usize, id: Seq<char>)
    requires
        a < tabs.len(),
        tabs[a as int].id != id,
    ensures
        close_active(tabs, Some(a), id) matches Some(b) && b < close_tabs(tabs, id).len()
            && close_tabs(tabs, id)[b as int] == tabs[a as int],
{
    lemma_index_of_id_bounds(tabs, id);
    if has_id(tabs, id) {
        let p = index_of_id(tabs, id);
        assert(p != a);
    }
}

/// Closing the active tab leaves a tab active whenever a tab remains.
pub proof fn law_closing_the_active_tab_keeps_a_tab_active(tabs: Seq<TabView>, a: usize)
    requires
        a < tabs.len(),
        tabs.len() > 1,
    ensures
        close_active(tabs, Some(a), tabs[a as int].id) matches Some(b) && b < close_tabs(
            tabs,
            tabs[a as int].id,
        ).len(),
{
    lemma_index_of_id_bounds(tabs, tabs[a as int].id);
}

} // verus!
