//! Decisions of the navigator: searching an aerodrome, loading and unloading a workspace,
//! naming charts, and grouping search results by category.
use vstd::prelude::*;
use std::collections::HashMap;
use crate::models::{category_rank, AipDocument, Chart, ChartCategory, ChartView, ExtraTab, Notice, Workspace, WorkspaceChart};
use crate::i18n::{language_after_set, set_language, AppLanguage, LanguageSetting};
use crate::state::{
    night_mode_possible, resolve_night_mode, set_theme_mode, theme_after_set, AppState, SidebarMode,
    Tab, TabContent, TabContentView, TabView, ThemeMode, ThemeModeSetting,
};
use crate::tabs::{
    active_chart_index, chart_ids, chart_tab_state, chart_views, rebuild_workspace_tabs,
    restore_tabs, same_except_tabs, views, workspace_active, workspace_base_tabs,
};
use crate::text::{chars_of, clone_opt_string, opt_string_view, same_text, string_of, strings_view, trim_ws, trim_ws_of};
use crate::workspace_windows::{workspace_index};

verus! {

broadcast use vstd::string::group_string_axioms;

// ---------------------------------------------------------------- chart titles

/// The custom title a typed value sets: the value trimmed; no title when that is empty.
pub open spec fn custom_title_of(value: Seq<char>) -> Option<Seq<char>> {
    let t = trim_ws(value);
    if t.len() == 0 { None } else { Some(t) }
}

/// The custom title a typed value sets.
pub fn custom_title_value(value: &str) -> (r: Option<String>)
    ensures
        opt_string_view(r) == custom_title_of(value@),
{
    let t = trim_ws_of(&chars_of(value));
    if t.len() == 0 { None } else { Some(string_of(&t)) }
}

/// A tab once the chart `chart_id` is given the custom title `title`.
pub open spec fn retitled_tab(t: TabView, chart_id: Seq<char>, title: Option<Seq<char>>) -> TabView {
    match t.content {
        TabContentView::Chart { chart, airport } => if chart.id == chart_id {
            TabView {
                id: t.id,
                content: TabContentView::Chart { chart: ChartView { custom_title: title, ..chart }, airport },
            }
        } else {
            t
        },
        _ => t,
    }
}

/// Gives every open tab of chart `chart_id` the custom title `title`.
pub fn retitle_chart_tabs(state: &mut AppState, chart_id: &str, title: &Option<String>)
    ensures
        views(final(state).tabs@) == views(old(state).tabs@).map_values(
            |t: TabView| retitled_tab(t, chart_id@, opt_string_view(*title)),
        ),
        final(state).active_tab == old(state).active_tab,
        same_except_tabs(*final(state), *old(state)),
{
    let ghost ov = views(state.tabs@);
    let ghost tv = opt_string_view(*title);
    let mut out: Vec<Tab> = Vec::new();
    let mut i: usize = 0;
    while i < state.tabs.len()
        invariant
            i <= state.tabs.len(),
            ov == views(state.tabs@),
            tv == opt_string_view(*title),
            views(out@) == ov.take(i as int).map_values(|t: TabView| retitled_tab(t, chart_id@, tv)),
        decreases state.tabs.len() - i,
    {
        let t = &state.tabs[i];
        assert(ov[i as int] == t@);
        let nt = match &t.content {
            TabContent::Chart { chart, airport } => {
                if same_text(chart.id.as_str(), chart_id) {
                    let mut c = chart.duplicate();
                    c.custom_title = clone_opt_string(title);
                    Tab { id: t.id.clone(), content: TabContent::Chart { chart: c, airport: airport.clone() } }
                } else {
                    t.duplicate()
                }
            },
            _ => t.duplicate(),
        };
        assert(nt@ == retitled_tab(t@, chart_id@, tv));
        let ghost before = views(out@);
        out.push(nt);
        assert(views(out@) =~= before.push(nt@));
        assert(ov.take(i + 1).map_values(|t: TabView| retitled_tab(t, chart_id@, tv)) =~= ov.take(i as int).map_values(
            |t: TabView| retitled_tab(t, chart_id@, tv),
        ).push(retitled_tab(ov[i as int], chart_id@, tv)));
        i = i + 1;
    }
    assert(ov.take(i as int) =~= ov);
    state.tabs = out;
}

// ---------------------------------------------------------------- searching

/// Whether typing or asking for aerodrome `icao` starts a search: the code has at least four
/// bytes, and it is not the code last asked for while that search runs or once it is done.
pub fn should_start_search(icao: &str, last_requested: &str, loading: bool, last_completed: &str) -> (r: bool)
    ensures
        r == (icao.len() >= 4 && !(last_requested@ == icao@ && (loading || last_completed@ == icao@))),
{
    if icao.len() < 4 {
        return false;
    }
    !(same_text(last_requested, icao) && (loading || same_text(last_completed, icao)))
}

/// Marks a search as running: the results of the last one are cleared.
pub fn begin_search(state: &mut AppState)
    ensures
        final(state).loading,
        final(state).error is None,
        final(state).charts@.len() == 0,
        final(state).notices@.len() == 0,
        final(state).aip_doc is None,
        final(state).tabs == old(state).tabs,
        final(state).active_tab == old(state).active_tab,
        final(state).workspaces == old(state).workspaces,
        final(state).active_workspace_id == old(state).active_workspace_id,
        final(state).search_icao == old(state).search_icao,
{
    state.loading = true;
    state.error = None;
    state.charts = Vec::new();
    state.notices = Vec::new();
    state.aip_doc = None;
}

/// Records the results of a search: its charts, notices and document, and its first error.
pub fn finish_search(state: &mut AppState, charts: Vec<Chart>, notices: Vec<Notice>, aip_doc: Option<AipDocument>, errors: Vec<String>)
    ensures
        !final(state).loading,
        final(state).charts == charts,
        final(state).notices == notices,
        final(state).aip_doc == aip_doc,
        opt_string_view(final(state).error) == (if errors@.len() > 0 { Some(errors@[0]@) } else { None }),
        final(state).tabs == old(state).tabs,
        final(state).active_tab == old(state).active_tab,
        final(state).workspaces == old(state).workspaces,
        final(state).active_workspace_id == old(state).active_workspace_id,
        final(state).search_icao == old(state).search_icao,
{
    state.charts = charts;
    state.notices = notices;
    state.aip_doc = aip_doc;
    state.error = if errors.len() > 0 { Some(errors[0].clone()) } else { None };
    state.loading = false;
}

/// Whether the panel says that a search for `icao` (the code typed) found nothing: the search
/// is done without error, the code has four bytes and was the last one searched, and there is
/// no chart and no document.
pub fn no_results_shown(state: &AppState, icao: &str, last_completed: &str) -> (r: bool)
    ensures
        r == (!state.loading && state.error is None && icao.len() == 4 && state.charts@.len() == 0
            && state.aip_doc is None && last_completed@ == icao@),
{
    !state.loading && state.error.is_none() && icao.len() == 4 && state.charts.len() == 0
        && state.aip_doc.is_none() && same_text(last_completed, icao)
}

// ---------------------------------------------------------------- the active workspace

/// The active workspace's saved record, when a workspace is active and listed.
pub open spec fn active_workspace(state: AppState) -> Option<Workspace> {
    match state.active_workspace_id {
        Some(id) => {
            let k = workspace_index(state.workspaces@, id@);
            if k < state.workspaces@.len() { Some(state.workspaces@[k]) } else { None }
        },
        None => None,
    }
}

fn find_workspace_of(ws: &Vec<Workspace>, id: &str) -> (r: usize)
    ensures
        r as int == workspace_index(ws@, id@),
        r <= ws.len(),
{
    let mut i: usize = 0;
    while i < ws.len()
        invariant
            i <= ws.len(),
            forall|j: int| 0 <= j < i ==> ws@[j].id@ != id@,
        decreases ws.len() - i,
    {
        if same_text(ws[i].id.as_str(), id) {
            proof { lemma_workspace_index_at(ws@, id@, i as int); }
            return i;
        }
        i = i + 1;
    }
    proof { lemma_workspace_index_at(ws@, id@, i as int); }
    i
}

proof fn lemma_workspace_index_at(ws: Seq<Workspace>, id: Seq<char>, i: int)
    requires
        0 <= i <= ws.len(),
        forall|j: int| 0 <= j < i ==> ws[j].id@ != id,
        i == ws.len() || ws[i].id@ == id,
    ensures
        workspace_index(ws, id) == i,
    decreases i,
{
    if i > 0 {
        lemma_workspace_index_at(ws.drop_first(), id, i - 1);
    }
}

/// Position of the active workspace's record among the workspaces, if any.
pub fn active_workspace_position(state: &AppState) -> (r: Option<usize>)
    ensures
        match r {
            Some(k) => k < state.workspaces@.len() && active_workspace(*state) == Some(state.workspaces@[k as int]),
            None => active_workspace(*state) is None,
        },
{
    match &state.active_workspace_id {
        Some(id) => {
            let k = find_workspace_of(&state.workspaces, id.as_str());
            if k < state.workspaces.len() { Some(k) } else { None }
        },
        None => None,
    }
}

/// Whether the active workspace holds chart `chart_id` of aerodrome `airport`.
pub open spec fn workspace_holds_chart(state: AppState, chart_id: Seq<char>, airport: Seq<char>) -> bool {
    match active_workspace(state) {
        Some(w) => exists|i: int| 0 <= i < w.chart_refs@.len() && (#[trigger] w.chart_refs@[i]).chart.id@ == chart_id
            && w.chart_refs@[i].airport@ == airport,
        None => false,
    }
}

/// Whether the active workspace holds chart `chart_id` of aerodrome `airport`.
pub fn chart_in_workspace(state: &AppState, chart_id: &str, airport: &str) -> (r: bool)
    ensures
        r == workspace_holds_chart(*state, chart_id@, airport@),
{
    match active_workspace_position(state) {
        Some(k) => {
            let refs = &state.workspaces[k].chart_refs;
            let mut i: usize = 0;
            while i < refs.len()
                invariant
                    i <= refs.len(),
                    k < state.workspaces@.len(),
                    active_workspace(*state) == Some(state.workspaces@[k as int]),
                    refs@ == state.workspaces@[k as int].chart_refs@,
                    forall|j: int| 0 <= j < i ==> !((#[trigger] refs@[j]).chart.id@ == chart_id@ && refs@[j].airport@ == airport@),
                decreases refs.len() - i,
            {
                if same_text(refs[i].chart.id.as_str(), chart_id) && same_text(refs[i].airport.as_str(), airport) {
                    assert(refs@[i as int].chart.id@ == chart_id@);
                    return true;
                }
                i = i + 1;
            }
            false
        },
        None => false,
    }
}

/// Whether a workspace tab is the AIP document `doc_id`.
pub open spec fn is_document_tab(e: ExtraTab, doc_id: Seq<char>) -> bool {
    match e {
        ExtraTab::AipDoc { doc } => doc.id@ == doc_id,
        _ => false,
    }
}

/// Whether a workspace tab is the ATIS of aerodrome `icao`.
pub open spec fn is_atis_tab(e: ExtraTab, icao: Seq<char>) -> bool {
    match e {
        ExtraTab::Atis { icao: x } => x@ == icao,
        _ => false,
    }
}

/// Whether the active workspace keeps the AIP document `doc_id` among its other tabs.
pub open spec fn workspace_holds_document(state: AppState, doc_id: Seq<char>) -> bool {
    match active_workspace(state) {
        Some(w) => exists|i: int| 0 <= i < w.extra_tabs@.len() && is_document_tab(#[trigger] w.extra_tabs@[i], doc_id),
        None => false,
    }
}

/// Whether the active workspace keeps the ATIS of aerodrome `icao` among its other tabs.
pub open spec fn workspace_holds_atis(state: AppState, icao: Seq<char>) -> bool {
    match active_workspace(state) {
        Some(w) => exists|i: int| 0 <= i < w.extra_tabs@.len() && is_atis_tab(#[trigger] w.extra_tabs@[i], icao),
        None => false,
    }
}

/// Whether the active workspace keeps the AIP document `doc_id`.
pub fn document_in_workspace(state: &AppState, doc_id: &str) -> (r: bool)
    ensures
        r == workspace_holds_document(*state, doc_id@),
{
    match active_workspace_position(state) {
        Some(k) => {
            let extras = &state.workspaces[k].extra_tabs;
            let mut i: usize = 0;
            while i < extras.len()
                invariant
                    i <= extras.len(),
                    k < state.workspaces@.len(),
                    active_workspace(*state) == Some(state.workspaces@[k as int]),
                    extras@ == state.workspaces@[k as int].extra_tabs@,
                    forall|j: int| 0 <= j < i ==> !is_document_tab(#[trigger] extras@[j], doc_id@),
                decreases extras.len() - i,
            {
                match &extras[i] {
                    ExtraTab::AipDoc { doc } => {
                        if same_text(doc.id.as_str(), doc_id) {
                            assert(is_document_tab(extras@[i as int], doc_id@));
                            return true;
                        }
                    },
                    _ => {},
                }
                i = i + 1;
            }
            false
        },
        None => false,
    }
}

/// Whether the active workspace keeps the ATIS of aerodrome `icao`.
pub fn atis_in_workspace(state: &AppState, icao: &str) -> (r: bool)
    ensures
        r == workspace_holds_atis(*state, icao@),
{
    match active_workspace_position(state) {
        Some(k) => {
            let extras = &state.workspaces[k].extra_tabs;
            let mut i: usize = 0;
            while i < extras.len()
                invariant
                    i <= extras.len(),
                    k < state.workspaces@.len(),
                    active_workspace(*state) == Some(state.workspaces@[k as int]),
                    extras@ == state.workspaces@[k as int].extra_tabs@,
                    forall|j: int| 0 <= j < i ==> !is_atis_tab(#[trigger] extras@[j], icao@),
                decreases extras.len() - i,
            {
                match &extras[i] {
                    ExtraTab::Atis { icao: x } => {
                        if same_text(x.as_str(), icao) {
                            assert(is_atis_tab(extras@[i as int], icao@));
                            return true;
                        }
                    },
                    _ => {},
                }
                i = i + 1;
            }
            false
        },
        None => false,
    }
}

/// Width of the notes panel: the active workspace's, or 380 pixels.
pub open spec fn notes_width_of(state: AppState) -> i32 {
    match active_workspace(state) {
        Some(w) => match w.notes_panel_width {
            Some(x) => x,
            None => 380,
        },
        None => 380,
    }
}

/// Width of the notes panel.
pub fn notes_panel_width(state: &AppState) -> (r: i32)
    ensures
        r == notes_width_of(*state),
{
    match active_workspace_position(state) {
        Some(k) => match state.workspaces[k].notes_panel_width {
            Some(x) => x,
            None => 380,
        },
        None => 380,
    }
}

// ---------------------------------------------------------------- loading a workspace

fn copy_extras(v: &Vec<ExtraTab>) -> (r: Vec<ExtraTab>)
    ensures
        r@ == v@,
{
    let mut out: Vec<ExtraTab> = Vec::new();
    let mut i: usize = 0;
    while i < v.len()
        invariant
            i <= v.len(),
            out@ == v@.take(i as int),
        decreases v.len() - i,
    {
        out.push(v[i].duplicate());
        i = i + 1;
        assert(out@ =~= v@.take(i as int));
    }
    assert(v@.take(i as int) =~= v@);
    out
}

/// Unloads the active workspace: returns its chart tabs, the active one among them and its
/// other tabs, as they are to be saved, and leaves no workspace active, no zoom levels and the
/// notes panel unpinned.
pub fn unload_workspace(state: &mut AppState) -> (r: (Vec<String>, Option<usize>, Vec<ExtraTab>))
    ensures
        strings_view(r.0@) == chart_ids(views(old(state).tabs@)),
        r.1 == active_chart_index(views(old(state).tabs@), old(state).active_tab),
        match active_workspace(*old(state)) {
            Some(w) => r.2@ == w.extra_tabs@,
            None => r.2@.len() == 0,
        },
        final(state).active_workspace_id is None,
        final(state).chart_zoom@.len() == 0,
        !final(state).notes_pinned,
        final(state).tabs == old(state).tabs,
        final(state).active_tab == old(state).active_tab,
        final(state).workspaces == old(state).workspaces,
{
    let (ids, active) = chart_tab_state(state.tabs.as_slice(), state.active_tab);
    assert(ids@.map_values(|s: String| s@) == strings_view(ids@));
    let extras = match active_workspace_position(state) {
        Some(k) => copy_extras(&state.workspaces[k].extra_tabs),
        None => Vec::new(),
    };
    state.active_workspace_id = None;
    state.chart_zoom.clear();
    state.notes_pinned = false;
    (ids, active, extras)
}

/// Loads workspace `ws_id`: the workspaces are the freshly listed `fresh`, its zoom levels are
/// `zoom`, its notes panel pinned as `notes_pinned` says; its saved tab state (from `fresh`,
/// else the one given in `open_tabs` and `active_tab_index`) rebuilds the tabs from its charts
/// `chart_refs`; the rendered documents are dropped.
pub fn load_workspace(
    state: &mut AppState,
    ws_id: &str,
    fresh: Vec<Workspace>,
    zoom: HashMap<String, u32>,
    notes_pinned: Option<bool>,
    chart_refs: &[WorkspaceChart],
    open_tabs: &mut Vec<String>,
    active_tab_index: &mut Option<usize>,
)
    ensures
        opt_string_view(final(state).active_workspace_id) == Some(ws_id@),
        final(state).workspaces == fresh,
        final(state).chart_zoom == zoom,
        final(state).pdf_cache@.len() == 0,
        final(state).notes_pinned == (match notes_pinned { Some(b) => b, None => false }),
        ({
            let k = workspace_index(fresh@, ws_id@);
            &&& k < fresh@.len() ==> final(open_tabs)@ == fresh@[k].open_tabs@ && *final(active_tab_index) == fresh@[k].active_tab_index
            &&& k == fresh@.len() ==> final(open_tabs)@ == old(open_tabs)@ && *final(active_tab_index) == *old(active_tab_index)
            &&& views(final(state).tabs@) == restore_tabs(
                workspace_base_tabs(chart_views(old(state).charts@), chart_refs@, final(open_tabs)@),
                if k < fresh@.len() { fresh@[k].extra_tabs@ } else { Seq::empty() },
            )
            &&& final(state).active_tab == workspace_active(
                workspace_base_tabs(chart_views(old(state).charts@), chart_refs@, final(open_tabs)@).len() as int,
                final(open_tabs)@,
                *final(active_tab_index),
            )
        }),
{
    state.tabs = Vec::new();
    state.pdf_cache.clear();
    state.active_workspace_id = Some(string_of(&chars_of(ws_id)));
    let k = find_workspace_of(&fresh, ws_id);
    let extras = if k < fresh.len() {
        *open_tabs = crate::text::clone_strings(&fresh[k].open_tabs);
        *active_tab_index = fresh[k].active_tab_index;
        copy_extras(&fresh[k].extra_tabs)
    } else {
        Vec::new()
    };
    state.workspaces = fresh;
    state.chart_zoom = zoom;
    state.notes_pinned = match notes_pinned {
        Some(b) => b,
        None => false,
    };
    rebuild_workspace_tabs(state, chart_refs, open_tabs.as_slice(), *active_tab_index, extras.as_slice());
    assert(extras@ =~= (if k < state.workspaces@.len() { state.workspaces@[k as int].extra_tabs@ } else { Seq::empty() }));
}

// ---------------------------------------------------------------- results by category

/// Whether the categories are in strictly increasing listing order.
pub open spec fn categories_sorted(v: Seq<ChartCategory>) -> bool {
    forall|i: int, j: int| 0 <= i < j < v.len() ==> category_rank(#[trigger] v[i]) < category_rank(#[trigger] v[j])
}

/// The categories of the charts, once each, in listing order.
pub fn chart_categories(charts: &Vec<Chart>) -> (r: Vec<ChartCategory>)
    ensures
        categories_sorted(r@),
        forall|c: ChartCategory| r@.contains(c) <==> exists|i: int| 0 <= i < charts@.len() && (#[trigger] charts@[i]).category == c,
{
    let mut out: Vec<ChartCategory> = Vec::new();
    let mut i: usize = 0;
    while i < charts.len()
        invariant
            i <= charts.len(),
            categories_sorted(out@),
            forall|c: ChartCategory| out@.contains(c) <==> exists|j: int| 0 <= j < i && (#[trigger] charts@[j]).category == c,
        decreases charts.len() - i,
    {
        let c = charts[i].category;
        let r = c.sort_order();
        let mut k: usize = 0;
        while k < out.len() && out[k].sort_order() < r
            invariant
                k <= out.len(),
                r == category_rank(c),
                forall|j: int| 0 <= j < k ==> category_rank(out@[j]) < category_rank(c),
            decreases out.len() - k,
        {
            k = k + 1;
        }
        let ghost before = out@;
        if k == out.len() || out[k].sort_order() != r {
            out.insert(k, c);
            proof {
                assert forall|a: int, b: int| 0 <= a < b < out@.len() implies category_rank(#[trigger] out@[a]) < category_rank(#[trigger] out@[b]) by {
                    if a < k && b == k {
                    } else if a < k && b > k {
                        assert(out@[b] == before[b - 1]);
                    } else if a == k {
                        assert(out@[b] == before[b - 1]);
                        assert(category_rank(before[k as int]) > category_rank(c));
                    } else if a > k {
                        assert(out@[a] == before[a - 1] && out@[b] == before[b - 1]);
                    }
                }
            }
        } else {
            proof { crate::models::law_sort_order_is_injective(out@[k as int], c); }
        }
        proof {
            assert forall|x: ChartCategory| out@.contains(x) <==> exists|j: int| 0 <= j < i + 1 && (#[trigger] charts@[j]).category == x by {
                if out@.contains(x) {
                    let p = choose|p: int| 0 <= p < out@.len() && out@[p] == x;
                    if x != c {
                        if before.len() < out@.len() {
                            if p < k {
                                assert(before[p] == x);
                            } else {
                                assert(before[p - 1] == x);
                            }
                        } else {
                            assert(before[p] == x);
                        }
                        assert(before.contains(x));
                    } else {
                        assert(charts@[i as int].category == x);
                    }
                }
                if exists|j: int| 0 <= j < i + 1 && (#[trigger] charts@[j]).category == x {
                    let j = choose|j: int| 0 <= j < i + 1 && (#[trigger] charts@[j]).category == x;
                    if j < i {
                        assert(before.contains(x));
                        let p = choose|p: int| 0 <= p < before.len() && before[p] == x;
                        if before.len() < out@.len() {
                            if p < k {
                                assert(out@[p] == x);
                            } else {
                                assert(out@[p + 1] == x);
                            }
                        } else {
                            assert(out@[p] == x);
                        }
                    } else {
                        assert(out@[k as int] == x);
                    }
                }
            }
        }
        i = i + 1;
    }
    out
}

/// The charts of category `cat`, in order.
pub fn charts_of_category(charts: &Vec<Chart>, cat: ChartCategory) -> (r: Vec<Chart>)
    ensures
        chart_views(r@) == chart_views(charts@).filter(|c: ChartView| c.category == cat),
{
    let ghost cv = chart_views(charts@);
    let ghost pred = |c: ChartView| c.category == cat;
    let mut out: Vec<Chart> = Vec::new();
    let mut i: usize = 0;
    assert(cv.take(0).filter(pred) =~= Seq::<ChartView>::empty()) by {
        reveal(Seq::filter);
    }
    while i < charts.len()
        invariant
            i <= charts.len(),
            cv == chart_views(charts@),
            pred == (|c: ChartView| c.category == cat),
            chart_views(out@) == cv.take(i as int).filter(pred),
        decreases charts.len() - i,
    {
        let ghost before = chart_views(out@);
        assert(cv.take(i + 1).drop_last() =~= cv.take(i as int));
        assert(cv.take(i + 1).filter(pred) == if pred(cv[i as int]) {
            cv.take(i as int).filter(pred).push(cv[i as int])
        } else {
            cv.take(i as int).filter(pred)
        }) by {
            reveal(Seq::filter);
            assert(cv.take(i + 1).last() == cv[i as int]);
        }
        if charts[i].category == cat {
            let c = charts[i].duplicate();
            out.push(c);
            assert(chart_views(out@) =~= before.push(c@));
        }
        i = i + 1;
    }
    assert(cv.take(i as int) =~= cv);
    out
}

// ---------------------------------------------------------------- settings

/// Chooses a theme mode in the settings: the preference and the state take it, and the state's
/// night mode follows it.
pub fn choose_theme_mode(state: &mut AppState, setting: &mut ThemeModeSetting, mode: ThemeMode)
    ensures
        *final(setting) == theme_after_set(*old(setting), mode),
        final(state).theme_mode == mode,
        night_mode_possible(mode, final(state).night_mode),
        mode == ThemeMode::Light ==> !final(state).night_mode,
        mode == ThemeMode::Dark ==> final(state).night_mode,
        final(state).tabs == old(state).tabs,
        final(state).workspaces == old(state).workspaces,
        final(state).language == old(state).language,
{
    set_theme_mode(setting, mode);
    state.theme_mode = mode;
    state.night_mode = resolve_night_mode(mode);
}

/// Chooses the interface language in the settings: the preference and the state take it.
pub fn choose_language(state: &mut AppState, setting: &mut LanguageSetting, lang: AppLanguage)
    ensures
        *final(setting) == language_after_set(*old(setting), lang),
        final(state).language == lang,
        final(state).tabs == old(state).tabs,
        final(state).workspaces == old(state).workspaces,
        final(state).theme_mode == old(state).theme_mode,
        final(state).night_mode == old(state).night_mode,
{
    set_language(setting, lang);
    state.language = lang;
}

// ---------------------------------------------------------------- the sidebar

/// The sidebar mode and whether the navigator is open once the sidebar icon of `target` is
/// clicked: the icon of the mode shown opens or closes the navigator; another icon shows its
/// mode in an open navigator.
pub open spec fn sidebar_after(mode: SidebarMode, nav_open: bool, target: SidebarMode) -> (SidebarMode, bool) {
    if mode == target { (mode, !nav_open) } else { (target, true) }
}

/// Clicks the sidebar icon of `target`.
pub fn choose_sidebar_mode(state: &mut AppState, target: SidebarMode)
    ensures
        (final(state).sidebar_mode, final(state).nav_open) == sidebar_after(old(state).sidebar_mode, old(state).nav_open, target),
        final(state).tabs == old(state).tabs,
        final(state).active_tab == old(state).active_tab,
        final(state).workspaces == old(state).workspaces,
        final(state).active_workspace_id == old(state).active_workspace_id,
{
    if state.sidebar_mode == target {
        state.nav_open = !state.nav_open;
    } else {
        state.sidebar_mode = target;
        state.nav_open = true;
    }
}

/// Clicking the same sidebar icon twice: where that icon's mode was shown, the sidebar ends as
/// it was; otherwise the first click shows the mode in an open navigator and the second
/// closes the navigator.
pub proof fn law_sidebar_icon_twice(mode: SidebarMode, nav_open: bool, target: SidebarMode)
    ensures
        ({
            let once = sidebar_after(mode, nav_open, target);
            let twice = sidebar_after(once.0, once.1, target);
            &&& mode == target ==> twice == (mode, nav_open)
            &&& mode != target ==> twice == (target, false) && once == (target, true)
        }),
{
}

} // verus!
