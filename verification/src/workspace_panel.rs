//! What the workspaces panel shows of a saved workspace, and what its buttons do to the state:
//! charts grouped by airport, the labels of its ATIS and document tabs, the charts to warm up
//! when it is loaded, and forgetting a deleted workspace.
use vstd::prelude::*;
use crate::models::{Chart, ChartView, ExtraTab, Workspace, WorkspaceChart};
use crate::order::{sorted_distinct, sorted_unique, strictly_sorted};
use crate::state::AppState;
use crate::tabs::{chart_views, hydrate, hydrated_workspace_chart};
use crate::text::{chars_of, opt_string_view, push_str, same_text, string_of, strings_view, vec_views};
use crate::workspace_edit::{copy_ref, refs_view};

verus! {

broadcast use vstd::string::group_string_axioms;

/// The airports of the workspace charts, in order, with repetitions.
pub open spec fn airports_of(rv: Seq<(Seq<char>, ChartView)>) -> Seq<Seq<char>> {
    rv.map_values(|r: (Seq<char>, ChartView)| r.0)
}

/// The workspace charts under airport `a`, in order.
pub open spec fn airport_group(rv: Seq<(Seq<char>, ChartView)>, a: Seq<char>) -> Seq<(Seq<char>, ChartView)> {
    rv.filter(|r: (Seq<char>, ChartView)| r.0 == a)
}

/// The workspace charts grouped by airport: one group per airport, airports in increasing
/// order, each group's charts in their order.
pub open spec fn airport_groups_of(rv: Seq<(Seq<char>, ChartView)>) -> Seq<(Seq<char>, Seq<(Seq<char>, ChartView)>)> {
    sorted_distinct(airports_of(rv)).map_values(|a: Seq<char>| (a, airport_group(rv, a)))
}

/// Groups of workspace charts, as values.
pub open spec fn groups_view(g: Seq<(String, Vec<WorkspaceChart>)>) -> Seq<(Seq<char>, Seq<(Seq<char>, ChartView)>)> {
    g.map_values(|x: (String, Vec<WorkspaceChart>)| (x.0@, refs_view(x.1@)))
}

/// The workspace charts under airport `airport`, in order.
pub fn charts_under(refs: &Vec<WorkspaceChart>, airport: &str) -> (r: Vec<WorkspaceChart>)
    ensures
        refs_view(r@) == airport_group(refs_view(refs@), airport@),
{
    let ghost rv = refs_view(refs@);
    let ghost pred = |r: (Seq<char>, ChartView)| r.0 == airport@;
    let mut out: Vec<WorkspaceChart> = Vec::new();
    let mut i: usize = 0;
    assert(rv.take(0).filter(pred) =~= Seq::<(Seq<char>, ChartView)>::empty()) by {
        reveal(Seq::filter);
    }
    while i < refs.len()
        invariant
            i <= refs.len(),
            rv == refs_view(refs@),
            pred == (|r: (Seq<char>, ChartView)| r.0 == airport@),
            refs_view(out@) == rv.take(i as int).filter(pred),
        decreases refs.len() - i,
    {
        let ghost before = refs_view(out@);
        assert(rv.take(i + 1).drop_last() =~= rv.take(i as int));
        assert(rv.take(i + 1).filter(pred) == if pred(rv[i as int]) {
            rv.take(i as int).filter(pred).push(rv[i as int])
        } else {
            rv.take(i as int).filter(pred)
        }) by {
            reveal(Seq::filter);
            assert(rv.take(i + 1).last() == rv[i as int]);
        }
        if same_text(refs[i].airport.as_str(), airport) {
            let c = copy_ref(&refs[i]);
            out.push(c);
            assert(refs_view(out@) =~= before.push(rv[i as int]));
        }
        i = i + 1;
    }
    assert(rv.take(i as int) =~= rv);
    out
}

/// The workspace charts grouped by airport, airports in increasing order (the order of
/// `String`), each group's charts in their order.
pub fn airport_groups(refs: &Vec<WorkspaceChart>) -> (r: Vec<(String, Vec<WorkspaceChart>)>)
    ensures
        groups_view(r@) == airport_groups_of(refs_view(refs@)),
        strictly_sorted(groups_view(r@).map_values(|g: (Seq<char>, Seq<(Seq<char>, ChartView)>)| g.0)),
{
    let ghost rv = refs_view(refs@);
    let mut names: Vec<Vec<char>> = Vec::new();
    let mut i: usize = 0;
    while i < refs.len()
        invariant
            i <= refs.len(),
            rv == refs_view(refs@),
            vec_views(names@) == airports_of(rv).take(i as int),
        decreases refs.len() - i,
    {
        let ghost before = vec_views(names@);
        names.push(chars_of(refs[i].airport.as_str()));
        assert(vec_views(names@) =~= before.push(rv[i as int].0));
        assert(airports_of(rv).take(i + 1) =~= airports_of(rv).take(i as int).push(rv[i as int].0));
        i = i + 1;
    }
    assert(airports_of(rv).take(i as int) =~= airports_of(rv));
    let keys = sorted_unique(&names);
    let ghost kv = strings_view(keys@);
    let mut out: Vec<(String, Vec<WorkspaceChart>)> = Vec::new();
    let mut k: usize = 0;
    while k < keys.len()
        invariant
            k <= keys.len(),
            rv == refs_view(refs@),
            kv == strings_view(keys@),
            kv == sorted_distinct(airports_of(rv)),
            groups_view(out@) == kv.take(k as int).map_values(|a: Seq<char>| (a, airport_group(rv, a))),
        decreases keys.len() - k,
    {
        let ghost before = groups_view(out@);
        let group = charts_under(refs, keys[k].as_str());
        let g = (keys[k].clone(), group);
        out.push(g);
        assert(groups_view(out@) =~= before.push((kv[k as int], airport_group(rv, kv[k as int]))));
        assert(kv.take(k + 1).map_values(|a: Seq<char>| (a, airport_group(rv, a))) =~= kv.take(k as int).map_values(
            |a: Seq<char>| (a, airport_group(rv, a)),
        ).push((kv[k as int], airport_group(rv, kv[k as int]))));
        k = k + 1;
    }
    assert(kv.take(k as int) =~= kv);
    assert(groups_view(out@).map_values(|g: (Seq<char>, Seq<(Seq<char>, ChartView)>)| g.0) =~= kv);
    out
}

/// The label, badge and badge style of an ATIS or document tab in the panel.
pub open spec fn extra_tab_label_of(t: ExtraTab) -> (Seq<char>, Seq<char>, Seq<char>) {
    match t {
        ExtraTab::Atis { icao } => ("ATIS / MET — "@ + icao@, "ATIS"@, "badge badge-atis"@),
        ExtraTab::AipDoc { doc } => (crate::models::aip_doc_title(doc.icao@, doc.source), "DOC"@, "badge"@),
    }
}

/// The label, badge and badge style of an ATIS or document tab in the panel.
pub fn extra_tab_label(t: &ExtraTab) -> (r: (String, &'static str, &'static str))
    ensures
        (r.0@, r.1@, r.2@) == extra_tab_label_of(*t),
{
    match t {
        ExtraTab::Atis { icao } => {
            let mut v: Vec<char> = Vec::new();
            push_str(&mut v, "ATIS / MET — ");
            push_str(&mut v, icao.as_str());
            (string_of(&v), "ATIS", "badge badge-atis")
        },
        ExtraTab::AipDoc { doc } => (doc.title(), "DOC", "badge"),
    }
}

/// The charts whose documents are warmed up when a workspace is loaded: each saved chart
/// brought up to date with the charts of the last search.
pub fn charts_to_preload(state: &AppState, refs: &Vec<WorkspaceChart>) -> (r: Vec<Chart>)
    ensures
        chart_views(r@) == refs@.map_values(|wc: WorkspaceChart| hydrate(chart_views(state.charts@), wc.chart@)),
{
    let ghost target = refs@.map_values(|wc: WorkspaceChart| hydrate(chart_views(state.charts@), wc.chart@));
    let mut out: Vec<Chart> = Vec::new();
    let mut i: usize = 0;
    while i < refs.len()
        invariant
            i <= refs.len(),
            target == refs@.map_values(|wc: WorkspaceChart| hydrate(chart_views(state.charts@), wc.chart@)),
            chart_views(out@) == target.take(i as int),
        decreases refs.len() - i,
    {
        let ghost before = chart_views(out@);
        let c = hydrated_workspace_chart(state, &refs[i]);
        out.push(c);
        assert(chart_views(out@) =~= before.push(target[i as int]));
        assert(target.take(i + 1) =~= target.take(i as int).push(target[i as int]));
        i = i + 1;
    }
    assert(target.take(i as int) =~= target);
    out
}

/// Forgets a deleted workspace: the workspaces are the freshly listed `fresh`, and it is no
/// longer active.
pub fn forget_deleted_workspace(state: &mut AppState, ws_id: &str, fresh: Vec<Workspace>)
    ensures
        final(state).workspaces == fresh,
        opt_string_view(final(state).active_workspace_id) == (if opt_string_view(old(state).active_workspace_id) == Some(ws_id@) {
            None
        } else {
            opt_string_view(old(state).active_workspace_id)
        }),
        final(state).tabs == old(state).tabs,
        final(state).active_tab == old(state).active_tab,
{
    state.workspaces = fresh;
    let was_active = match &state.active_workspace_id {
        Some(id) => same_text(id.as_str(), ws_id),
        None => false,
    };
    if was_active {
        state.active_workspace_id = None;
    }
}

/// The aerodrome code as typed in the search box (upper case), and whether typing it starts a
/// search: it has four bytes.
pub fn typed_search_code(value: &str) -> (r: (String, bool))
    ensures
        r.0@ == crate::text::uppercase(value@),
        r.1 == (vstd::utf8::encode_utf8(r.0@).len() as usize == 4),
{
    let code = crate::text::to_uppercase_of(value);
    let full = code.as_str().len() == 4;
    (code, full)
}

/// The aerodrome a chart of the panel belongs to: the one given, or, when none is, the code
/// searched.
pub fn chart_item_airport(airport: &str, search_icao: &str) -> (r: String)
    ensures
        r@ == (if airport@.len() == 0 { search_icao@ } else { airport@ }),
{
    if airport.is_empty() { string_of(&chars_of(search_icao)) } else { string_of(&chars_of(airport)) }
}

/// A new, empty workspace named `name`, with id `id`, made at `now`; `None` for an empty name.
pub fn new_workspace(id: String, name: String, now: String) -> (r: Option<Workspace>)
    ensures
        r is None <==> name@.len() == 0,
        r matches Some(w) ==> {
            &&& w.id@ == id@ && w.name@ == name@
            &&& w.airports@.len() == 0 && w.chart_refs@.len() == 0 && w.open_tabs@.len() == 0
            &&& w.active_tab_index is None && w.extra_tabs@.len() == 0 && w.notes is None
            &&& w.notes_pinned == Some(false) && w.notes_panel_width == Some(380i32)
            &&& w.created_at@ == now@ && w.updated_at@ == now@
        },
{
    if name.as_str().is_empty() {
        return None;
    }
    let updated = now.clone();
    Some(Workspace {
        id,
        name,
        airports: Vec::new(),
        chart_refs: Vec::new(),
        open_tabs: Vec::new(),
        active_tab_index: None,
        extra_tabs: Vec::new(),
        notes: None,
        notes_pinned: Some(false),
        notes_panel_width: Some(380),
        created_at: now,
        updated_at: updated,
    })
}

} // verus!
