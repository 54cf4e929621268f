//! Editing the saved contents of a workspace: its charts, the airports it covers, the custom
//! titles of its charts and its ATIS and document tabs. Each edit computes the new contents from
//! the saved ones; storing them is the caller's.
use vstd::prelude::*;
use crate::models::{Chart, ChartView, ExtraTab, Workspace, WorkspaceChart};
use crate::text::{
    chars_of, contains_string, same_text, string_of, strings_view, to_uppercase_of, trim_ws,
    trim_ws_of, uppercase,
};

verus! {

broadcast use vstd::string::group_string_axioms;

/// A workspace chart, as values: its airport and its chart.
pub open spec fn ref_view(wc: WorkspaceChart) -> (Seq<char>, ChartView) {
    (wc.airport@, wc.chart@)
}

/// Workspace charts, as values.
pub open spec fn refs_view(refs: Seq<WorkspaceChart>) -> Seq<(Seq<char>, ChartView)> {
    refs.map_values(|wc: WorkspaceChart| ref_view(wc))
}

/// Whether a workspace chart is chart `chart_id` under `airport`.
pub open spec fn is_chart_at(r: (Seq<char>, ChartView), airport: Seq<char>, chart_id: Seq<char>) -> bool {
    r.0 == airport && r.1.id == chart_id
}

/// Whether the workspace holds chart `chart_id` under `airport`.
pub open spec fn holds_chart(refs: Seq<(Seq<char>, ChartView)>, airport: Seq<char>, chart_id: Seq<char>) -> bool {
    exists|i: int| 0 <= i < refs.len() && is_chart_at(#[trigger] refs[i], airport, chart_id)
}

/// The workspace charts once chart `chart_id` under `airport` is taken out.
pub open spec fn charts_without(
    refs: Seq<(Seq<char>, ChartView)>,
    airport: Seq<char>,
    chart_id: Seq<char>,
) -> Seq<(Seq<char>, ChartView)> {
    refs.filter(|r: (Seq<char>, ChartView)| !is_chart_at(r, airport, chart_id))
}

/// Whether some workspace chart is under `airport`.
pub open spec fn holds_airport(refs: Seq<(Seq<char>, ChartView)>, airport: Seq<char>) -> bool {
    exists|i: int| 0 <= i < refs.len() && (#[trigger] refs[i]).0 == airport
}

/// A copy of a workspace chart.
pub fn copy_ref(wc: &WorkspaceChart) -> (r: WorkspaceChart)
    ensures
        ref_view(r) == ref_view(*wc),
{
    WorkspaceChart { airport: wc.airport.clone(), chart: wc.chart.duplicate() }
}

/// Whether the workspace holds chart `chart_id` under `airport`.
pub fn has_chart(refs: &Vec<WorkspaceChart>, airport: &str, chart_id: &str) -> (r: bool)
    ensures
        r == holds_chart(refs_view(refs@), airport@, chart_id@),
{
    let ghost rv = refs_view(refs@);
    let mut i: usize = 0;
    while i < refs.len()
        invariant
            i <= refs.len(),
            rv == refs_view(refs@),
            forall|j: int| 0 <= j < i ==> !is_chart_at(#[trigger] rv[j], airport@, chart_id@),
        decreases refs.len() - i,
    {
        if same_text(refs[i].airport.as_str(), airport) && same_text(refs[i].chart.id.as_str(), chart_id) {
            assert(is_chart_at(rv[i as int], airport@, chart_id@));
            return true;
        }
        i = i + 1;
    }
    false
}

/// The workspace charts once `chart` is added under `airport`, at the end; `None` when the
/// workspace already holds it under that airport, and nothing is to change.
pub fn with_chart_added(refs: &Vec<WorkspaceChart>, airport: &str, chart: &Chart) -> (r: Option<Vec<WorkspaceChart>>)
    ensures
        r is None <==> holds_chart(refs_view(refs@), airport@, chart@.id),
        r matches Some(v) ==> refs_view(v@) == refs_view(refs@).push((airport@, chart@)),
{
    if has_chart(refs, airport, chart.id.as_str()) {
        return None;
    }
    let mut out: Vec<WorkspaceChart> = Vec::new();
    let mut i: usize = 0;
    while i < refs.len()
        invariant
            i <= refs.len(),
            refs_view(out@) == refs_view(refs@).take(i as int),
        decreases refs.len() - i,
    {
        let ghost before = refs_view(out@);
        let c = copy_ref(&refs[i]);
        out.push(c);
        assert(refs_view(out@) =~= before.push(ref_view(refs@[i as int])));
        assert(refs_view(refs@).take(i + 1) =~= refs_view(refs@).take(i as int).push(ref_view(refs@[i as int])));
        i = i + 1;
    }
    let added = WorkspaceChart { airport: string_of(&chars_of(airport)), chart: chart.duplicate() };
    let ghost before = refs_view(out@);
    out.push(added);
    assert(refs_view(out@) =~= before.push((airport@, chart@)));
    assert(refs_view(refs@).take(refs@.len() as int) =~= refs_view(refs@));
    Some(out)
}

/// The workspace charts once chart `chart_id` under `airport` is taken out, in order.
pub fn without_chart(refs: &Vec<WorkspaceChart>, airport: &str, chart_id: &str) -> (r: Vec<WorkspaceChart>)
    ensures
        refs_view(r@) == charts_without(refs_view(refs@), airport@, chart_id@),
{
    let ghost rv = refs_view(refs@);
    let ghost pred = |r: (Seq<char>, ChartView)| !is_chart_at(r, airport@, chart_id@);
    let mut out: Vec<WorkspaceChart> = Vec::new();
    let mut i: usize = 0;
    assert(rv.take(0).filter(pred) =~= Seq::<(Seq<char>, ChartView)>::empty()) by {
        reveal(Seq::filter);
    }
    while i < refs.len()
        invariant
            i <= refs.len(),
            rv == refs_view(refs@),
            pred == (|r: (Seq<char>, ChartView)| !is_chart_at(r, airport@, chart_id@)),
            refs_view(out@) == rv.take(i as int).filter(pred),
        decreases refs.len() - i,
    {
        let ghost before = refs_view(out@);
        assert(rv.take(i + 1).drop_last() =~= rv.take(i as int));
        assert(rv.take(i + 1).filter(pred) == if pred(rv[i as int]) {
            rv.take(i as int).filter(pred).push(rv[i as int])
        } else {
            rv.take(i as int).filter(pred)
        }) by {
            reveal(Seq::filter);
            assert(rv.take(i + 1).last() == rv[i as int]);
        }
        let hit = same_text(refs[i].airport.as_str(), airport) && same_text(refs[i].chart.id.as_str(), chart_id);
        if !hit {
            let c = copy_ref(&refs[i]);
            out.push(c);
            assert(refs_view(out@) =~= before.push(rv[i as int]));
        }
        i = i + 1;
    }
    assert(rv.take(i as int) =~= rv);
    out
}

/// Whether some workspace chart is under `airport`.
pub fn has_airport(refs: &Vec<WorkspaceChart>, airport: &str) -> (r: bool)
    ensures
        r == holds_airport(refs_view(refs@), airport@),
{
    let ghost rv = refs_view(refs@);
    let mut i: usize = 0;
    while i < refs.len()
        invariant
            i <= refs.len(),
            rv == refs_view(refs@),
            forall|j: int| 0 <= j < i ==> (#[trigger] rv[j]).0 != airport@,
        decreases refs.len() - i,
    {
        if same_text(refs[i].airport.as_str(), airport) {
            assert(rv[i as int].0 == airport@);
            return true;
        }
        i = i + 1;
    }
    false
}

/// The airports of a workspace once a chart is added under `airport`: its upper-case form is
/// appended; `None` when the list already holds it, and the list is to stay.
pub fn airports_with(airports: &Vec<String>, airport: &str) -> (r: Option<Vec<String>>)
    ensures
        r is None <==> strings_view(airports@).contains(uppercase(airport@)),
        r matches Some(v) ==> strings_view(v@) == strings_view(airports@).push(uppercase(airport@)),
{
    let up = to_uppercase_of(airport);
    if contains_string(airports, up.as_str()) {
        return None;
    }
    let mut out: Vec<String> = crate::text::clone_strings(airports);
    let ghost before = strings_view(out@);
    out.push(up);
    assert(strings_view(out@) =~= before.push(uppercase(airport@)));
    Some(out)
}

/// The airports with every entry `airport` taken out, in order.
pub open spec fn airports_without(airports: Seq<Seq<char>>, airport: Seq<char>) -> Seq<Seq<char>> {
    airports.filter(|a: Seq<char>| a != airport)
}

/// The airports of a workspace once a chart under `airport` is taken out, given the charts
/// that remain: `airport` leaves the list when no chart remains under it; `None` when one does,
/// and the list is to stay.
pub fn airports_after_removal(remaining: &Vec<WorkspaceChart>, airports: &Vec<String>, airport: &str) -> (r: Option<Vec<String>>)
    ensures
        r is None <==> holds_airport(refs_view(remaining@), airport@),
        r matches Some(v) ==> strings_view(v@) == airports_without(strings_view(airports@), airport@),
{
    if has_airport(remaining, airport) {
        return None;
    }
    let ghost av = strings_view(airports@);
    let ghost pred = |a: Seq<char>| a != airport@;
    let mut out: Vec<String> = Vec::new();
    let mut i: usize = 0;
    assert(av.take(0).filter(pred) =~= Seq::<Seq<char>>::empty()) by {
        reveal(Seq::filter);
    }
    while i < airports.len()
        invariant
            i <= airports.len(),
            av == strings_view(airports@),
            pred == (|a: Seq<char>| a != airport@),
            strings_view(out@) == av.take(i as int).filter(pred),
        decreases airports.len() - i,
    {
        let ghost before = strings_view(out@);
        assert(av.take(i + 1).drop_last() =~= av.take(i as int));
        assert(av.take(i + 1).filter(pred) == if pred(av[i as int]) {
            av.take(i as int).filter(pred).push(av[i as int])
        } else {
            av.take(i as int).filter(pred)
        }) by {
            reveal(Seq::filter);
            assert(av.take(i + 1).last() == av[i as int]);
        }
        if !same_text(airports[i].as_str(), airport) {
            out.push(airports[i].clone());
            assert(strings_view(out@) =~= before.push(av[i as int]));
        }
        i = i + 1;
    }
    assert(av.take(i as int) =~= av);
    Some(out)
}

/// The custom title a stored chart gets: the title given, unless it is blank.
pub open spec fn stored_title(title: Option<Seq<char>>) -> Option<Seq<char>> {
    match title {
        Some(t) => if trim_ws(t).len() == 0 { None } else { Some(t) },
        None => None,
    }
}

/// A workspace chart once every chart with id `chart_id` gets custom title `title`.
pub open spec fn retitled_ref(r: (Seq<char>, ChartView), chart_id: Seq<char>, title: Option<Seq<char>>) -> (Seq<char>, ChartView) {
    if r.1.id == chart_id { (r.0, ChartView { custom_title: title, ..r.1 }) } else { r }
}

/// Whether some workspace chart has id `chart_id`.
pub open spec fn holds_chart_id(refs: Seq<(Seq<char>, ChartView)>, chart_id: Seq<char>) -> bool {
    exists|i: int| 0 <= i < refs.len() && (#[trigger] refs[i]).1.id == chart_id
}

/// The workspace charts once chart `chart_id`, under any airport, gets the custom title
/// `title` (none when blank); `None` when no chart has that id, and nothing is to change.
pub fn with_chart_title(refs: &Vec<WorkspaceChart>, chart_id: &str, title: &Option<String>) -> (r: Option<Vec<WorkspaceChart>>)
    ensures
        r is None <==> !holds_chart_id(refs_view(refs@), chart_id@),
        r matches Some(v) ==> refs_view(v@) == refs_view(refs@).map_values(
            |x: (Seq<char>, ChartView)| retitled_ref(x, chart_id@, stored_title(crate::text::opt_string_view(*title))),
        ),
{
    let ghost rv = refs_view(refs@);
    let ghost t = stored_title(crate::text::opt_string_view(*title));
    let new_title: Option<String> = match title {
        Some(s) => if trim_ws_of(&chars_of(s.as_str())).len() == 0 { None } else { Some(s.clone()) },
        None => None,
    };
    assert(crate::text::opt_string_view(new_title) == t);
    let mut out: Vec<WorkspaceChart> = Vec::new();
    let mut found = false;
    let mut i: usize = 0;
    while i < refs.len()
        invariant
            i <= refs.len(),
            rv == refs_view(refs@),
            crate::text::opt_string_view(new_title) == t,
            refs_view(out@) == rv.take(i as int).map_values(|x: (Seq<char>, ChartView)| retitled_ref(x, chart_id@, t)),
            found <==> exists|j: int| 0 <= j < i && (#[trigger] rv[j]).1.id == chart_id@,
        decreases refs.len() - i,
    {
        let ghost before = refs_view(out@);
        let mut c = copy_ref(&refs[i]);
        if same_text(c.chart.id.as_str(), chart_id) {
            c.chart.custom_title = crate::text::clone_opt_string(&new_title);
            found = true;
        }
        out.push(c);
        assert(refs_view(out@) =~= before.push(retitled_ref(rv[i as int], chart_id@, t)));
        assert(rv.take(i + 1).map_values(|x: (Seq<char>, ChartView)| retitled_ref(x, chart_id@, t))
            =~= rv.take(i as int).map_values(|x: (Seq<char>, ChartView)| retitled_ref(x, chart_id@, t)).push(
            retitled_ref(rv[i as int], chart_id@, t),
        ));
        i = i + 1;
    }
    assert(rv.take(i as int) =~= rv);
    if found { Some(out) } else { None }
}

// ---------------------------------------------------------------- ATIS and document tabs

/// Whether two tabs stand for the same thing: the ATIS of one aerodrome, or one document.
pub open spec fn same_extra_tab(a: ExtraTab, b: ExtraTab) -> bool {
    match (a, b) {
        (ExtraTab::Atis { icao: x }, ExtraTab::Atis { icao: y }) => x@ == y@,
        (ExtraTab::AipDoc { doc: x }, ExtraTab::AipDoc { doc: y }) => x.id@ == y.id@,
        _ => false,
    }
}

/// Whether the tabs hold one that stands for the same thing as `tab`.
pub open spec fn holds_extra_tab(tabs: Seq<ExtraTab>, tab: ExtraTab) -> bool {
    exists|i: int| 0 <= i < tabs.len() && same_extra_tab(#[trigger] tabs[i], tab)
}

/// Whether two tabs stand for the same thing.
pub fn same_extra_tab_of(a: &ExtraTab, b: &ExtraTab) -> (r: bool)
    ensures
        r == same_extra_tab(*a, *b),
{
    match (a, b) {
        (ExtraTab::Atis { icao: x }, ExtraTab::Atis { icao: y }) => same_text(x.as_str(), y.as_str()),
        (ExtraTab::AipDoc { doc: x }, ExtraTab::AipDoc { doc: y }) => same_text(x.id.as_str(), y.id.as_str()),
        _ => false,
    }
}

/// The ATIS and document tabs of a workspace once `tab` is added at the end; `None` when one
/// standing for the same thing is there already, and nothing is to change.
pub fn with_extra_tab(tabs: &Vec<ExtraTab>, tab: &ExtraTab) -> (r: Option<Vec<ExtraTab>>)
    ensures
        r is None <==> holds_extra_tab(tabs@, *tab),
        r matches Some(v) ==> v@ == tabs@.push(*tab),
{
    let mut out: Vec<ExtraTab> = Vec::new();
    let mut i: usize = 0;
    while i < tabs.len()
        invariant
            i <= tabs.len(),
            out@ == tabs@.take(i as int),
            forall|j: int| 0 <= j < i ==> !same_extra_tab(#[trigger] tabs@[j], *tab),
        decreases tabs.len() - i,
    {
        if same_extra_tab_of(&tabs[i], tab) {
            return None;
        }
        out.push(tabs[i].duplicate());
        i = i + 1;
        assert(out@ =~= tabs@.take(i as int));
    }
    out.push(tab.duplicate());
    assert(out@ =~= tabs@.push(*tab));
    Some(out)
}

/// The ATIS and document tabs once every tab standing for the same thing as `tab` is taken
/// out, in order.
pub fn without_extra_tab(tabs: &Vec<ExtraTab>, tab: &ExtraTab) -> (r: Vec<ExtraTab>)
    ensures
        r@ == tabs@.filter(|t: ExtraTab| !same_extra_tab(t, *tab)),
{
    let ghost pred = |t: ExtraTab| !same_extra_tab(t, *tab);
    let mut out: Vec<ExtraTab> = Vec::new();
    let mut i: usize = 0;
    assert(tabs@.take(0).filter(pred) =~= Seq::<ExtraTab>::empty()) by {
        reveal(Seq::filter);
    }
    while i < tabs.len()
        invariant
            i <= tabs.len(),
            pred == (|t: ExtraTab| !same_extra_tab(t, *tab)),
            out@ == tabs@.take(i as int).filter(pred),
        decreases tabs.len() - i,
    {
        assert(tabs@.take(i + 1).drop_last() =~= tabs@.take(i as int));
        assert(tabs@.take(i + 1).filter(pred) == if pred(tabs@[i as int]) {
            tabs@.take(i as int).filter(pred).push(tabs@[i as int])
        } else {
            tabs@.take(i as int).filter(pred)
        }) by {
            reveal(Seq::filter);
            assert(tabs@.take(i + 1).last() == tabs@[i as int]);
        }
        if !same_extra_tab_of(&tabs[i], tab) {
            out.push(tabs[i].duplicate());
        }
        i = i + 1;
    }
    assert(tabs@.take(i as int) =~= tabs@);
    out
}

// ---------------------------------------------------------------- stored rows

/// The columns of a stored workspace row, once its lists are read.
pub struct WorkspaceRow {
    pub id: String,
    pub name: String,
    pub airports: Vec<String>,
    pub notes: Option<String>,
    pub notes_pinned: Option<i64>,
    pub notes_panel_width: Option<i64>,
    pub open_tabs: Vec<String>,
    pub active_tab: Option<i64>,
    pub created_at: String,
    pub updated_at: String,
    pub extra_tabs: Vec<ExtraTab>,
}

/// The workspace a stored row and its charts make: a stored pinned flag is set when it is not
/// zero, and the stored width and active tab are taken as `i32` and `usize`.
pub fn workspace_from_row(row: WorkspaceRow, chart_refs: Vec<WorkspaceChart>) -> (r: Workspace)
    ensures
        r.id == row.id && r.name == row.name && r.airports == row.airports && r.notes == row.notes,
        r.open_tabs == row.open_tabs && r.extra_tabs == row.extra_tabs && r.chart_refs == chart_refs,
        r.created_at == row.created_at && r.updated_at == row.updated_at,
        r.notes_pinned == (match row.notes_pinned { Some(v) => Some(v != 0), None => None::<bool> }),
        r.notes_panel_width == (match row.notes_panel_width { Some(v) => Some(v as i32), None => None::<i32> }),
        r.active_tab_index == (match row.active_tab { Some(v) => Some(v as usize), None => None::<usize> }),
{
    Workspace {
        id: row.id,
        name: row.name,
        airports: row.airports,
        chart_refs,
        open_tabs: row.open_tabs,
        active_tab_index: match row.active_tab {
            Some(v) => Some(v as usize),
            None => None,
        },
        extra_tabs: row.extra_tabs,
        notes: row.notes,
        notes_pinned: match row.notes_pinned {
            Some(v) => Some(v != 0),
            None => None,
        },
        notes_panel_width: match row.notes_panel_width {
            Some(v) => Some(v as i32),
            None => None,
        },
        created_at: row.created_at,
        updated_at: row.updated_at,
    }
}

// ---------------------------------------------------------------- laws

proof fn lemma_filter_keeps_all<A>(s: Seq<A>, pred: spec_fn(A) -> bool)
    requires
        forall|i: int| 0 <= i < s.len() ==> pred(#[trigger] s[i]),
    ensures
        s.filter(pred) == s,
    decreases s.len(),
{
    reveal(Seq::filter);
    if s.len() > 0 {
        lemma_filter_keeps_all(s.drop_last(), pred);
        assert(s.drop_last().push(s.last()) =~= s);
    }
}

proof fn lemma_filter_drops_last<A>(s: Seq<A>, x: A, pred: spec_fn(A) -> bool)
    requires
        !pred(x),
    ensures
        s.push(x).filter(pred) == s.filter(pred),
{
    reveal(Seq::filter);
    assert(s.push(x).drop_last() =~= s);
}

/// Once a chart is added under an airport, the workspace holds it there: adding it again
/// changes nothing.
pub proof fn law_added_chart_is_held(refs: Seq<(Seq<char>, ChartView)>, airport: Seq<char>, c: ChartView)
    ensures
        holds_chart(refs.push((airport, c)), airport, c.id),
{
    assert(is_chart_at(refs.push((airport, c))[refs.len() as int], airport, c.id));
}

/// Taking out a chart that was just added, where the workspace did not hold it, gives back the
/// charts as they were.
pub proof fn law_removal_undoes_addition(refs: Seq<(Seq<char>, ChartView)>, airport: Seq<char>, c: ChartView)
    requires
        !holds_chart(refs, airport, c.id),
    ensures
        charts_without(refs.push((airport, c)), airport, c.id) == refs,
{
    let pred = |r: (Seq<char>, ChartView)| !is_chart_at(r, airport, c.id);
    lemma_filter_drops_last(refs, (airport, c), pred);
    assert forall|i: int| 0 <= i < refs.len() implies pred(#[trigger] refs[i]) by {
        if is_chart_at(refs[i], airport, c.id) {
            assert(holds_chart(refs, airport, c.id));
        }
    }
    lemma_filter_keeps_all(refs, pred);
}

/// Once a chart is taken out from under an airport, the workspace no longer holds it there.
pub proof fn law_removed_chart_is_not_held(refs: Seq<(Seq<char>, ChartView)>, airport: Seq<char>, chart_id: Seq<char>)
    ensures
        !holds_chart(charts_without(refs, airport, chart_id), airport, chart_id),
{
    let pred = |r: (Seq<char>, ChartView)| !is_chart_at(r, airport, chart_id);
    let out = charts_without(refs, airport, chart_id);
    assert forall|i: int| 0 <= i < out.len() implies !is_chart_at(#[trigger] out[i], airport, chart_id) by {
        refs.lemma_filter_pred(pred, i);
    }
}

/// Once an ATIS or document tab is added, the workspace holds it: adding it again changes
/// nothing.
pub proof fn law_added_extra_tab_is_held(tabs: Seq<ExtraTab>, tab: ExtraTab)
    ensures
        holds_extra_tab(tabs.push(tab), tab),
{
    assert(same_extra_tab(tabs.push(tab)[tabs.len() as int], tab));
}

/// Taking out an ATIS or document tab that was just added, where the workspace held none
/// standing for the same thing, gives back the tabs as they were.
pub proof fn law_extra_tab_removal_undoes_addition(tabs: Seq<ExtraTab>, tab: ExtraTab)
    requires
        !holds_extra_tab(tabs, tab),
    ensures
        tabs.push(tab).filter(|t: ExtraTab| !same_extra_tab(t, tab)) == tabs,
{
    let pred = |t: ExtraTab| !same_extra_tab(t, tab);
    assert(same_extra_tab(tab, tab));
    lemma_filter_drops_last(tabs, tab, pred);
    assert forall|i: int| 0 <= i < tabs.len() implies pred(#[trigger] tabs[i]) by {
        if same_extra_tab(tabs[i], tab) {
            assert(holds_extra_tab(tabs, tab));
        }
    }
    lemma_filter_keeps_all(tabs, pred);
}

/// Once an airport is added to a workspace's list, the list holds its upper-case form: adding it
/// again changes nothing.
pub proof fn law_added_airport_is_held(airports: Seq<Seq<char>>, airport: Seq<char>)
    ensures
        airports.push(uppercase(airport)).contains(uppercase(airport)),
{
    assert(airports.push(uppercase(airport))[airports.len() as int] == uppercase(airport));
}

} // verus!
