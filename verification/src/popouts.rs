//! Popout windows: what a new window shows, how tabs are pushed to a standalone window and
//! picked up there, and how the windows that can take a tab are listed.
use vstd::prelude::*;
use crate::models::WorkspaceChart;
use crate::order::{lex_lt, lemma_lex_total, lemma_lex_transitive, lemma_lex_irreflexive};
use crate::state::{notes_tab_view, AppState, Tab};
use crate::tabs::{focus_active, focus_tabs, lemma_index_of_id, lemma_index_of_id_bounds, position_of_id, rebuild_popout_tabs, same_except_tabs, views};
use crate::text::{chars_of, decimal, decimal_of, has_prefix, push_all, push_str, string_of};

verus! {

broadcast use vstd::string::group_string_axioms;

/// The tabs of a standalone popout window, and how many times they were changed from
/// elsewhere.
pub struct StandalonePopout {
    pub tabs: Vec<Tab>,
    pub active_tab: Option<usize>,
    pub revision: u64,
}

/// `n + 1`, or `n` where that does not fit.
pub open spec fn bumped(n: u64) -> u64 {
    if n == u64::MAX { n } else { (n + 1) as u64 }
}

/// Pushes `tab` to a standalone popout: focuses the tab with its id, or opens it at the end,
/// and counts one more change.
pub fn push_tab_to_standalone(popout: &mut StandalonePopout, tab: Tab)
    ensures
        views(final(popout).tabs@) == focus_tabs(views(old(popout).tabs@), tab@),
        final(popout).active_tab == Some(focus_active(views(old(popout).tabs@), tab@) as usize),
        final(popout).revision == bumped(old(popout).revision),
{
    let ghost tv = views(popout.tabs@);
    proof { lemma_index_of_id_bounds(tv, tab@.id); }
    let k = position_of_id(&popout.tabs, &tab.id);
    if k < popout.tabs.len() {
        popout.active_tab = Some(k);
    } else {
        popout.tabs.push(tab);
        proof {
            assert(views(popout.tabs@) =~= tv.push(tab@));
            lemma_index_of_id(tv.push(tab@), tab@.id, tv.len() as int);
        }
        popout.active_tab = Some(popout.tabs.len() - 1);
    }
    popout.revision = popout.revision.saturating_add(1);
}

/// Shows `tabs` in a popout window, with `active` active, or the first tab.
pub fn show_tabs(state: &mut AppState, tabs: Vec<Tab>, active: Option<usize>)
    ensures
        final(state).tabs@ == tabs@,
        final(state).active_tab == (match active { Some(a) => Some(a), None => Some(0usize) }),
        same_except_tabs(*final(state), *old(state)),
{
    state.tabs = tabs;
    state.active_tab = match active {
        Some(a) => Some(a),
        None => Some(0),
    };
}

/// Shows the notes tab alone, active.
pub fn show_notes_only(state: &mut AppState)
    ensures
        views(final(state).tabs@) == seq![notes_tab_view()],
        final(state).active_tab == Some(0usize),
        same_except_tabs(*final(state), *old(state)),
{
    state.tabs = Vec::new();
    state.tabs.push(Tab::notes());
    assert(views(state.tabs@) =~= seq![notes_tab_view()]);
    state.active_tab = Some(0);
}

/// Picks up the tabs of a standalone popout in its window, when they changed since the
/// change last picked up, `last_applied`.
pub fn apply_standalone_snapshot(
    state: &mut AppState,
    last_applied: &mut u64,
    tabs: Vec<Tab>,
    active: Option<usize>,
    revision: u64,
)
    ensures
        revision <= *old(last_applied) ==> *final(state) == *old(state) && *final(last_applied) == *old(last_applied),
        revision > *old(last_applied) ==> {
            &&& *final(last_applied) == revision
            &&& final(state).tabs@ == tabs@
            &&& final(state).active_tab == (match active { Some(a) => Some(a), None => Some(0usize) })
            &&& same_except_tabs(*final(state), *old(state))
        },
{
    if revision <= *last_applied {
        return;
    }
    *last_applied = revision;
    show_tabs(state, tabs, active);
}

/// What a new popout window is to show.
pub enum PopoutContents {
    /// The popout window of a workspace: its charts, when it is listed, and its saved popout
    /// tab ids and active tab.
    Workspace { chart_refs: Option<Vec<WorkspaceChart>>, tab_ids: Vec<String>, active: Option<usize> },
    /// Given tabs, such as those of a standalone popout.
    Tabs { tabs: Vec<Tab>, active: Option<usize> },
    /// Nothing in particular.
    Empty,
}

/// Fills the tabs of a new popout window: a workspace popout rebuilds the workspace's saved
/// popout tabs, given tabs are shown as they are, and anything else shows the notes alone.
pub fn init_popout_tabs(state: &mut AppState, contents: PopoutContents)
    ensures
        same_except_tabs(*final(state), *old(state)),
        match contents {
            PopoutContents::Workspace { chart_refs: None, .. } | PopoutContents::Empty =>
                views(final(state).tabs@) == seq![notes_tab_view()] && final(state).active_tab == Some(0usize),
            PopoutContents::Tabs { tabs, active } => final(state).tabs@ == tabs@
                && final(state).active_tab == (match active { Some(a) => Some(a), None => Some(0usize) }),
            PopoutContents::Workspace { chart_refs: Some(refs), tab_ids, active } => {
                let base = seq![notes_tab_view()] + crate::tabs::tabs_for_ids(
                    crate::tabs::chart_views(old(state).charts@),
                    refs@,
                    tab_ids@.map_values(|s: String| s@),
                );
                &&& views(final(state).tabs@) == base
                &&& final(state).active_tab == crate::tabs::restored_active(active, base.len() as int)
            },
        },
{
    match contents {
        PopoutContents::Workspace { chart_refs: Some(refs), tab_ids, active } => {
            rebuild_popout_tabs(state, refs.as_slice(), tab_ids.as_slice(), active);
        },
        PopoutContents::Workspace { chart_refs: None, .. } => show_notes_only(state),
        PopoutContents::Tabs { tabs, active } => show_tabs(state, tabs, active),
        PopoutContents::Empty => show_notes_only(state),
    }
}

/// Title of the `n`-th popout window.
pub open spec fn popout_window_title_of(n: u64) -> Seq<char> {
    "ATC-BOOK // Window #"@ + decimal(n as nat)
}

/// Title of the `n`-th popout window.
pub fn popout_window_title(n: u64) -> (r: String)
    ensures
        r@ == popout_window_title_of(n),
{
    let mut v: Vec<char> = Vec::new();
    push_str(&mut v, "ATC-BOOK // Window #");
    let d = decimal_of(n);
    push_all(&mut v, &d);
    string_of(&v)
}

// ---------------------------------------------------------------- windows that can take a tab

/// A popout window that can take a tab, as values: its key and its title.
pub type TargetView = (Seq<char>, Seq<char>);

/// Targets, as values.
pub open spec fn targets_view(v: Seq<(String, String)>) -> Seq<TargetView> {
    v.map_values(|t: (String, String)| (t.0@, t.1@))
}

/// `x` inserted into `sorted` after every target whose title does not come after its own.
pub open spec fn insert_by_title(sorted: Seq<TargetView>, x: TargetView) -> Seq<TargetView>
    decreases sorted.len(),
{
    if sorted.len() == 0 {
        seq![x]
    } else if lex_lt(x.1, sorted.last().1) {
        insert_by_title(sorted.drop_last(), x).push(sorted.last())
    } else {
        sorted.push(x)
    }
}

/// The targets sorted by title; targets with equal titles keep their order (a stable sort).
pub open spec fn sort_by_title(s: Seq<TargetView>) -> Seq<TargetView>
    decreases s.len(),
{
    if s.len() == 0 { s } else { insert_by_title(sort_by_title(s.drop_last()), s.last()) }
}

/// Whether the titles never decrease.
pub open spec fn titles_sorted(s: Seq<TargetView>) -> bool {
    forall|i: int, j: int| 0 <= i < j < s.len() ==> !lex_lt(#[trigger] s[j].1, #[trigger] s[i].1)
}

/// The open popout windows, as (key, title): the workspace windows, keyed `workspace:<id>`,
/// then the standalone windows that are shown, keyed `standalone:<id>`.
pub open spec fn open_targets(workspaces: Seq<(Seq<char>, Seq<char>)>, standalones: Seq<(Seq<char>, Seq<char>, bool)>) -> Seq<TargetView> {
    workspaces.map_values(|w: (Seq<char>, Seq<char>)| ("workspace:"@ + w.0, w.1)) + standalones.filter(
        |s: (Seq<char>, Seq<char>, bool)| s.2,
    ).map_values(|s: (Seq<char>, Seq<char>, bool)| ("standalone:"@ + s.0, s.1))
}

proof fn lemma_le_transitive(a: Seq<char>, b: Seq<char>, c: Seq<char>)
    requires
        !lex_lt(b, a),
        !lex_lt(c, b),
    ensures
        !lex_lt(c, a),
{
    if lex_lt(c, a) {
        lemma_lex_total(a, b);
        if a == b {
        } else if lex_lt(a, b) {
            lemma_lex_transitive(c, a, b);
        }
    }
}

proof fn lemma_insert_bounded(sorted: Seq<TargetView>, x: TargetView, b: Seq<char>)
    requires
        forall|i: int| 0 <= i < sorted.len() ==> !lex_lt(b, #[trigger] sorted[i].1),
        !lex_lt(b, x.1),
    ensures
        forall|i: int| 0 <= i < insert_by_title(sorted, x).len() ==> !lex_lt(b, #[trigger] insert_by_title(sorted, x)[i].1),
        insert_by_title(sorted, x).len() == sorted.len() + 1,
    decreases sorted.len(),
{
    if sorted.len() > 0 && lex_lt(x.1, sorted.last().1) {
        lemma_insert_bounded(sorted.drop_last(), x, b);
        let ins = insert_by_title(sorted.drop_last(), x);
        assert forall|i: int| 0 <= i < insert_by_title(sorted, x).len() implies !lex_lt(b, #[trigger] insert_by_title(sorted, x)[i].1) by {
            if i < ins.len() {
                assert(insert_by_title(sorted, x)[i] == ins[i]);
            }
        }
    }
}

proof fn lemma_insert_sorted(sorted: Seq<TargetView>, x: TargetView)
    requires
        titles_sorted(sorted),
    ensures
        titles_sorted(insert_by_title(sorted, x)),
    decreases sorted.len(),
{
    if sorted.len() == 0 {
    } else if lex_lt(x.1, sorted.last().1) {
        let last = sorted.last();
        lemma_insert_sorted(sorted.drop_last(), x);
        assert forall|i: int| 0 <= i < sorted.drop_last().len() implies !lex_lt(last.1, #[trigger] sorted.drop_last()[i].1) by {
            assert(sorted.drop_last()[i] == sorted[i]);
        }
        if lex_lt(last.1, x.1) {
            lemma_lex_transitive(x.1, last.1, x.1);
            lemma_lex_irreflexive(x.1);
        }
        lemma_insert_bounded(sorted.drop_last(), x, last.1);
        let ins = insert_by_title(sorted.drop_last(), x);
        let res = ins.push(last);
        assert forall|i: int, j: int| 0 <= i < j < res.len() implies !lex_lt(#[trigger] res[j].1, #[trigger] res[i].1) by {
            if j < ins.len() {
                assert(res[i] == ins[i] && res[j] == ins[j]);
            } else {
                assert(res[i] == ins[i]);
            }
        }
    } else {
        let last = sorted.last();
        let res = sorted.push(x);
        assert forall|i: int, j: int| 0 <= i < j < res.len() implies !lex_lt(#[trigger] res[j].1, #[trigger] res[i].1) by {
            if j == sorted.len() {
                if i < sorted.len() - 1 {
                    lemma_le_transitive(sorted[i].1, last.1, x.1);
                }
            } else {
                assert(res[i] == sorted[i] && res[j] == sorted[j]);
            }
        }
    }
}

/// Sorting by title leaves the titles in order.
pub proof fn lemma_sort_by_title_sorted(s: Seq<TargetView>)
    ensures
        titles_sorted(sort_by_title(s)),
        sort_by_title(s).len() == s.len(),
    decreases s.len(),
{
    if s.len() > 0 {
        lemma_sort_by_title_sorted(s.drop_last());
        lemma_insert_sorted(sort_by_title(s.drop_last()), s.last());
        lemma_insert_bounded_len(sort_by_title(s.drop_last()), s.last());
    }
}

proof fn lemma_insert_bounded_len(sorted: Seq<TargetView>, x: TargetView)
    ensures
        insert_by_title(sorted, x).len() == sorted.len() + 1,
    decreases sorted.len(),
{
    if sorted.len() > 0 && lex_lt(x.1, sorted.last().1) {
        lemma_insert_bounded_len(sorted.drop_last(), x);
    }
}

proof fn lemma_insert_at(s: Seq<TargetView>, x: TargetView, p: int)
    requires
        0 <= p <= s.len(),
        forall|k: int| p <= k < s.len() ==> lex_lt(x.1, #[trigger] s[k].1),
        p > 0 ==> !lex_lt(x.1, s[p - 1].1),
    ensures
        insert_by_title(s, x) == s.insert(p, x),
    decreases s.len(),
{
    if s.len() == 0 {
        assert(s.insert(p, x) =~= seq![x]);
    } else if p == s.len() {
        assert(s.insert(p, x) =~= s.push(x));
    } else {
        assert(lex_lt(x.1, s[s.len() - 1].1));
        let d = s.drop_last();
        assert forall|k: int| p <= k < d.len() implies lex_lt(x.1, #[trigger] d[k].1) by {
            assert(d[k] == s[k]);
        }
        lemma_insert_at(d, x, p);
        assert(d.insert(p, x).push(s.last()) =~= s.insert(p, x));
    }
}

/// The open popout windows that can take a tab, as (key, title), sorted by title.
pub fn popout_targets(workspaces: &Vec<(String, String)>, standalones: &Vec<(String, String, bool)>) -> (r: Vec<(String, String)>)
    ensures
        targets_view(r@) == sort_by_title(open_targets(
            workspaces@.map_values(|w: (String, String)| (w.0@, w.1@)),
            standalones@.map_values(|s: (String, String, bool)| (s.0@, s.1@, s.2)),
        )),
        titles_sorted(targets_view(r@)),
{
    let ghost wv = workspaces@.map_values(|w: (String, String)| (w.0@, w.1@));
    let ghost sv = standalones@.map_values(|s: (String, String, bool)| (s.0@, s.1@, s.2));
    let ghost all = open_targets(wv, sv);
    let ghost wpart = wv.map_values(|w: (Seq<char>, Seq<char>)| ("workspace:"@ + w.0, w.1));
    let ghost spred = |s: (Seq<char>, Seq<char>, bool)| s.2;
    let ghost sfun = |s: (Seq<char>, Seq<char>, bool)| ("standalone:"@ + s.0, s.1);
    let mut collected: Vec<(String, String)> = Vec::new();
    let mut i: usize = 0;
    while i < workspaces.len()
        invariant
            i <= workspaces.len(),
            wv == workspaces@.map_values(|w: (String, String)| (w.0@, w.1@)),
            wpart == wv.map_values(|w: (Seq<char>, Seq<char>)| ("workspace:"@ + w.0, w.1)),
            targets_view(collected@) == wpart.take(i as int),
        decreases workspaces.len() - i,
    {
        let ghost before = targets_view(collected@);
        let mut key: Vec<char> = Vec::new();
        push_str(&mut key, "workspace:");
        push_all(&mut key, &chars_of(workspaces[i].0.as_str()));
        let t = (string_of(&key), workspaces[i].1.clone());
        collected.push(t);
        assert(targets_view(collected@) =~= before.push(wpart[i as int]));
        assert(wpart.take(i + 1) =~= wpart.take(i as int).push(wpart[i as int]));
        i = i + 1;
    }
    assert(wpart.take(i as int) =~= wpart);
    let ghost spart_all = sv.filter(spred);
    let mut j: usize = 0;
    assert(sv.take(0).filter(spred) =~= Seq::<(Seq<char>, Seq<char>, bool)>::empty()) by {
        reveal(Seq::filter);
    }
    while j < standalones.len()
        invariant
            j <= standalones.len(),
            sv == standalones@.map_values(|s: (String, String, bool)| (s.0@, s.1@, s.2)),
            spred == (|s: (Seq<char>, Seq<char>, bool)| s.2),
            sfun == (|s: (Seq<char>, Seq<char>, bool)| ("standalone:"@ + s.0, s.1)),
            targets_view(collected@) == wpart + sv.take(j as int).filter(spred).map_values(sfun),
        decreases standalones.len() - j,
    {
        let ghost before = targets_view(collected@);
        assert(sv.take(j + 1).drop_last() =~= sv.take(j as int));
        assert(sv.take(j + 1).filter(spred) == if spred(sv[j as int]) {
            sv.take(j as int).filter(spred).push(sv[j as int])
        } else {
            sv.take(j as int).filter(spred)
        }) by {
            reveal(Seq::filter);
            assert(sv.take(j + 1).last() == sv[j as int]);
        }
        if standalones[j].2 {
            let mut key: Vec<char> = Vec::new();
            push_str(&mut key, "standalone:");
            push_all(&mut key, &chars_of(standalones[j].0.as_str()));
            let t = (string_of(&key), standalones[j].1.clone());
            collected.push(t);
            assert(targets_view(collected@) =~= before.push(sfun(sv[j as int])));
            assert(sv.take(j + 1).filter(spred).map_values(sfun) =~= sv.take(j as int).filter(spred).map_values(sfun).push(
                sfun(sv[j as int]),
            ));
        }
        j = j + 1;
    }
    assert(sv.take(j as int) =~= sv);
    assert(targets_view(collected@) =~= all);
    // insertion sort, stable by title
    let ghost cv = targets_view(collected@);
    let mut out: Vec<(String, String)> = Vec::new();
    let mut n: usize = 0;
    while n < collected.len()
        invariant
            n <= collected.len(),
            cv == targets_view(collected@),
            targets_view(out@) == sort_by_title(cv.take(n as int)),
        decreases collected.len() - n,
    {
        let ghost sorted = targets_view(out@);
        proof {
            lemma_sort_by_title_sorted(cv.take(n as int));
        }
        let title = chars_of(collected[n].1.as_str());
        let mut p: usize = out.len();
        while p > 0 && crate::order::lex_lt_of(&title, &chars_of(out[p - 1].1.as_str()))
            invariant
                p <= out.len(),
                sorted == targets_view(out@),
                title@ == cv[n as int].1,
                forall|k: int| p <= k < sorted.len() ==> lex_lt(title@, #[trigger] sorted[k].1),
            decreases p,
        {
            p = p - 1;
        }
        proof {
            lemma_insert_at(sorted, cv[n as int], p as int);
            assert(cv.take(n + 1).drop_last() =~= cv.take(n as int));
        }
        let t = (collected[n].0.clone(), collected[n].1.clone());
        out.insert(p, t);
        assert(targets_view(out@) =~= sorted.insert(p as int, cv[n as int]));
        n = n + 1;
    }
    assert(cv.take(n as int) =~= cv);
    proof {
        lemma_sort_by_title_sorted(cv);
    }
    out
}

/// The window a popout target key designates.
pub enum PopoutTarget {
    /// The popout window of workspace `id`.
    Workspace(String),
    /// The standalone popout window `id`.
    Standalone(String),
    /// No window.
    Unknown,
}

/// The window a popout target key designates: the rest of a key that starts `workspace:` or
/// `standalone:`.
pub fn parse_popout_target(key: &str) -> (r: PopoutTarget)
    ensures
        match r {
            PopoutTarget::Workspace(id) => has_prefix(key@, "workspace:"@) && id@ == key@.skip(10),
            PopoutTarget::Standalone(id) => !has_prefix(key@, "workspace:"@) && has_prefix(key@, "standalone:"@)
                && id@ == key@.skip(11),
            PopoutTarget::Unknown => !has_prefix(key@, "workspace:"@) && !has_prefix(key@, "standalone:"@),
        },
{
    let k = chars_of(key);
    let w = chars_of("workspace:");
    let s = chars_of("standalone:");
    proof {
        reveal_strlit("workspace:");
        reveal_strlit("standalone:");
    }
    if crate::text::has_prefix_of(&k, &w) {
        let rest = crate::text::drop_chars(&k, 10);
        PopoutTarget::Workspace(string_of(&rest))
    } else if crate::text::has_prefix_of(&k, &s) {
        let rest = crate::text::drop_chars(&k, 11);
        PopoutTarget::Standalone(string_of(&rest))
    } else {
        PopoutTarget::Unknown
    }
}


// ---------------------------------------------------------------- windows reopened at start

/// The workspaces whose second window is reopened when the application starts, given each
/// workspace's id and its saved second-window tabs, in listing order: those with saved tabs.
pub open spec fn popouts_to_reopen(saved: Seq<(String, Vec<String>)>) -> Seq<Seq<char>>
    decreases saved.len(),
{
    if saved.len() == 0 {
        Seq::empty()
    } else {
        let prev = popouts_to_reopen(saved.drop_last());
        if saved.last().1@.len() > 0 { prev.push(saved.last().0@) } else { prev }
    }
}

/// The ids of the workspaces whose second window is reopened at start: those whose saved
/// second-window tabs are not empty, in the order given.
pub fn workspaces_to_reopen(saved: &Vec<(String, Vec<String>)>) -> (r: Vec<String>)
    ensures
        crate::text::strings_view(r@) == popouts_to_reopen(saved@),
{
    let mut out: Vec<String> = Vec::new();
    let mut i: usize = 0;
    assert(saved@.take(0) =~= Seq::<(String, Vec<String>)>::empty());
    while i < saved.len()
        invariant
            i <= saved.len(),
            crate::text::strings_view(out@) == popouts_to_reopen(saved@.take(i as int)),
        decreases saved.len() - i,
    {
        assert(saved@.take(i + 1).drop_last() =~= saved@.take(i as int));
        assert(saved@.take(i + 1).last() == saved@[i as int]);
        if saved[i].1.len() > 0 {
            let ghost before = crate::text::strings_view(out@);
            let id = saved[i].0.clone();
            out.push(id);
            assert(crate::text::strings_view(out@) =~= before.push(id@));
        }
        i = i + 1;
    }
    assert(saved@.take(i as int) =~= saved@);
    out
}

} // verus!
