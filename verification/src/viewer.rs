//! Decisions of the document viewers: the terms searched in an AIP text document and the
//! moves between their matches, the zoom steps of a chart, which rendered charts the tab bar
//! evicts, the chart whose pages are rendered, and the refresh line of the ATIS viewer.
use vstd::prelude::*;
use crate::i18n::{tr, translation, AppLanguage};
use crate::models::{Chart, ChartView};
use crate::sia_names::{utf8_byte_len, utf8_len};
use crate::state::AppState;
use crate::tabs::{chart_views, same_document};
use crate::text::{
    chars_of, contains_string, decimal, decimal_of, is_white_space, is_white_space_of, lowercase,
    push_all, push_str, string_of, strings_view, to_lowercase_of, trim_ws, trim_ws_of,
};

verus! {

broadcast use vstd::string::group_string_axioms;

// ---------------------------------------------------------------- searching a text document

/// The words of `s`: its maximal runs of characters that are not white space, in order.
pub open spec fn words(s: Seq<char>) -> Seq<Seq<char>>
    decreases s.len(),
{
    if s.len() == 0 {
        Seq::empty()
    } else {
        let w = words(s.drop_last());
        let c = s.last();
        if is_white_space(c) {
            w
        } else if s.len() >= 2 && !is_white_space(s[s.len() - 2]) {
            w.update(w.len() - 1, w.last().push(c))
        } else {
            w.push(seq![c])
        }
    }
}

/// Whether `s` takes at least two bytes in UTF-8.
pub open spec fn two_bytes_or_more(s: Seq<char>) -> bool {
    utf8_byte_len(s) >= 2
}

/// The terms searched for a query: when the query, trimmed, takes two bytes or more, its words
/// in lower case that take two bytes or more, the first ten of them; else none.
pub open spec fn search_terms_of(query: Seq<char>) -> Seq<Seq<char>> {
    if two_bytes_or_more(trim_ws(query)) {
        let f = words(query).map_values(|w: Seq<char>| lowercase(w)).filter(|t: Seq<char>| two_bytes_or_more(t));
        if f.len() <= 10 { f } else { f.take(10) }
    } else {
        Seq::empty()
    }
}

proof fn lemma_byte_len_at_least_len(s: Seq<char>)
    ensures
        utf8_byte_len(s) >= s.len(),
    decreases s.len(),
{
    if s.len() > 0 {
        lemma_byte_len_at_least_len(s.drop_last());
    }
}

/// Whether `s` takes at least two bytes in UTF-8.
pub fn two_bytes_or_more_of(s: &Vec<char>) -> (r: bool)
    ensures
        r == two_bytes_or_more(s@),
{
    proof { lemma_byte_len_at_least_len(s@); }
    if s.len() >= 2 {
        true
    } else if s.len() == 1 {
        assert(s@.drop_last() =~= Seq::<char>::empty());
        assert(s@.last() == s@[0]);
        assert(utf8_byte_len(s@) == utf8_len(s@[0])) by {
            reveal_with_fuel(utf8_byte_len, 2);
        }
        (s[0] as u32) >= 0x80
    } else {
        false
    }
}

/// The words of `s`, in order.
pub fn words_of(s: &Vec<char>) -> (r: Vec<Vec<char>>)
    ensures
        crate::text::vec_views(r@) == words(s@),
{
    let mut done: Vec<Vec<char>> = Vec::new();
    let mut cur: Vec<char> = Vec::new();
    let mut i: usize = 0;
    assert(s@.take(0) =~= Seq::<char>::empty());
    while i < s.len()
        invariant
            i <= s.len(),
            (if cur.len() > 0 { crate::text::vec_views(done@).push(cur@) } else { crate::text::vec_views(done@) })
                == words(s@.take(i as int)),
            cur.len() > 0 <==> (i > 0 && !is_white_space(s@[i - 1])),
        decreases s.len() - i,
    {
        let c = s[i];
        let ghost t = s@.take(i + 1);
        assert(t.drop_last() =~= s@.take(i as int));
        assert(t.last() == c);
        if i > 0 {
            assert(t[t.len() - 2] == s@[i - 1]);
        }
        let ghost before = crate::text::vec_views(done@);
        if is_white_space_of(c) {
            if cur.len() > 0 {
                let w = cur;
                done.push(w);
                cur = Vec::new();
                assert(crate::text::vec_views(done@) =~= before.push(w@));
            }
        } else {
            if cur.len() > 0 {
                let ghost old_cur = cur@;
                cur.push(c);
                assert(before.push(old_cur).update(before.len() as int, old_cur.push(c)) =~= before.push(cur@));
            } else {
                cur.push(c);
                assert(cur@ =~= seq![c]);
            }
        }
        i = i + 1;
    }
    assert(s@.take(i as int) =~= s@);
    if cur.len() > 0 {
        let ghost before = crate::text::vec_views(done@);
        let w = cur;
        done.push(w);
        assert(crate::text::vec_views(done@) =~= before.push(w@));
    }
    done
}

/// The terms searched in an AIP text document for the query typed.
pub fn search_terms(query: &str) -> (r: Vec<String>)
    ensures
        strings_view(r@) == search_terms_of(query@),
{
    let q = chars_of(query);
    if !two_bytes_or_more_of(&trim_ws_of(&q)) {
        let none: Vec<String> = Vec::new();
        assert(strings_view(none@) =~= Seq::<Seq<char>>::empty());
        return none;
    }
    let ws = words_of(&q);
    let ghost wv = crate::text::vec_views(ws@);
    let ghost lowered = wv.map_values(|w: Seq<char>| lowercase(w));
    let ghost pred = |t: Seq<char>| two_bytes_or_more(t);
    let ghost full = lowered.filter(pred);
    let mut out: Vec<String> = Vec::new();
    let mut i: usize = 0;
    assert(lowered.take(0).filter(pred) =~= Seq::<Seq<char>>::empty()) by {
        reveal(Seq::filter);
    }
    while i < ws.len() && out.len() < 10
        invariant
            i <= ws.len(),
            wv == crate::text::vec_views(ws@),
            lowered == wv.map_values(|w: Seq<char>| lowercase(w)),
            pred == (|t: Seq<char>| two_bytes_or_more(t)),
            strings_view(out@) == lowered.take(i as int).filter(pred),
            out.len() <= 10,
        decreases ws.len() - i,
    {
        let ghost before = strings_view(out@);
        assert(lowered.take(i + 1).drop_last() =~= lowered.take(i as int));
        assert(lowered.take(i + 1).filter(pred) == if pred(lowered[i as int]) {
            lowered.take(i as int).filter(pred).push(lowered[i as int])
        } else {
            lowered.take(i as int).filter(pred)
        }) by {
            reveal(Seq::filter);
            assert(lowered.take(i + 1).last() == lowered[i as int]);
        }
        let word = string_of(&ws[i]);
        let lower = to_lowercase_of(word.as_str());
        if two_bytes_or_more_of(&chars_of(lower.as_str())) {
            out.push(lower);
            assert(strings_view(out@) =~= before.push(lowered[i as int]));
        }
        i = i + 1;
    }
    proof {
        assert(lowered.take(i as int) + lowered.skip(i as int) =~= lowered);
        Seq::filter_distributes_over_add(lowered.take(i as int), lowered.skip(i as int), pred);
        if i == ws.len() {
            assert(lowered.skip(i as int) =~= Seq::<Seq<char>>::empty());
            assert(lowered.skip(i as int).filter(pred) =~= Seq::<Seq<char>>::empty()) by {
                reveal(Seq::filter);
            }
            assert(full =~= strings_view(out@));
        } else {
            assert(out.len() == 10);
            assert(full.take(10) =~= strings_view(out@));
        }
    }
    out
}

/// Whether a query is long enough to be searched: trimmed, it takes two bytes or more.
pub fn query_searched(query: &str) -> (r: bool)
    ensures
        r == two_bytes_or_more(trim_ws(query@)),
{
    two_bytes_or_more_of(&trim_ws_of(&chars_of(query)))
}

/// The match after match `cur` among `n`: the next one, and the first after the last.
pub open spec fn next_hit_of(cur: int, n: int) -> int {
    (cur + 1) % n
}

/// The match before match `cur` among `n`: the one before, and the last before the first.
pub open spec fn previous_hit_of(cur: int, n: int) -> int {
    (cur + n - 1) % n
}

/// The match that follows match `cur` among `n`, going round.
pub fn next_hit(cur: usize, n: usize) -> (r: usize)
    requires
        n > 0,
        cur < usize::MAX,
    ensures
        r == next_hit_of(cur as int, n as int),
{
    (cur + 1) % n
}

/// The match that comes before match `cur` among `n`, going round.
pub fn previous_hit(cur: usize, n: usize) -> (r: usize)
    requires
        n > 0,
        cur + n <= usize::MAX,
    ensures
        r == previous_hit_of(cur as int, n as int),
{
    (cur + n - 1) % n
}

/// The active match once `count` matches are found: the first when there is none, the last
/// when the active one is past the end.
pub fn clamp_hit(cur: usize, count: usize) -> (r: usize)
    ensures
        r == (if count == 0 { 0 } else if cur >= count { (count - 1) as usize } else { cur }),
{
    if count == 0 {
        0
    } else if cur >= count {
        count - 1
    } else {
        cur
    }
}

/// Whether the viewer says that the query matches nothing: the document is loaded, the query
/// is searched, and it has no match.
pub fn no_match_shown(loading: bool, query: &str, matches: usize) -> (r: bool)
    ensures
        r == (!loading && two_bytes_or_more(trim_ws(query@)) && matches == 0),
{
    !loading && query_searched(query) && matches == 0
}

// ---------------------------------------------------------------- chart zoom

/// The zoom level after the zoom-out button, where it does something.
pub open spec fn zoom_out_of(zoom: u32) -> Option<u32> {
    if zoom > 50 { Some((zoom - 25) as u32) } else { None }
}

/// The zoom level after the zoom-in button, where it does something.
pub open spec fn zoom_in_of(zoom: u32) -> Option<u32> {
    if zoom < 200 { Some((zoom + 25) as u32) } else { None }
}

/// The zoom level after the zoom-out button: 25 points less, while above 50; `None` at 50 or
/// below, where the button does nothing.
pub fn zoom_out(zoom: u32) -> (r: Option<u32>)
    ensures
        r == zoom_out_of(zoom),
{
    if zoom > 50 { Some(zoom - 25) } else { None }
}

/// The zoom level after the zoom-in button: 25 points more, while under 200; `None` at 200 or
/// above, where the button does nothing.
pub fn zoom_in(zoom: u32) -> (r: Option<u32>)
    ensures
        r == zoom_in_of(zoom),
{
    if zoom < 200 { Some(zoom + 25) } else { None }
}

/// The multiple of 25 nearest to `percent` (there is never a tie between two).
pub open spec fn nearest_step(percent: int) -> int {
    ((percent + 12) / 25) * 25
}

/// The zoom level that the fit button picks for a view that shows the chart whole at
/// `percent`: the nearest multiple of 25, kept between 50 and 200.
pub open spec fn fit_zoom_of(percent: int) -> u32 {
    if nearest_step(percent) < 50 {
        50
    } else if nearest_step(percent) > 200 {
        200
    } else {
        nearest_step(percent) as u32
    }
}

/// The zoom level of the fit button, from the width at which the chart fits the view, as a
/// whole percentage of the chart's own width.
pub fn fit_zoom(percent: i64) -> (r: u32)
    ensures
        r == fit_zoom_of(percent as int),
        50 <= r <= 200,
        r % 25 == 0,
{
    if percent < 38 {
        50
    } else if percent >= 188 {
        200
    } else {
        let step: i64 = (percent + 12) / 25 * 25;
        step as u32
    }
}

/// Between the levels the buttons keep to (50 to 200), zooming in, where the button does
/// something, then out returns to the same level; and zooming out then in likewise.
pub proof fn law_zoom_steps_undo_each_other(zoom: u32)
    requires
        50 <= zoom <= 200,
    ensures
        zoom_in_of(zoom) matches Some(z) ==> zoom_out_of(z) == Some(zoom),
        zoom_out_of(zoom) matches Some(z) ==> zoom_in_of(z) == Some(zoom),
{
}

/// Moving to the next match and back to the previous one returns to the match one started at.
pub proof fn law_previous_undoes_next(cur: int, n: int)
    requires
        n > 0,
        0 <= cur < n,
    ensures
        previous_hit_of(next_hit_of(cur, n), n) == cur,
{
    if cur + 1 < n {
        vstd::arithmetic::div_mod::lemma_small_mod((cur + 1) as nat, n as nat);
        vstd::arithmetic::div_mod::lemma_mod_add_multiples_vanish(cur, n);
        assert((cur + n) % n == cur % n);
        vstd::arithmetic::div_mod::lemma_small_mod(cur as nat, n as nat);
    } else {
        vstd::arithmetic::div_mod::lemma_mod_self_0(n);
        vstd::arithmetic::div_mod::lemma_small_mod((n - 1) as nat, n as nat);
    }
}

// ---------------------------------------------------------------- rendered charts

/// Number of rendered charts the tab bar keeps.
pub const MAX_RENDERED: usize = 5;

/// Whether key `k` is picked: it is an open tab's key exactly when `open_wanted`, and, with
/// `skip_active`, it is not the chosen tab's.
pub open spec fn key_picked(k: Seq<char>, open: Seq<Seq<char>>, open_wanted: bool, active: Option<Seq<char>>, skip_active: bool) -> bool {
    (open.contains(k) == open_wanted) && (skip_active ==> active != Some(k))
}

/// The keys picked, in order.
pub open spec fn picked_keys(keys: Seq<Seq<char>>, open: Seq<Seq<char>>, open_wanted: bool, active: Option<Seq<char>>, skip_active: bool) -> Seq<Seq<char>> {
    keys.filter(|k: Seq<char>| key_picked(k, open, open_wanted, active, skip_active))
}

/// The keys of the rendered charts the tab bar evicts when a tab is chosen, given the keys in
/// the order the cache is walked, the ids of the open tabs and that of the tab chosen: none
/// while at most five are kept; else those of closed tabs, then, while more than five remain,
/// the first of the others that are not the chosen tab's, as many as there are too many.
pub open spec fn evicted_keys(keys: Seq<Seq<char>>, open: Seq<Seq<char>>, active: Option<Seq<char>>) -> Seq<Seq<char>> {
    if keys.len() <= 5 {
        Seq::empty()
    } else {
        let stale = picked_keys(keys, open, false, active, false);
        let kept = picked_keys(keys, open, true, active, false);
        if kept.len() <= 5 {
            stale
        } else {
            let candidates = picked_keys(kept, open, true, active, true);
            let extra = kept.len() - 5;
            stale + if candidates.len() <= extra { candidates } else { candidates.take(extra) }
        }
    }
}

fn pick_keys(v: &Vec<String>, open: &Vec<String>, open_wanted: bool, active: &Option<String>, skip_active: bool) -> (r: Vec<String>)
    ensures
        strings_view(r@) == picked_keys(strings_view(v@), strings_view(open@), open_wanted, crate::text::opt_string_view(*active), skip_active),
{
    let ghost sv = strings_view(v@);
    let ghost ov = strings_view(open@);
    let ghost av = crate::text::opt_string_view(*active);
    let ghost pred = |k: Seq<char>| key_picked(k, ov, open_wanted, av, skip_active);
    let mut out: Vec<String> = Vec::new();
    let mut i: usize = 0;
    assert(sv.take(0).filter(pred) =~= Seq::<Seq<char>>::empty()) by {
        reveal(Seq::filter);
    }
    while i < v.len()
        invariant
            i <= v.len(),
            sv == strings_view(v@),
            ov == strings_view(open@),
            av == crate::text::opt_string_view(*active),
            pred == (|k: Seq<char>| key_picked(k, ov, open_wanted, av, skip_active)),
            strings_view(out@) == sv.take(i as int).filter(pred),
        decreases v.len() - i,
    {
        let ghost before = strings_view(out@);
        assert(sv.take(i + 1).drop_last() =~= sv.take(i as int));
        assert(sv.take(i + 1).filter(pred) == if pred(sv[i as int]) {
            sv.take(i as int).filter(pred).push(sv[i as int])
        } else {
            sv.take(i as int).filter(pred)
        }) by {
            reveal(Seq::filter);
            assert(sv.take(i + 1).last() == sv[i as int]);
        }
        let is_open = contains_string(open, v[i].as_str());
        let is_active = match active {
            Some(a) => crate::text::same_text(a.as_str(), v[i].as_str()),
            None => false,
        };
        if is_open == open_wanted && !(skip_active && is_active) {
            out.push(v[i].clone());
            assert(strings_view(out@) =~= before.push(sv[i as int]));
        }
        i = i + 1;
    }
    assert(sv.take(i as int) =~= sv);
    out
}

/// The keys of the rendered charts the tab bar evicts when a tab is chosen.
pub fn cache_keys_to_evict(keys: &Vec<String>, open_ids: &Vec<String>, active_id: &Option<String>) -> (r: Vec<String>)
    ensures
        strings_view(r@) == evicted_keys(strings_view(keys@), strings_view(open_ids@), crate::text::opt_string_view(*active_id)),
{
    if keys.len() <= MAX_RENDERED {
        let none: Vec<String> = Vec::new();
        assert(strings_view(none@) =~= Seq::<Seq<char>>::empty());
        return none;
    }
    let stale = pick_keys(keys, open_ids, false, active_id, false);
    let kept = pick_keys(keys, open_ids, true, active_id, false);
    if kept.len() <= MAX_RENDERED {
        return stale;
    }
    let candidates = pick_keys(&kept, open_ids, true, active_id, true);
    let ghost cv = strings_view(candidates@);
    let extra = kept.len() - MAX_RENDERED;
    let mut out = stale;
    let ghost sv = strings_view(out@);
    let mut i: usize = 0;
    while i < candidates.len() && i < extra
        invariant
            i <= candidates.len(),
            i <= extra,
            cv == strings_view(candidates@),
            strings_view(out@) == sv + cv.take(i as int),
        decreases candidates.len() - i,
    {
        let ghost before = strings_view(out@);
        out.push(candidates[i].clone());
        assert(strings_view(out@) =~= before.push(cv[i as int]));
        assert(cv.take(i + 1) =~= cv.take(i as int).push(cv[i as int]));
        i = i + 1;
    }
    if candidates.len() <= extra {
        assert(cv.take(i as int) =~= cv);
    }
    out
}

/// The first chart of the last search that is the same document as `saved`, or `saved`.
pub open spec fn rendering_chart_of(charts: Seq<ChartView>, saved: ChartView) -> ChartView
    decreases charts.len(),
{
    if charts.len() == 0 {
        saved
    } else if same_document(charts[0], saved) {
        charts[0]
    } else {
        rendering_chart_of(charts.drop_first(), saved)
    }
}

/// The chart whose pages the viewer renders for a tab's chart: the chart of the last search
/// that is the same document, as it was found, or the tab's chart.
pub fn rendering_chart(state: &AppState, chart: &Chart) -> (r: Chart)
    ensures
        r@ == rendering_chart_of(chart_views(state.charts@), chart@),
{
    let ghost cv = chart_views(state.charts@);
    let mut i: usize = 0;
    assert(cv.skip(0) =~= cv);
    while i < state.charts.len()
        invariant
            i <= state.charts.len(),
            cv == chart_views(state.charts@),
            rendering_chart_of(cv, chart@) == rendering_chart_of(cv.skip(i as int), chart@),
        decreases state.charts.len() - i,
    {
        let c = &state.charts[i];
        assert(cv.skip(i as int)[0] == c@);
        if c.source == chart.source && c.provider_relative_url == chart.provider_relative_url {
            return c.duplicate();
        }
        assert(cv.skip(i as int).drop_first() =~= cv.skip(i + 1));
        i = i + 1;
    }
    assert(cv.skip(i as int) =~= Seq::<ChartView>::empty());
    chart.duplicate()
}

// ---------------------------------------------------------------- the ATIS viewer

/// The refresh line of the ATIS viewer: refreshing while loading; else, once loaded
/// `elapsed` seconds ago, just now under a minute and the whole minutes after; pending
/// before the first load.
pub open spec fn atis_refresh_status_of(lang: AppLanguage, loading: bool, elapsed: Option<u64>) -> Seq<char> {
    if loading {
        translation(lang, "atis.refreshing"@)
    } else {
        match elapsed {
            Some(s) => if s / 60 == 0 {
                translation(lang, "atis.updated.just_now"@)
            } else {
                translation(lang, "atis.updated"@) + " "@ + decimal((s / 60) as nat) + " min"@
            },
            None => translation(lang, "atis.updated.pending"@),
        }
    }
}

/// The refresh line of the ATIS viewer.
pub fn atis_refresh_status(lang: AppLanguage, loading: bool, elapsed: Option<u64>) -> (r: String)
    ensures
        r@ == atis_refresh_status_of(lang, loading, elapsed),
{
    proof {
        reveal_strlit("atis.refreshing");
        reveal_strlit("atis.updated.just_now");
        reveal_strlit("atis.updated");
        reveal_strlit("atis.updated.pending");
    }
    if loading {
        return string_of(&chars_of(tr(lang, "atis.refreshing")));
    }
    match elapsed {
        Some(s) => {
            let minutes = s / 60;
            if minutes == 0 {
                string_of(&chars_of(tr(lang, "atis.updated.just_now")))
            } else {
                let mut v = chars_of(tr(lang, "atis.updated"));
                push_str(&mut v, " ");
                push_all(&mut v, &decimal_of(minutes));
                push_str(&mut v, " min");
                string_of(&v)
            }
        },
        None => string_of(&chars_of(tr(lang, "atis.updated.pending"))),
    }
}

} // verus!
