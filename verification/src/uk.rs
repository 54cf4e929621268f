//! Charts of an aerodrome page of the UK NATS eAIP.
use vstd::prelude::*;
use crate::airac::{nats_airac_part_text, AiracCycle};
use crate::calendar::{date_of_day_number, day_number_of, min_day_number, CalendarDate};
use crate::html::{anchors_of, anchors_view, html_anchors, AnchorView};
use crate::models::{Chart, ChartCategory, ChartSource, ChartView};
use crate::order::{sorted_distinct, sorted_unique};
use crate::pattern::{ci_at, ci_at_of, scan_captures, slice_of};
use crate::sia::{after_last, after_last_of, charts_view, relative_url, relative_url_of};
use crate::sia_names::{
    contains_lit, designator_len, designator_len_of, lemma_scan_captures_step, push_tag_if, tag_if,
};
use crate::text::{
    chars_of, contains_text, decimal_padded, decimal_padded_of, has_suffix, has_suffix_of,
    is_white_space, is_white_space_of, lowercase, push_str, string_of, strings_view,
    to_lowercase_of, to_uppercase_of, trim_ws, trim_ws_of, uppercase, vec_views,
};

verus! {

broadcast use vstd::string::group_string_axioms;

// ---------------------------------------------------------------- categories and tags

/// Category of a chart from its upper-case link text.
pub open spec fn uk_category_of(s: Seq<char>) -> ChartCategory {
    if contains_text(s, "AERODROME CHART"@) || contains_text(s, "ADC"@) {
        ChartCategory::Aerodrome
    } else if contains_text(s, "AIRCRAFT PARKING"@) || contains_text(s, "PARKING"@) {
        ChartCategory::Parking
    } else if contains_text(s, "GROUND MOVEMENT"@) || contains_text(s, "GMC"@) {
        ChartCategory::Ground
    } else if contains_text(s, "STANDARD DEPARTURE"@) || contains_text(s, "SID"@) {
        ChartCategory::Sid
    } else if contains_text(s, "STANDARD ARRIVAL"@) || contains_text(s, "STAR"@) {
        ChartCategory::Star
    } else if contains_text(s, "INSTRUMENT APPROACH"@) || contains_text(s, "IAC"@) {
        ChartCategory::Iac
    } else if contains_text(s, "VISUAL APPROACH"@) {
        ChartCategory::Vac
    } else {
        ChartCategory::Other
    }
}

/// Category of a chart from its upper-case link text.
pub fn detect_uk_category(upper: &str) -> (r: ChartCategory)
    ensures
        r == uk_category_of(upper@),
{
    let s = chars_of(upper);
    if contains_lit(&s, "AERODROME CHART") || contains_lit(&s, "ADC") {
        ChartCategory::Aerodrome
    } else if contains_lit(&s, "AIRCRAFT PARKING") || contains_lit(&s, "PARKING") {
        ChartCategory::Parking
    } else if contains_lit(&s, "GROUND MOVEMENT") || contains_lit(&s, "GMC") {
        ChartCategory::Ground
    } else if contains_lit(&s, "STANDARD DEPARTURE") || contains_lit(&s, "SID") {
        ChartCategory::Sid
    } else if contains_lit(&s, "STANDARD ARRIVAL") || contains_lit(&s, "STAR") {
        ChartCategory::Star
    } else if contains_lit(&s, "INSTRUMENT APPROACH") || contains_lit(&s, "IAC") {
        ChartCategory::Iac
    } else if contains_lit(&s, "VISUAL APPROACH") {
        ChartCategory::Vac
    } else {
        ChartCategory::Other
    }
}

/// End of the run of white space starting at `j`.
pub open spec fn ws_run_end(s: Seq<char>, j: int) -> int
    decreases s.len() - j,
{
    if 0 <= j < s.len() && is_white_space(s[j]) { ws_run_end(s, j + 1) } else { j }
}

/// End of `RWY` or `RUNWAY` (either case) at `p`, or `p`.
pub open spec fn runway_word_end(s: Seq<char>, p: int) -> int {
    if ci_at(s, p, seq!['R', 'W', 'Y']) {
        p + 3
    } else if ci_at(s, p, seq!['R', 'U', 'N', 'W', 'A', 'Y']) {
        p + 6
    } else {
        p
    }
}

/// Start of the designator of the runway match at `p`.
pub open spec fn uk_designator_start(s: Seq<char>, p: int) -> int {
    ws_run_end(s, runway_word_end(s, p))
}

/// End of the match of `(?i)(?:RWY|RUNWAY)\s*(\d{2}[LRC]?)` at `p`, or `p`.
pub open spec fn uk_rwy_end(s: Seq<char>, p: int) -> int {
    let q = uk_designator_start(s, p);
    if runway_word_end(s, p) > p && designator_len(s, q, true) > 0 {
        q + designator_len(s, q, true)
    } else {
        p
    }
}

/// The runway matcher of link texts.
pub open spec fn uk_rwy_matcher() -> spec_fn(Seq<char>, int) -> int {
    |t: Seq<char>, i: int| uk_rwy_end(t, i)
}

/// The designator captured by the runway match at `p`.
pub open spec fn uk_rwy_capturer() -> spec_fn(Seq<char>, int) -> Seq<char> {
    |t: Seq<char>, i: int| t.subrange(uk_designator_start(t, i), uk_rwy_end(t, i))
}

/// Runway designators named in a link text, from left to right.
pub open spec fn uk_runway_captures(s: Seq<char>) -> Seq<Seq<char>> {
    scan_captures(s, 0, uk_rwy_matcher(), uk_rwy_capturer())
}

/// Tags that a link text holds by its words.
pub open spec fn uk_marker_tags(s: Seq<char>) -> Seq<Seq<char>> {
    tag_if(contains_text(s, "ILS"@), "ILS"@) + tag_if(contains_text(s, "LOC"@), "LOC"@)
        + tag_if(contains_text(s, "RNP"@), "RNP"@) + tag_if(contains_text(s, "RNAV"@), "RNAV"@)
        + tag_if(contains_text(s, "VOR"@), "VOR"@) + tag_if(contains_text(s, "NDB"@), "NDB"@)
        + tag_if(contains_text(s, "DME"@), "DME"@) + tag_if(contains_text(s, "VISUAL"@), "VISUAL"@)
}

/// The ILS category tag of a link text: `CAT III` when it names category III, else `CAT II`
/// when it names category II.
pub open spec fn uk_cat_tag(s: Seq<char>) -> Seq<Seq<char>> {
    if contains_text(s, "CAT II"@) || contains_text(s, "CAT III"@) {
        if contains_text(s, "CAT III"@) { seq!["CAT III"@] } else { seq!["CAT II"@] }
    } else {
        Seq::empty()
    }
}

/// All tags of a link text, before sorting.
pub open spec fn uk_tag_candidates(s: Seq<char>) -> Seq<Seq<char>> {
    uk_marker_tags(s) + uk_cat_tag(s) + uk_runway_captures(s)
}

fn ws_run_end_of(s: &Vec<char>, j: usize) -> (r: usize)
    requires
        j <= s.len(),
    ensures
        r as int == ws_run_end(s@, j as int),
        j <= r <= s.len(),
{
    let mut k = j;
    while k < s.len() && is_white_space_of(s[k])
        invariant
            j <= k <= s.len(),
            ws_run_end(s@, j as int) == ws_run_end(s@, k as int),
        decreases s.len() - k,
    {
        k = k + 1;
    }
    k
}

fn runway_word_end_of(s: &Vec<char>, p: usize) -> (r: usize)
    requires
        p <= s.len(),
    ensures
        r as int == runway_word_end(s@, p as int),
        p <= r <= s.len(),
{
    if ci_at_of(s, p, &vec!['R', 'W', 'Y']) {
        p + 3
    } else if ci_at_of(s, p, &vec!['R', 'U', 'N', 'W', 'A', 'Y']) {
        p + 6
    } else {
        p
    }
}

/// Runway designators named in a link text.
fn uk_runway_captures_of(s: &Vec<char>) -> (r: Vec<Vec<char>>)
    ensures
        vec_views(r@) == uk_runway_captures(s@),
{
    let ghost m = uk_rwy_matcher();
    let ghost cap = uk_rwy_capturer();
    let mut out: Vec<Vec<char>> = Vec::new();
    let mut i: usize = 0;
    assert(vec_views(out@) + scan_captures(s@, 0, m, cap) =~= scan_captures(s@, 0, m, cap));
    while i < s.len()
        invariant
            i <= s.len(),
            m == uk_rwy_matcher(),
            cap == uk_rwy_capturer(),
            vec_views(out@) + scan_captures(s@, i as int, m, cap) == scan_captures(s@, 0, m, cap),
        decreases s.len() - i,
    {
        proof { lemma_scan_captures_step(s@, i as int, m, cap); }
        let w = runway_word_end_of(s, i);
        let q = ws_run_end_of(s, w);
        let n = if w > i { designator_len_of(s, q, true) } else { 0 };
        let e = if n > 0 { q + n } else { i };
        assert(m(s@, i as int) == e);
        if e > i {
            let ghost before = vec_views(out@);
            let c = slice_of(s, q, e);
            assert(cap(s@, i as int) == c@);
            out.push(c);
            let ghost rest = scan_captures(s@, e as int, m, cap);
            assert(vec_views(out@) =~= before.push(c@));
            assert(before.push(c@) + rest =~= before + (seq![c@] + rest));
            i = e;
        } else {
            i = i + 1;
        }
    }
    assert(vec_views(out@) + Seq::<Seq<char>>::empty() =~= vec_views(out@));
    out
}

/// Tags of a chart from its upper-case link text: navigation aids, ILS category and runways,
/// sorted, without repetitions.
pub fn extract_uk_tags(upper: &str) -> (r: Vec<String>)
    ensures
        strings_view(r@) == sorted_distinct(uk_tag_candidates(upper@)),
{
    let s = chars_of(upper);
    let mut tags: Vec<Vec<char>> = Vec::new();
    assert(vec_views(tags@) =~= Seq::<Seq<char>>::empty());
    push_tag_if(&mut tags, contains_lit(&s, "ILS"), "ILS");
    push_tag_if(&mut tags, contains_lit(&s, "LOC"), "LOC");
    push_tag_if(&mut tags, contains_lit(&s, "RNP"), "RNP");
    push_tag_if(&mut tags, contains_lit(&s, "RNAV"), "RNAV");
    push_tag_if(&mut tags, contains_lit(&s, "VOR"), "VOR");
    push_tag_if(&mut tags, contains_lit(&s, "NDB"), "NDB");
    push_tag_if(&mut tags, contains_lit(&s, "DME"), "DME");
    push_tag_if(&mut tags, contains_lit(&s, "VISUAL"), "VISUAL");
    assert(vec_views(tags@) =~= uk_marker_tags(s@));
    let ghost a = vec_views(tags@);
    let cat2 = contains_lit(&s, "CAT II");
    let cat3 = contains_lit(&s, "CAT III");
    if cat2 || cat3 {
        if cat3 {
            tags.push(chars_of("CAT III"));
        } else {
            tags.push(chars_of("CAT II"));
        }
    }
    assert(vec_views(tags@) =~= a + uk_cat_tag(s@));
    let ghost b = vec_views(tags@);
    let mut caps = uk_runway_captures_of(&s);
    let ghost c = vec_views(caps@);
    tags.append(&mut caps);
    assert(vec_views(tags@) =~= b + c);
    sorted_unique(&tags)
}

/// Runways of a chart from its upper-case link text, sorted, without repetitions.
pub fn extract_uk_runways(upper: &str) -> (r: Vec<String>)
    ensures
        strings_view(r@) == sorted_distinct(uk_runway_captures(upper@)),
{
    let s = chars_of(upper);
    let caps = uk_runway_captures_of(&s);
    sorted_unique(&caps)
}

// ---------------------------------------------------------------- the page

/// The chart that the link at position `i` of the page names.
pub open spec fn uk_chart(a: AnchorView, i: int, icao: Seq<char>, airac: Seq<char>) -> ChartView {
    let u = uppercase(a.1);
    ChartView {
        id: uppercase(icao) + "-UK-"@ + decimal_padded(i as nat, 2),
        source: ChartSource::Uk,
        category: uk_category_of(u),
        subtitle: trim_ws(a.1),
        filename: after_last(a.0, '/'),
        provider_relative_url: relative_url(a.0),
        linked_provider_relative_urls: Seq::empty(),
        airac_code: airac,
        page: None,
        tags: sorted_distinct(uk_tag_candidates(u)),
        runways: sorted_distinct(uk_runway_captures(u)),
        custom_title: None,
    }
}

/// The charts of a UK aerodrome page: one per link whose address ends with `.pdf` in any
/// case, numbered by the link's position among all links.
pub open spec fn uk_charts(anchors: Seq<AnchorView>, icao: Seq<char>, airac: Seq<char>) -> Seq<ChartView>
    decreases anchors.len(),
{
    if anchors.len() == 0 {
        Seq::empty()
    } else {
        let prev = uk_charts(anchors.drop_last(), icao, airac);
        let a = anchors.last();
        if has_suffix(lowercase(a.0), ".pdf"@) {
            prev.push(uk_chart(a, anchors.len() - 1, icao, airac))
        } else {
            prev
        }
    }
}

/// The charts that a UK aerodrome page's links name.
pub fn uk_charts_from_anchors(anchors: &Vec<(String, String)>, icao: &str, airac_code: &str) -> (r: Vec<Chart>)
    ensures
        charts_view(r@) == uk_charts(anchors_view(anchors@), icao@, airac_code@),
{
    let ghost av = anchors_view(anchors@);
    let iu = to_uppercase_of(icao);
    let mut charts: Vec<Chart> = Vec::new();
    let mut i: usize = 0;
    assert(av.take(0) =~= Seq::<AnchorView>::empty());
    assert(charts_view(charts@) =~= Seq::<ChartView>::empty());
    while i < anchors.len()
        invariant
            i <= anchors.len(),
            av == anchors_view(anchors@),
            iu@ == uppercase(icao@),
            charts_view(charts@) == uk_charts(av.take(i as int), icao@, airac_code@),
        decreases anchors.len() - i,
    {
        let href = &anchors[i].0;
        let text = &anchors[i].1;
        assert(av[i as int] == (href@, text@));
        assert(av.take(i + 1).drop_last() =~= av.take(i as int));
        assert(av.take(i + 1).last() == av[i as int]);
        let lower = to_lowercase_of(href.as_str());
        if has_suffix_of(&chars_of(lower.as_str()), &chars_of(".pdf")) {
            let upper = to_uppercase_of(text.as_str());
            let h = chars_of(href.as_str());
            let mut id = chars_of(iu.as_str());
            push_str(&mut id, "-UK-");
            let n = decimal_padded_of(i as u64, 2);
            crate::text::push_all(&mut id, &n);
            let c = Chart {
                id: string_of(&id),
                source: ChartSource::Uk,
                category: detect_uk_category(upper.as_str()),
                subtitle: string_of(&trim_ws_of(&chars_of(text.as_str()))),
                filename: string_of(&after_last_of(&h, '/')),
                provider_relative_url: relative_url_of(&h),
                linked_provider_relative_urls: Vec::new(),
                airac_code: string_of(&chars_of(airac_code)),
                page: None,
                tags: extract_uk_tags(upper.as_str()),
                runways: extract_uk_runways(upper.as_str()),
                custom_title: None,
            };
            let ghost before = charts_view(charts@);
            assert(strings_view(c.linked_provider_relative_urls@) =~= Seq::<Seq<char>>::empty());
            assert(c@ == uk_chart(av[i as int], i as int, icao@, airac_code@));
            charts.push(c);
            assert(charts_view(charts@) =~= before.push(c@));
        }
        i = i + 1;
    }
    assert(av.take(i as int) =~= av);
    charts
}

/// The charts of a UK aerodrome page. The page always parses.
pub fn parse_uk_html(html: &str, icao: &str, airac_code: &str) -> (r: Result<Vec<Chart>, String>)
    ensures
        r matches Ok(v) && charts_view(v@) == uk_charts(html_anchors(html@), icao@, airac_code@),
{
    let anchors = anchors_of(html);
    Ok(uk_charts_from_anchors(&anchors, icao, airac_code))
}

// ---------------------------------------------------------------- addresses

/// Address of the UK eAIP page of an aerodrome in the publication folder `part`.
pub open spec fn uk_url(part: Seq<char>, icao: Seq<char>) -> Seq<char> {
    "https://www.aurora.nats.co.uk/htmlAIP/Publications/"@ + part + "/html/eAIP/EG-AD-2."@
        + uppercase(icao) + "-en-GB.html"@
}

/// Address of the UK eAIP page of an aerodrome in the publication folder `airac_part`.
pub fn build_uk_url(airac_part: &str, icao: &str) -> (r: String)
    ensures
        r@ == uk_url(airac_part@, icao@),
{
    let mut v = chars_of("https://www.aurora.nats.co.uk/htmlAIP/Publications/");
    push_str(&mut v, airac_part);
    push_str(&mut v, "/html/eAIP/EG-AD-2.");
    let iu = to_uppercase_of(icao);
    push_str(&mut v, iu.as_str());
    push_str(&mut v, "-en-GB.html");
    string_of(&v)
}

/// Whether the cycles of the three publications tried for a page, the given cycle and the
/// two before it, and the day 84 days before its start, are representable.
pub open spec fn candidates_representable(start: int) -> bool {
    &&& min_day_number() <= start - 84
    &&& crate::airac::cycle_representable(start)
    &&& crate::airac::cycle_representable(start - 28)
    &&& crate::airac::cycle_representable(start - 56)
}

/// Whether `p` holds the publication folder and the code of the cycle that contains day `n`.
pub open spec fn is_part_of_cycle(p: (Seq<char>, Seq<char>), n: int) -> bool {
    exists|c: AiracCycle| #[trigger] c.is_cycle_for(n) && p.0 == nats_airac_part_text(c.start_date) && p.1 == c.code@
}

/// The publication folders and cycle codes to try for a page, newest first: the cycle of the
/// given cycle's first day, then of the days 28 and 56 days before it.
pub fn candidate_airac_parts(airac: &AiracCycle) -> (r: Vec<(String, String)>)
    requires
        airac.start_date.is_valid(),
        candidates_representable(airac.start_date.day_number()),
    ensures
        r@.len() == 3,
        forall|k: int| 0 <= k < 3 ==> is_part_of_cycle(
            ((#[trigger] r@[k]).0@, r@[k].1@),
            airac.start_date.day_number() - 28 * k,
        ),
{
    let mut parts: Vec<(String, String)> = Vec::new();
    let mut date = airac.start_date;
    let ghost s = airac.start_date.day_number();
    let mut k: usize = 0;
    while k < 3
        invariant
            k <= 3,
            parts@.len() == k,
            date.is_valid(),
            date.day_number() == s - 28 * k,
            candidates_representable(s),
            forall|j: int| 0 <= j < k ==> is_part_of_cycle(((#[trigger] parts@[j]).0@, parts@[j].1@), s - 28 * j),
        decreases 3 - k,
    {
        let cycle = AiracCycle::for_date(date);
        let part = cycle.nats_airac_part();
        let ghost before = parts@;
        let code = cycle.code.clone();
        parts.push((part, code));
        assert(cycle.is_cycle_for(s - 28 * k));
        assert(is_part_of_cycle((parts@[k as int].0@, parts@[k as int].1@), s - 28 * k));
        assert forall|j: int| 0 <= j < k + 1 implies is_part_of_cycle(((#[trigger] parts@[j]).0@, parts@[j].1@), s - 28 * j) by {
            if j < k {
                assert(parts@[j] == before[j]);
            }
        }
        let n = day_number_of(&date);
        date = date_of_day_number(n - 28);
        k = k + 1;
    }
    parts
}

/// The publication folders and cycle codes to try for a page, as [`candidate_airac_parts`]
/// gives them; `None` when the cycle's first day is not a valid date, or when the cycles
/// before it fall outside the supported dates.
pub fn candidate_airac_parts_checked(airac: &AiracCycle) -> (r: Option<Vec<(String, String)>>)
    ensures
        r is Some <==> (airac.start_date.is_valid() && candidates_representable(airac.start_date.day_number())),
        r matches Some(v) ==> v@.len() == 3 && forall|k: int| 0 <= k < 3 ==> is_part_of_cycle(
            ((#[trigger] v@[k]).0@, v@[k].1@),
            airac.start_date.day_number() - 28 * k,
        ),
{
    let d = airac.start_date;
    if CalendarDate::from_ymd_opt(d.year, d.month, d.day).is_none() {
        return None;
    }
    assert(d.is_valid());
    let first = CalendarDate { year: crate::calendar::MIN_YEAR, month: 1, day: 1 };
    assert(first.is_valid());
    let min = day_number_of(&first);
    let n = day_number_of(&d);
    if (n as i64) - 84 < min as i64 {
        return None;
    }
    if crate::airac::cycle_fits(n) && crate::airac::cycle_fits(n - 28) && crate::airac::cycle_fits(n - 56) {
        Some(candidate_airac_parts(airac))
    } else {
        None
    }
}


// ---------------------------------------------------------------- laws of the tags

proof fn lemma_ws_run_end_after(s: Seq<char>, j: int)
    ensures
        ws_run_end(s, j) >= j,
    decreases s.len() - j,
{
    if 0 <= j < s.len() && is_white_space(s[j]) {
        lemma_ws_run_end_after(s, j + 1);
    }
}

/// Every runway designator captured from a link text starts with a digit and has two
/// characters at least.
proof fn lemma_uk_captures_start_with_digit(s: Seq<char>, i: int)
    ensures
        forall|k: int| 0 <= k < scan_captures(s, i, uk_rwy_matcher(), uk_rwy_capturer()).len() ==> {
            let c = #[trigger] scan_captures(s, i, uk_rwy_matcher(), uk_rwy_capturer())[k];
            c.len() >= 2 && crate::pattern::re_digit(c[0])
        },
    decreases s.len() - i,
{
    let m = uk_rwy_matcher();
    let cap = uk_rwy_capturer();
    if i < 0 || i >= s.len() {
    } else {
        let e = m(s, i);
        if i < e <= s.len() {
            lemma_uk_captures_start_with_digit(s, e);
            let q = uk_designator_start(s, i);
            lemma_ws_run_end_after(s, runway_word_end(s, i));
            assert(runway_word_end(s, i) >= i);
            assert(designator_len(s, q, true) > 0);
            let c0 = cap(s, i);
            assert(c0 == s.subrange(q, q + designator_len(s, q, true)));
            assert(c0[0] == s[q]);
            let all = scan_captures(s, i, m, cap);
            assert(all == seq![c0] + scan_captures(s, e, m, cap));
            assert forall|k: int| 0 <= k < all.len() implies (#[trigger] all[k]).len() >= 2 && crate::pattern::re_digit(all[k][0]) by {
                if k > 0 {
                    assert(all[k] == scan_captures(s, e, m, cap)[k - 1]);
                }
            }
        } else {
            lemma_uk_captures_start_with_digit(s, i + 1);
            assert(scan_captures(s, i, m, cap) == scan_captures(s, i + 1, m, cap));
        }
    }
}

proof fn lemma_concat_contains(a: Seq<Seq<char>>, b: Seq<Seq<char>>, x: Seq<char>)
    ensures
        (a + b).contains(x) <==> (a.contains(x) || b.contains(x)),
{
    let c = a + b;
    if c.contains(x) {
        let q = choose|q: int| 0 <= q < c.len() && c[q] == x;
        if q < a.len() {
            assert(a[q] == x);
        } else {
            assert(b[q - a.len()] == x);
        }
    }
    if a.contains(x) {
        let q = choose|q: int| 0 <= q < a.len() && a[q] == x;
        assert(c[q] == x);
    }
    if b.contains(x) {
        let q = choose|q: int| 0 <= q < b.len() && b[q] == x;
        assert(c[q + a.len()] == x);
    }
}

proof fn lemma_tag_if_contains(c: bool, tag: Seq<char>, x: Seq<char>)
    ensures
        tag_if(c, tag).contains(x) <==> (c && x == tag),
{
    if c {
        assert(tag_if(c, tag)[0] == tag);
    }
}

proof fn lemma_marker_tags_contains(s: Seq<char>, x: Seq<char>)
    ensures
        uk_marker_tags(s).contains(x) <==> (
            (contains_text(s, "ILS"@) && x == "ILS"@) || (contains_text(s, "LOC"@) && x == "LOC"@)
            || (contains_text(s, "RNP"@) && x == "RNP"@) || (contains_text(s, "RNAV"@) && x == "RNAV"@)
            || (contains_text(s, "VOR"@) && x == "VOR"@) || (contains_text(s, "NDB"@) && x == "NDB"@)
            || (contains_text(s, "DME"@) && x == "DME"@) || (contains_text(s, "VISUAL"@) && x == "VISUAL"@)
        ),
{
    let t1 = tag_if(contains_text(s, "ILS"@), "ILS"@);
    let t2 = tag_if(contains_text(s, "LOC"@), "LOC"@);
    let t3 = tag_if(contains_text(s, "RNP"@), "RNP"@);
    let t4 = tag_if(contains_text(s, "RNAV"@), "RNAV"@);
    let t5 = tag_if(contains_text(s, "VOR"@), "VOR"@);
    let t6 = tag_if(contains_text(s, "NDB"@), "NDB"@);
    let t7 = tag_if(contains_text(s, "DME"@), "DME"@);
    let t8 = tag_if(contains_text(s, "VISUAL"@), "VISUAL"@);
    lemma_tag_if_contains(contains_text(s, "ILS"@), "ILS"@, x);
    lemma_tag_if_contains(contains_text(s, "LOC"@), "LOC"@, x);
    lemma_tag_if_contains(contains_text(s, "RNP"@), "RNP"@, x);
    lemma_tag_if_contains(contains_text(s, "RNAV"@), "RNAV"@, x);
    lemma_tag_if_contains(contains_text(s, "VOR"@), "VOR"@, x);
    lemma_tag_if_contains(contains_text(s, "NDB"@), "NDB"@, x);
    lemma_tag_if_contains(contains_text(s, "DME"@), "DME"@, x);
    lemma_tag_if_contains(contains_text(s, "VISUAL"@), "VISUAL"@, x);
    lemma_concat_contains(t1, t2, x);
    lemma_concat_contains(t1 + t2, t3, x);
    lemma_concat_contains(t1 + t2 + t3, t4, x);
    lemma_concat_contains(t1 + t2 + t3 + t4, t5, x);
    lemma_concat_contains(t1 + t2 + t3 + t4 + t5, t6, x);
    lemma_concat_contains(t1 + t2 + t3 + t4 + t5 + t6, t7, x);
    lemma_concat_contains(t1 + t2 + t3 + t4 + t5 + t6 + t7, t8, x);
}

/// The tags of a link text hold an aid word exactly when its marker tags do: the ILS category
/// tags start with `C` and the runway designators with a digit.
proof fn lemma_aid_word_tags(s: Seq<char>, w: Seq<char>)
    requires
        w.len() >= 1,
        w[0] != 'C',
        !crate::pattern::re_digit(w[0]),
    ensures
        sorted_distinct(uk_tag_candidates(s)).contains(w) <==> uk_marker_tags(s).contains(w),
{
    reveal_strlit("CAT II");
    reveal_strlit("CAT III");
    let cands = uk_tag_candidates(s);
    crate::order::lemma_sorted_distinct_props(cands);
    let mk = uk_marker_tags(s);
    let ct = uk_cat_tag(s);
    let rc = uk_runway_captures(s);
    lemma_uk_captures_start_with_digit(s, 0);
    assert(!rc.contains(w)) by {
        if rc.contains(w) {
            let q = choose|q: int| 0 <= q < rc.len() && rc[q] == w;
            assert(crate::pattern::re_digit(rc[q][0]));
        }
    }
    assert(!ct.contains(w)) by {
        if ct.contains(w) {
            let q = choose|q: int| 0 <= q < ct.len() && ct[q] == w;
            assert(ct[q][0] == 'C');
        }
    }
    lemma_concat_contains(mk, ct, w);
    lemma_concat_contains(mk + ct, rc, w);
}

/// The navigation aids and procedures a UK chart is tagged with when its link text names
/// them.
pub open spec fn uk_aid_words() -> Seq<Seq<char>> {
    seq!["ILS"@, "LOC"@, "RNP"@, "RNAV"@, "VOR"@, "NDB"@, "DME"@, "VISUAL"@]
}

/// Each aid tag of a UK chart is among its tags exactly when its link text names that aid: for
/// instance `NDB` is a tag exactly when the text holds `NDB`, and `VOR` exactly when it holds
/// `VOR`.
pub proof fn law_uk_aid_tag_iff_named(s: Seq<char>, k: int)
    requires
        0 <= k < 8,
    ensures
        sorted_distinct(uk_tag_candidates(s)).contains(uk_aid_words()[k])
            <==> contains_text(s, uk_aid_words()[k]),
{
    reveal_strlit("ILS");
    reveal_strlit("LOC");
    reveal_strlit("RNP");
    reveal_strlit("RNAV");
    reveal_strlit("VOR");
    reveal_strlit("NDB");
    reveal_strlit("DME");
    reveal_strlit("VISUAL");
    let w = uk_aid_words()[k];
    assert(w.len() >= 3 && w[0] != 'C' && !crate::pattern::re_digit(w[0]));
    lemma_aid_word_tags(s, w);
    lemma_marker_tags_contains(s, w);
}

} // verus!
