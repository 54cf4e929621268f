//! The grammar of SIA chart file names: categories, tags, runways, subtitles and the
//! instruction sheets that belong to a chart.
use vstd::prelude::*;
use crate::models::{category_label, category_rank, ChartCategory};
use crate::order::{lemma_sorted_distinct_of, same_elements, sorted_distinct, sorted_unique, strictly_sorted};
use crate::pattern::{
    ci_at, ci_at_of, exact_at, exact_at_of, is_re_digit, is_re_word, lemma_scan_replace_step,
    no_newline, no_newline_of, re_digit, re_word, replace_first, replace_text, replace_text_of,
    scan_captures, scan_replace, slice_of, split_on, split_on_of,
};
use crate::text::{
    chars_of, contains_of, contains_string, contains_text, push_all, string_of, strings_view, to_uppercase_of,
    trim_end_char, trim_end_char_of, trim_end_text, trim_end_text_of, trim_start_char,
    trim_start_char_of, trim_ws, trim_ws_of, uppercase, vec_views,
};

verus! {

// ---------------------------------------------------------------- categories and exclusions

/// Category of a chart from its upper-case file name.
pub open spec fn category_of_name(s: Seq<char>) -> ChartCategory {
    if contains_text(s, "_ADC_"@) || contains_text(s, "_ADCHART_"@) {
        ChartCategory::Aerodrome
    } else if contains_text(s, "_APDC_"@) || contains_text(s, "_PARKING"@) {
        ChartCategory::Parking
    } else if contains_text(s, "_GMC_"@) || contains_text(s, "_GROUND"@) {
        ChartCategory::Ground
    } else if contains_text(s, "_SID_"@) {
        ChartCategory::Sid
    } else if contains_text(s, "_STAR_"@) {
        ChartCategory::Star
    } else if contains_text(s, "_IAC_"@) {
        ChartCategory::Iac
    } else if contains_text(s, "_VAC_"@) {
        ChartCategory::Vac
    } else if contains_text(s, "_VLC_"@) {
        ChartCategory::Vlc
    } else if contains_text(s, "_TEM_"@) {
        ChartCategory::Tem
    } else {
        ChartCategory::Other
    }
}

/// Whether a file name holds a marker of category `c`: `_ADC_` or `_ADCHART_` for
/// aerodrome charts, `_APDC_` or `_PARKING` for parking charts, `_GMC_` or `_GROUND` for
/// ground charts, and for SID, STAR, IAC, VAC, VLC and TEM charts the category's label between
/// underscores (`_VLC_`); SUP AIP and other charts have no marker.
pub open spec fn holds_marker(s: Seq<char>, c: ChartCategory) -> bool {
    match c {
        ChartCategory::Aerodrome => contains_text(s, "_ADC_"@) || contains_text(s, "_ADCHART_"@),
        ChartCategory::Parking => contains_text(s, "_APDC_"@) || contains_text(s, "_PARKING"@),
        ChartCategory::Ground => contains_text(s, "_GMC_"@) || contains_text(s, "_GROUND"@),
        ChartCategory::SupAip | ChartCategory::Other => false,
        _ => contains_text(s, seq!['_'] + category_label(c) + seq!['_']),
    }
}

proof fn lemma_label_markers()
    ensures
        seq!['_'] + category_label(ChartCategory::Sid) + seq!['_'] == "_SID_"@,
        seq!['_'] + category_label(ChartCategory::Star) + seq!['_'] == "_STAR_"@,
        seq!['_'] + category_label(ChartCategory::Iac) + seq!['_'] == "_IAC_"@,
        seq!['_'] + category_label(ChartCategory::Vac) + seq!['_'] == "_VAC_"@,
        seq!['_'] + category_label(ChartCategory::Vlc) + seq!['_'] == "_VLC_"@,
        seq!['_'] + category_label(ChartCategory::Tem) + seq!['_'] == "_TEM_"@,
{
    reveal_strlit("SID");
    reveal_strlit("STAR");
    reveal_strlit("IAC");
    reveal_strlit("VAC");
    reveal_strlit("VLC");
    reveal_strlit("TEM");
    reveal_strlit("_SID_");
    reveal_strlit("_STAR_");
    reveal_strlit("_IAC_");
    reveal_strlit("_VAC_");
    reveal_strlit("_VLC_");
    reveal_strlit("_TEM_");
    assert(seq!['_'] + category_label(ChartCategory::Sid) + seq!['_'] =~= "_SID_"@);
    assert(seq!['_'] + category_label(ChartCategory::Star) + seq!['_'] =~= "_STAR_"@);
    assert(seq!['_'] + category_label(ChartCategory::Iac) + seq!['_'] =~= "_IAC_"@);
    assert(seq!['_'] + category_label(ChartCategory::Vac) + seq!['_'] =~= "_VAC_"@);
    assert(seq!['_'] + category_label(ChartCategory::Vlc) + seq!['_'] =~= "_VLC_"@);
    assert(seq!['_'] + category_label(ChartCategory::Tem) + seq!['_'] =~= "_TEM_"@);
}

/// The category of a chart file name is one whose marker it holds, and of the categories
/// whose markers it holds, the first in listing order; a name that holds no marker is of the
/// other charts. So a name holding `_VLC_` and no marker of an earlier category is a VLC
/// chart.
pub proof fn law_category_is_first_marker_held(s: Seq<char>, c: ChartCategory)
    ensures
        category_of_name(s) != ChartCategory::Other ==> holds_marker(s, category_of_name(s)),
        holds_marker(s, c) && (forall|b: ChartCategory| #[trigger] category_rank(b) < category_rank(c) ==> !holds_marker(s, b))
            ==> category_of_name(s) == c,
        (forall|b: ChartCategory| !#[trigger] holds_marker(s, b)) ==> category_of_name(s) == ChartCategory::Other,
{
    lemma_label_markers();
    let h1 = holds_marker(s, ChartCategory::Aerodrome);
    let h2 = holds_marker(s, ChartCategory::Parking);
    let h3 = holds_marker(s, ChartCategory::Ground);
    let h4 = holds_marker(s, ChartCategory::Sid);
    let h5 = holds_marker(s, ChartCategory::Star);
    let h6 = holds_marker(s, ChartCategory::Iac);
    let h7 = holds_marker(s, ChartCategory::Vac);
    let h8 = holds_marker(s, ChartCategory::Vlc);
    let h9 = holds_marker(s, ChartCategory::Tem);
    let r1 = category_rank(ChartCategory::Aerodrome);
    let r2 = category_rank(ChartCategory::Parking);
    let r3 = category_rank(ChartCategory::Ground);
    let r4 = category_rank(ChartCategory::Sid);
    let r5 = category_rank(ChartCategory::Star);
    let r6 = category_rank(ChartCategory::Iac);
    let r7 = category_rank(ChartCategory::Vac);
    let r8 = category_rank(ChartCategory::Vlc);
    let r9 = category_rank(ChartCategory::Tem);
    let r10 = category_rank(ChartCategory::SupAip);
    let r11 = category_rank(ChartCategory::Other);
    let h10 = holds_marker(s, ChartCategory::SupAip);
    let h11 = holds_marker(s, ChartCategory::Other);
}

/// Whether the literal `w` occurs in `s`.
pub fn contains_lit(s: &Vec<char>, w: &str) -> (r: bool)
    ensures
        r == contains_text(s@, w@),
{
    let wv = chars_of(w);
    contains_of(s, &wv)
}

/// Category of a chart from its upper-case file name.
pub fn detect_category(upper: &str) -> (r: ChartCategory)
    ensures
        r == category_of_name(upper@),
{
    let s = chars_of(upper);
    if contains_lit(&s, "_ADC_") || contains_lit(&s, "_ADCHART_") {
        ChartCategory::Aerodrome
    } else if contains_lit(&s, "_APDC_") || contains_lit(&s, "_PARKING") {
        ChartCategory::Parking
    } else if contains_lit(&s, "_GMC_") || contains_lit(&s, "_GROUND") {
        ChartCategory::Ground
    } else if contains_lit(&s, "_SID_") {
        ChartCategory::Sid
    } else if contains_lit(&s, "_STAR_") {
        ChartCategory::Star
    } else if contains_lit(&s, "_IAC_") {
        ChartCategory::Iac
    } else if contains_lit(&s, "_VAC_") {
        ChartCategory::Vac
    } else if contains_lit(&s, "_VLC_") {
        ChartCategory::Vlc
    } else if contains_lit(&s, "_TEM_") {
        ChartCategory::Tem
    } else {
        ChartCategory::Other
    }
}

/// Whether one of the words of non-chart files starts at position `p`, in either case.
pub open spec fn excluded_word_at(s: Seq<char>, p: int) -> bool {
    ci_at(s, p, seq!['D', 'A', 'T', 'A']) || ci_at(s, p, seq!['T', 'E', 'X', 'T'])
        || ci_at(s, p, seq!['T', 'X', 'T']) || ci_at(s, p, seq!['V', 'P', 'E'])
        || ci_at(s, p, seq!['P', 'A', 'T', 'C'])
}

/// Whether a file name marks a file that is not a chart: it holds `DATA`, `TEXT`, `TXT`,
/// `VPE` or `PATC`, in either case.
pub open spec fn is_excluded_name(s: Seq<char>) -> bool {
    exists|p: int| #[trigger] excluded_word_at(s, p)
}

/// Whether a file name marks a file that is not a chart.
pub fn is_excluded_file(filename: &str) -> (r: bool)
    ensures
        r == is_excluded_name(filename@),
{
    let s = chars_of(filename);
    let words: Vec<Vec<char>> = vec![
        vec!['D', 'A', 'T', 'A'],
        vec!['T', 'E', 'X', 'T'],
        vec!['T', 'X', 'T'],
        vec!['V', 'P', 'E'],
        vec!['P', 'A', 'T', 'C'],
    ];
    assert(words@[0]@ == seq!['D', 'A', 'T', 'A']);
    assert(words@[1]@ == seq!['T', 'E', 'X', 'T']);
    assert(words@[2]@ == seq!['T', 'X', 'T']);
    assert(words@[3]@ == seq!['V', 'P', 'E']);
    assert(words@[4]@ == seq!['P', 'A', 'T', 'C']);
    let mut p: usize = 0;
    while p < s.len()
        invariant
            p <= s.len(),
            s@ == filename@,
            words@.len() == 5,
            words@[0]@ == seq!['D', 'A', 'T', 'A'],
            words@[1]@ == seq!['T', 'E', 'X', 'T'],
            words@[2]@ == seq!['T', 'X', 'T'],
            words@[3]@ == seq!['V', 'P', 'E'],
            words@[4]@ == seq!['P', 'A', 'T', 'C'],
            forall|q: int| 0 <= q < p ==> !excluded_word_at(s@, q),
        decreases s.len() - p,
    {
        if ci_at_of(&s, p, &words[0]) || ci_at_of(&s, p, &words[1]) || ci_at_of(&s, p, &words[2])
            || ci_at_of(&s, p, &words[3]) || ci_at_of(&s, p, &words[4]) {
            assert(excluded_word_at(s@, p as int));
            assert(excluded_word_at(filename@, p as int));
            return true;
        }
        p = p + 1;
    }
    assert forall|q: int| !#[trigger] excluded_word_at(s@, q) by {
        if q >= s@.len() || q < 0 {
        }
    }
    false
}

// ---------------------------------------------------------------- runway designators

/// Whether `c` is a runway side letter; in either case when `ci`.
pub open spec fn side_letter(c: char, ci: bool) -> bool {
    c == 'L' || c == 'R' || c == 'C' || (ci && (c == 'l' || c == 'r' || c == 'c'))
}

/// Length of the runway designator (`\d{2}[LRC]?`) at `i`, or 0 when none starts there.
pub open spec fn designator_len(s: Seq<char>, i: int, ci: bool) -> int {
    if 0 <= i && i + 2 <= s.len() && re_digit(s[i]) && re_digit(s[i + 1]) {
        if i + 2 < s.len() && side_letter(s[i + 2], ci) { 3 } else { 2 }
    } else {
        0
    }
}

/// Length of the runway designator at `i`, or 0.
pub fn designator_len_of(s: &Vec<char>, i: usize, ci: bool) -> (r: usize)
    ensures
        r as int == designator_len(s@, i as int, ci),
{
    if i < s.len() && s.len() - i >= 2 && is_re_digit(s[i]) && is_re_digit(s[i + 1]) {
        if s.len() - i > 2 && (s[i + 2] == 'L' || s[i + 2] == 'R' || s[i + 2] == 'C' || (ci && (
        s[i + 2] == 'l' || s[i + 2] == 'r' || s[i + 2] == 'c'))) {
            3
        } else {
            2
        }
    } else {
        0
    }
}

/// End of the `RWY_(\d{2}[LRC]?)` match at `i`, or `i`.
pub open spec fn rwy_end(s: Seq<char>, i: int) -> int {
    if exact_at(s, i, seq!['R', 'W', 'Y', '_']) && designator_len(s, i + 4, false) > 0 {
        i + 4 + designator_len(s, i + 4, false)
    } else {
        i
    }
}

/// Runway designator captured by the `RWY_` match at `i`.
pub open spec fn rwy_capture(s: Seq<char>, i: int) -> Seq<char> {
    s.subrange(i + 4, rwy_end(s, i))
}

/// The `RWY_` matcher.
pub open spec fn rwy_matcher() -> spec_fn(Seq<char>, int) -> int {
    |t: Seq<char>, i: int| rwy_end(t, i)
}

/// The `RWY_` capture.
pub open spec fn rwy_capturer() -> spec_fn(Seq<char>, int) -> Seq<char> {
    |t: Seq<char>, i: int| rwy_capture(t, i)
}

/// Runway designators written `RWY_<designator>` in `s`, from left to right.
pub open spec fn runway_captures(s: Seq<char>) -> Seq<Seq<char>> {
    scan_captures(s, 0, rwy_matcher(), rwy_capturer())
}

/// One step of [`scan_captures`].
pub proof fn lemma_scan_captures_step(
    s: Seq<char>,
    i: int,
    m: spec_fn(Seq<char>, int) -> int,
    cap: spec_fn(Seq<char>, int) -> Seq<char>,
)
    requires
        0 <= i < s.len(),
    ensures
        ({
            let e = m(s, i);
            scan_captures(s, i, m, cap) == if i < e <= s.len() {
                seq![cap(s, i)] + scan_captures(s, e, m, cap)
            } else {
                scan_captures(s, i + 1, m, cap)
            }
        }),
{
}

/// End of the `RWY_` match at `i`, or `i`.
fn rwy_end_of(s: &Vec<char>, i: usize) -> (r: usize)
    requires
        i <= s.len(),
    ensures
        r as int == rwy_end(s@, i as int),
        r <= s.len(),
        r > i ==> r >= i + 6,
{
    let w = vec!['R', 'W', 'Y', '_'];
    if exact_at_of(s, i, &w) {
        let n = designator_len_of(s, i + 4, false);
        if n > 0 {
            return i + 4 + n;
        }
    }
    i
}

/// Runway designators written `RWY_<designator>` in `s`.
fn runway_captures_of(s: &Vec<char>) -> (r: Vec<Vec<char>>)
    ensures
        vec_views(r@) == runway_captures(s@),
{
    let ghost m = rwy_matcher();
    let ghost cap = rwy_capturer();
    let mut out: Vec<Vec<char>> = Vec::new();
    let mut i: usize = 0;
    assert(vec_views(out@) + scan_captures(s@, 0, m, cap) =~= scan_captures(s@, 0, m, cap));
    while i < s.len()
        invariant
            i <= s.len(),
            m == rwy_matcher(),
            cap == rwy_capturer(),
            vec_views(out@) + scan_captures(s@, i as int, m, cap) == scan_captures(s@, 0, m, cap),
        decreases s.len() - i,
    {
        proof { lemma_scan_captures_step(s@, i as int, m, cap); }
        let e = rwy_end_of(s, i);
        assert(m(s@, i as int) == e);
        let ghost before = vec_views(out@);
        if e > i {
            assert(i + 4 <= e);
            let c = slice_of(s, i + 4, e);
            assert(cap(s@, i as int) == c@);
            out.push(c);
            let ghost rest = scan_captures(s@, e as int, m, cap);
            assert(vec_views(out@) =~= before.push(c@));
            assert(before.push(c@) + rest =~= before + (seq![c@] + rest));
            i = e;
        } else {
            i = i + 1;
        }
    }
    assert(vec_views(out@) + Seq::<Seq<char>>::empty() =~= vec_views(out@));
    out
}

// ---------------------------------------------------------------- tags

/// Whether `c` is the letter I in either case.
pub open spec fn is_letter_i(c: char) -> bool {
    c == 'I' || c == 'i'
}

/// Number of letters I starting at `i`, at most three.
pub open spec fn i_run(s: Seq<char>, i: int) -> int {
    if 0 <= i < s.len() && is_letter_i(s[i]) {
        if i + 1 < s.len() && is_letter_i(s[i + 1]) {
            if i + 2 < s.len() && is_letter_i(s[i + 2]) { 3 } else { 2 }
        } else {
            1
        }
    } else {
        0
    }
}

/// End of the repetitions of `_I{1,3}` starting at `i`.
pub open spec fn cat_tail_end(s: Seq<char>, i: int) -> int
    decreases s.len() - i,
{
    if 0 <= i && i + 1 < s.len() && s[i] == '_' && is_letter_i(s[i + 1]) {
        cat_tail_end(s, i + 1 + i_run(s, i + 1))
    } else {
        i
    }
}

/// End of the ILS category match `CAT_I{1,3}(_I{1,3})*` (any case) at `p`, or `p`.
pub open spec fn cat_end(s: Seq<char>, p: int) -> int {
    if ci_at(s, p, seq!['C', 'A', 'T', '_']) && i_run(s, p + 4) >= 1 {
        cat_tail_end(s, p + 4 + i_run(s, p + 4))
    } else {
        p
    }
}

/// The category letters captured by the ILS category match at `p`.
pub open spec fn cat_capture(s: Seq<char>, p: int) -> Seq<char> {
    s.subrange(p + 4, cat_end(s, p))
}

/// `s` with `_` written `/`.
pub open spec fn underscores_to_slashes(s: Seq<char>) -> Seq<char> {
    s.map_values(|c: char| if c == '_' { '/' } else { c })
}

/// The ILS category matcher.
pub open spec fn cat_matcher() -> spec_fn(Seq<char>, int) -> int {
    |t: Seq<char>, i: int| cat_end(t, i)
}

/// The ILS category capture.
pub open spec fn cat_capturer() -> spec_fn(Seq<char>, int) -> Seq<char> {
    |t: Seq<char>, i: int| cat_capture(t, i)
}

/// The tag of a captured ILS category.
pub open spec fn cat_tag() -> spec_fn(Seq<char>) -> Seq<char> {
    |c: Seq<char>| "CAT "@ + underscores_to_slashes(c)
}

/// ILS category tags of `s`, e.g. `CAT II/III`.
pub open spec fn cat_tags(s: Seq<char>) -> Seq<Seq<char>> {
    scan_captures(s, 0, cat_matcher(), cat_capturer()).map_values(cat_tag())
}

/// A tag when `cond` holds.
pub open spec fn tag_if(cond: bool, tag: Seq<char>) -> Seq<Seq<char>> {
    if cond { seq![tag] } else { Seq::empty() }
}

/// Tags that a chart name holds by its markers.
pub open spec fn marker_tags(s: Seq<char>) -> Seq<Seq<char>> {
    tag_if(contains_text(s, "_FNA"@), "App. Finale"@) + tag_if(contains_text(s, "_INA"@), "App. Initiale"@)
        + tag_if(contains_text(s, "_VPT"@), "VPT"@) + tag_if(contains_text(s, "_MVL"@), "MVL"@)
        + tag_if(contains_text(s, "_NIGHT"@), "Nuit"@) + tag_if(contains_text(s, "_RNAV"@), "RNAV"@)
        + tag_if(contains_text(s, "_RNP"@), "RNP"@) + tag_if(contains_text(s, "_LOC"@), "LOC"@)
        + tag_if(contains_text(s, "_ILS"@) || contains_text(s, "ILS"@), "ILS"@)
        + tag_if(contains_text(s, "_DME"@), "DME"@)
}

/// All tags of a chart name, before sorting: markers, ILS categories, runways.
pub open spec fn tag_candidates(s: Seq<char>) -> Seq<Seq<char>> {
    marker_tags(s) + cat_tags(s) + runway_captures(s)
}

fn i_run_of(s: &Vec<char>, i: usize) -> (r: usize)
    ensures
        r as int == i_run(s@, i as int),
        r <= 3,
{
    if i < s.len() && (s[i] == 'I' || s[i] == 'i') {
        if i + 1 < s.len() && (s[i + 1] == 'I' || s[i + 1] == 'i') {
            if i + 2 < s.len() && (s[i + 2] == 'I' || s[i + 2] == 'i') { 3 } else { 2 }
        } else {
            1
        }
    } else {
        0
    }
}

fn cat_end_of(s: &Vec<char>, p: usize) -> (r: usize)
    requires
        p <= s.len(),
    ensures
        r as int == cat_end(s@, p as int),
        p <= r <= s.len(),
        r > p ==> r >= p + 5,
{
    let w = vec!['C', 'A', 'T', '_'];
    if !ci_at_of(s, p, &w) {
        return p;
    }
    let k = i_run_of(s, p + 4);
    if k == 0 {
        return p;
    }
    let mut e = p + 4 + k;
    while s.len() > 0 && e < s.len() - 1 && s[e] == '_' && (s[e + 1] == 'I' || s[e + 1] == 'i')
        invariant
            p + 4 < e <= s.len(),
            cat_end(s@, p as int) == cat_tail_end(s@, e as int),
        decreases s.len() - e,
    {
        let k2 = i_run_of(s, e + 1);
        e = e + 1 + k2;
    }
    e
}

/// Appends `tag` to `tags` when `cond` holds.
pub fn push_tag_if(tags: &mut Vec<Vec<char>>, cond: bool, tag: &str)
    ensures
        vec_views(final(tags)@) == vec_views(old(tags)@) + tag_if(cond, tag@),
{
    if cond {
        let ghost before = vec_views(tags@);
        tags.push(chars_of(tag));
        assert(vec_views(tags@) =~= before + tag_if(cond, tag@));
    } else {
        assert(vec_views(tags@) =~= vec_views(tags@) + tag_if(cond, tag@));
    }
}

fn marker_tags_of(s: &Vec<char>) -> (r: Vec<Vec<char>>)
    ensures
        vec_views(r@) == marker_tags(s@),
{
    let mut tags: Vec<Vec<char>> = Vec::new();
    assert(vec_views(tags@) =~= Seq::<Seq<char>>::empty());
    push_tag_if(&mut tags, contains_lit(s, "_FNA"), "App. Finale");
    push_tag_if(&mut tags, contains_lit(s, "_INA"), "App. Initiale");
    push_tag_if(&mut tags, contains_lit(s, "_VPT"), "VPT");
    push_tag_if(&mut tags, contains_lit(s, "_MVL"), "MVL");
    push_tag_if(&mut tags, contains_lit(s, "_NIGHT"), "Nuit");
    push_tag_if(&mut tags, contains_lit(s, "_RNAV"), "RNAV");
    push_tag_if(&mut tags, contains_lit(s, "_RNP"), "RNP");
    push_tag_if(&mut tags, contains_lit(s, "_LOC"), "LOC");
    let ils = contains_lit(s, "_ILS") || contains_lit(s, "ILS");
    push_tag_if(&mut tags, ils, "ILS");
    push_tag_if(&mut tags, contains_lit(s, "_DME"), "DME");
    assert(vec_views(tags@) =~= marker_tags(s@));
    tags
}

fn cat_tag_of(c: &Vec<char>) -> (r: Vec<char>)
    ensures
        r@ == "CAT "@ + underscores_to_slashes(c@),
{
    let mut t = chars_of("CAT ");
    let ghost tstart = t@;
    let mut k: usize = 0;
    while k < c.len()
        invariant
            k <= c.len(),
            t@ == tstart + underscores_to_slashes(c@.take(k as int)),
        decreases c.len() - k,
    {
        t.push(if c[k] == '_' { '/' } else { c[k] });
        assert(underscores_to_slashes(c@.take(k + 1)) =~= underscores_to_slashes(c@.take(k as int)).push(if c@[k as int] == '_' { '/' } else { c@[k as int] }));
        k = k + 1;
    }
    assert(c@.take(k as int) =~= c@);
    t
}

fn cat_tags_of(s: &Vec<char>) -> (r: Vec<Vec<char>>)
    ensures
        vec_views(r@) == cat_tags(s@),
{
    let ghost m = cat_matcher();
    let ghost cap = cat_capturer();
    let ghost mapf = cat_tag();
    let mut tags: Vec<Vec<char>> = Vec::new();
    let mut i: usize = 0;
    assert(vec_views(tags@) + scan_captures(s@, 0, m, cap).map_values(mapf) =~= scan_captures(s@, 0, m, cap).map_values(mapf));
    while i < s.len()
        invariant
            i <= s.len(),
            m == cat_matcher(),
            cap == cat_capturer(),
            mapf == cat_tag(),
            vec_views(tags@) + scan_captures(s@, i as int, m, cap).map_values(mapf)
                == scan_captures(s@, 0, m, cap).map_values(mapf),
        decreases s.len() - i,
    {
        proof { lemma_scan_captures_step(s@, i as int, m, cap); }
        let e = cat_end_of(s, i);
        assert(m(s@, i as int) == e);
        if e > i {
            let ghost before = vec_views(tags@);
            let c = slice_of(s, i + 4, e);
            assert(cap(s@, i as int) == c@);
            let t = cat_tag_of(&c);
            assert(t@ == mapf(c@));
            tags.push(t);
            let ghost rest = scan_captures(s@, e as int, m, cap);
            assert(vec_views(tags@) =~= before.push(mapf(c@)));
            assert((seq![c@] + rest).map_values(mapf) =~= seq![mapf(c@)] + rest.map_values(mapf));
            assert(before.push(mapf(c@)) + rest.map_values(mapf) =~= before + (seq![c@] + rest).map_values(mapf));
            i = e;
        } else {
            i = i + 1;
        }
    }
    assert(scan_captures(s@, i as int, m, cap).map_values(mapf) =~= Seq::<Seq<char>>::empty());
    assert(vec_views(tags@) + Seq::<Seq<char>>::empty() =~= vec_views(tags@));
    tags
}

/// Tags of a chart name: markers, ILS categories and runways, sorted, without repetitions.
pub fn extract_tags(upper: &str) -> (r: Vec<String>)
    ensures
        strictly_sorted(strings_view(r@)),
        same_elements(strings_view(r@), tag_candidates(upper@)),
        strings_view(r@) == sorted_distinct(tag_candidates(upper@)),
{
    let s = chars_of(upper);
    let mut tags = marker_tags_of(&s);
    let mut cats = cat_tags_of(&s);
    let mut caps = runway_captures_of(&s);
    let ghost a = vec_views(tags@);
    let ghost b = vec_views(cats@);
    let ghost c = vec_views(caps@);
    tags.append(&mut cats);
    assert(vec_views(tags@) =~= a + b);
    tags.append(&mut caps);
    assert(vec_views(tags@) =~= a + b + c);
    sorted_unique(&tags)
}

// ---------------------------------------------------------------- runways

/// Bytes taken by `c` in UTF-8.
pub open spec fn utf8_len(c: char) -> int {
    if (c as u32) < 0x80 { 1 } else if (c as u32) < 0x800 { 2 } else if (c as u32) < 0x10000 { 3 } else { 4 }
}

/// Bytes taken by `s` in UTF-8.
pub open spec fn utf8_byte_len(s: Seq<char>) -> int
    decreases s.len(),
{
    if s.len() == 0 { 0 } else { utf8_byte_len(s.drop_last()) + utf8_len(s.last()) }
}

/// The characters of a designator that fill its first two bytes.
pub open spec fn first_two_bytes(r: Seq<char>) -> Seq<char> {
    if r.len() > 0 && utf8_len(r[0]) == 2 { r.take(1) } else { r.take(2) }
}

/// Whether a designator is kept among the runways of a chart: a two-byte designator (such as
/// `26`) is dropped when a three-byte one (such as `26L`) extends it.
pub open spec fn keeps_runway(caps: Seq<Seq<char>>, x: Seq<char>) -> bool {
    caps.contains(x) && (utf8_byte_len(x) > 2 || !(exists|k: int| 0 <= k < caps.len()
        && utf8_byte_len(#[trigger] caps[k]) == 3 && first_two_bytes(caps[k]) == x))
}

fn utf8_len_of(c: char) -> (r: usize)
    ensures
        r as int == utf8_len(c),
{
    if (c as u32) < 0x80 { 1 } else if (c as u32) < 0x800 { 2 } else if (c as u32) < 0x10000 { 3 } else { 4 }
}

fn utf8_byte_len_of(s: &Vec<char>) -> (r: usize)
    requires
        s.len() <= 3,
    ensures
        r as int == utf8_byte_len(s@),
{
    let mut n: usize = 0;
    let mut i: usize = 0;
    assert(s@.take(0) =~= Seq::<char>::empty());
    while i < s.len()
        invariant
            i <= s.len() <= 3,
            n as int == utf8_byte_len(s@.take(i as int)),
            n <= 4 * i,
        decreases s.len() - i,
    {
        assert(s@.take(i + 1).drop_last() =~= s@.take(i as int));
        n = n + utf8_len_of(s[i]);
        i = i + 1;
    }
    assert(s@.take(i as int) =~= s@);
    n
}

proof fn lemma_runway_captures_shape(s: Seq<char>, i: int)
    ensures
        forall|k: int| 0 <= k < scan_captures(s, i, rwy_matcher(), rwy_capturer()).len()
            ==> 2 <= #[trigger] scan_captures(s, i, rwy_matcher(), rwy_capturer())[k].len() <= 3,
    decreases s.len() - i,
{
    let m = rwy_matcher();
    let cap = rwy_capturer();
    if 0 <= i < s.len() {
        lemma_scan_captures_step(s, i, m, cap);
        let e = m(s, i);
        assert(e == rwy_end(s, i));
        if i < e <= s.len() {
            assert(cap(s, i) == rwy_capture(s, i));
            assert(cap(s, i).len() == designator_len(s, i + 4, false));
            lemma_runway_captures_shape(s, e);
            let rest = scan_captures(s, e, m, cap);
            let all = scan_captures(s, i, m, cap);
            assert(all == seq![cap(s, i)] + rest);
            assert forall|k: int| 0 <= k < all.len() implies 2 <= #[trigger] all[k].len() <= 3 by {
                if k > 0 {
                    assert(all[k] == rest[k - 1]);
                } else {
                    assert(all[k] == cap(s, i));
                }
            }
        } else {
            lemma_runway_captures_shape(s, i + 1);
            assert(scan_captures(s, i, m, cap) == scan_captures(s, i + 1, m, cap));
        }
    } else {
        assert(scan_captures(s, i, m, cap).len() == 0);
    }
}

/// The runway designators of a chart name that are kept, in the order they are written.
pub open spec fn kept_runways(caps: Seq<Seq<char>>) -> Seq<Seq<char>> {
    caps.filter(|x: Seq<char>| keeps_runway(caps, x))
}

/// Runway designators of a chart name, sorted, without repetitions, a two-byte designator
/// dropped when a three-byte one extends it (`26` when `26L` is there). Where cutting a
/// designator after two bytes would fall inside a character (an ASCII digit then a two-byte
/// digit), the first two characters are taken.
pub fn extract_runways(upper: &str) -> (r: Vec<String>)
    ensures
        strictly_sorted(strings_view(r@)),
        forall|x: Seq<char>| strings_view(r@).contains(x)
            <==> keeps_runway(runway_captures(upper@), x),
        strings_view(r@) == sorted_distinct(kept_runways(runway_captures(upper@))),
{
    let s = chars_of(upper);
    let caps = runway_captures_of(&s);
    let ghost cv = vec_views(caps@);
    proof { lemma_runway_captures_shape(s@, 0); }
    let mut suffixed: Vec<Vec<char>> = Vec::new();
    let mut i: usize = 0;
    while i < caps.len()
        invariant
            i <= caps.len(),
            cv == vec_views(caps@),
            cv == runway_captures(s@),
            forall|k: int| 0 <= k < cv.len() ==> 2 <= #[trigger] cv[k].len() <= 3,
            forall|x: Seq<char>| #[trigger] vec_views(suffixed@).contains(x) <==> (exists|k: int| 0 <= k < i
                && utf8_byte_len(#[trigger] cv[k]) == 3 && first_two_bytes(cv[k]) == x),
        decreases caps.len() - i,
    {
        let c = &caps[i];
        assert(cv[i as int] == c@);
        let ghost before = vec_views(suffixed@);
        let n = utf8_byte_len_of(c);
        if n == 3 {
            let f = if utf8_len_of(c[0]) == 2 { slice_of(c, 0, 1) } else { slice_of(c, 0, 2) };
            assert(f@ == first_two_bytes(c@));
            suffixed.push(f);
            assert(vec_views(suffixed@) =~= before.push(f@));
        }
        let ghost nsv = vec_views(suffixed@);
        assert forall|x: Seq<char>| nsv.contains(x) <==> (exists|k: int| 0 <= k < i + 1
            && utf8_byte_len(#[trigger] cv[k]) == 3 && first_two_bytes(cv[k]) == x) by {
            if nsv.contains(x) {
                if n == 3 && x == first_two_bytes(c@) {
                    assert(utf8_byte_len(cv[i as int]) == 3 && first_two_bytes(cv[i as int]) == x);
                } else {
                    let q = choose|q: int| 0 <= q < nsv.len() && nsv[q] == x;
                    if n == 3 {
                        assert(q < before.len());
                        assert(before[q] == x);
                    }
                    assert(before.contains(x));
                }
            }
            if exists|k: int| 0 <= k < i + 1 && utf8_byte_len(#[trigger] cv[k]) == 3 && first_two_bytes(cv[k]) == x {
                let k = choose|k: int| 0 <= k < i + 1 && utf8_byte_len(#[trigger] cv[k]) == 3 && first_two_bytes(cv[k]) == x;
                if k < i {
                    assert(before.contains(x));
                    let q = choose|q: int| 0 <= q < before.len() && before[q] == x;
                    assert(nsv[q] == x);
                } else {
                    assert(nsv[before.len() as int] == x);
                }
            }
        }
        i = i + 1;
    }
    let ghost sv = vec_views(suffixed@);
    let mut kept: Vec<Vec<char>> = Vec::new();
    let mut j: usize = 0;
    while j < caps.len()
        invariant
            j <= caps.len(),
            i == caps.len(),
            cv == vec_views(caps@),
            forall|k: int| 0 <= k < cv.len() ==> 2 <= #[trigger] cv[k].len() <= 3,
            sv == vec_views(suffixed@),
            forall|x: Seq<char>| #[trigger] sv.contains(x) <==> (exists|k: int| 0 <= k < cv.len()
                && utf8_byte_len(#[trigger] cv[k]) == 3 && first_two_bytes(cv[k]) == x),
            forall|x: Seq<char>| #[trigger] vec_views(kept@).contains(x) <==> (cv.take(j as int).contains(x)
                && keeps_runway(cv, x)),
        decreases caps.len() - j,
    {
        let c = &caps[j];
        assert(cv[j as int] == c@);
        let ghost before = vec_views(kept@);
        let n = utf8_byte_len_of(c);
        let mut in_suffixed = false;
        let mut k: usize = 0;
        while k < suffixed.len()
            invariant
                k <= suffixed.len(),
                sv == vec_views(suffixed@),
                in_suffixed == sv.take(k as int).contains(c@),
            decreases suffixed.len() - k,
        {
            let eq = crate::text::same_chars(&suffixed[k], c);
            proof {
                let t0 = sv.take(k as int);
                let t1 = sv.take(k + 1);
                assert(t1 =~= t0.push(sv[k as int]));
                if t1.contains(c@) && !t0.contains(c@) {
                    let q = choose|q: int| 0 <= q < t1.len() && t1[q] == c@;
                    assert(q == k);
                }
                if t0.contains(c@) {
                    let q = choose|q: int| 0 <= q < t0.len() && t0[q] == c@;
                    assert(t1[q] == c@);
                }
                if eq {
                    assert(t1[k as int] == c@);
                }
            }
            in_suffixed = in_suffixed || eq;
            k = k + 1;
        }
        assert(sv.take(k as int) =~= sv);
        let keep = n > 2 || !in_suffixed;
        assert(cv.contains(c@)) by { assert(cv[j as int] == c@); }
        assert(keep == keeps_runway(cv, c@));
        if keep {
            kept.push(c.clone());
            assert(vec_views(kept@) =~= before.push(c@));
        }
        assert(cv.take(j + 1) =~= cv.take(j as int).push(c@));
        let ghost nv = vec_views(kept@);
        let ghost c0 = cv.take(j as int);
        let ghost c1 = cv.take(j + 1);
        assert forall|x: Seq<char>| nv.contains(x) <==> (cv.take(j + 1).contains(x)
            && keeps_runway(cv, x)) by {
            if nv.contains(x) {
                let q = choose|q: int| 0 <= q < nv.len() && nv[q] == x;
                if keep && q == before.len() {
                    assert(c1[j as int] == x);
                } else {
                    assert(before[q] == x);
                    assert(before.contains(x));
                    let p = choose|p: int| 0 <= p < c0.len() && c0[p] == x;
                    assert(c1[p] == x);
                }
            }
            if c1.contains(x) && keeps_runway(cv, x) {
                let p = choose|p: int| 0 <= p < c1.len() && c1[p] == x;
                if p < j {
                    assert(c0[p] == x);
                    assert(before.contains(x));
                    let q = choose|q: int| 0 <= q < before.len() && before[q] == x;
                    assert(nv[q] == x);
                } else {
                    assert(x == c@);
                    assert(nv[before.len() as int] == x);
                }
            }
        }
        j = j + 1;
    }
    assert(cv.take(j as int) =~= cv);
    let r = sorted_unique(&kept);
    proof {
        let rv = strings_view(r@);
        assert forall|x: Seq<char>| rv.contains(x) <==> keeps_runway(runway_captures(upper@), x) by {
            if keeps_runway(cv, x) {
                assert(cv.contains(x));
            }
        }
        let pred = |x: Seq<char>| keeps_runway(cv, x);
        let kr = kept_runways(cv);
        assert(kr == cv.filter(pred));
        assert forall|x: Seq<char>| rv.contains(x) <==> kr.contains(x) by {
            if kr.contains(x) {
                cv.lemma_filter_contains_rev(pred, x);
                let q = choose|q: int| 0 <= q < kr.len() && kr[q] == x;
                cv.lemma_filter_pred(pred, q);
            }
            if rv.contains(x) {
                let q = choose|q: int| 0 <= q < cv.len() && cv[q] == x;
                cv.lemma_filter_contains(pred, q);
            }
        }
        lemma_sorted_distinct_of(rv, kr);
    }
    r
}

// ---------------------------------------------------------------- subtitles

/// End of the literal `w` at `q`, or `q` when it does not occur there.
pub open spec fn lit_end(s: Seq<char>, q: int, w: Seq<char>) -> int {
    if exact_at(s, q, w) { q + w.len() } else { q }
}

fn lit_end_of(s: &Vec<char>, q: usize, w: &str) -> (r: usize)
    requires
        q <= s.len(),
    ensures
        r as int == lit_end(s@, q as int, w@),
        q <= r <= s.len(),
{
    let wv = chars_of(w);
    if exact_at_of(s, q, &wv) { q + wv.len() } else { q }
}

/// End of the match of `_(ADC|APDC|GMC|SID|STAR|IAC|VAC|VLC|TEM)_` at `p`, or `p`.
pub open spec fn category_code_end(s: Seq<char>, p: int) -> int {
    let q = p + 1;
    if 0 <= p < s.len() && s[p] == '_' {
        if lit_end(s, q, "ADC_"@) > q {
            lit_end(s, q, "ADC_"@)
        } else if lit_end(s, q, "APDC_"@) > q {
            lit_end(s, q, "APDC_"@)
        } else if lit_end(s, q, "GMC_"@) > q {
            lit_end(s, q, "GMC_"@)
        } else if lit_end(s, q, "SID_"@) > q {
            lit_end(s, q, "SID_"@)
        } else if lit_end(s, q, "STAR_"@) > q {
            lit_end(s, q, "STAR_"@)
        } else if lit_end(s, q, "IAC_"@) > q {
            lit_end(s, q, "IAC_"@)
        } else if lit_end(s, q, "VAC_"@) > q {
            lit_end(s, q, "VAC_"@)
        } else if lit_end(s, q, "VLC_"@) > q {
            lit_end(s, q, "VLC_"@)
        } else if lit_end(s, q, "TEM_"@) > q {
            lit_end(s, q, "TEM_"@)
        } else {
            p
        }
    } else {
        p
    }
}

/// The category code matcher.
pub open spec fn category_code_matcher() -> spec_fn(Seq<char>, int) -> int {
    |t: Seq<char>, i: int| category_code_end(t, i)
}

fn category_code_end_of(s: &Vec<char>, p: usize) -> (r: usize)
    requires
        p < s.len(),
    ensures
        r as int == category_code_end(s@, p as int),
        r <= s.len(),
{
    if s[p] != '_' {
        return p;
    }
    let q = p + 1;
    let e = lit_end_of(s, q, "ADC_");
    if e > q { return e; }
    let e = lit_end_of(s, q, "APDC_");
    if e > q { return e; }
    let e = lit_end_of(s, q, "GMC_");
    if e > q { return e; }
    let e = lit_end_of(s, q, "SID_");
    if e > q { return e; }
    let e = lit_end_of(s, q, "STAR_");
    if e > q { return e; }
    let e = lit_end_of(s, q, "IAC_");
    if e > q { return e; }
    let e = lit_end_of(s, q, "VAC_");
    if e > q { return e; }
    let e = lit_end_of(s, q, "VLC_");
    if e > q { return e; }
    let e = lit_end_of(s, q, "TEM_");
    if e > q { return e; }
    p
}

/// End of the run of `\w` characters starting at `j`.
pub open spec fn word_run_end(s: Seq<char>, j: int) -> int
    decreases s.len() - j,
{
    if 0 <= j < s.len() && re_word(s[j]) { word_run_end(s, j + 1) } else { j }
}

fn word_run_end_of(s: &Vec<char>, j: usize) -> (r: usize)
    requires
        j <= s.len(),
    ensures
        r as int == word_run_end(s@, j as int),
        j <= r <= s.len(),
{
    let mut k = j;
    while k < s.len() && is_re_word(s[k])
        invariant
            j <= k <= s.len(),
            word_run_end(s@, j as int) == word_run_end(s@, k as int),
        decreases s.len() - k,
    {
        k = k + 1;
    }
    k
}

/// End of the match of `_?RWY_\w+` at `p`, or `p`.
pub open spec fn rwy_strip_end(s: Seq<char>, p: int) -> int {
    let a = lit_end(s, p + 1, "RWY_"@);
    let b = lit_end(s, p, "RWY_"@);
    if 0 <= p < s.len() && s[p] == '_' && a > p + 1 && word_run_end(s, a) > a {
        word_run_end(s, a)
    } else if 0 <= p && b > p && word_run_end(s, b) > b {
        word_run_end(s, b)
    } else {
        p
    }
}

/// The runway part matcher.
pub open spec fn rwy_strip_matcher() -> spec_fn(Seq<char>, int) -> int {
    |t: Seq<char>, i: int| rwy_strip_end(t, i)
}

fn rwy_strip_end_of(s: &Vec<char>, p: usize) -> (r: usize)
    requires
        p < s.len(),
    ensures
        r as int == rwy_strip_end(s@, p as int),
        r <= s.len(),
{
    if s[p] == '_' {
        let a = lit_end_of(s, p + 1, "RWY_");
        if a > p + 1 {
            let w = word_run_end_of(s, a);
            if w > a {
                return w;
            }
        }
    }
    let b = lit_end_of(s, p, "RWY_");
    if b > p {
        let w = word_run_end_of(s, b);
        if w > b {
            return w;
        }
    }
    p
}

/// `s` with every category code `_(ADC|...|TEM)_` written `_`.
fn replace_category_codes(s: &Vec<char>) -> (r: Vec<char>)
    ensures
        r@ == scan_replace(s@, 0, category_code_matcher(), seq!['_']),
{
    let ghost m = category_code_matcher();
    let ghost rep = seq!['_'];
    let mut out: Vec<char> = Vec::new();
    let mut i: usize = 0;
    assert(out@ + scan_replace(s@, 0, m, rep) =~= scan_replace(s@, 0, m, rep));
    while i < s.len()
        invariant
            i <= s.len(),
            m == category_code_matcher(),
            rep == seq!['_'],
            out@ + scan_replace(s@, i as int, m, rep) == scan_replace(s@, 0, m, rep),
        decreases s.len() - i,
    {
        proof { lemma_scan_replace_step(s@, i as int, m, rep); }
        let e = category_code_end_of(s, i);
        assert(m(s@, i as int) == e);
        if e > i {
            out.push('_');
            assert(out@ + scan_replace(s@, e as int, m, rep) =~= scan_replace(s@, 0, m, rep));
            i = e;
        } else {
            out.push(s[i]);
            assert(out@ + scan_replace(s@, i + 1, m, rep) =~= scan_replace(s@, 0, m, rep));
            i = i + 1;
        }
    }
    assert(scan_replace(s@, i as int, m, rep) =~= Seq::<char>::empty());
    assert(out@ + Seq::<char>::empty() =~= out@);
    out
}

/// `s` without its runway parts `_?RWY_\w+`.
fn remove_runway_parts(s: &Vec<char>) -> (r: Vec<char>)
    ensures
        r@ == scan_replace(s@, 0, rwy_strip_matcher(), Seq::empty()),
{
    let ghost m = rwy_strip_matcher();
    let ghost rep = Seq::<char>::empty();
    let mut out: Vec<char> = Vec::new();
    let mut i: usize = 0;
    assert(out@ + scan_replace(s@, 0, m, rep) =~= scan_replace(s@, 0, m, rep));
    while i < s.len()
        invariant
            i <= s.len(),
            m == rwy_strip_matcher(),
            rep == Seq::<char>::empty(),
            out@ + scan_replace(s@, i as int, m, rep) == scan_replace(s@, 0, m, rep),
        decreases s.len() - i,
    {
        proof { lemma_scan_replace_step(s@, i as int, m, rep); }
        let e = rwy_strip_end_of(s, i);
        assert(m(s@, i as int) == e);
        if e > i {
            assert(out@ + scan_replace(s@, e as int, m, rep) =~= scan_replace(s@, 0, m, rep));
            i = e;
        } else {
            out.push(s[i]);
            assert(out@ + scan_replace(s@, i + 1, m, rep) =~= scan_replace(s@, 0, m, rep));
            i = i + 1;
        }
    }
    assert(scan_replace(s@, i as int, m, rep) =~= Seq::<char>::empty());
    assert(out@ + Seq::<char>::empty() =~= out@);
    out
}

/// The subtitle of a chart from its upper-case file name and its upper-case aerodrome code:
/// the name without `.PDF`, `AD_2_<ICAO>_`, `AD_2_`, the code, the category codes and the
/// runway parts, with underscores trimmed and written as spaces.
pub open spec fn subtitle_text(upper: Seq<char>, icao_upper: Seq<char>) -> Seq<char> {
    let n0 = trim_end_text(upper, ".PDF"@);
    let n1 = replace_text(n0, "AD_2_"@ + icao_upper + seq!['_'], Seq::empty());
    let n2 = replace_text(n1, "AD_2_"@, Seq::empty());
    let n3 = replace_text(n2, icao_upper, Seq::empty());
    let c1 = scan_replace(n3, 0, category_code_matcher(), seq!['_']);
    let c2 = scan_replace(c1, 0, rwy_strip_matcher(), Seq::empty());
    let c3 = trim_end_char(trim_start_char(c2, '_'), '_');
    let c4 = replace_text(c3, "__"@, "_"@);
    let c5 = replace_text(c4, "_"@, " "@);
    trim_ws(c5)
}

/// The subtitle of a chart from its upper-case file name.
pub fn extract_subtitle(upper: &str, icao: &str) -> (r: String)
    ensures
        r@ == subtitle_text(upper@, uppercase(icao@)),
{
    let iu = to_uppercase_of(icao);
    let iv = chars_of(iu.as_str());
    let ghost icu = uppercase(icao@);
    assert(iv@ == icu);
    let s = chars_of(upper);
    let empty: Vec<char> = Vec::new();
    assert(empty@ =~= Seq::<char>::empty());
    let pdf = chars_of(".PDF");
    let n0 = trim_end_text_of(&s, &pdf);
    assert(n0@ == trim_end_text(upper@, ".PDF"@));
    let mut prefix = chars_of("AD_2_");
    push_all(&mut prefix, &iv);
    prefix.push('_');
    assert(prefix@ == "AD_2_"@ + icu + seq!['_']);
    let n1 = replace_text_of(&n0, &prefix, &empty);
    let ad2 = chars_of("AD_2_");
    let n2 = replace_text_of(&n1, &ad2, &empty);
    let n3 = replace_text_of(&n2, &iv, &empty);
    let c1 = replace_category_codes(&n3);
    let c2 = remove_runway_parts(&c1);
    let c3a = trim_start_char_of(&c2, '_');
    let c3 = trim_end_char_of(&c3a, '_');
    let dbl = chars_of("__");
    let one = chars_of("_");
    let sp = chars_of(" ");
    let c4 = replace_text_of(&c3, &dbl, &one);
    let c5 = replace_text_of(&c4, &one, &sp);
    let c6 = trim_ws_of(&c5);
    string_of(&c6)
}

// ---------------------------------------------------------------- instruction sheets

/// Whether a file name is an instruction sheet, `(?i)^(.+)_INSTR_(\d{2})\.pdf$`: a
/// non-empty base without line feed, `_INSTR_`, two digits and `.pdf`.
pub open spec fn instr_match(s: Seq<char>) -> bool {
    &&& s.len() >= 14
    &&& no_newline(s, 0, s.len() - 13)
    &&& ci_at(s, s.len() - 13, seq!['_', 'I', 'N', 'S', 'T', 'R', '_'])
    &&& re_digit(s[s.len() - 6])
    &&& re_digit(s[s.len() - 5])
    &&& ci_at(s, s.len() - 4, seq!['.', 'p', 'd', 'f'])
}

/// The value of a page number written with two ASCII digits; 0 when either is another digit.
pub open spec fn page_value(a: char, b: char) -> u32 {
    if '0' <= a <= '9' && '0' <= b <= '9' {
        ((a as u32 - 48) * 10 + (b as u32 - 48)) as u32
    } else {
        0
    }
}

/// Whether a file name is an instruction sheet.
pub fn is_instr_file(filename: &str) -> (r: bool)
    ensures
        r == instr_match(filename@),
{
    let s = chars_of(filename);
    instr_match_of(&s)
}

fn instr_match_of(s: &Vec<char>) -> (r: bool)
    ensures
        r == instr_match(s@),
{
    if s.len() < 14 {
        return false;
    }
    let n = s.len();
    no_newline_of(s, 0, n - 13) && ci_at_of(s, n - 13, &vec!['_', 'I', 'N', 'S', 'T', 'R', '_'])
        && is_re_digit(s[n - 6]) && is_re_digit(s[n - 5]) && ci_at_of(s, n - 4, &vec!['.', 'p', 'd', 'f'])
}

/// The chart an instruction sheet belongs to, upper case, and the sheet's page number, or
/// `None` when the file is no instruction sheet.
pub fn parse_instr_parent(filename: &str) -> (r: Option<(String, u32)>)
    ensures
        match r {
            Some((base, page)) => {
                &&& instr_match(filename@)
                &&& base@ == uppercase(filename@.take(filename@.len() - 13))
                &&& page == page_value(filename@[filename@.len() - 6], filename@[filename@.len() - 5])
            },
            None => !instr_match(filename@),
        },
{
    let s = chars_of(filename);
    if !instr_match_of(&s) {
        return None;
    }
    let n = s.len();
    let base = string_of(&slice_of(&s, 0, n - 13));
    let upper = to_uppercase_of(base.as_str());
    let a = s[n - 6];
    let b = s[n - 5];
    let page: u32 = if '0' <= a && a <= '9' && '0' <= b && b <= '9' {
        (a as u32 - 48) * 10 + (b as u32 - 48)
    } else {
        0
    };
    Some((upper, page))
}

/// The upper-case stem of a file name: without `.pdf`, then without `.PDF`.
pub open spec fn stem_upper(f: Seq<char>) -> Seq<char> {
    uppercase(trim_end_text(trim_end_text(f, ".pdf"@), ".PDF"@))
}

/// The upper-case stem of a file name.
pub fn filename_stem_upper(filename: &str) -> (r: String)
    ensures
        r@ == stem_upper(filename@),
{
    let s = chars_of(filename);
    let a = trim_end_text_of(&s, &chars_of(".pdf"));
    let b = trim_end_text_of(&a, &chars_of(".PDF"));
    let t = string_of(&b);
    to_uppercase_of(t.as_str())
}

/// A stem without its page suffix `_<two digits>` (`^(.+)_\d{2}$`); the stem itself when
/// it has none.
pub open spec fn strip_numeric(s: Seq<char>) -> Seq<char> {
    if s.len() >= 4 && no_newline(s, 0, s.len() - 3) && s[s.len() - 3] == '_' && re_digit(
        s[s.len() - 2],
    ) && re_digit(s[s.len() - 1]) {
        s.take(s.len() - 3)
    } else {
        s
    }
}

/// A stem without its page suffix.
pub fn strip_numeric_suffix(stem: &str) -> (r: String)
    ensures
        r@ == strip_numeric(stem@),
{
    let s = chars_of(stem);
    let n = s.len();
    if n >= 4 && no_newline_of(&s, 0, n - 3) && s[n - 3] == '_' && is_re_digit(s[n - 2])
        && is_re_digit(s[n - 1]) {
        string_of(&slice_of(&s, 0, n - 3))
    } else {
        string_of(&s)
    }
}

// ---------------------------------------------------------------- runway groups of stems

/// Length of the runway item (`ALL`, or `\d{2}[LRC]?`, in either case) at `i`, or 0.
pub open spec fn group_item_len(s: Seq<char>, i: int) -> int {
    if ci_at(s, i, seq!['A', 'L', 'L']) { 3 } else { designator_len(s, i, true) }
}

fn group_item_len_of(s: &Vec<char>, i: usize) -> (r: usize)
    ensures
        r as int == group_item_len(s@, i as int),
        r <= 3,
{
    if ci_at_of(s, i, &vec!['A', 'L', 'L']) { 3 } else { designator_len_of(s, i, true) }
}

/// End of the runway items joined by `-` that continue at `e`.
pub open spec fn group_end(s: Seq<char>, e: int) -> int
    decreases s.len() - e,
{
    if 0 <= e && e + 1 < s.len() && s[e] == '-' && group_item_len(s, e + 1) > 0 {
        group_end(s, e + 1 + group_item_len(s, e + 1))
    } else {
        e
    }
}

/// Start of the runway items after `_RWY` at `p`: past an underscore when one follows.
pub open spec fn rwy_group_start(s: Seq<char>, p: int) -> int {
    if 0 <= p + 4 < s.len() && s[p + 4] == '_' { p + 5 } else { p + 4 }
}

/// End of the match of `(?i)_RWY_?(ALL|\d{2}[LRC]?)(-(ALL|\d{2}[LRC]?))*` at `p`, or `p`.
pub open spec fn rwy_group_end(s: Seq<char>, p: int) -> int {
    let q = rwy_group_start(s, p);
    if ci_at(s, p, seq!['_', 'R', 'W', 'Y']) && group_item_len(s, q) > 0 {
        group_end(s, q + group_item_len(s, q))
    } else {
        p
    }
}

/// The runway group matcher.
pub open spec fn rwy_group_matcher() -> spec_fn(Seq<char>, int) -> int {
    |t: Seq<char>, i: int| rwy_group_end(t, i)
}

fn rwy_group_end_of(s: &Vec<char>, p: usize) -> (r: usize)
    requires
        p <= s.len(),
    ensures
        r as int == rwy_group_end(s@, p as int),
        p <= r <= s.len(),
        r > p ==> r >= p + 6,
{
    if !ci_at_of(s, p, &vec!['_', 'R', 'W', 'Y']) {
        return p;
    }
    let q = if p + 4 < s.len() && s[p + 4] == '_' { p + 5 } else { p + 4 };
    let k = group_item_len_of(s, q);
    if k == 0 {
        return p;
    }
    let mut e = q + k;
    while s.len() > 0 && e < s.len() - 1 && s[e] == '-' && group_item_len_of(s, e + 1) > 0
        invariant
            q + k <= e <= s.len(),
            q <= p + 5,
            k >= 2,
            rwy_group_end(s@, p as int) == group_end(s@, e as int),
        decreases s.len() - e,
    {
        let k2 = group_item_len_of(s, e + 1);
        e = e + 1 + k2;
    }
    e
}

/// A stem with its first runway group written `_RWY`, so that the sheets of one procedure
/// for different runways compare equal.
pub open spec fn normalized_stem(s: Seq<char>) -> Seq<char> {
    replace_first(s, 0, rwy_group_matcher(), "_RWY"@)
}

fn normalized_stem_of(s: &Vec<char>) -> (r: Vec<char>)
    ensures
        r@ == normalized_stem(s@),
{
    let ghost m = rwy_group_matcher();
    let mut i: usize = 0;
    while i < s.len()
        invariant
            i <= s.len(),
            m == rwy_group_matcher(),
            normalized_stem(s@) == replace_first(s@, i as int, m, "_RWY"@),
        decreases s.len() - i,
    {
        let e = rwy_group_end_of(s, i);
        assert(m(s@, i as int) == e);
        if e > i {
            let mut out = slice_of(s, 0, i);
            push_all(&mut out, &chars_of("_RWY"));
            let rest = slice_of(s, e, s.len());
            push_all(&mut out, &rest);
            assert(s@.skip(e as int) =~= s@.subrange(e as int, s@.len() as int));
            assert(s@.take(i as int) =~= s@.subrange(0, i as int));
            return out;
        }
        i = i + 1;
    }
    slice_of(s, 0, s.len())
}

/// A stem with its first runway group written `_RWY`.
pub fn normalize_stem_for_instr_match(stem: &str) -> (r: String)
    ensures
        r@ == normalized_stem(stem@),
{
    let s = chars_of(stem);
    string_of(&normalized_stem_of(&s))
}

/// Whether a stem splits at `p` into a prefix, a runway group and a suffix, as
/// `(?i)^(.+)_RWY_?(<group>)_(.+)$` reads it.
pub open spec fn parts_at(s: Seq<char>, p: int) -> bool {
    let e = rwy_group_end(s, p);
    &&& 1 <= p
    &&& no_newline(s, 0, p)
    &&& e > p
    &&& e + 1 < s.len()
    &&& s[e] == '_'
    &&& no_newline(s, e + 1, s.len() as int)
}

/// The longest prefix, up to `p`, at which the stem splits; 0 when there is none.
pub open spec fn best_split(s: Seq<char>, p: int) -> int
    decreases p,
{
    if p < 1 {
        0
    } else if parts_at(s, p) {
        p
    } else {
        best_split(s, p - 1)
    }
}

/// The upper-case runway items of a runway group.
pub open spec fn group_runways(g: Seq<char>) -> Seq<Seq<char>> {
    split_on(g, '-').map_values(|x: Seq<char>| uppercase(x))
}

/// Prefix, upper-case runways and suffix of a stem that names runways, as
/// `(?i)^(.+)_RWY_?(<group>)_(.+)$` splits it with the longest prefix.
pub open spec fn stem_parts(s: Seq<char>) -> Option<(Seq<char>, Seq<Seq<char>>, Seq<char>)> {
    let p = best_split(s, s.len() as int);
    if p >= 1 {
        let e = rwy_group_end(s, p);
        Some((s.take(p), group_runways(s.subrange(rwy_group_start(s, p), e)), s.skip(e + 1)))
    } else {
        None
    }
}

fn parts_at_of(s: &Vec<char>, p: usize) -> (r: bool)
    requires
        p <= s.len(),
    ensures
        r == parts_at(s@, p as int),
{
    if p < 1 || !no_newline_of(s, 0, p) {
        return false;
    }
    let e = rwy_group_end_of(s, p);
    e > p && e < s.len() && s.len() - e > 1 && s[e] == '_' && no_newline_of(s, e + 1, s.len())
}

/// Prefix, upper-case runways and suffix of a stem that names runways.
pub fn parse_stem_runway_parts(stem: &str) -> (r: Option<(String, Vec<String>, String)>)
    ensures
        match (r, stem_parts(stem@)) {
            (Some((pre, rw, suf)), Some((p2, r2, s2))) => pre@ == p2 && strings_view(rw@) == r2
                && suf@ == s2,
            (None, None) => true,
            _ => false,
        },
{
    let s = chars_of(stem);
    let mut p: usize = s.len();
    while p >= 1 && !parts_at_of(&s, p)
        invariant
            p <= s.len(),
            best_split(s@, s@.len() as int) == best_split(s@, p as int),
        decreases p,
    {
        p = p - 1;
    }
    if p < 1 {
        return None;
    }
    let e = rwy_group_end_of(&s, p);
    let q = if p + 4 < s.len() && s[p + 4] == '_' { p + 5 } else { p + 4 };
    let prefix = string_of(&slice_of(&s, 0, p));
    let suffix = string_of(&slice_of(&s, e + 1, s.len()));
    let group = slice_of(&s, q, e);
    let pieces = split_on_of(&group, '-');
    let ghost pv = vec_views(pieces@);
    let mut runways: Vec<String> = Vec::new();
    let mut k: usize = 0;
    while k < pieces.len()
        invariant
            k <= pieces.len(),
            pv == vec_views(pieces@),
            strings_view(runways@) == pv.take(k as int).map_values(|x: Seq<char>| uppercase(x)),
        decreases pieces.len() - k,
    {
        let t = string_of(&pieces[k]);
        let u = to_uppercase_of(t.as_str());
        let ghost before = strings_view(runways@);
        runways.push(u);
        assert(strings_view(runways@) =~= before.push(u@));
        assert(pv.take(k + 1) =~= pv.take(k as int).push(pv[k as int]));
        assert(pv.take(k + 1).map_values(|x: Seq<char>| uppercase(x)) =~= pv.take(k as int).map_values(|x: Seq<char>| uppercase(x)).push(uppercase(pv[k as int])));
        k = k + 1;
    }
    assert(pv.take(k as int) =~= pv);
    assert(s@.take(p as int) =~= s@.subrange(0, p as int));
    assert(s@.skip(e + 1) =~= s@.subrange(e + 1, s@.len() as int));
    Some((prefix, runways, suffix))
}

/// Whether an instruction sheet's parent stem names the chart with stem `a`: the same stem,
/// or the same procedure (stems equal once the runway group is written `_RWY`, same prefix
/// and suffix) where the chart covers `ALL` runways or a runway of the sheet.
pub open spec fn stems_match(a: Seq<char>, b: Seq<char>) -> bool {
    a == b || (normalized_stem(a) == normalized_stem(b) && match (stem_parts(a), stem_parts(b)) {
        (Some((pa, ra, sa)), Some((pb, rb, sb))) => pa == pb && sa == sb && (ra.contains("ALL"@)
            || exists|k: int| 0 <= k < ra.len() && rb.contains(#[trigger] ra[k])),
        _ => false,
    })
}

/// Whether an instruction sheet's parent stem names the chart with stem `chart_stem`.
pub fn stems_match_for_instr_link(chart_stem: &str, instr_parent_stem: &str) -> (r: bool)
    ensures
        r == stems_match(chart_stem@, instr_parent_stem@),
{
    if crate::text::same_text(chart_stem, instr_parent_stem) {
        return true;
    }
    let a = chars_of(chart_stem);
    let b = chars_of(instr_parent_stem);
    let na = normalized_stem_of(&a);
    let nb = normalized_stem_of(&b);
    if !crate::text::same_chars(&na, &nb) {
        return false;
    }
    let pa = parse_stem_runway_parts(chart_stem);
    let pb = parse_stem_runway_parts(instr_parent_stem);
    match (pa, pb) {
        (Some((ap, ar, asuf)), Some((bp, br, bsuf))) => {
            if !crate::text::same_text(ap.as_str(), bp.as_str())
                || !crate::text::same_text(asuf.as_str(), bsuf.as_str()) {
                return false;
            }
            if contains_string(&ar, "ALL") {
                return true;
            }
            let ghost rav = strings_view(ar@);
            let ghost rbv = strings_view(br@);
            let mut k: usize = 0;
            while k < ar.len()
                invariant
                    k <= ar.len(),
                    rav == strings_view(ar@),
                    rbv == strings_view(br@),
                    normalized_stem(chart_stem@) == normalized_stem(instr_parent_stem@),
                    stem_parts(chart_stem@) == Some((ap@, rav, asuf@)),
                    stem_parts(instr_parent_stem@) == Some((bp@, rbv, bsuf@)),
                    ap@ == bp@,
                    asuf@ == bsuf@,
                    chart_stem@ != instr_parent_stem@,
                    !rav.contains("ALL"@),
                    forall|j: int| 0 <= j < k ==> !rbv.contains(#[trigger] rav[j]),
                decreases ar.len() - k,
            {
                if contains_string(&br, ar[k].as_str()) {
                    assert(rbv.contains(rav[k as int]));
                    return true;
                }
                k = k + 1;
            }
            false
        },
        _ => false,
    }
}

} // verus!
