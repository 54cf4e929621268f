//! An aerodrome search: which providers to ask, and how their charts are listed.
use vstd::prelude::*;
use crate::airac::AiracCycle;
use crate::calendar::CalendarDate;
use crate::models::{
    category_rank, chart_provider_base, resolve_url, AipDocSource, AipDocument, Chart,
    ChartView, Notice,
};
use crate::order::{lemma_lex_total, lemma_lex_transitive, lex_lt, lex_lt_of};
use crate::sia::charts_view;
use crate::sia_names::{instr_match, is_instr_file};
use crate::text::{chars_of, has_prefix, has_prefix_of, push_str, same_chars, string_of, strings_view, to_uppercase_of, uppercase};

verus! {

broadcast use vstd::string::group_string_axioms;

// ---------------------------------------------------------------- providers

/// The aerodrome code a search is made and kept under: the code typed, in upper case.
pub fn search_code(icao: &str) -> (r: String)
    ensures
        r@ == uppercase(icao@),
{
    to_uppercase_of(icao)
}

/// The providers to ask for an aerodrome: UK NATS for `EG` codes, the SIA otherwise; for `LF`
/// codes also the Atlas VAC, the SOFIA VAC and the SUP AIP, and the NOTAMs.
pub struct SearchPlan {
    pub uk: bool,
    pub sia: bool,
    pub france_extras: bool,
    pub notices: bool,
}

/// The providers to ask for the aerodrome `icao` (in either case).
pub fn search_plan(icao: &str) -> (r: SearchPlan)
    ensures
        r.uk == has_prefix(uppercase(icao@), "EG"@),
        r.sia == !r.uk,
        r.france_extras == (!r.uk && has_prefix(uppercase(icao@), "LF"@)),
        r.notices == has_prefix(uppercase(icao@), "LF"@),
{
    let u = to_uppercase_of(icao);
    let v = chars_of(u.as_str());
    let uk = has_prefix_of(&v, &chars_of("EG"));
    let lf = has_prefix_of(&v, &chars_of("LF"));
    SearchPlan { uk, sia: !uk, france_extras: !uk && lf, notices: lf }
}

/// The AIP text document of aerodrome `icao` (upper-cased) for a cycle: the NATS page for
/// `EG` codes, the SIA page for other codes starting with `L`, none otherwise.
pub open spec fn aip_doc_ref(icao: Seq<char>, airac_code: Seq<char>) -> Option<(Seq<char>, Seq<char>, AipDocSource, Seq<char>, Seq<char>)> {
    let u = uppercase(icao);
    if has_prefix(u, "EG"@) {
        Some((u + "-AIP-UK"@, u, AipDocSource::Uk, "EG-AD-2."@ + u + "-en-GB.html"@, airac_code))
    } else if has_prefix(u, "L"@) {
        Some((u + "-AIP-SIA"@, u, AipDocSource::Sia, "FR-AD-2."@ + u + "-fr-FR.html"@, airac_code))
    } else {
        None
    }
}

/// The fields of a document reference.
pub open spec fn doc_fields(d: AipDocument) -> (Seq<char>, Seq<char>, AipDocSource, Seq<char>, Seq<char>) {
    (d.id@, d.icao@, d.source, d.provider_relative_url@, d.airac_code@)
}

/// The AIP text document of an aerodrome for a cycle.
pub fn build_aip_doc_ref(icao: &str, airac: &AiracCycle) -> (r: Option<AipDocument>)
    ensures
        match (r, aip_doc_ref(icao@, airac.code@)) {
            (Some(d), Some(f)) => doc_fields(d) == f,
            (None, None) => true,
            _ => false,
        },
{
    let u = to_uppercase_of(icao);
    let v = chars_of(u.as_str());
    if has_prefix_of(&v, &chars_of("EG")) {
        let mut id = chars_of(u.as_str());
        push_str(&mut id, "-AIP-UK");
        let mut url = chars_of("EG-AD-2.");
        push_str(&mut url, u.as_str());
        push_str(&mut url, "-en-GB.html");
        return Some(AipDocument {
            id: string_of(&id),
            icao: string_of(&v),
            source: AipDocSource::Uk,
            provider_relative_url: string_of(&url),
            airac_code: airac.code.clone(),
        });
    }
    if has_prefix_of(&v, &chars_of("L")) {
        let mut id = chars_of(u.as_str());
        push_str(&mut id, "-AIP-SIA");
        let mut url = chars_of("FR-AD-2.");
        push_str(&mut url, u.as_str());
        push_str(&mut url, "-fr-FR.html");
        return Some(AipDocument {
            id: string_of(&id),
            icao: string_of(&v),
            source: AipDocSource::Sia,
            provider_relative_url: string_of(&url),
            airac_code: airac.code.clone(),
        });
    }
    None
}

// ---------------------------------------------------------------- listing

/// The effective address of a chart for the cycle starting on `d`.
pub open spec fn chart_url(c: ChartView, d: CalendarDate) -> Seq<char> {
    resolve_url(chart_provider_base(c.source, d), c.provider_relative_url)
}

/// Order of listed charts: category position, then subtitle, then address.
pub open spec fn result_before(a: ChartView, b: ChartView, d: CalendarDate) -> bool {
    category_rank(a.category) < category_rank(b.category) || (category_rank(a.category)
        == category_rank(b.category) && (lex_lt(a.subtitle, b.subtitle) || (a.subtitle
        == b.subtitle && lex_lt(chart_url(a, d), chart_url(b, d)))))
}

/// Whether the charts are in strictly increasing listing order.
pub open spec fn sorted_results(v: Seq<ChartView>, d: CalendarDate) -> bool {
    forall|i: int, j: int| 0 <= i < j < v.len() ==> result_before(#[trigger] v[i], #[trigger] v[j], d)
}

/// The addresses of charts.
pub open spec fn chart_urls(v: Seq<ChartView>, d: CalendarDate) -> Seq<Seq<char>> {
    v.map_values(|c: ChartView| chart_url(c, d))
}

/// The charts that are listed, in input order: no instruction sheets, and of the charts with
/// one address only the first.
pub open spec fn first_per_url(cs: Seq<ChartView>, d: CalendarDate) -> Seq<ChartView>
    decreases cs.len(),
{
    if cs.len() == 0 {
        Seq::empty()
    } else {
        let prev = first_per_url(cs.drop_last(), d);
        let c = cs.last();
        if !instr_match(c.filename) && !chart_urls(prev, d).contains(chart_url(c, d)) {
            prev.push(c)
        } else {
            prev
        }
    }
}

proof fn lemma_before_transitive(a: ChartView, b: ChartView, c: ChartView, d: CalendarDate)
    requires
        result_before(a, b, d),
        result_before(b, c, d),
    ensures
        result_before(a, c, d),
{
    if category_rank(a.category) == category_rank(b.category) && category_rank(b.category)
        == category_rank(c.category) {
        if lex_lt(a.subtitle, b.subtitle) && lex_lt(b.subtitle, c.subtitle) {
            lemma_lex_transitive(a.subtitle, b.subtitle, c.subtitle);
        } else if a.subtitle == b.subtitle && b.subtitle == c.subtitle {
            lemma_lex_transitive(chart_url(a, d), chart_url(b, d), chart_url(c, d));
        }
    }
}

proof fn lemma_before_total(a: ChartView, b: ChartView, d: CalendarDate)
    requires
        chart_url(a, d) != chart_url(b, d),
    ensures
        result_before(a, b, d) || result_before(b, a, d),
{
    lemma_lex_total(a.subtitle, b.subtitle);
    lemma_lex_total(chart_url(a, d), chart_url(b, d));
}

proof fn lemma_sorted_results_insert(v: Seq<ChartView>, k: int, x: ChartView, d: CalendarDate)
    requires
        sorted_results(v, d),
        0 <= k <= v.len(),
        forall|j: int| 0 <= j < k ==> result_before(v[j], x, d),
        k < v.len() ==> result_before(x, v[k], d),
    ensures
        sorted_results(v.insert(k, x), d),
{
    let w = v.insert(k, x);
    assert forall|i: int, j: int| 0 <= i < j < w.len() implies result_before(#[trigger] w[i], #[trigger] w[j], d) by {
        if i < k && j < k {
        } else if i < k && j == k {
        } else if i < k && j > k {
            assert(w[j] == v[j - 1]);
        } else if i == k {
            assert(w[j] == v[j - 1]);
            if j - 1 > k {
                lemma_before_transitive(x, v[k], v[j - 1], d);
            }
        } else {
            assert(w[i] == v[i - 1] && w[j] == v[j - 1]);
        }
    }
}

/// Whether `a` comes before `b` in the listing, given their addresses.
fn result_before_of(a: &Chart, ua: &Vec<char>, b: &Chart, ub: &Vec<char>, Ghost(d): Ghost<CalendarDate>) -> (r: bool)
    requires
        ua@ == chart_url(a@, d),
        ub@ == chart_url(b@, d),
    ensures
        r == result_before(a@, b@, d),
{
    let ra = a.category.sort_order();
    let rb = b.category.sort_order();
    if ra != rb {
        return ra < rb;
    }
    let sa = chars_of(a.subtitle.as_str());
    let sb = chars_of(b.subtitle.as_str());
    if lex_lt_of(&sa, &sb) {
        return true;
    }
    same_chars(&sa, &sb) && lex_lt_of(ua, ub)
}

/// The charts of a search as they are listed: instruction sheets left out, one chart per
/// effective address for the cycle (the first found), sorted by category position, then
/// subtitle, then address.
pub fn arrange_search_results(charts: &Vec<Chart>, airac: &AiracCycle) -> (r: Vec<Chart>)
    requires
        airac.start_date.is_valid(),
    ensures
        sorted_results(charts_view(r@), airac.start_date),
        charts_view(r@).len() == first_per_url(charts_view(charts@), airac.start_date).len(),
        forall|x: ChartView| charts_view(r@).contains(x) <==> first_per_url(
            charts_view(charts@),
            airac.start_date,
        ).contains(x),
{
    let ghost d = airac.start_date;
    let ghost cs = charts_view(charts@);
    let mut out: Vec<Chart> = Vec::new();
    let mut urls: Vec<Vec<char>> = Vec::new();
    let mut i: usize = 0;
    assert(cs.take(0) =~= Seq::<ChartView>::empty());
    assert(charts_view(out@) =~= Seq::<ChartView>::empty());
    while i < charts.len()
        invariant
            i <= charts.len(),
            d == airac.start_date,
            d.is_valid(),
            cs == charts_view(charts@),
            urls.len() == out.len(),
            forall|j: int| 0 <= j < out.len() ==> (#[trigger] urls@[j])@ == chart_url(out@[j]@, d),
            sorted_results(charts_view(out@), d),
            charts_view(out@).len() == first_per_url(cs.take(i as int), d).len(),
            forall|x: ChartView| charts_view(out@).contains(x) <==> first_per_url(cs.take(i as int), d).contains(x),
        decreases charts.len() - i,
    {
        let c = &charts[i];
        let ghost ov = charts_view(out@);
        let ghost prev = first_per_url(cs.take(i as int), d);
        assert(cs.take(i + 1).drop_last() =~= cs.take(i as int));
        assert(cs.take(i + 1).last() == c@);
        if !is_instr_file(c.filename.as_str()) {
            let u = chars_of(c.url_for_airac(airac).as_str());
            let mut dup = false;
            let mut q: usize = 0;
            while q < urls.len()
                invariant
                    q <= urls.len(),
                    urls.len() == out.len(),
                    dup == exists|j: int| 0 <= j < q && (#[trigger] urls@[j])@ == u@,
                decreases urls.len() - q,
            {
                if same_chars(&urls[q], &u) {
                    dup = true;
                }
                q = q + 1;
            }
            proof {
                assert(dup == chart_urls(prev, d).contains(chart_url(c@, d))) by {
                    if dup {
                        let j = choose|j: int| 0 <= j < q && (#[trigger] urls@[j])@ == u@;
                        assert(ov[j] == out@[j]@);
                        assert(ov.contains(ov[j]));
                        assert(prev.contains(ov[j]));
                        let p = choose|p: int| 0 <= p < prev.len() && prev[p] == ov[j];
                        assert(chart_urls(prev, d)[p] == chart_url(c@, d));
                    }
                    if chart_urls(prev, d).contains(chart_url(c@, d)) {
                        let p = choose|p: int| 0 <= p < prev.len() && chart_urls(prev, d)[p] == chart_url(c@, d);
                        assert(prev.contains(prev[p]));
                        assert(ov.contains(prev[p]));
                        let j = choose|j: int| 0 <= j < ov.len() && ov[j] == prev[p];
                        assert(out@[j]@ == ov[j]);
                        assert(urls@[j]@ == u@);
                    }
                }
            }
            if !dup {
                let mut k: usize = 0;
                while k < out.len() && result_before_of(&out[k], &urls[k], c, &u, Ghost(d))
                    invariant
                        k <= out.len(),
                        urls.len() == out.len(),
                        ov == charts_view(out@),
                        u@ == chart_url(c@, d),
                        forall|j: int| 0 <= j < out.len() ==> (#[trigger] urls@[j])@ == chart_url(out@[j]@, d),
                        forall|j: int| 0 <= j < k ==> result_before(ov[j], c@, d),
                    decreases out.len() - k,
                {
                    assert(ov[k as int] == out@[k as int]@);
                    k = k + 1;
                }
                proof {
                    if k < out.len() {
                        assert(ov[k as int] == out@[k as int]@);
                        assert(!result_before(ov[k as int], c@, d));
                        assert(urls@[k as int]@ != u@);
                        lemma_before_total(ov[k as int], c@, d);
                    }
                    lemma_sorted_results_insert(ov, k as int, c@, d);
                }
                let cc = c.duplicate();
                let ghost out_before = out@;
                let ghost urls_before = urls@;
                out.insert(k, cc);
                urls.insert(k, u);
                proof {
                    let nv = charts_view(out@);
                    assert(nv =~= ov.insert(k as int, c@));
                    let np = first_per_url(cs.take(i + 1), d);
                    assert(np == prev.push(c@));
                    assert forall|j: int| 0 <= j < out.len() implies (#[trigger] urls@[j])@ == chart_url(out@[j]@, d) by {
                        if j < k {
                        } else if j == k {
                        } else {
                            assert(out@[j] == out_before[j - 1]);
                            assert(urls@[j] == urls_before[j - 1]);
                        }
                    }
                    assert forall|x: ChartView| nv.contains(x) <==> np.contains(x) by {
                        if nv.contains(x) {
                            let p = choose|p: int| 0 <= p < nv.len() && nv[p] == x;
                            if p < k {
                                assert(ov[p] == x);
                                assert(ov.contains(x));
                            } else if p > k {
                                assert(ov[p - 1] == x);
                                assert(ov.contains(x));
                            }
                            if x != c@ {
                                assert(prev.contains(x));
                                let q2 = choose|q2: int| 0 <= q2 < prev.len() && prev[q2] == x;
                                assert(np[q2] == x);
                            } else {
                                assert(np[prev.len() as int] == x);
                            }
                        }
                        if np.contains(x) {
                            let q2 = choose|q2: int| 0 <= q2 < np.len() && np[q2] == x;
                            if q2 < prev.len() {
                                assert(prev[q2] == x);
                                assert(prev.contains(x));
                                assert(ov.contains(x));
                                let p = choose|p: int| 0 <= p < ov.len() && ov[p] == x;
                                if p < k {
                                    assert(nv[p] == x);
                                } else {
                                    assert(nv[p + 1] == x);
                                }
                            } else {
                                assert(nv[k as int] == x);
                            }
                        }
                    }
                }
            }
        }
        i = i + 1;
    }
    assert(cs.take(i as int) =~= cs);
    out
}


// ---------------------------------------------------------------- the result of a search

/// The result of a search across the providers.
pub struct SearchResult {
    pub charts: Vec<Chart>,
    pub notices: Vec<Notice>,
    pub aip_doc: Option<AipDocument>,
    pub errors: Vec<String>,
}

/// What each provider answered for one search; `None` for a provider that was not asked.
pub struct ProviderAnswers {
    pub uk: Option<Result<Vec<Chart>, String>>,
    pub sia: Option<Result<Vec<Chart>, String>>,
    pub atlas: Option<Result<Vec<Chart>, String>>,
    pub sofia_vac: Option<Result<Vec<Chart>, String>>,
    pub supaip: Option<Result<Vec<Chart>, String>>,
    pub notices: Option<Result<Vec<Notice>, String>>,
}

/// The charts of an answer: those it gave, or none when the provider failed or was not asked.
pub open spec fn answer_charts(a: Option<Result<Vec<Chart>, String>>) -> Seq<ChartView> {
    match a {
        Some(Ok(v)) => charts_view(v@),
        _ => Seq::empty(),
    }
}

/// The error a failed answer reports, after `label`; none otherwise.
pub open spec fn answer_error(a: Option<Result<Vec<Chart>, String>>, label: Seq<char>) -> Seq<Seq<char>> {
    match a {
        Some(Err(e)) => seq![label + e@],
        _ => Seq::empty(),
    }
}

/// The charts the providers gave, in the order UK NATS, SIA, Atlas VAC, SOFIA VAC, SUP AIP.
pub open spec fn gathered_charts(a: ProviderAnswers) -> Seq<ChartView> {
    answer_charts(a.uk) + answer_charts(a.sia) + answer_charts(a.atlas) + answer_charts(a.sofia_vac)
        + answer_charts(a.supaip)
}

/// The errors of a search: only a failure of UK NATS or of the SIA counts; the other
/// providers are optional.
pub open spec fn search_errors(a: ProviderAnswers) -> Seq<Seq<char>> {
    answer_error(a.uk, "UK NATS: "@) + answer_error(a.sia, "SIA: "@)
}

/// The notices of a search: those fetched, or none when the fetch failed or was not made.
pub open spec fn answer_notices(a: Option<Result<Vec<Notice>, String>>) -> Seq<Notice> {
    match a {
        Some(Ok(v)) => v@,
        _ => Seq::empty(),
    }
}

fn take_charts(out: &mut Vec<Chart>, a: Option<Result<Vec<Chart>, String>>)
    ensures
        charts_view(final(out)@) == charts_view(old(out)@) + answer_charts(a),
{
    match a {
        Some(Ok(v)) => {
            let mut v = v;
            let ghost av = charts_view(v@);
            out.append(&mut v);
            assert(charts_view(out@) =~= charts_view(old(out)@) + av);
        },
        _ => {
            assert(charts_view(out@) =~= charts_view(old(out)@) + Seq::<ChartView>::empty());
        },
    }
}

fn take_error(out: &mut Vec<String>, a: &Option<Result<Vec<Chart>, String>>, label: &str)
    ensures
        strings_view(final(out)@) == strings_view(old(out)@) + answer_error(*a, label@),
{
    match a {
        Some(Err(e)) => {
            let mut m = chars_of(label);
            push_str(&mut m, e.as_str());
            let s = string_of(&m);
            let ghost before = strings_view(out@);
            out.push(s);
            assert(strings_view(out@) =~= before.push(s@));
        },
        _ => {
            assert(strings_view(out@) =~= strings_view(old(out)@) + Seq::<Seq<char>>::empty());
        },
    }
}

/// The result of a search of aerodrome `icao` from what the providers answered: their charts
/// listed as [`arrange_search_results`] lists them, the notices fetched, the AIP document of
/// the aerodrome, and an error for a failure of UK NATS or of the SIA.
pub fn search_result_of(icao: &str, airac: &AiracCycle, answers: ProviderAnswers) -> (r: SearchResult)
    requires
        airac.start_date.is_valid(),
    ensures
        sorted_results(charts_view(r.charts@), airac.start_date),
        charts_view(r.charts@).len() == first_per_url(gathered_charts(answers), airac.start_date).len(),
        forall|x: ChartView| charts_view(r.charts@).contains(x) <==> first_per_url(
            gathered_charts(answers),
            airac.start_date,
        ).contains(x),
        r.notices@ == answer_notices(answers.notices),
        strings_view(r.errors@) == search_errors(answers),
        match (r.aip_doc, aip_doc_ref(icao@, airac.code@)) {
            (Some(d), Some(f)) => doc_fields(d) == f,
            (None, None) => true,
            _ => false,
        },
{
    let ghost all = gathered_charts(answers);
    let ghost errs = search_errors(answers);
    let ghost ns = answer_notices(answers.notices);
    let mut errors: Vec<String> = Vec::new();
    take_error(&mut errors, &answers.uk, "UK NATS: ");
    take_error(&mut errors, &answers.sia, "SIA: ");
    assert(strings_view(errors@) =~= errs);
    let mut charts: Vec<Chart> = Vec::new();
    take_charts(&mut charts, answers.uk);
    take_charts(&mut charts, answers.sia);
    take_charts(&mut charts, answers.atlas);
    take_charts(&mut charts, answers.sofia_vac);
    take_charts(&mut charts, answers.supaip);
    assert(charts_view(charts@) =~= all);
    let notices = match answers.notices {
        Some(Ok(v)) => v,
        _ => Vec::new(),
    };
    SearchResult {
        charts: arrange_search_results(&charts, airac),
        notices,
        aip_doc: build_aip_doc_ref(icao, airac),
        errors,
    }
}

/// The result of a search of aerodrome `icao` answered from the results kept for the cycle:
/// those charts and notices, the AIP document of the aerodrome, and no error.
pub fn cached_search_result(icao: &str, airac: &AiracCycle, charts: Vec<Chart>, notices: Vec<Notice>) -> (r: SearchResult)
    ensures
        r.charts@ == charts@,
        r.notices@ == notices@,
        r.errors@.len() == 0,
        match (r.aip_doc, aip_doc_ref(icao@, airac.code@)) {
            (Some(d), Some(f)) => doc_fields(d) == f,
            (None, None) => true,
            _ => false,
        },
{
    SearchResult { charts, notices, aip_doc: build_aip_doc_ref(icao, airac), errors: Vec::new() }
}

/// Whether the result of a search is kept for the cycle: only when no provider failed, as
/// partial results are not kept.
pub fn should_cache_search(r: &SearchResult) -> (b: bool)
    ensures
        b == (r.errors@.len() == 0),
{
    r.errors.len() == 0
}

} // verus!
