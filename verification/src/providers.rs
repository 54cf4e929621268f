//! The smaller chart providers (Atlas VAC, SOFIA VAC, SUP AIP), the answers a provider can
//! give, and the pages of several rendered documents shown as one.
use vstd::prelude::*;
use crate::airac::{sia_cycle_name_text, AiracCycle};
use crate::models::{chart_provider_base, Chart, ChartCategory, ChartSource, ChartView};
use crate::notices::before_first;
use crate::sia::{after_last, after_last_of, charts_view};
use crate::html::{form_key_of, html_form_key, html_supaip_links, supaip_links_of};
use crate::state::RenderedPage;
use crate::text::{
    chars_of, decimal_padded, decimal_padded_of, has_prefix, has_prefix_of, has_suffix,
    has_suffix_of, lowercase, opt_string_view, push_all, push_str, string_of, strings_view, to_lowercase_of,
    to_uppercase_of, trim_ws, trim_ws_of, uppercase,
};

verus! {

broadcast use vstd::string::group_string_axioms;

/// Whether an HTTP answer with status `status` shows that a document exists: a success or a
/// redirection to it (302).
pub open spec fn document_found(status: u16) -> bool {
    (200 <= status <= 299) || status == 302
}

/// Whether an HTTP answer with status `status` shows that a document exists.
pub fn is_document_found(status: u16) -> (r: bool)
    ensures
        r == document_found(status),
{
    (200 <= status && status <= 299) || status == 302
}

// ---------------------------------------------------------------- Atlas VAC and SOFIA VAC

/// File name of the VAC of an aerodrome, `AD-2.<ICAO>.pdf`.
pub open spec fn vac_file(icao_upper: Seq<char>) -> Seq<char> {
    "AD-2."@ + icao_upper + ".pdf"@
}

/// Provider-relative path of the Atlas VAC of an aerodrome.
pub open spec fn atlas_path(icao_upper: Seq<char>) -> Seq<char> {
    "Cartes/"@ + icao_upper + seq!['/'] + vac_file(icao_upper)
}

/// A chart with no sheets, page, custom title or runways, tagged `tag`.
pub open spec fn single_chart(
    id: Seq<char>,
    source: ChartSource,
    category: ChartCategory,
    subtitle: Seq<char>,
    filename: Seq<char>,
    path: Seq<char>,
    airac: Seq<char>,
    tag: Seq<char>,
) -> ChartView {
    ChartView {
        id,
        source,
        category,
        subtitle,
        filename,
        provider_relative_url: path,
        linked_provider_relative_urls: Seq::empty(),
        airac_code: airac,
        page: None,
        tags: seq![tag],
        runways: Seq::empty(),
        custom_title: None,
    }
}

/// The Atlas VAC of an aerodrome.
pub open spec fn atlas_chart_view(icao: Seq<char>, airac: Seq<char>) -> ChartView {
    let u = uppercase(icao);
    single_chart(u + "-ATLAS-VAC"@, ChartSource::Atlas, ChartCategory::Vac, "Atlas VAC "@ + u, vac_file(u), atlas_path(u), airac, "VAC"@)
}

/// The SOFIA VAC of an aerodrome.
pub open spec fn sofia_vac_chart_view(icao: Seq<char>, airac: Seq<char>) -> ChartView {
    let u = uppercase(icao);
    single_chart(u + "-SOFIA-VAC"@, ChartSource::SofiaVac, ChartCategory::Vac, "Sofia VAC "@ + u, vac_file(u), vac_file(u), airac, "VAC"@)
}

fn vac_chart(id: Vec<char>, source: ChartSource, subtitle: Vec<char>, filename: Vec<char>, path: Vec<char>, airac_code: &str) -> (r: Chart)
    ensures
        r@ == single_chart(id@, source, ChartCategory::Vac, subtitle@, filename@, path@, airac_code@, "VAC"@),
{
    let mut tags: Vec<String> = Vec::new();
    tags.push(string_of(&chars_of("VAC")));
    let r = Chart {
        id: string_of(&id),
        source,
        category: ChartCategory::Vac,
        subtitle: string_of(&subtitle),
        filename: string_of(&filename),
        provider_relative_url: string_of(&path),
        linked_provider_relative_urls: Vec::new(),
        airac_code: string_of(&chars_of(airac_code)),
        page: None,
        tags,
        runways: Vec::new(),
        custom_title: None,
    };
    assert(strings_view(r.linked_provider_relative_urls@) =~= Seq::<Seq<char>>::empty());
    assert(strings_view(r.runways@) =~= Seq::<Seq<char>>::empty());
    assert(strings_view(r.tags@) =~= seq!["VAC"@]);
    r
}

fn vac_file_of(u: &Vec<char>) -> (r: Vec<char>)
    ensures
        r@ == vac_file(u@),
{
    let mut v = chars_of("AD-2.");
    push_all(&mut v, u);
    push_str(&mut v, ".pdf");
    v
}

/// The charts the Atlas VAC check gives: the aerodrome's Atlas VAC when the answer to the
/// request for it, with status `status`, shows that it exists; none otherwise.
pub fn atlas_charts(icao: &str, airac_code: &str, status: u16) -> (r: Vec<Chart>)
    ensures
        charts_view(r@) == if document_found(status) { seq![atlas_chart_view(icao@, airac_code@)] } else { Seq::empty() },
{
    let mut out: Vec<Chart> = Vec::new();
    if is_document_found(status) {
        let u = chars_of(to_uppercase_of(icao).as_str());
        let mut id = u.clone();
        assert(id@ == u@);
        push_str(&mut id, "-ATLAS-VAC");
        let mut sub = chars_of("Atlas VAC ");
        push_all(&mut sub, &u);
        let mut path = chars_of("Cartes/");
        push_all(&mut path, &u);
        path.push('/');
        let f = vac_file_of(&u);
        push_all(&mut path, &f);
        assert(path@ =~= atlas_path(u@));
        let c = vac_chart(id, ChartSource::Atlas, sub, f, path, airac_code);
        out.push(c);
        assert(charts_view(out@) =~= seq![c@]);
    } else {
        assert(charts_view(out@) =~= Seq::<ChartView>::empty());
    }
    out
}

/// The charts the SOFIA VAC check gives: the aerodrome's SOFIA VAC when the answer to the
/// request for it, with status `status`, shows that it exists; none otherwise.
pub fn sofia_vac_charts(icao: &str, airac_code: &str, status: u16) -> (r: Vec<Chart>)
    ensures
        charts_view(r@) == if document_found(status) { seq![sofia_vac_chart_view(icao@, airac_code@)] } else { Seq::empty() },
{
    let mut out: Vec<Chart> = Vec::new();
    if is_document_found(status) {
        let u = chars_of(to_uppercase_of(icao).as_str());
        let mut id = u.clone();
        assert(id@ == u@);
        push_str(&mut id, "-SOFIA-VAC");
        let mut sub = chars_of("Sofia VAC ");
        push_all(&mut sub, &u);
        let f = vac_file_of(&u);
        let p = vac_file_of(&u);
        let c = vac_chart(id, ChartSource::SofiaVac, sub, f, p, airac_code);
        out.push(c);
        assert(charts_view(out@) =~= seq![c@]);
    } else {
        assert(charts_view(out@) =~= Seq::<ChartView>::empty());
    }
    out
}

/// Address of the Atlas VAC of an aerodrome for a cycle.
pub fn atlas_url(icao: &str, airac: &AiracCycle) -> (r: String)
    requires
        airac.start_date.is_valid(),
    ensures
        r@ == chart_provider_base(ChartSource::Atlas, airac.start_date) + seq!['/'] + atlas_path(uppercase(icao@)),
{
    let mut v = crate::models::eaip_base_url(airac);
    v.push('/');
    let u = chars_of(to_uppercase_of(icao).as_str());
    let mut path = chars_of("Cartes/");
    push_all(&mut path, &u);
    path.push('/');
    let f = vac_file_of(&u);
    push_all(&mut path, &f);
    assert(path@ =~= atlas_path(u@));
    push_all(&mut v, &path);
    string_of(&v)
}

/// Address of the SOFIA VAC of an aerodrome for a cycle.
pub fn sofia_vac_url(icao: &str, airac: &AiracCycle) -> (r: String)
    requires
        airac.start_date.is_valid(),
    ensures
        r@ == "https://www.sia.aviation-civile.gouv.fr/media/dvd/"@ + sia_cycle_name_text(airac.start_date)
            + "/Atlas-VAC/PDF_AIPparSSection/VAC/AD/"@ + vac_file(uppercase(icao@)),
{
    let mut v = chars_of("https://www.sia.aviation-civile.gouv.fr/media/dvd/");
    let n = airac.sia_cycle_name();
    push_str(&mut v, n.as_str());
    push_str(&mut v, "/Atlas-VAC/PDF_AIPparSSection/VAC/AD/");
    let u = chars_of(to_uppercase_of(icao).as_str());
    let f = vac_file_of(&u);
    push_all(&mut v, &f);
    string_of(&v)
}

// ---------------------------------------------------------------- SUP AIP

/// The SUP AIP result links with an address, as (position among all the links, address,
/// text), from the first `n` links read from the page.
pub open spec fn supaip_link_list(links: Seq<(Option<Seq<char>>, Seq<char>)>, n: int) -> Seq<(int, Seq<char>, Seq<char>)>
    decreases n,
{
    if n <= 0 || n > links.len() {
        Seq::empty()
    } else {
        let prev = supaip_link_list(links, n - 1);
        match links[n - 1].0 {
            Some(h) => prev.push((n - 1, h, links[n - 1].1)),
            None => prev,
        }
    }
}

/// Result links, as values.
pub open spec fn link_triples_view(v: Seq<(usize, String, String)>) -> Seq<(int, Seq<char>, Seq<char>)> {
    v.map_values(|t: (usize, String, String)| (t.0 as int, t.1@, t.2@))
}

/// The SUP AIP result links with an address, as (position among all the links, address,
/// text), given the links as read from the page: (address if any, text).
pub fn supaip_links_from(links: &Vec<(Option<String>, String)>) -> (r: Vec<(usize, String, String)>)
    ensures
        link_triples_view(r@) == supaip_link_list(
            links@.map_values(|l: (Option<String>, String)| (opt_string_view(l.0), l.1@)),
            links@.len() as int,
        ),
{
    let ghost lv = links@.map_values(|l: (Option<String>, String)| (opt_string_view(l.0), l.1@));
    let mut out: Vec<(usize, String, String)> = Vec::new();
    let mut i: usize = 0;
    while i < links.len()
        invariant
            i <= links.len(),
            lv == links@.map_values(|l: (Option<String>, String)| (opt_string_view(l.0), l.1@)),
            link_triples_view(out@) == supaip_link_list(lv, i as int),
        decreases links.len() - i,
    {
        match &links[i].0 {
            Some(h) => {
                let ghost before = link_triples_view(out@);
                out.push((i, h.clone(), links[i].1.clone()));
                assert(link_triples_view(out@) =~= before.push((i as int, h@, links@[i as int].1@)));
            },
            None => {},
        }
        i = i + 1;
    }
    out
}

/// The SUP AIP result links of the page `html` with an address, as (position among all the
/// links, address, text).
pub fn supaip_links(html: &str) -> (r: Vec<(usize, String, String)>)
    ensures
        link_triples_view(r@) == supaip_link_list(html_supaip_links(html@), html_supaip_links(html@).len() as int),
{
    let links = supaip_links_of(html);
    supaip_links_from(&links)
}

/// The search form key of the SUP AIP page `html`, or the error when it has none.
pub fn supaip_form_key(html: &str) -> (r: Result<String, String>)
    ensures
        match html_form_key(html@) {
            Some(k) => r matches Ok(v) && v@ == k,
            None => r matches Err(e) && e@ == "form_key not found"@,
        },
{
    match form_key_of(html) {
        Some(k) => Ok(k),
        None => Err(string_of(&chars_of("form_key not found"))),
    }
}

/// The SUP AIP chart of the `i`-th result link, given the address the link leads to and the
/// link's text: none when that address does not end with `.pdf` in any case. Its title is
/// the trimmed link text, or the file name when the text is blank; its path drops the SIA
/// site prefix.
pub open spec fn supaip_chart_view(icao: Seq<char>, i: int, final_url: Seq<char>, text: Seq<char>, airac: Seq<char>) -> Option<ChartView> {
    let site = "https://www.sia.aviation-civile.gouv.fr"@;
    let filename = after_last(final_url, '/');
    let title = trim_ws(text);
    if has_suffix(lowercase(final_url), ".pdf"@) {
        Some(ChartView {
            id: uppercase(icao) + "-SUPAIP-"@ + decimal_padded(i as nat, 2),
            source: ChartSource::SupAip,
            category: ChartCategory::SupAip,
            subtitle: if title.len() == 0 { filename } else { title },
            filename,
            provider_relative_url: if has_prefix(final_url, site) { final_url.skip(site.len() as int) } else { final_url },
            linked_provider_relative_urls: Seq::empty(),
            airac_code: airac,
            page: None,
            tags: seq!["SUP AIP"@],
            runways: Seq::empty(),
            custom_title: None,
        })
    } else {
        None
    }
}

/// The SUP AIP chart of the `i`-th result link.
pub fn supaip_chart(icao: &str, i: usize, final_url: &str, text: &str, airac_code: &str) -> (r: Option<Chart>)
    ensures
        match r {
            Some(c) => supaip_chart_view(icao@, i as int, final_url@, text@, airac_code@) == Some(c@),
            None => supaip_chart_view(icao@, i as int, final_url@, text@, airac_code@) is None,
        },
{
    let lower = chars_of(to_lowercase_of(final_url).as_str());
    if !has_suffix_of(&lower, &chars_of(".pdf")) {
        return None;
    }
    let u = chars_of(final_url);
    let filename = after_last_of(&u, '/');
    let title = trim_ws_of(&chars_of(text));
    let site = chars_of("https://www.sia.aviation-civile.gouv.fr");
    let path = if has_prefix_of(&u, &site) {
        let p = crate::pattern::slice_of(&u, site.len(), u.len());
        assert(p@ =~= u@.skip(site@.len() as int));
        p
    } else {
        u
    };
    let mut id = chars_of(to_uppercase_of(icao).as_str());
    push_str(&mut id, "-SUPAIP-");
    let n = decimal_padded_of(i as u64, 2);
    push_all(&mut id, &n);
    let subtitle = if title.len() == 0 { string_of(&filename) } else { string_of(&title) };
    let mut tags: Vec<String> = Vec::new();
    tags.push(string_of(&chars_of("SUP AIP")));
    let c = Chart {
        id: string_of(&id),
        source: ChartSource::SupAip,
        category: ChartCategory::SupAip,
        subtitle,
        filename: string_of(&filename),
        provider_relative_url: string_of(&path),
        linked_provider_relative_urls: Vec::new(),
        airac_code: string_of(&chars_of(airac_code)),
        page: None,
        tags,
        runways: Vec::new(),
        custom_title: None,
    };
    assert(strings_view(c.tags@) =~= seq!["SUP AIP"@]);
    assert(strings_view(c.runways@) =~= Seq::<Seq<char>>::empty());
    assert(strings_view(c.linked_provider_relative_urls@) =~= Seq::<Seq<char>>::empty());
    Some(c)
}

// ---------------------------------------------------------------- cookies

/// The parts joined by `; `.
pub open spec fn joined_cookies(v: Seq<Seq<char>>) -> Seq<char>
    decreases v.len(),
{
    if v.len() == 0 {
        Seq::empty()
    } else if v.len() == 1 {
        v[0]
    } else {
        joined_cookies(v.drop_last()) + "; "@ + v.last()
    }
}

/// The `Cookie` header that sends back the cookies of `Set-Cookie` header values: each value
/// up to its first `;`, joined by `; `.
pub fn cookie_header(values: &Vec<String>) -> (r: String)
    ensures
        r@ == joined_cookies(strings_view(values@).map_values(|v: Seq<char>| before_first(v, ';'))),
{
    let ghost vv = strings_view(values@).map_values(|v: Seq<char>| before_first(v, ';'));
    let mut out: Vec<char> = Vec::new();
    let mut i: usize = 0;
    assert(vv.take(0) =~= Seq::<Seq<char>>::empty());
    while i < values.len()
        invariant
            i <= values.len(),
            vv == strings_view(values@).map_values(|v: Seq<char>| before_first(v, ';')),
            out@ == joined_cookies(vv.take(i as int)),
        decreases values.len() - i,
    {
        let b = crate::notices::before_first_of(&chars_of(values[i].as_str()), ';');
        assert(vv.take(i + 1).drop_last() =~= vv.take(i as int));
        if i > 0 {
            push_str(&mut out, "; ");
        }
        push_all(&mut out, &b);
        i = i + 1;
    }
    assert(vv.take(i as int) =~= vv);
    string_of(&out)
}

// ---------------------------------------------------------------- UK NATS attempts

/// What an answer to a request for a UK page leads to.
#[derive(Debug, Clone, Copy, PartialEq, Eq, Structural)]
pub enum UkAttempt {
    /// The page is there: read it.
    Parse,
    /// The page is missing (404): try the next publication.
    TryNext,
    /// Any other answer ends the search with an error.
    Fail,
}

/// What an answer with status `status` leads to.
pub open spec fn uk_attempt_of(status: u16) -> UkAttempt {
    if 200 <= status <= 299 {
        UkAttempt::Parse
    } else if status == 404 {
        UkAttempt::TryNext
    } else {
        UkAttempt::Fail
    }
}

/// What an answer to a request for a UK page leads to.
pub fn uk_attempt(status: u16) -> (r: UkAttempt)
    ensures
        r == uk_attempt_of(status),
{
    if 200 <= status && status <= 299 {
        UkAttempt::Parse
    } else if status == 404 {
        UkAttempt::TryNext
    } else {
        UkAttempt::Fail
    }
}

/// The addresses joined by `, `.
pub open spec fn joined_urls(v: Seq<Seq<char>>) -> Seq<char>
    decreases v.len(),
{
    if v.len() == 0 {
        Seq::empty()
    } else if v.len() == 1 {
        v[0]
    } else {
        joined_urls(v.drop_last()) + ", "@ + v.last()
    }
}

/// The error when no publication holds the page: `HTTP 404 (tried <addresses>)`.
pub fn uk_not_found_message(tried: &Vec<String>) -> (r: String)
    ensures
        r@ == "HTTP 404 (tried "@ + joined_urls(strings_view(tried@)) + ")"@,
{
    let ghost tv = strings_view(tried@);
    let mut list: Vec<char> = Vec::new();
    let mut i: usize = 0;
    assert(tv.take(0) =~= Seq::<Seq<char>>::empty());
    while i < tried.len()
        invariant
            i <= tried.len(),
            tv == strings_view(tried@),
            list@ == joined_urls(tv.take(i as int)),
        decreases tried.len() - i,
    {
        assert(tv.take(i + 1).drop_last() =~= tv.take(i as int));
        if i > 0 {
            push_str(&mut list, ", ");
        }
        push_str(&mut list, tried[i].as_str());
        i = i + 1;
    }
    assert(tv.take(i as int) =~= tv);
    let mut out = chars_of("HTTP 404 (tried ");
    push_all(&mut out, &list);
    push_str(&mut out, ")");
    string_of(&out)
}

// ---------------------------------------------------------------- pages of several documents

/// Position of the first document whose pages are missing, or the number of documents.
pub open spec fn first_missing(docs: Seq<Option<Vec<RenderedPage>>>) -> int
    decreases docs.len(),
{
    if docs.len() == 0 {
        0
    } else if docs[0] is None {
        0
    } else {
        1 + first_missing(docs.drop_first())
    }
}

/// The data addresses of the pages of the first `n` documents, in order.
pub open spec fn all_page_urls(docs: Seq<Option<Vec<RenderedPage>>>, n: int) -> Seq<Seq<char>>
    decreases n,
{
    if n <= 0 || n > docs.len() {
        Seq::empty()
    } else {
        all_page_urls(docs, n - 1) + match docs[n - 1] {
            Some(p) => p@.map_values(|x: RenderedPage| x.data_url@),
            None => Seq::empty(),
        }
    }
}

proof fn lemma_first_missing(docs: Seq<Option<Vec<RenderedPage>>>, i: int)
    requires
        0 <= i <= docs.len(),
        forall|j: int| 0 <= j < i ==> (#[trigger] docs[j]) is Some,
        i == docs.len() || docs[i] is None,
    ensures
        first_missing(docs) == i,
    decreases i,
{
    if i > 0 {
        assert forall|j: int| 0 <= j < i - 1 implies (#[trigger] docs.drop_first()[j]) is Some by {
            assert(docs.drop_first()[j] == docs[j + 1]);
        }
        lemma_first_missing(docs.drop_first(), i - 1);
    }
}

/// The pages of several rendered documents shown as one, in order and numbered from zero;
/// the position of the first document whose pages are missing, when one is.
pub fn merge_document_pages(by_doc: Vec<Option<Vec<RenderedPage>>>) -> (r: Result<Vec<RenderedPage>, usize>)
    ensures
        match r {
            Ok(v) => first_missing(by_doc@) == by_doc@.len()
                && v@.map_values(|x: RenderedPage| x.data_url@) == all_page_urls(by_doc@, by_doc@.len() as int)
                && forall|k: int| 0 <= k < v@.len() ==> (#[trigger] v@[k]).index == k,
            Err(d) => d == first_missing(by_doc@) && d < by_doc@.len(),
        },
{
    let mut merged: Vec<RenderedPage> = Vec::new();
    let mut d: usize = 0;
    while d < by_doc.len()
        invariant
            d <= by_doc.len(),
            forall|j: int| 0 <= j < d ==> (#[trigger] by_doc@[j]) is Some,
            merged@.map_values(|x: RenderedPage| x.data_url@) == all_page_urls(by_doc@, d as int),
            forall|k: int| 0 <= k < merged@.len() ==> (#[trigger] merged@[k]).index == k,
        decreases by_doc.len() - d,
    {
        match &by_doc[d] {
            None => {
                proof { lemma_first_missing(by_doc@, d as int); }
                return Err(d);
            },
            Some(pages) => {
                let ghost before = merged@.map_values(|x: RenderedPage| x.data_url@);
                let ghost pv = pages@.map_values(|x: RenderedPage| x.data_url@);
                let mut k: usize = 0;
                while k < pages.len()
                    invariant
                        k <= pages.len(),
                        pv == pages@.map_values(|x: RenderedPage| x.data_url@),
                        merged@.map_values(|x: RenderedPage| x.data_url@) == before + pv.take(k as int),
                        forall|m: int| 0 <= m < merged@.len() ==> (#[trigger] merged@[m]).index == m,
                    decreases pages.len() - k,
                {
                    let ghost b2 = merged@.map_values(|x: RenderedPage| x.data_url@);
                    let n = merged.len();
                    let p = RenderedPage { data_url: pages[k].data_url.clone(), index: n };
                    merged.push(p);
                    assert(merged@.map_values(|x: RenderedPage| x.data_url@) =~= b2.push(pv[k as int]));
                    assert(pv.take(k + 1) =~= pv.take(k as int).push(pv[k as int]));
                    k = k + 1;
                }
                assert(pv.take(k as int) =~= pv);
            },
        }
        d = d + 1;
    }
    proof { lemma_first_missing(by_doc@, d as int); }
    Ok(merged)
}

} // verus!
