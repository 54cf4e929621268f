//! Charts of an aerodrome page of the SIA eAIP: links to PDF files, the instruction sheets
//! that belong to a chart, and the page numbers of charts that share a title.
use vstd::prelude::*;
use crate::html::{anchor_hrefs, anchors_of, hrefs_of, html_anchors};
use crate::models::{category_label, Chart, ChartSource, ChartView};
use crate::order::sorted_distinct;
use crate::sia_names::{
    category_of_name, detect_category, extract_runways, extract_subtitle, extract_tags,
    filename_stem_upper, instr_match, is_excluded_file, is_excluded_name, kept_runways,
    page_value, parse_instr_parent, runway_captures, stem_upper, stems_match,
    stems_match_for_instr_link, strip_numeric, strip_numeric_suffix, subtitle_text,
    tag_candidates,
};
use crate::text::{
    chars_of, contains_string, decimal, decimal_of, decimal_padded, decimal_padded_of, has_prefix, has_prefix_of,
    has_suffix, has_suffix_of, push_all, push_str, same_chars, same_text, string_of,
    strings_view, to_uppercase_of, trim_start_text, trim_start_text_of, uppercase,
};

verus! {

broadcast use vstd::string::group_string_axioms;

// ---------------------------------------------------------------- links

/// The part of `h` after its last `c`; all of `h` when it holds none.
pub open spec fn after_last(h: Seq<char>, c: char) -> Seq<char>
    decreases h.len(),
{
    if h.len() == 0 {
        h
    } else if h.last() == c {
        Seq::empty()
    } else {
        after_last(h.drop_last(), c).push(h.last())
    }
}

/// The part of `h` after its last `c`.
pub fn after_last_of(h: &Vec<char>, c: char) -> (r: Vec<char>)
    ensures
        r@ == after_last(h@, c),
{
    let mut n: usize = h.len();
    assert(h@.take(n as int) =~= h@);
    assert(h@.subrange(n as int, h@.len() as int) =~= Seq::<char>::empty());
    while n > 0 && h[n - 1] != c
        invariant
            n <= h.len(),
            after_last(h@, c) == after_last(h@.take(n as int), c) + h@.subrange(n as int, h@.len() as int),
        decreases n,
    {
        let ghost t = h@.take(n as int);
        assert(t.drop_last() =~= h@.take(n - 1));
        assert(after_last(h@.take(n - 1), c).push(h@[n - 1]) + h@.subrange(n as int, h@.len() as int)
            =~= after_last(h@.take(n - 1), c) + h@.subrange(n - 1, h@.len() as int));
        n = n - 1;
    }
    assert(after_last(h@.take(n as int), c) =~= Seq::<char>::empty());
    crate::pattern::slice_of(h, n, h.len())
}

/// The provider-relative path of a link: the link itself when it starts with `http`, else
/// the link without its leading `./`.
pub open spec fn relative_url(h: Seq<char>) -> Seq<char> {
    if has_prefix(h, "http"@) { h } else { trim_start_text(h, "./"@) }
}

/// The provider-relative path of a link.
pub fn relative_url_of(h: &Vec<char>) -> (r: String)
    ensures
        r@ == relative_url(h@),
{
    if has_prefix_of(h, &chars_of("http")) {
        string_of(h)
    } else {
        string_of(&trim_start_text_of(h, &chars_of("./")))
    }
}

/// Whether a link is a chart or an instruction sheet: it ends with `.pdf` and its file name
/// does not mark a non-chart file.
pub open spec fn is_sia_link(h: Seq<char>) -> bool {
    has_suffix(h, ".pdf"@) && !is_excluded_name(after_last(h, '/'))
}

/// The chart a link names, before instruction sheets are attached and pages numbered.
pub open spec fn sia_raw_chart(h: Seq<char>, icao: Seq<char>, airac: Seq<char>) -> ChartView {
    let f = after_last(h, '/');
    let u = uppercase(f);
    ChartView {
        id: Seq::empty(),
        source: ChartSource::Sia,
        category: category_of_name(u),
        subtitle: subtitle_text(u, uppercase(icao)),
        filename: f,
        provider_relative_url: relative_url(h),
        linked_provider_relative_urls: Seq::empty(),
        airac_code: airac,
        page: None,
        tags: sorted_distinct(tag_candidates(u)),
        runways: sorted_distinct(kept_runways(runway_captures(u))),
        custom_title: None,
    }
}

/// The charts that the links name, in link order.
pub open spec fn sia_raw_charts(hrefs: Seq<Seq<char>>, icao: Seq<char>, airac: Seq<char>) -> Seq<ChartView>
    decreases hrefs.len(),
{
    if hrefs.len() == 0 {
        Seq::empty()
    } else {
        let prev = sia_raw_charts(hrefs.drop_last(), icao, airac);
        let h = hrefs.last();
        if is_sia_link(h) && !instr_match(after_last(h, '/')) {
            prev.push(sia_raw_chart(h, icao, airac))
        } else {
            prev
        }
    }
}

/// An instruction sheet: the stem of the chart it belongs to, its page number and its
/// provider-relative path.
pub type SheetView = (Seq<char>, u32, Seq<char>);

/// The instruction sheet a link names.
pub open spec fn sia_sheet(h: Seq<char>) -> SheetView {
    let f = after_last(h, '/');
    (uppercase(f.take(f.len() - 13)), page_value(f[f.len() - 6], f[f.len() - 5]), relative_url(h))
}

/// The instruction sheets that the links name, in link order.
pub open spec fn sia_sheets(hrefs: Seq<Seq<char>>) -> Seq<SheetView>
    decreases hrefs.len(),
{
    if hrefs.len() == 0 {
        Seq::empty()
    } else {
        let prev = sia_sheets(hrefs.drop_last());
        let h = hrefs.last();
        if is_sia_link(h) && instr_match(after_last(h, '/')) {
            prev.push(sia_sheet(h))
        } else {
            prev
        }
    }
}

/// An instruction sheet found on the page.
pub struct Sheet {
    pub parent: String,
    pub page_index: u32,
    pub provider_relative_url: String,
}

impl View for Sheet {
    type V = SheetView;

    open spec fn view(&self) -> SheetView {
        (self.parent@, self.page_index, self.provider_relative_url@)
    }
}

/// Views of a list of sheets.
pub open spec fn sheets_view(v: Seq<Sheet>) -> Seq<SheetView> {
    v.map_values(|s: Sheet| s@)
}

/// Views of a list of charts.
pub open spec fn charts_view(v: Seq<Chart>) -> Seq<ChartView> {
    v.map_values(|c: Chart| c@)
}

/// The chart that a link names, before sheets are attached and pages numbered.
fn raw_chart_of(h: &Vec<char>, icao: &str, airac_code: &str) -> (r: Chart)
    ensures
        r@ == sia_raw_chart(h@, icao@, airac_code@),
{
    let f = after_last_of(h, '/');
    let fs = string_of(&f);
    let upper = to_uppercase_of(fs.as_str());
    let category = detect_category(upper.as_str());
    let tags = extract_tags(upper.as_str());
    let runways = extract_runways(upper.as_str());
    let subtitle = extract_subtitle(upper.as_str(), icao);
    let url = relative_url_of(h);
    let linked: Vec<String> = Vec::new();
    let r = Chart {
        id: string_of(&Vec::new()),
        source: ChartSource::Sia,
        category,
        subtitle,
        filename: fs,
        provider_relative_url: url,
        linked_provider_relative_urls: linked,
        airac_code: string_of(&chars_of(airac_code)),
        page: None,
        tags,
        runways,
        custom_title: None,
    };
    assert(strings_view(r.linked_provider_relative_urls@) =~= Seq::<Seq<char>>::empty());
    assert(r.id@ =~= Seq::<char>::empty());
    r
}

/// The charts and the instruction sheets that a page's links name, in link order.
pub fn classify_links(hrefs: &Vec<String>, icao: &str, airac_code: &str) -> (r: (Vec<Chart>, Vec<Sheet>))
    ensures
        charts_view(r.0@) == sia_raw_charts(strings_view(hrefs@), icao@, airac_code@),
        sheets_view(r.1@) == sia_sheets(strings_view(hrefs@)),
{
    let ghost hv = strings_view(hrefs@);
    let mut charts: Vec<Chart> = Vec::new();
    let mut sheets: Vec<Sheet> = Vec::new();
    let mut i: usize = 0;
    assert(hv.take(0) =~= Seq::<Seq<char>>::empty());
    assert(charts_view(charts@) =~= Seq::<ChartView>::empty());
    assert(sheets_view(sheets@) =~= Seq::<SheetView>::empty());
    while i < hrefs.len()
        invariant
            i <= hrefs.len(),
            hv == strings_view(hrefs@),
            charts_view(charts@) == sia_raw_charts(hv.take(i as int), icao@, airac_code@),
            sheets_view(sheets@) == sia_sheets(hv.take(i as int)),
        decreases hrefs.len() - i,
    {
        let h = chars_of(hrefs[i].as_str());
        assert(h@ == hv[i as int]);
        assert(hv.take(i + 1).drop_last() =~= hv.take(i as int));
        assert(hv.take(i + 1).last() == h@);
        let ghost cb = charts_view(charts@);
        let ghost sb = sheets_view(sheets@);
        if has_suffix_of(&h, &chars_of(".pdf")) {
            let f = after_last_of(&h, '/');
            let fs = string_of(&f);
            if !is_excluded_file(fs.as_str()) {
                match parse_instr_parent(fs.as_str()) {
                    Some((parent, page)) => {
                        let url = relative_url_of(&h);
                        let sheet = Sheet { parent, page_index: page, provider_relative_url: url };
                        assert(sheet@ == sia_sheet(h@));
                        sheets.push(sheet);
                        assert(sheets_view(sheets@) =~= sb.push(sheet@));
                    },
                    None => {
                        let c = raw_chart_of(&h, icao, airac_code);
                        charts.push(c);
                        assert(charts_view(charts@) =~= cb.push(c@));
                    },
                }
            }
        }
        i = i + 1;
    }
    assert(hv.take(i as int) =~= hv);
    (charts, sheets)
}

// ---------------------------------------------------------------- instruction sheets

/// The parent stems of the sheets, each once, in order of first appearance.
pub open spec fn doc_keys(docs: Seq<SheetView>) -> Seq<Seq<char>>
    decreases docs.len(),
{
    if docs.len() == 0 {
        Seq::empty()
    } else {
        let ks = doc_keys(docs.drop_last());
        if ks.contains(docs.last().0) { ks } else { ks.push(docs.last().0) }
    }
}

/// The sheets whose parent stem is `k`, in order.
pub open spec fn group_of(docs: Seq<SheetView>, k: Seq<char>) -> Seq<SheetView>
    decreases docs.len(),
{
    if docs.len() == 0 {
        Seq::empty()
    } else {
        let g = group_of(docs.drop_last(), k);
        if docs.last().0 == k { g.push(docs.last()) } else { g }
    }
}

/// The sheets of the parent stems `ks`, stem after stem.
pub open spec fn docs_of_keys(docs: Seq<SheetView>, ks: Seq<Seq<char>>) -> Seq<SheetView>
    decreases ks.len(),
{
    if ks.len() == 0 {
        Seq::empty()
    } else {
        docs_of_keys(docs, ks.drop_last()) + group_of(docs, ks.last())
    }
}

/// The sheets with page number `p`, in order.
pub open spec fn on_page(docs: Seq<SheetView>, p: int) -> Seq<SheetView>
    decreases docs.len(),
{
    if docs.len() == 0 {
        Seq::empty()
    } else {
        let g = on_page(docs.drop_last(), p);
        if docs.last().1 == p { g.push(docs.last()) } else { g }
    }
}

/// The sheets with page numbers from `p` to 99 in order of page number, sheets with the
/// same number in their given order (a stable sort; sheet numbers have two digits).
pub open spec fn by_page_from(docs: Seq<SheetView>, p: int) -> Seq<SheetView>
    decreases 100 - p,
{
    if p < 0 || p >= 100 {
        Seq::empty()
    } else {
        on_page(docs, p) + by_page_from(docs, p + 1)
    }
}

/// Among the first `n` parent stems, those still free whose stem without page suffix
/// matches the chart's stem without page suffix `canon`.
pub open spec fn select_keys(keys: Seq<Seq<char>>, n: int, removed: Seq<Seq<char>>, canon: Seq<char>) -> Seq<Seq<char>>
    decreases n,
{
    if n <= 0 || n > keys.len() {
        Seq::empty()
    } else {
        let prev = select_keys(keys, n - 1, removed, canon);
        let k = keys[n - 1];
        if !removed.contains(k) && stems_match(canon, strip_numeric(k)) { prev.push(k) } else { prev }
    }
}

/// The parent stems whose sheets a chart takes, given the stems taken by earlier charts:
/// its own stem, else its stem without page suffix, else every free stem that matches.
pub open spec fn linked_keys(c: ChartView, keys: Seq<Seq<char>>, removed: Seq<Seq<char>>) -> Seq<Seq<char>> {
    let stem = stem_upper(c.filename);
    let canon = strip_numeric(stem);
    if keys.contains(stem) && !removed.contains(stem) {
        seq![stem]
    } else if keys.contains(canon) && !removed.contains(canon) {
        seq![canon]
    } else {
        select_keys(keys, keys.len() as int, removed, canon)
    }
}

/// The parent stems taken by the first `n` charts.
pub open spec fn removed_after(raws: Seq<ChartView>, docs: Seq<SheetView>, n: int) -> Seq<Seq<char>>
    decreases n,
{
    if n <= 0 {
        Seq::empty()
    } else {
        let r = removed_after(raws, docs, n - 1);
        r + linked_keys(raws[n - 1], doc_keys(docs), r)
    }
}

/// The provider-relative paths of the sheets.
pub open spec fn doc_urls(docs: Seq<SheetView>) -> Seq<Seq<char>> {
    docs.map_values(|d: SheetView| d.2)
}

/// The sheets attached to the chart at `i`, in order of page number.
pub open spec fn linked_urls(raws: Seq<ChartView>, docs: Seq<SheetView>, i: int) -> Seq<Seq<char>> {
    let ks = linked_keys(raws[i], doc_keys(docs), removed_after(raws, docs, i));
    doc_urls(by_page_from(docs_of_keys(docs, ks), 0))
}

/// The charts with their instruction sheets attached.
pub open spec fn with_links(raws: Seq<ChartView>, docs: Seq<SheetView>) -> Seq<ChartView> {
    Seq::new(
        raws.len(),
        |i: int| ChartView { linked_provider_relative_urls: linked_urls(raws, docs, i), ..raws[i] },
    )
}

/// The sheets at the given positions.
pub open spec fn pick(docs: Seq<SheetView>, idx: Seq<usize>) -> Seq<SheetView> {
    idx.map_values(|s: usize| docs[s as int])
}

proof fn lemma_doc_keys_distinct(docs: Seq<SheetView>)
    ensures
        forall|a: int, b: int| 0 <= a < b < doc_keys(docs).len() ==> doc_keys(docs)[a] != doc_keys(docs)[b],
    decreases docs.len(),
{
    if docs.len() > 0 {
        lemma_doc_keys_distinct(docs.drop_last());
        let ks = doc_keys(docs.drop_last());
        if !ks.contains(docs.last().0) {
            let nk = ks.push(docs.last().0);
            assert forall|a: int, b: int| 0 <= a < b < nk.len() implies nk[a] != nk[b] by {
                if b == ks.len() {
                    assert(nk[a] == ks[a]);
                }
            }
        }
    }
}

fn doc_keys_of(sheets: &Vec<Sheet>) -> (r: Vec<String>)
    ensures
        strings_view(r@) == doc_keys(sheets_view(sheets@)),
{
    let ghost sv = sheets_view(sheets@);
    let mut keys: Vec<String> = Vec::new();
    let mut i: usize = 0;
    assert(sv.take(0) =~= Seq::<SheetView>::empty());
    assert(strings_view(keys@) =~= Seq::<Seq<char>>::empty());
    while i < sheets.len()
        invariant
            i <= sheets.len(),
            sv == sheets_view(sheets@),
            strings_view(keys@) == doc_keys(sv.take(i as int)),
        decreases sheets.len() - i,
    {
        assert(sv.take(i + 1).drop_last() =~= sv.take(i as int));
        assert(sv.take(i + 1).last() == sheets@[i as int]@);
        if !contains_string(&keys, sheets[i].parent.as_str()) {
            let ghost before = strings_view(keys@);
            let k = sheets[i].parent.clone();
            keys.push(k);
            assert(strings_view(keys@) =~= before.push(k@));
        }
        i = i + 1;
    }
    assert(sv.take(i as int) =~= sv);
    keys
}

/// The position of a free parent stem equal to `x`.
fn find_free_key(keys: &Vec<String>, taken: &Vec<bool>, x: &str) -> (r: Option<usize>)
    requires
        taken.len() == keys.len(),
    ensures
        match r {
            Some(j) => j < keys.len() && keys@[j as int]@ == x@ && !taken@[j as int],
            None => forall|j: int| 0 <= j < keys.len() && #[trigger] keys@[j]@ == x@ ==> taken@[j],
        },
{
    let mut j: usize = 0;
    while j < keys.len()
        invariant
            j <= keys.len(),
            taken.len() == keys.len(),
            forall|q: int| 0 <= q < j && #[trigger] keys@[q]@ == x@ ==> taken@[q],
        decreases keys.len() - j,
    {
        if !taken[j] && same_text(keys[j].as_str(), x) {
            return Some(j);
        }
        j = j + 1;
    }
    None
}

/// Sheets whose parent stem is `keys[k]`, appended to `out` by position.
fn push_group(out: &mut Vec<usize>, sheets: &Vec<Sheet>, key: &String)
    ensures
        pick(sheets_view(sheets@), final(out)@) == pick(sheets_view(sheets@), old(out)@) + group_of(sheets_view(sheets@), key@),
        forall|q: int| 0 <= q < final(out)@.len() ==> (#[trigger] final(out)@[q]) < sheets.len() || q < old(out)@.len(),
        forall|q: int| 0 <= q < old(out)@.len() ==> final(out)@[q] == old(out)@[q],
        final(out)@.len() >= old(out)@.len(),
{
    let ghost sv = sheets_view(sheets@);
    let ghost base = pick(sv, out@);
    let ghost n0 = out@.len();
    let mut s: usize = 0;
    assert(sv.take(0) =~= Seq::<SheetView>::empty());
    assert(pick(sv, out@) =~= base + group_of(sv.take(0), key@));
    while s < sheets.len()
        invariant
            s <= sheets.len(),
            sv == sheets_view(sheets@),
            n0 <= out@.len(),
            forall|q: int| 0 <= q < n0 ==> out@[q] == old(out)@[q],
            forall|q: int| n0 <= q < out@.len() ==> (#[trigger] out@[q]) < sheets.len(),
            base == pick(sv, old(out)@),
            n0 == old(out)@.len(),
            pick(sv, out@) == base + group_of(sv.take(s as int), key@),
        decreases sheets.len() - s,
    {
        assert(sv.take(s + 1).drop_last() =~= sv.take(s as int));
        assert(sv.take(s + 1).last() == sheets@[s as int]@);
        if same_text(sheets[s].parent.as_str(), key.as_str()) {
            let ghost before = pick(sv, out@);
            out.push(s);
            assert(pick(sv, out@) =~= before.push(sv[s as int]));
        }
        s = s + 1;
    }
    assert(sv.take(s as int) =~= sv);
}

/// The positions `d` sorted by the page numbers of their sheets, stably.
fn sort_by_page(d: &Vec<usize>, sheets: &Vec<Sheet>) -> (r: Vec<usize>)
    requires
        forall|q: int| 0 <= q < d@.len() ==> (#[trigger] d@[q]) < sheets.len(),
    ensures
        forall|q: int| 0 <= q < r@.len() ==> (#[trigger] r@[q]) < sheets.len(),
        pick(sheets_view(sheets@), r@) == by_page_from(pick(sheets_view(sheets@), d@), 0),
{
    let ghost sv = sheets_view(sheets@);
    let ghost dv = pick(sv, d@);
    let mut out: Vec<usize> = Vec::new();
    let mut p: u32 = 0;
    assert(pick(sv, out@) + by_page_from(dv, 0) =~= by_page_from(dv, 0));
    while p < 100
        invariant
            p <= 100,
            sv == sheets_view(sheets@),
            dv == pick(sv, d@),
            forall|q: int| 0 <= q < d@.len() ==> (#[trigger] d@[q]) < sheets.len(),
            forall|q: int| 0 <= q < out@.len() ==> (#[trigger] out@[q]) < sheets.len(),
            pick(sv, out@) + by_page_from(dv, p as int) == by_page_from(dv, 0),
        decreases 100 - p,
    {
        let ghost base = pick(sv, out@);
        let mut t: usize = 0;
        assert(dv.take(0) =~= Seq::<SheetView>::empty());
        assert(pick(sv, out@) =~= base + on_page(dv.take(0), p as int));
        while t < d.len()
            invariant
                t <= d.len(),
                sv == sheets_view(sheets@),
                dv == pick(sv, d@),
                forall|q: int| 0 <= q < d@.len() ==> (#[trigger] d@[q]) < sheets.len(),
                forall|q: int| 0 <= q < out@.len() ==> (#[trigger] out@[q]) < sheets.len(),
                pick(sv, out@) == base + on_page(dv.take(t as int), p as int),
            decreases d.len() - t,
        {
            assert(dv.take(t + 1).drop_last() =~= dv.take(t as int));
            assert(dv.take(t + 1).last() == sv[d@[t as int] as int]);
            let s = d[t];
            if sheets[s].page_index == p {
                let ghost before = pick(sv, out@);
                out.push(s);
                assert(pick(sv, out@) =~= before.push(sv[s as int]));
            }
            t = t + 1;
        }
        assert(dv.take(t as int) =~= dv);
        assert(by_page_from(dv, p as int) == on_page(dv, p as int) + by_page_from(dv, p + 1));
        assert(pick(sv, out@) + by_page_from(dv, p + 1) =~= base + (on_page(dv, p as int) + by_page_from(dv, p + 1)));
        p = p + 1;
    }
    assert(by_page_from(dv, 100) =~= Seq::<SheetView>::empty());
    assert(pick(sv, out@) + Seq::<SheetView>::empty() =~= pick(sv, out@));
    out
}

/// The parent stems at the given positions.
pub open spec fn key_list(kv: Seq<Seq<char>>, lk: Seq<usize>) -> Seq<Seq<char>> {
    lk.map_values(|j: usize| kv[j as int])
}

/// Positions of the free parent stems that match the chart's stem without page suffix.
fn select_keys_of(keys: &Vec<String>, taken: &Vec<bool>, canon: &str, Ghost(removed): Ghost<Seq<Seq<char>>>) -> (r: Vec<usize>)
    requires
        taken.len() == keys.len(),
        forall|j: int| 0 <= j < keys.len() ==> (taken@[j] <==> removed.contains(#[trigger] strings_view(keys@)[j])),
    ensures
        key_list(strings_view(keys@), r@) == select_keys(strings_view(keys@), keys.len() as int, removed, canon@),
        forall|q: int| 0 <= q < r@.len() ==> (#[trigger] r@[q]) < keys.len(),
{
    let ghost kv = strings_view(keys@);
    let mut lk: Vec<usize> = Vec::new();
    let mut j: usize = 0;
    assert(key_list(kv, lk@) =~= Seq::<Seq<char>>::empty());
    while j < keys.len()
        invariant
            j <= keys.len(),
            kv == strings_view(keys@),
            taken.len() == keys.len(),
            forall|q: int| 0 <= q < keys.len() ==> (taken@[q] <==> removed.contains(#[trigger] kv[q])),
            key_list(kv, lk@) == select_keys(kv, j as int, removed, canon@),
            forall|q: int| 0 <= q < lk@.len() ==> (#[trigger] lk@[q]) < j,
        decreases keys.len() - j,
    {
        assert(kv[j as int] == keys@[j as int]@);
        if !taken[j] {
            let kc = strip_numeric_suffix(keys[j].as_str());
            if stems_match_for_instr_link(canon, kc.as_str()) {
                let ghost before = key_list(kv, lk@);
                lk.push(j);
                assert(key_list(kv, lk@) =~= before.push(kv[j as int]));
            }
        }
        j = j + 1;
    }
    lk
}

/// The charts with the instruction sheets that belong to them attached, in order of page
/// number. A chart takes the sheets of its own stem, else of its stem without page suffix,
/// else of every stem still free that names the same procedure for one of its runways.
pub fn attach_sheets(charts: &Vec<Chart>, sheets: &Vec<Sheet>) -> (r: Vec<Chart>)
    ensures
        charts_view(r@) == with_links(charts_view(charts@), sheets_view(sheets@)),
{
    let ghost cs = charts_view(charts@);
    let ghost sv = sheets_view(sheets@);
    let keys = doc_keys_of(sheets);
    let ghost kv = strings_view(keys@);
    proof { lemma_doc_keys_distinct(sv); }
    let mut taken: Vec<bool> = Vec::new();
    while taken.len() < keys.len()
        invariant
            taken.len() <= keys.len(),
            forall|j: int| 0 <= j < taken.len() ==> !taken@[j],
        decreases keys.len() - taken.len(),
    {
        taken.push(false);
    }
    let mut out: Vec<Chart> = Vec::new();
    let mut i: usize = 0;
    while i < charts.len()
        invariant
            i <= charts.len(),
            cs == charts_view(charts@),
            sv == sheets_view(sheets@),
            kv == strings_view(keys@),
            kv == doc_keys(sv),
            taken.len() == keys.len(),
            forall|a: int, b: int| 0 <= a < b < kv.len() ==> kv[a] != kv[b],
            forall|j: int| 0 <= j < kv.len() ==> (taken@[j] <==> removed_after(cs, sv, i as int).contains(#[trigger] kv[j])),
            charts_view(out@) == with_links(cs, sv).take(i as int),
        decreases charts.len() - i,
    {
        let c = &charts[i];
        let ghost removed = removed_after(cs, sv, i as int);
        let stem = filename_stem_upper(c.filename.as_str());
        let canon = strip_numeric_suffix(stem.as_str());
        assert(cs[i as int] == c@);
        let mut lk: Vec<usize> = Vec::new();
        match find_free_key(&keys, &taken, stem.as_str()) {
            Some(j) => {
                lk.push(j);
                assert(kv[j as int] == keys@[j as int]@);
                assert(key_list(kv, lk@) =~= seq![stem@]);
            },
            None => {
                assert(!(kv.contains(stem@) && !removed.contains(stem@))) by {
                    if kv.contains(stem@) {
                        let q = choose|q: int| 0 <= q < kv.len() && kv[q] == stem@;
                        assert(keys@[q]@ == stem@);
                    }
                }
                match find_free_key(&keys, &taken, canon.as_str()) {
                    Some(j) => {
                        lk.push(j);
                        assert(kv[j as int] == keys@[j as int]@);
                        assert(key_list(kv, lk@) =~= seq![canon@]);
                    },
                    None => {
                        assert(!(kv.contains(canon@) && !removed.contains(canon@))) by {
                            if kv.contains(canon@) {
                                let q = choose|q: int| 0 <= q < kv.len() && kv[q] == canon@;
                                assert(keys@[q]@ == canon@);
                            }
                        }
                        lk = select_keys_of(&keys, &taken, canon.as_str(), Ghost(removed));
                    },
                }
            },
        }
        let ghost lkeys = key_list(kv, lk@);
        assert(lkeys == linked_keys(cs[i as int], kv, removed));
        let mut d: Vec<usize> = Vec::new();
        let mut t: usize = 0;
        assert(lkeys.take(0) =~= Seq::<Seq<char>>::empty());
        assert(pick(sv, d@) =~= Seq::<SheetView>::empty());
        while t < lk.len()
            invariant
                t <= lk.len(),
                sv == sheets_view(sheets@),
                kv == strings_view(keys@),
                lkeys == key_list(kv, lk@),
                forall|q: int| 0 <= q < lk@.len() ==> (#[trigger] lk@[q]) < keys.len(),
                forall|q: int| 0 <= q < d@.len() ==> (#[trigger] d@[q]) < sheets.len(),
                pick(sv, d@) == docs_of_keys(sv, lkeys.take(t as int)),
            decreases lk.len() - t,
        {
            let ghost before = pick(sv, d@);
            let k = lk[t];
            push_group(&mut d, sheets, &keys[k]);
            assert(lkeys.take(t + 1).drop_last() =~= lkeys.take(t as int));
            assert(lkeys.take(t + 1).last() == keys@[k as int]@);
            t = t + 1;
        }
        assert(lkeys.take(t as int) =~= lkeys);
        let sorted = sort_by_page(&d, sheets);
        let ghost sd = pick(sv, sorted@);
        let mut urls: Vec<String> = Vec::new();
        let mut u: usize = 0;
        while u < sorted.len()
            invariant
                u <= sorted.len(),
                sv == sheets_view(sheets@),
                sd == pick(sv, sorted@),
                forall|q: int| 0 <= q < sorted@.len() ==> (#[trigger] sorted@[q]) < sheets.len(),
                strings_view(urls@) == doc_urls(sd.take(u as int)),
            decreases sorted.len() - u,
        {
            let ghost before = strings_view(urls@);
            let x = sheets[sorted[u]].provider_relative_url.clone();
            urls.push(x);
            assert(strings_view(urls@) =~= before.push(x@));
            assert(doc_urls(sd.take(u + 1)) =~= doc_urls(sd.take(u as int)).push(sd[u as int].2));
            u = u + 1;
        }
        assert(sd.take(u as int) =~= sd);
        let ghost old_taken = taken@;
        let mut m: usize = 0;
        while m < lk.len()
            invariant
                m <= lk.len(),
                taken.len() == keys.len(),
                old_taken.len() == keys.len(),
                forall|q: int| 0 <= q < lk@.len() ==> (#[trigger] lk@[q]) < keys.len(),
                forall|j: int| 0 <= j < taken.len() ==> (#[trigger] taken@[j] == (old_taken[j] || lk@.take(m as int).contains(j as usize))),
            decreases lk.len() - m,
        {
            let k = lk[m];
            let ghost prev = taken@;
            taken.set(k, true);
            proof {
                let t1 = lk@.take(m + 1);
                let t0 = lk@.take(m as int);
                assert(t1 =~= t0.push(k));
                assert(t1[m as int] == k);
                assert forall|j: int| 0 <= j < taken.len() implies (taken@[j] == (old_taken[j] || t1.contains(j as usize))) by {
                    assert(prev[j] == (old_taken[j] || t0.contains(j as usize))) by {
                        assert(prev[j] == prev[j]);
                    }
                    if j == k as int {
                        assert(t1.contains(j as usize));
                    } else {
                        assert(taken@[j] == prev[j]);
                        if t1.contains(j as usize) {
                            let q = choose|q: int| 0 <= q < t1.len() && #[trigger] t1[q] == j as usize;
                            assert(q < m);
                            assert(t0[q] == j as usize);
                        }
                        if t0.contains(j as usize) {
                            let q = choose|q: int| 0 <= q < t0.len() && #[trigger] t0[q] == j as usize;
                            assert(t1[q] == j as usize);
                        }
                    }
                }
            }
            m = m + 1;
        }
        assert(lk@.take(m as int) =~= lk@);
        proof {
            let nr = removed_after(cs, sv, i + 1);
            assert(nr == removed + lkeys);
            assert forall|j: int| 0 <= j < kv.len() implies (taken@[j] <==> nr.contains(#[trigger] kv[j])) by {
                if lk@.contains(j as usize) {
                    let q = choose|q: int| 0 <= q < lk@.len() && lk@[q] == j as usize;
                    assert(lkeys[q] == kv[j]);
                    assert(nr[removed.len() + q] == kv[j]);
                }
                if nr.contains(kv[j]) && !removed.contains(kv[j]) {
                    let p = choose|p: int| 0 <= p < nr.len() && nr[p] == kv[j];
                    if p >= removed.len() {
                        let q = p - removed.len();
                        assert(lkeys[q] == kv[j]);
                        assert(kv[lk@[q] as int] == kv[j]);
                        assert(lk@[q] == j as usize);
                        assert(lk@.contains(j as usize));
                    } else {
                        assert(removed[p] == kv[j]);
                    }
                }
                if removed.contains(kv[j]) {
                    let p = choose|p: int| 0 <= p < removed.len() && removed[p] == kv[j];
                    assert(nr[p] == kv[j]);
                }
            }
        }
        let chart = Chart {
            id: c.id.clone(),
            source: c.source,
            category: c.category,
            subtitle: c.subtitle.clone(),
            filename: c.filename.clone(),
            provider_relative_url: c.provider_relative_url.clone(),
            linked_provider_relative_urls: urls,
            airac_code: c.airac_code.clone(),
            page: crate::text::clone_opt_string(&c.page),
            tags: crate::text::clone_strings(&c.tags),
            runways: crate::text::clone_strings(&c.runways),
            custom_title: crate::text::clone_opt_string(&c.custom_title),
        };
        let ghost before = charts_view(out@);
        out.push(chart);
        proof {
            let wl = with_links(cs, sv);
            assert(chart@.linked_provider_relative_urls == wl[i as int].linked_provider_relative_urls);
            assert(chart@ == wl[i as int]);
            assert(charts_view(out@) =~= before.push(chart@));
            assert(wl.take(i + 1) =~= wl.take(i as int).push(wl[i as int]));
        }
        i = i + 1;
    }
    assert(with_links(cs, sv).take(i as int) =~= with_links(cs, sv));
    out
}

// ---------------------------------------------------------------- page numbers

/// The key under which charts share page numbers: category label and subtitle.
pub open spec fn page_key(c: ChartView) -> Seq<char> {
    category_label(c.category) + seq!['|'] + c.subtitle
}

/// Number of the first `n` charts whose key is `k`.
pub open spec fn count_key(cs: Seq<ChartView>, k: Seq<char>, n: int) -> nat
    decreases n,
{
    if n <= 0 {
        0
    } else {
        count_key(cs, k, n - 1) + if page_key(cs[n - 1]) == k { 1nat } else { 0nat }
    }
}

/// Page label of the chart at `i`: `<position>/<count>` among the charts with its key, when
/// there are several.
pub open spec fn chart_page(cs: Seq<ChartView>, i: int) -> Option<Seq<char>> {
    let k = page_key(cs[i]);
    let total = count_key(cs, k, cs.len() as int);
    if total > 1 {
        Some(decimal(count_key(cs, k, i + 1)) + seq!['/'] + decimal(total))
    } else {
        None
    }
}

/// Identifier of the chart at `i`: upper-case aerodrome code, category label and position,
/// written with at least two digits.
pub open spec fn sia_chart_id(icao: Seq<char>, c: ChartView, i: int) -> Seq<char> {
    uppercase(icao) + seq!['-'] + category_label(c.category) + seq!['-'] + decimal_padded(i as nat, 2)
}

/// The charts with their identifiers and page labels.
pub open spec fn paginated(cs: Seq<ChartView>, icao: Seq<char>) -> Seq<ChartView> {
    Seq::new(
        cs.len(),
        |i: int|
            ChartView {
                id: sia_chart_id(icao, cs[i], i),
                source: ChartSource::Sia,
                page: chart_page(cs, i),
                ..cs[i]
            },
    )
}

fn page_key_of(c: &Chart) -> (r: Vec<char>)
    ensures
        r@ == page_key(c@),
{
    let mut k = chars_of(c.category.label());
    k.push('|');
    push_str(&mut k, c.subtitle.as_str());
    k
}

/// Identifiers and page labels for charts: charts with the same category and subtitle are
/// numbered `1/n` to `n/n` in order; a chart alone under its key gets no page label.
pub fn paginate(raw: Vec<Chart>, icao: &str) -> (r: Vec<Chart>)
    ensures
        charts_view(r@) == paginated(charts_view(raw@), icao@),
{
    let ghost cs = charts_view(raw@);
    let mut keys: Vec<Vec<char>> = Vec::new();
    let mut j: usize = 0;
    while j < raw.len()
        invariant
            j <= raw.len(),
            cs == charts_view(raw@),
            keys.len() == j,
            forall|q: int| 0 <= q < j ==> #[trigger] keys@[q]@ == page_key(cs[q]),
        decreases raw.len() - j,
    {
        let k = page_key_of(&raw[j]);
        keys.push(k);
        j = j + 1;
    }
    let iu = to_uppercase_of(icao);
    let mut out: Vec<Chart> = Vec::new();
    let mut i: usize = 0;
    while i < raw.len()
        invariant
            i <= raw.len(),
            cs == charts_view(raw@),
            keys.len() == raw.len(),
            forall|q: int| 0 <= q < raw.len() ==> #[trigger] keys@[q]@ == page_key(cs[q]),
            iu@ == uppercase(icao@),
            charts_view(out@) == paginated(cs, icao@).take(i as int),
        decreases raw.len() - i,
    {
        let ghost k = page_key(cs[i as int]);
        let mut total: usize = 0;
        let mut pos: usize = 0;
        let mut q: usize = 0;
        while q < raw.len()
            invariant
                q <= raw.len(),
                i < raw.len(),
                cs == charts_view(raw@),
                keys.len() == raw.len(),
                forall|p: int| 0 <= p < raw.len() ==> #[trigger] keys@[p]@ == page_key(cs[p]),
                k == keys@[i as int]@,
                total == count_key(cs, k, q as int),
                pos == count_key(cs, k, if q <= i { q as int } else { i + 1 }),
                total <= q,
                pos <= q,
            decreases raw.len() - q,
        {
            if same_chars(&keys[q], &keys[i]) {
                total = total + 1;
                if q <= i {
                    pos = pos + 1;
                }
            }
            q = q + 1;
        }
        let c = &raw[i];
        let page = if total > 1 {
            let mut p = decimal_of(pos as u64);
            p.push('/');
            let t = decimal_of(total as u64);
            push_all(&mut p, &t);
            Some(string_of(&p))
        } else {
            None
        };
        let mut id = chars_of(iu.as_str());
        id.push('-');
        push_str(&mut id, c.category.label());
        id.push('-');
        let n = decimal_padded_of(i as u64, 2);
        push_all(&mut id, &n);
        let chart = Chart {
            id: string_of(&id),
            source: ChartSource::Sia,
            category: c.category,
            subtitle: c.subtitle.clone(),
            filename: c.filename.clone(),
            provider_relative_url: c.provider_relative_url.clone(),
            linked_provider_relative_urls: crate::text::clone_strings(&c.linked_provider_relative_urls),
            airac_code: c.airac_code.clone(),
            page,
            tags: crate::text::clone_strings(&c.tags),
            runways: crate::text::clone_strings(&c.runways),
            custom_title: crate::text::clone_opt_string(&c.custom_title),
        };
        let ghost before = charts_view(out@);
        out.push(chart);
        proof {
            let pv = paginated(cs, icao@);
            assert(cs[i as int] == raw@[i as int]@);
            assert(chart@.id == pv[i as int].id);
            assert(chart@.page == pv[i as int].page);
            assert(chart@.tags == pv[i as int].tags);
            assert(chart@ == pv[i as int]);
            assert(charts_view(out@) =~= before.push(chart@));
            assert(pv.take(i + 1) =~= pv.take(i as int).push(pv[i as int]));
        }
        i = i + 1;
    }
    assert(paginated(cs, icao@).take(i as int) =~= paginated(cs, icao@));
    out
}

// ---------------------------------------------------------------- the page

/// The charts of an aerodrome page of the SIA eAIP, from the page's links: one chart per PDF
/// link that is neither excluded nor an instruction sheet, in link order, with its sheets
/// attached, its identifier and its page label.
pub open spec fn sia_charts(hrefs: Seq<Seq<char>>, icao: Seq<char>, airac: Seq<char>) -> Seq<ChartView> {
    paginated(with_links(sia_raw_charts(hrefs, icao, airac), sia_sheets(hrefs)), icao)
}

/// The charts that an aerodrome page's links name.
pub fn charts_from_hrefs(hrefs: &Vec<String>, icao: &str, airac_code: &str) -> (r: Vec<Chart>)
    ensures
        charts_view(r@) == sia_charts(strings_view(hrefs@), icao@, airac_code@),
{
    let (raw, sheets) = classify_links(hrefs, icao, airac_code);
    let linked = attach_sheets(&raw, &sheets);
    paginate(linked, icao)
}

/// The charts of an aerodrome page of the SIA eAIP.
pub fn parse_sia_html(html: &str, icao: &str, airac_code: &str) -> (r: Vec<Chart>)
    ensures
        charts_view(r@) == sia_charts(anchor_hrefs(html_anchors(html@)), icao@, airac_code@),
{
    let anchors = anchors_of(html);
    let hrefs = hrefs_of(&anchors);
    charts_from_hrefs(&hrefs, icao, airac_code)
}

/// Address of the SIA eAIP page of an aerodrome for a cycle.
pub open spec fn sia_page_url(icao: Seq<char>, d: crate::calendar::CalendarDate) -> Seq<char> {
    crate::models::chart_provider_base(ChartSource::Sia, d) + "/FR-AD-2."@ + uppercase(icao) + "-fr-FR.html"@
}

/// Address of the SIA eAIP page of an aerodrome for a cycle.
pub fn aerodrome_page_url(icao: &str, airac: &crate::airac::AiracCycle) -> (r: String)
    requires
        airac.start_date.is_valid(),
    ensures
        r@ == sia_page_url(icao@, airac.start_date),
{
    let mut v = crate::models::eaip_base_url(airac);
    push_str(&mut v, "/FR-AD-2.");
    let iu = to_uppercase_of(icao);
    push_str(&mut v, iu.as_str());
    push_str(&mut v, "-fr-FR.html");
    string_of(&v)
}

} // verus!
