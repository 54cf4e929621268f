//! Links of an HTML page, as the `scraper` crate reads them.
use vstd::prelude::*;

verus! {

/// A link: its `href` value and its text.
pub type AnchorView = (Seq<char>, Seq<char>);

/// The links of an HTML document, in document order: for each `a[href]` element, the value
/// of `href` and the element's text nodes joined by single spaces, as the `scraper` crate
/// parses the document.
pub uninterp spec fn html_anchors(html: Seq<char>) -> Seq<AnchorView>;

/// Views of a list of links.
pub open spec fn anchors_view(v: Seq<(String, String)>) -> Seq<AnchorView> {
    v.map_values(|a: (String, String)| (a.0@, a.1@))
}

/// The `href` values of links.
pub open spec fn anchor_hrefs(a: Seq<AnchorView>) -> Seq<Seq<char>> {
    a.map_values(|x: AnchorView| x.0)
}

/// The links of `html` (`scraper::Html::parse_document`, the selector `a[href]`, then for
/// each element its `href` attribute and its text nodes joined by `" "`). The HTML parsing is
/// the crate's; the claim names its result.
#[verifier::external_body]
pub(crate) fn anchors_of(html: &str) -> (r: Vec<(String, String)>)
    ensures
        anchors_view(r@) == html_anchors(html@),
{
    let doc = scraper::Html::parse_document(html);
    let sel = scraper::Selector::parse("a[href]").unwrap();
    let mut out = Vec::new();
    for e in doc.select(&sel) {
        let href = e.value().attr("href").unwrap_or("").to_string();
        out.push((href, e.text().collect::<Vec<_>>().join(" ")));
    }
    out
}

/// The `href` values of links.
pub fn hrefs_of(anchors: &Vec<(String, String)>) -> (r: Vec<String>)
    ensures
        crate::text::strings_view(r@) == anchor_hrefs(anchors_view(anchors@)),
{
    let ghost av = anchors_view(anchors@);
    let mut out: Vec<String> = Vec::new();
    let mut i: usize = 0;
    while i < anchors.len()
        invariant
            i <= anchors.len(),
            av == anchors_view(anchors@),
            crate::text::strings_view(out@) == anchor_hrefs(av).take(i as int),
        decreases anchors.len() - i,
    {
        let ghost before = crate::text::strings_view(out@);
        let h = anchors[i].0.clone();
        out.push(h);
        assert(crate::text::strings_view(out@) =~= before.push(h@));
        assert(anchor_hrefs(av).take(i + 1) =~= anchor_hrefs(av).take(i as int).push(av[i as int].0));
        i = i + 1;
    }
    assert(anchor_hrefs(av).take(i as int) =~= anchor_hrefs(av));
    out
}

/// The result links of the SUP AIP search page, in document order: for each
/// `a.lien_sup_aip` element, its `href` value when it has one, and its text nodes joined by
/// single spaces, as the `scraper` crate parses the document.
pub uninterp spec fn html_supaip_links(html: Seq<char>) -> Seq<(Option<Seq<char>>, Seq<char>)>;

/// The result links of the SUP AIP search page (`scraper::Html::parse_document`, the selector
/// `a.lien_sup_aip`, then for each element its `href` attribute, if any, and its text nodes
/// joined by `" "`). The HTML parsing is the crate's; the claim names its result.
#[verifier::external_body]
pub(crate) fn supaip_links_of(html: &str) -> (r: Vec<(Option<String>, String)>)
    ensures
        r@.map_values(|l: (Option<String>, String)| (crate::text::opt_string_view(l.0), l.1@)) == html_supaip_links(html@),
{
    let doc = scraper::Html::parse_document(html);
    let sel = scraper::Selector::parse("a.lien_sup_aip").unwrap();
    doc.select(&sel).map(|e| (e.value().attr("href").map(|h| h.to_string()), e.text().collect::<Vec<_>>().join(" "))).collect()
}

/// The `value` attribute of the first `input[name="form_key"]` element of an HTML document,
/// when there is such an element and it has that attribute, as the `scraper` crate parses
/// the document.
pub uninterp spec fn html_form_key(html: Seq<char>) -> Option<Seq<char>>;

/// The search form key of the SUP AIP page (`scraper::Html::parse_document`, the first element
/// of the selector `input[name="form_key"]`, its `value` attribute). The HTML parsing is the
/// crate's; the claim names its result.
#[verifier::external_body]
pub(crate) fn form_key_of(html: &str) -> (r: Option<String>)
    ensures
        crate::text::opt_string_view(r) == html_form_key(html@),
{
    let doc = scraper::Html::parse_document(html);
    let sel = scraper::Selector::parse("input[name=\"form_key\"]").unwrap();
    doc.select(&sel).next().and_then(|el| el.value().attr("value")).map(|s| s.to_string())
}

} // verus!
