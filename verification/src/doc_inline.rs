//! Making an AIP text page stand alone: the images and style sheets it refers to are found in
//! the page, fetched by the caller, and put in the page in place of the references.
use vstd::prelude::*;
use crate::aip_doc::{find_char, find_char_of, resolve_resource};
use crate::aip_doc::absolute_url;
use crate::pattern::{
    ci_at, ci_at_of, literal_end, replace_first, replace_first_text_of, replace_text, replace_text_of,
    scan_captures, slice_of,
};
use crate::notices::{before_first, before_first_of};
use crate::sia_names::lemma_scan_captures_step;
use crate::text::{chars_of, has_prefix, has_prefix_of, opt_string_view, push_str, string_of};

verus! {

broadcast use vstd::string::group_string_axioms;

// ---------------------------------------------------------------- image tags

/// Whether `c` is a quote, `"` or `'`.
pub open spec fn is_quote(c: char) -> bool {
    c == '"' || c == '\''
}

/// Position of the first quote at or after `i`, or -1 when there is none.
pub open spec fn find_quote(s: Seq<char>, i: int) -> int
    decreases s.len() - i,
{
    if i < 0 || i >= s.len() {
        -1
    } else if is_quote(s[i]) {
        i
    } else {
        find_quote(s, i + 1)
    }
}

proof fn lemma_find_quote(s: Seq<char>, i: int)
    ensures
        find_quote(s, i) == -1 || (i <= find_quote(s, i) < s.len() && is_quote(s[find_quote(s, i)])),
    decreases s.len() - i,
{
    if 0 <= i < s.len() && !is_quote(s[i]) {
        lemma_find_quote(s, i + 1);
    }
}

fn find_quote_of(s: &Vec<char>, i: usize) -> (r: Option<usize>)
    ensures
        match r {
            Some(p) => p as int == find_quote(s@, i as int) && i <= p < s.len(),
            None => find_quote(s@, i as int) == -1,
        },
{
    let mut k = i;
    while k < s.len()
        invariant
            i <= k,
            find_quote(s@, i as int) == find_quote(s@, k as int),
        decreases s.len() - k,
    {
        if s[k] == '"' || s[k] == '\'' {
            return Some(k);
        }
        k = k + 1;
    }
    None
}

/// End of the part `src=["']([^"']+)["']([^>]*)>` of an image tag at `k` (any case for
/// `src`), or -1 when it does not match there: a quote, at least one character that is not a
/// quote up to the next quote, and the text up to the first `>` after it.
pub open spec fn src_part_end(s: Seq<char>, k: int) -> int {
    if ci_at(s, k, "src="@) && k + 4 < s.len() && is_quote(s[k + 4]) {
        let q = find_quote(s, k + 5);
        let g = find_char(s, '>', q + 1);
        if q > k + 5 && g >= 0 { g + 1 } else { -1 }
    } else {
        -1
    }
}

/// The first position from `k` on where the `src` part of an image tag matches, no `>`
/// coming before it; -1 when there is none (the lazy `[^>]*?` before `src`).
pub open spec fn src_part_start(s: Seq<char>, k: int) -> int
    decreases s.len() - k,
{
    if k < 0 || k >= s.len() {
        -1
    } else if src_part_end(s, k) >= 0 {
        k
    } else if s[k] == '>' {
        -1
    } else {
        src_part_start(s, k + 1)
    }
}

/// End of the match of `(?i)<img([^>]*?)src=["']([^"']+)["']([^>]*)>` at `p`, or `p` when
/// none starts there.
pub open spec fn img_end(s: Seq<char>, p: int) -> int {
    if ci_at(s, p, "<img"@) && src_part_start(s, p + 4) >= 0 {
        src_part_end(s, src_part_start(s, p + 4))
    } else {
        p
    }
}

/// The source captured by the image tag matched at `p`.
pub open spec fn img_src(s: Seq<char>, p: int) -> Seq<char> {
    let k = src_part_start(s, p + 4);
    s.subrange(k + 5, find_quote(s, k + 5))
}

/// The image tag matcher.
pub open spec fn img_matcher() -> spec_fn(Seq<char>, int) -> int {
    |t: Seq<char>, i: int| img_end(t, i)
}

/// The whole text of the image tag matched at `i`.
pub open spec fn img_tag_capturer() -> spec_fn(Seq<char>, int) -> Seq<char> {
    |t: Seq<char>, i: int| t.subrange(i, img_end(t, i))
}

/// The source of the image tag matched at `i`.
pub open spec fn img_src_capturer() -> spec_fn(Seq<char>, int) -> Seq<char> {
    |t: Seq<char>, i: int| img_src(t, i)
}

/// The image tags of a page, from left to right.
pub open spec fn image_tags(html: Seq<char>) -> Seq<Seq<char>> {
    scan_captures(html, 0, img_matcher(), img_tag_capturer())
}

/// The sources of the image tags of a page, from left to right.
pub open spec fn image_srcs(html: Seq<char>) -> Seq<Seq<char>> {
    scan_captures(html, 0, img_matcher(), img_src_capturer())
}

fn src_part_end_of(s: &Vec<char>, k: usize) -> (r: Option<(usize, usize)>)
    ensures
        match r {
            Some((q, e)) => e as int == src_part_end(s@, k as int) && q as int == find_quote(s@, k + 5)
                && k + 5 < q < e <= s.len(),
            None => src_part_end(s@, k as int) == -1,
        },
{
    let w = vec!['s', 'r', 'c', '='];
    assert(w@ =~= "src="@) by {
        reveal_strlit("src=");
    }
    assert(w@.len() == 4);
    if !ci_at_of(s, k, &w) {
        return None;
    }
    assert(k + 4 <= s.len());
    if k + 4 >= s.len() || !(s[k + 4] == '"' || s[k + 4] == '\'') {
        return None;
    }
    match find_quote_of(s, k + 5) {
        Some(q) => {
            if q <= k + 5 {
                return None;
            }
            match find_char_of(s, '>', q + 1) {
                Some(g) => Some((q, g + 1)),
                None => None,
            }
        },
        None => None,
    }
}

fn src_part_start_of(s: &Vec<char>, k0: usize) -> (r: Option<(usize, usize, usize)>)
    ensures
        match r {
            Some((k, q, e)) => k as int == src_part_start(s@, k0 as int) && e as int == src_part_end(s@, k as int)
                && q as int == find_quote(s@, k + 5) && k0 <= k && k + 5 < q < e <= s.len(),
            None => src_part_start(s@, k0 as int) == -1,
        },
{
    let mut k = k0;
    while k < s.len()
        invariant
            k0 <= k,
            src_part_start(s@, k0 as int) == src_part_start(s@, k as int),
        decreases s.len() - k,
    {
        match src_part_end_of(s, k) {
            Some((q, e)) => {
                return Some((k, q, e));
            },
            None => {},
        }
        if s[k] == '>' {
            return None;
        }
        k = k + 1;
    }
    None
}

/// The image tags of a page and their sources, from left to right.
pub fn image_matches_of(s: &Vec<char>) -> (r: Vec<(Vec<char>, Vec<char>)>)
    ensures
        r@.map_values(|m: (Vec<char>, Vec<char>)| m.0@) == image_tags(s@),
        r@.map_values(|m: (Vec<char>, Vec<char>)| m.1@) == image_srcs(s@),
{
    let ghost m = img_matcher();
    let ghost tc = img_tag_capturer();
    let ghost sc = img_src_capturer();
    let open = vec!['<', 'i', 'm', 'g'];
    assert(open@ =~= "<img"@) by {
        reveal_strlit("<img");
    }
    assert(open@.len() == 4);
    let mut out: Vec<(Vec<char>, Vec<char>)> = Vec::new();
    let mut i: usize = 0;
    assert(out@.map_values(|x: (Vec<char>, Vec<char>)| x.0@) + scan_captures(s@, 0, m, tc) =~= scan_captures(s@, 0, m, tc));
    assert(out@.map_values(|x: (Vec<char>, Vec<char>)| x.1@) + scan_captures(s@, 0, m, sc) =~= scan_captures(s@, 0, m, sc));
    while i < s.len()
        invariant
            i <= s.len(),
            open@ == "<img"@,
            open@.len() == 4,
            m == img_matcher(),
            tc == img_tag_capturer(),
            sc == img_src_capturer(),
            out@.map_values(|x: (Vec<char>, Vec<char>)| x.0@) + scan_captures(s@, i as int, m, tc) == scan_captures(s@, 0, m, tc),
            out@.map_values(|x: (Vec<char>, Vec<char>)| x.1@) + scan_captures(s@, i as int, m, sc) == scan_captures(s@, 0, m, sc),
        decreases s.len() - i,
    {
        proof {
            lemma_scan_captures_step(s@, i as int, m, tc);
            lemma_scan_captures_step(s@, i as int, m, sc);
        }
        let found = if ci_at_of(s, i, &open) { src_part_start_of(s, i + 4) } else { None };
        match found {
            Some((k, q, e)) => {
                assert(m(s@, i as int) == e);
                let ghost b0 = out@.map_values(|x: (Vec<char>, Vec<char>)| x.0@);
                let ghost b1 = out@.map_values(|x: (Vec<char>, Vec<char>)| x.1@);
                let tag = slice_of(s, i, e);
                let src = slice_of(s, k + 5, q);
                assert(tc(s@, i as int) == tag@);
                assert(sc(s@, i as int) == src@);
                out.push((tag, src));
                let ghost r0 = scan_captures(s@, e as int, m, tc);
                let ghost r1 = scan_captures(s@, e as int, m, sc);
                assert(out@.map_values(|x: (Vec<char>, Vec<char>)| x.0@) =~= b0.push(tc(s@, i as int)));
                assert(out@.map_values(|x: (Vec<char>, Vec<char>)| x.1@) =~= b1.push(sc(s@, i as int)));
                assert(b0.push(tc(s@, i as int)) + r0 =~= b0 + (seq![tc(s@, i as int)] + r0));
                assert(b1.push(sc(s@, i as int)) + r1 =~= b1 + (seq![sc(s@, i as int)] + r1));
                i = e;
            },
            None => {
                assert(m(s@, i as int) == i);
                i = i + 1;
            },
        }
    }
    assert(out@.map_values(|x: (Vec<char>, Vec<char>)| x.0@) + Seq::<Seq<char>>::empty() =~= out@.map_values(|x: (Vec<char>, Vec<char>)| x.0@));
    assert(out@.map_values(|x: (Vec<char>, Vec<char>)| x.1@) + Seq::<Seq<char>>::empty() =~= out@.map_values(|x: (Vec<char>, Vec<char>)| x.1@));
    out
}

// ---------------------------------------------------------------- fetching and inlining images

/// Whether a reference is fetched: it is not empty and not a `data:` address.
pub open spec fn fetched_ref(r: Seq<char>) -> bool {
    r.len() > 0 && !has_prefix(r, "data:"@)
}

/// The image tags of a page with their sources, from left to right.
pub open spec fn image_pairs(html: Seq<char>) -> Seq<(Seq<char>, Seq<char>)> {
    Seq::new(image_tags(html).len(), |i: int| (image_tags(html)[i], image_srcs(html)[i]))
}

/// The images of a page at `base` to fetch, as (tag, source, absolute address), from left to
/// right: those whose source is fetched.
pub open spec fn image_requests_of(html: Seq<char>, base: Seq<char>) -> Seq<(Seq<char>, Seq<char>, Seq<char>)> {
    image_pairs(html).filter(|p: (Seq<char>, Seq<char>)| fetched_ref(p.1)).map_values(
        |p: (Seq<char>, Seq<char>)| (p.0, p.1, resolve_resource(base, p.1)),
    )
}

/// Requests, as values.
pub open spec fn triples_view(v: Seq<(String, String, String)>) -> Seq<(Seq<char>, Seq<char>, Seq<char>)> {
    v.map_values(|t: (String, String, String)| (t.0@, t.1@, t.2@))
}

fn is_fetched_ref(r: &Vec<char>) -> (b: bool)
    ensures
        b == fetched_ref(r@),
{
    let d = chars_of("data:");
    r.len() > 0 && !has_prefix_of(r, &d)
}

/// The images of the page at `base` to fetch, as (tag, source, absolute address).
pub fn image_requests(html: &str, base: &str) -> (r: Vec<(String, String, String)>)
    ensures
        triples_view(r@) == image_requests_of(html@, base@),
{
    let s = chars_of(html);
    let found = image_matches_of(&s);
    let ghost pairs = image_pairs(html@);
    let ghost pred = |p: (Seq<char>, Seq<char>)| fetched_ref(p.1);
    let ghost f = |p: (Seq<char>, Seq<char>)| (p.0, p.1, resolve_resource(base@, p.1));
    assert(pairs =~= found@.map_values(|m: (Vec<char>, Vec<char>)| (m.0@, m.1@))) by {
        assert(found@.map_values(|m: (Vec<char>, Vec<char>)| m.0@).len() == found@.len());
    }
    let mut out: Vec<(String, String, String)> = Vec::new();
    let mut i: usize = 0;
    assert(pairs.take(0).filter(pred) =~= Seq::<(Seq<char>, Seq<char>)>::empty()) by {
        reveal(Seq::filter);
    }
    while i < found.len()
        invariant
            i <= found.len(),
            pairs == found@.map_values(|m: (Vec<char>, Vec<char>)| (m.0@, m.1@)),
            pred == (|p: (Seq<char>, Seq<char>)| fetched_ref(p.1)),
            f == (|p: (Seq<char>, Seq<char>)| (p.0, p.1, resolve_resource(base@, p.1))),
            triples_view(out@) == pairs.take(i as int).filter(pred).map_values(f),
        decreases found.len() - i,
    {
        let ghost before = triples_view(out@);
        assert(pairs.take(i + 1).drop_last() =~= pairs.take(i as int));
        assert(pairs.take(i + 1).filter(pred) == if pred(pairs[i as int]) {
            pairs.take(i as int).filter(pred).push(pairs[i as int])
        } else {
            pairs.take(i as int).filter(pred)
        }) by {
            reveal(Seq::filter);
            assert(pairs.take(i + 1).last() == pairs[i as int]);
        }
        if is_fetched_ref(&found[i].1) {
            let src = string_of(&found[i].1);
            let abs = absolute_url(base, src.as_str());
            let t = (string_of(&found[i].0), src, abs);
            out.push(t);
            assert(triples_view(out@) =~= before.push(f(pairs[i as int])));
            assert(pairs.take(i + 1).filter(pred).map_values(f) =~= pairs.take(i as int).filter(pred).map_values(f).push(
                f(pairs[i as int]),
            ));
        }
        i = i + 1;
    }
    assert(pairs.take(i as int) =~= pairs);
    out
}

/// An image tag with the first occurrence of its source replaced by the image's `data:`
/// address.
pub open spec fn inlined_tag(tag: Seq<char>, src: Seq<char>, uri: Seq<char>) -> Seq<char> {
    replace_first(tag, 0, literal_end(src), uri)
}

/// `out` once the first `k` fetched images, in turn, are put in: every occurrence of the tag of
/// an image fetched is replaced by the tag with its data address; an image that could not be
/// fetched leaves the page as it is.
pub open spec fn with_images(out: Seq<char>, fetched: Seq<(Seq<char>, Seq<char>, Option<Seq<char>>)>, k: int) -> Seq<char>
    decreases k,
{
    if k <= 0 || k > fetched.len() {
        out
    } else {
        let prev = with_images(out, fetched, k - 1);
        match fetched[k - 1].2 {
            Some(uri) => replace_text(prev, fetched[k - 1].0, inlined_tag(fetched[k - 1].0, fetched[k - 1].1, uri)),
            None => prev,
        }
    }
}

/// Fetched images, as values.
pub open spec fn fetched_view(v: Seq<(String, String, Option<String>)>) -> Seq<(Seq<char>, Seq<char>, Option<Seq<char>>)> {
    v.map_values(|t: (String, String, Option<String>)| (t.0@, t.1@, opt_string_view(t.2)))
}

/// The page with its images put in, given each image to fetch (tag, source) and its `data:`
/// address, or `None` when it could not be fetched.
pub fn inline_images(html: &str, fetched: &Vec<(String, String, Option<String>)>) -> (r: String)
    ensures
        r@ == with_images(html@, fetched_view(fetched@), fetched@.len() as int),
{
    let ghost fv = fetched_view(fetched@);
    let mut out = chars_of(html);
    let mut k: usize = 0;
    while k < fetched.len()
        invariant
            k <= fetched.len(),
            fv == fetched_view(fetched@),
            out@ == with_images(html@, fv, k as int),
        decreases fetched.len() - k,
    {
        match &fetched[k].2 {
            Some(uri) => {
                let tag = chars_of(fetched[k].0.as_str());
                let src = chars_of(fetched[k].1.as_str());
                let with = replace_first_text_of(&tag, &src, &chars_of(uri.as_str()));
                out = replace_text_of(&out, &tag, &with);
            },
            None => {},
        }
        k = k + 1;
    }
    string_of(&out)
}

// ---------------------------------------------------------------- style sheet links

/// Whether `rel="stylesheet"` (any case, either quote) stands at `k`.
pub open spec fn rel_at(s: Seq<char>, k: int) -> bool {
    ci_at(s, k, "rel="@) && k + 4 < s.len() && is_quote(s[k + 4]) && ci_at(s, k + 5, "stylesheet"@)
        && k + 15 < s.len() && is_quote(s[k + 15])
}

/// Whether `rel="stylesheet"` stands somewhere from `k` on, before `g`.
pub open spec fn rel_between(s: Seq<char>, k: int, g: int) -> bool
    decreases g - k,
{
    if k >= g { false } else { rel_at(s, k) || rel_between(s, k + 1, g) }
}

/// End of the match of `(?i)<link([^>]*?rel=["']stylesheet["'][^>]*?)>` at `p`, or `p`: `<link`
/// up to the first `>`, `rel="stylesheet"` standing in between.
pub open spec fn link_end(s: Seq<char>, p: int) -> int {
    let g = find_char(s, '>', p + 5);
    if ci_at(s, p, "<link"@) && g >= 0 && rel_between(s, p + 5, g) { g + 1 } else { p }
}

/// The link tag matcher.
pub open spec fn link_matcher() -> spec_fn(Seq<char>, int) -> int {
    |t: Seq<char>, i: int| link_end(t, i)
}

/// The whole text of the link tag matched at `i`.
pub open spec fn link_tag_capturer() -> spec_fn(Seq<char>, int) -> Seq<char> {
    |t: Seq<char>, i: int| t.subrange(i, link_end(t, i))
}

/// The attributes of the link tag matched at `i`: what stands between `<link` and `>`.
pub open spec fn link_attrs_capturer() -> spec_fn(Seq<char>, int) -> Seq<char> {
    |t: Seq<char>, i: int| t.subrange(i + 5, link_end(t, i) - 1)
}

/// The style sheet link tags of a page, from left to right.
pub open spec fn link_tags(html: Seq<char>) -> Seq<Seq<char>> {
    scan_captures(html, 0, link_matcher(), link_tag_capturer())
}

/// The attributes of the style sheet link tags of a page, from left to right.
pub open spec fn link_attrs(html: Seq<char>) -> Seq<Seq<char>> {
    scan_captures(html, 0, link_matcher(), link_attrs_capturer())
}

fn rel_at_of(s: &Vec<char>, k: usize) -> (r: bool)
    ensures
        r == rel_at(s@, k as int),
{
    let rel = vec!['r', 'e', 'l', '='];
    let sheet = vec!['s', 't', 'y', 'l', 'e', 's', 'h', 'e', 'e', 't'];
    proof {
        reveal_strlit("rel=");
        reveal_strlit("stylesheet");
    }
    assert(rel@ =~= "rel="@);
    assert(sheet@ =~= "stylesheet"@);
    if !ci_at_of(s, k, &rel) {
        return false;
    }
    assert(k + 4 <= s.len());
    if k + 4 >= s.len() || !(s[k + 4] == '"' || s[k + 4] == '\'') {
        return false;
    }
    if !ci_at_of(s, k + 5, &sheet) {
        return false;
    }
    assert(k + 15 <= s.len());
    k + 15 < s.len() && (s[k + 15] == '"' || s[k + 15] == '\'')
}

fn rel_between_of(s: &Vec<char>, k0: usize, g: usize) -> (r: bool)
    ensures
        r == rel_between(s@, k0 as int, g as int),
{
    let mut k = k0;
    while k < g
        invariant
            k0 <= k,
            k <= g || k == k0,
            rel_between(s@, k0 as int, g as int) == rel_between(s@, k as int, g as int),
        decreases g - k,
    {
        if rel_at_of(s, k) {
            return true;
        }
        k = k + 1;
    }
    false
}

fn link_end_of(s: &Vec<char>, p: usize, open: &Vec<char>) -> (r: usize)
    requires
        p < s.len(),
        open@ == "<link"@,
    ensures
        r as int == link_end(s@, p as int),
        r == p || (p + 6 <= r <= s.len()),
{
    assert(open@.len() == 5) by {
        reveal_strlit("<link");
    }
    if !ci_at_of(s, p, open) {
        return p;
    }
    match find_char_of(s, '>', p + 5) {
        Some(g) => if rel_between_of(s, p + 5, g) { g + 1 } else { p },
        None => p,
    }
}

/// The style sheet link tags of a page and their attributes, from left to right.
pub fn link_matches_of(s: &Vec<char>) -> (r: Vec<(Vec<char>, Vec<char>)>)
    ensures
        r@.map_values(|m: (Vec<char>, Vec<char>)| m.0@) == link_tags(s@),
        r@.map_values(|m: (Vec<char>, Vec<char>)| m.1@) == link_attrs(s@),
{
    let ghost m = link_matcher();
    let ghost tc = link_tag_capturer();
    let ghost ac = link_attrs_capturer();
    let open = vec!['<', 'l', 'i', 'n', 'k'];
    assert(open@ =~= "<link"@) by {
        reveal_strlit("<link");
    }
    let mut out: Vec<(Vec<char>, Vec<char>)> = Vec::new();
    let mut i: usize = 0;
    assert(out@.map_values(|x: (Vec<char>, Vec<char>)| x.0@) + scan_captures(s@, 0, m, tc) =~= scan_captures(s@, 0, m, tc));
    assert(out@.map_values(|x: (Vec<char>, Vec<char>)| x.1@) + scan_captures(s@, 0, m, ac) =~= scan_captures(s@, 0, m, ac));
    while i < s.len()
        invariant
            i <= s.len(),
            open@ == "<link"@,
            m == link_matcher(),
            tc == link_tag_capturer(),
            ac == link_attrs_capturer(),
            out@.map_values(|x: (Vec<char>, Vec<char>)| x.0@) + scan_captures(s@, i as int, m, tc) == scan_captures(s@, 0, m, tc),
            out@.map_values(|x: (Vec<char>, Vec<char>)| x.1@) + scan_captures(s@, i as int, m, ac) == scan_captures(s@, 0, m, ac),
        decreases s.len() - i,
    {
        proof {
            lemma_scan_captures_step(s@, i as int, m, tc);
            lemma_scan_captures_step(s@, i as int, m, ac);
        }
        let e = link_end_of(s, i, &open);
        assert(m(s@, i as int) == e);
        if e > i {
            let ghost b0 = out@.map_values(|x: (Vec<char>, Vec<char>)| x.0@);
            let ghost b1 = out@.map_values(|x: (Vec<char>, Vec<char>)| x.1@);
            let tag = slice_of(s, i, e);
            let attrs = slice_of(s, i + 5, e - 1);
            assert(tc(s@, i as int) == tag@);
            assert(ac(s@, i as int) == attrs@);
            out.push((tag, attrs));
            let ghost r0 = scan_captures(s@, e as int, m, tc);
            let ghost r1 = scan_captures(s@, e as int, m, ac);
            assert(out@.map_values(|x: (Vec<char>, Vec<char>)| x.0@) =~= b0.push(tc(s@, i as int)));
            assert(out@.map_values(|x: (Vec<char>, Vec<char>)| x.1@) =~= b1.push(ac(s@, i as int)));
            assert(b0.push(tc(s@, i as int)) + r0 =~= b0 + (seq![tc(s@, i as int)] + r0));
            assert(b1.push(ac(s@, i as int)) + r1 =~= b1 + (seq![ac(s@, i as int)] + r1));
            i = e;
        } else {
            i = i + 1;
        }
    }
    assert(out@.map_values(|x: (Vec<char>, Vec<char>)| x.0@) + Seq::<Seq<char>>::empty() =~= out@.map_values(|x: (Vec<char>, Vec<char>)| x.0@));
    assert(out@.map_values(|x: (Vec<char>, Vec<char>)| x.1@) + Seq::<Seq<char>>::empty() =~= out@.map_values(|x: (Vec<char>, Vec<char>)| x.1@));
    out
}

/// End of `(?i)href=["']([^"']+)["']` at `j` (before its closing quote), or -1.
pub open spec fn href_end(a: Seq<char>, j: int) -> int {
    if ci_at(a, j, "href="@) && j + 5 < a.len() && is_quote(a[j + 5]) {
        let q = find_quote(a, j + 6);
        if q > j + 6 { q } else { -1 }
    } else {
        -1
    }
}

/// The address of the first `href` in a tag's attributes, from position `j` on.
pub open spec fn first_href(a: Seq<char>, j: int) -> Option<Seq<char>>
    decreases a.len() - j,
{
    if j < 0 || j >= a.len() {
        None
    } else if href_end(a, j) >= 0 {
        Some(a.subrange(j + 6, href_end(a, j)))
    } else {
        first_href(a, j + 1)
    }
}

fn first_href_of(a: &Vec<char>) -> (r: Option<Vec<char>>)
    ensures
        match r {
            Some(h) => first_href(a@, 0) == Some(h@),
            None => first_href(a@, 0) is None,
        },
{
    let w = vec!['h', 'r', 'e', 'f', '='];
    assert(w@ =~= "href="@) by {
        reveal_strlit("href=");
    }
    let mut j: usize = 0;
    while j < a.len()
        invariant
            w@ == "href="@,
            w@.len() == 5,
            first_href(a@, 0) == first_href(a@, j as int),
        decreases a.len() - j,
    {
        if ci_at_of(a, j, &w) {
            assert(j + 5 <= a.len());
            if j + 5 < a.len() && (a[j + 5] == '"' || a[j + 5] == '\'') {
                match find_quote_of(a, j + 6) {
                    Some(q) => if q > j + 6 {
                        return Some(slice_of(a, j + 6, q));
                    },
                    None => {},
                }
            }
        }
        j = j + 1;
    }
    None
}

/// The link tags of a page with their attributes, from left to right.
pub open spec fn link_pairs(html: Seq<char>) -> Seq<(Seq<char>, Seq<char>)> {
    Seq::new(link_tags(html).len(), |i: int| (link_tags(html)[i], link_attrs(html)[i]))
}

/// Whether a link tag's style sheet is fetched: its attributes hold an `href` that is fetched.
pub open spec fn sheet_fetched(attrs: Seq<char>) -> bool {
    first_href(attrs, 0) matches Some(h) && fetched_ref(h)
}

/// The style sheets of a page at `base` to fetch, as (link tag, absolute address), from left
/// to right.
pub open spec fn sheet_requests_of(html: Seq<char>, base: Seq<char>) -> Seq<(Seq<char>, Seq<char>)> {
    link_pairs(html).filter(|p: (Seq<char>, Seq<char>)| sheet_fetched(p.1)).map_values(
        |p: (Seq<char>, Seq<char>)| (p.0, resolve_resource(base, first_href(p.1, 0)->0)),
    )
}

/// The style sheets of the page at `base` to fetch, as (link tag, absolute address).
pub fn stylesheet_requests(html: &str, base: &str) -> (r: Vec<(String, String)>)
    ensures
        r@.map_values(|t: (String, String)| (t.0@, t.1@)) == sheet_requests_of(html@, base@),
{
    let s = chars_of(html);
    let found = link_matches_of(&s);
    let ghost pairs = link_pairs(html@);
    let ghost pred = |p: (Seq<char>, Seq<char>)| sheet_fetched(p.1);
    let ghost f = |p: (Seq<char>, Seq<char>)| (p.0, resolve_resource(base@, first_href(p.1, 0)->0));
    assert(pairs =~= found@.map_values(|m: (Vec<char>, Vec<char>)| (m.0@, m.1@))) by {
        assert(found@.map_values(|m: (Vec<char>, Vec<char>)| m.0@).len() == found@.len());
    }
    let mut out: Vec<(String, String)> = Vec::new();
    let mut i: usize = 0;
    assert(pairs.take(0).filter(pred) =~= Seq::<(Seq<char>, Seq<char>)>::empty()) by {
        reveal(Seq::filter);
    }
    while i < found.len()
        invariant
            i <= found.len(),
            pairs == found@.map_values(|m: (Vec<char>, Vec<char>)| (m.0@, m.1@)),
            pred == (|p: (Seq<char>, Seq<char>)| sheet_fetched(p.1)),
            f == (|p: (Seq<char>, Seq<char>)| (p.0, resolve_resource(base@, first_href(p.1, 0)->0))),
            out@.map_values(|t: (String, String)| (t.0@, t.1@)) == pairs.take(i as int).filter(pred).map_values(f),
        decreases found.len() - i,
    {
        let ghost before = out@.map_values(|t: (String, String)| (t.0@, t.1@));
        assert(pairs.take(i + 1).drop_last() =~= pairs.take(i as int));
        assert(pairs.take(i + 1).filter(pred) == if pred(pairs[i as int]) {
            pairs.take(i as int).filter(pred).push(pairs[i as int])
        } else {
            pairs.take(i as int).filter(pred)
        }) by {
            reveal(Seq::filter);
            assert(pairs.take(i + 1).last() == pairs[i as int]);
        }
        match first_href_of(&found[i].1) {
            Some(h) => {
                if is_fetched_ref(&h) {
                    let href = string_of(&h);
                    let abs = absolute_url(base, href.as_str());
                    let t = (string_of(&found[i].0), abs);
                    out.push(t);
                    assert(out@.map_values(|t: (String, String)| (t.0@, t.1@)) =~= before.push(f(pairs[i as int])));
                    assert(pairs.take(i + 1).filter(pred).map_values(f) =~= pairs.take(i as int).filter(pred).map_values(f).push(
                        f(pairs[i as int]),
                    ));
                }
            },
            None => {},
        }
        i = i + 1;
    }
    assert(pairs.take(i as int) =~= pairs);
    out
}

/// The style block that takes the place of a link to the style sheet at `abs`.
pub open spec fn inlined_sheet(abs: Seq<char>, css: Seq<char>) -> Seq<char> {
    "<style>/* inlined: "@ + abs + " */\n"@ + css + "</style>"@
}

/// `out` once the first `k` fetched style sheets, in turn, are put in: every occurrence of the
/// link tag of a sheet fetched is replaced by a style block; a sheet that could not be fetched
/// leaves the page as it is.
pub open spec fn with_sheets(out: Seq<char>, fetched: Seq<(Seq<char>, Seq<char>, Option<Seq<char>>)>, k: int) -> Seq<char>
    decreases k,
{
    if k <= 0 || k > fetched.len() {
        out
    } else {
        let prev = with_sheets(out, fetched, k - 1);
        match fetched[k - 1].2 {
            Some(css) => replace_text(prev, fetched[k - 1].0, inlined_sheet(fetched[k - 1].1, css)),
            None => prev,
        }
    }
}

/// The page with its style sheets put in, given each sheet to fetch (link tag, absolute
/// address) and its text, or `None` when it could not be fetched.
pub fn inline_stylesheets(html: &str, fetched: &Vec<(String, String, Option<String>)>) -> (r: String)
    ensures
        r@ == with_sheets(html@, fetched_view(fetched@), fetched@.len() as int),
{
    let ghost fv = fetched_view(fetched@);
    let mut out = chars_of(html);
    let mut k: usize = 0;
    while k < fetched.len()
        invariant
            k <= fetched.len(),
            fv == fetched_view(fetched@),
            out@ == with_sheets(html@, fv, k as int),
        decreases fetched.len() - k,
    {
        match &fetched[k].2 {
            Some(css) => {
                let tag = chars_of(fetched[k].0.as_str());
                let mut block = chars_of("<style>/* inlined: ");
                push_str(&mut block, fetched[k].1.as_str());
                push_str(&mut block, " */\n");
                push_str(&mut block, css.as_str());
                push_str(&mut block, "</style>");
                out = replace_text_of(&out, &tag, &block);
            },
            None => {},
        }
        k = k + 1;
    }
    string_of(&out)
}

// ---------------------------------------------------------------- data addresses

/// The digit of value `v` (0 to 63) in the standard base64 alphabet.
pub open spec fn base64_digit(v: int) -> char {
    "ABCDEFGHIJKLMNOPQRSTUVWXYZabcdefghijklmnopqrstuvwxyz0123456789+/"@[v]
}

/// The standard base64 encoding of `bytes` (RFC 4648, with padding): each group of three
/// bytes gives four digits of six bits each, high bits first; a last group of one or two
/// bytes is filled with zero bits and padded with `=` to four characters.
pub open spec fn base64_standard(bytes: Seq<u8>) -> Seq<char>
    decreases bytes.len(),
{
    if bytes.len() == 0 {
        Seq::empty()
    } else if bytes.len() == 1 {
        let a = bytes[0] as int;
        seq![base64_digit(a / 4), base64_digit((a % 4) * 16), '=', '=']
    } else if bytes.len() == 2 {
        let a = bytes[0] as int;
        let b = bytes[1] as int;
        seq![base64_digit(a / 4), base64_digit((a % 4) * 16 + b / 16), base64_digit((b % 16) * 4), '=']
    } else {
        let a = bytes[0] as int;
        let b = bytes[1] as int;
        let c = bytes[2] as int;
        seq![
            base64_digit(a / 4),
            base64_digit((a % 4) * 16 + b / 16),
            base64_digit((b % 16) * 4 + c / 64),
            base64_digit(c % 64),
        ] + base64_standard(bytes.skip(3))
    }
}

/// Standard base64 encoding of `bytes` (`base64::engine::general_purpose::STANDARD`: the
/// alphabet `A-Z a-z 0-9 + /` with `=` padding). The claim is that it writes
/// [`base64_standard`].
#[verifier::external_body]
pub(crate) fn base64_of(bytes: &Vec<u8>) -> (r: String)
    ensures
        r@ == base64_standard(bytes@),
{
    base64::Engine::encode(&base64::engine::general_purpose::STANDARD, bytes)
}

/// The media type of a fetched image: its `Content-Type` up to the first `;`, or
/// `image/png` when the answer gave none that reads as text.
pub open spec fn image_mime(content_type: Option<Seq<char>>) -> Seq<char> {
    match content_type {
        Some(c) => before_first(c, ';'),
        None => "image/png"@,
    }
}

/// The `data:` address of a fetched image, given its `Content-Type` and its bytes.
pub fn data_uri(content_type: &Option<String>, bytes: &Vec<u8>) -> (r: String)
    ensures
        r@ == "data:"@ + image_mime(opt_string_view(*content_type)) + ";base64,"@ + base64_standard(bytes@),
{
    let mut v = chars_of("data:");
    match content_type {
        Some(c) => {
            let m = before_first_of(&chars_of(c.as_str()), ';');
            crate::text::push_all(&mut v, &m);
        },
        None => push_str(&mut v, "image/png"),
    }
    push_str(&mut v, ";base64,");
    let b = base64_of(bytes);
    push_str(&mut v, b.as_str());
    string_of(&v)
}

} // verus!
