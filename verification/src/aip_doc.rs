//! AIP text documents: addresses of the resources a page refers to, and its style sheets
//! confined to the document's container.
use vstd::prelude::*;
use crate::pattern::{ci_at, ci_at_of, replace_text, replace_text_of, scan_captures, slice_of, split_on, split_on_of};
use crate::sia_names::lemma_scan_captures_step;
use crate::text::{
    chars_of, has_prefix, has_prefix_of, push_all, push_str, same_chars, string_of,
    trim_end_char, trim_end_char_of, trim_start_text, trim_start_text_of, trim_ws, trim_ws_of,
    vec_views,
};

verus! {

broadcast use vstd::string::group_string_axioms;

// ---------------------------------------------------------------- scanning

/// Position of the first `c` at or after `i`, or -1 when there is none.
pub open spec fn find_char(s: Seq<char>, c: char, i: int) -> int
    decreases s.len() - i,
{
    if i < 0 || i >= s.len() {
        -1
    } else if s[i] == c {
        i
    } else {
        find_char(s, c, i + 1)
    }
}

/// Where [`find_char`] can land.
pub proof fn lemma_find_char(s: Seq<char>, c: char, i: int)
    ensures
        find_char(s, c, i) == -1 || (i <= find_char(s, c, i) < s.len() && s[find_char(s, c, i)] == c),
    decreases s.len() - i,
{
    if 0 <= i < s.len() && s[i] != c {
        lemma_find_char(s, c, i + 1);
    }
}

pub(crate) fn find_char_of(s: &Vec<char>, c: char, i: usize) -> (r: Option<usize>)
    ensures
        match r {
            Some(p) => p as int == find_char(s@, c, i as int) && i <= p < s.len(),
            None => find_char(s@, c, i as int) == -1,
        },
{
    let mut k = i;
    while k < s.len()
        invariant
            i <= k,
            find_char(s@, c, i as int) == find_char(s@, c, k as int),
        decreases s.len() - k,
    {
        if s[k] == c {
            return Some(k);
        }
        k = k + 1;
    }
    None
}

/// Position of the first occurrence of `w` at or after `i`, or -1 when there is none.
pub open spec fn find_text(s: Seq<char>, w: Seq<char>, i: int) -> int
    decreases s.len() - i,
{
    if i < 0 || i >= s.len() {
        -1
    } else if crate::pattern::exact_at(s, i, w) {
        i
    } else {
        find_text(s, w, i + 1)
    }
}

fn find_text_of(s: &Vec<char>, w: &Vec<char>, i: usize) -> (r: Option<usize>)
    ensures
        match r {
            Some(p) => p as int == find_text(s@, w@, i as int) && i <= p < s.len()
                && crate::pattern::exact_at(s@, p as int, w@),
            None => find_text(s@, w@, i as int) == -1,
        },
{
    let mut k = i;
    while k < s.len()
        invariant
            i <= k,
            find_text(s@, w@, i as int) == find_text(s@, w@, k as int),
        decreases s.len() - k,
    {
        if crate::pattern::exact_at_of(s, k, w) {
            return Some(k);
        }
        k = k + 1;
    }
    None
}

/// Position of the last `c` in `s`, or -1 when there is none.
pub open spec fn find_last_char(s: Seq<char>, c: char) -> int
    decreases s.len(),
{
    if s.len() == 0 {
        -1
    } else if s.last() == c {
        s.len() - 1
    } else {
        find_last_char(s.drop_last(), c)
    }
}

fn find_last_char_of(s: &Vec<char>, c: char) -> (r: Option<usize>)
    ensures
        match r {
            Some(p) => p as int == find_last_char(s@, c) && p < s.len(),
            None => find_last_char(s@, c) == -1,
        },
{
    let mut n = s.len();
    assert(s@.take(n as int) =~= s@);
    while n > 0
        invariant
            n <= s.len(),
            find_last_char(s@, c) == find_last_char(s@.take(n as int), c),
        decreases n,
    {
        if s[n - 1] == c {
            return Some(n - 1);
        }
        assert(s@.take(n as int).drop_last() =~= s@.take(n - 1));
        n = n - 1;
    }
    None
}

// ---------------------------------------------------------------- addresses

/// The directory of a page address: the address up to its last `/` (all of it when it has
/// none), without trailing `/`.
pub open spec fn base_dir(base: Seq<char>) -> Seq<char> {
    let p = find_last_char(base, '/');
    trim_end_char(if p >= 0 { base.take(p) } else { base }, '/')
}

/// The origin of a page address, `<scheme>//<host>`; the address's directory when it has no
/// `//` followed by a `/`.
pub open spec fn origin_of(base: Seq<char>) -> Seq<char> {
    let p = find_text(base, seq!['/', '/'], 0);
    let rem = base.skip(p + 2);
    let q = find_char(rem, '/', 0);
    if p >= 0 && q >= 0 {
        base.take(p) + seq!['/', '/'] + rem.take(q)
    } else {
        base_dir(base)
    }
}

/// The absolute address of a resource `src` that the page at `base` refers to.
pub open spec fn resolve_resource(base: Seq<char>, src: Seq<char>) -> Seq<char> {
    if has_prefix(src, "http://"@) || has_prefix(src, "https://"@) {
        src
    } else if has_prefix(src, seq!['/', '/']) {
        "https:"@ + src
    } else if has_prefix(src, seq!['/']) {
        origin_of(base) + src
    } else {
        base_dir(base) + seq!['/'] + trim_start_text(src, "./"@)
    }
}

fn base_dir_of(base: &Vec<char>) -> (r: Vec<char>)
    ensures
        r@ == base_dir(base@),
{
    match find_last_char_of(base, '/') {
        Some(p) => {
            let b = slice_of(base, 0, p);
            assert(b@ =~= base@.take(p as int));
            trim_end_char_of(&b, '/')
        },
        None => trim_end_char_of(base, '/'),
    }
}

/// The absolute address of a resource `src` that the page at `base` refers to.
pub fn absolute_url(base: &str, src: &str) -> (r: String)
    ensures
        r@ == resolve_resource(base@, src@),
{
    let b = chars_of(base);
    let s = chars_of(src);
    if has_prefix_of(&s, &chars_of("http://")) || has_prefix_of(&s, &chars_of("https://")) {
        return string_of(&s);
    }
    let two = vec!['/', '/'];
    assert(two@ =~= seq!['/', '/']);
    let one = vec!['/'];
    assert(one@ =~= seq!['/']);
    if has_prefix_of(&s, &two) {
        let mut v = chars_of("https:");
        push_all(&mut v, &s);
        return string_of(&v);
    }
    if has_prefix_of(&s, &one) {
        let mut origin = match find_text_of(&b, &two, 0) {
            Some(p) => {
                let rem = slice_of(&b, p + 2, b.len());
                assert(rem@ =~= b@.skip(p + 2));
                match find_char_of(&rem, '/', 0) {
                    Some(q) => {
                        let mut o = slice_of(&b, 0, p);
                        assert(o@ =~= b@.take(p as int));
                        o.push('/');
                        o.push('/');
                        let h = slice_of(&rem, 0, q);
                        assert(h@ =~= rem@.take(q as int));
                        push_all(&mut o, &h);
                        assert(o@ =~= b@.take(p as int) + seq!['/', '/'] + rem@.take(q as int));
                        o
                    },
                    None => base_dir_of(&b),
                }
            },
            None => base_dir_of(&b),
        };
        push_all(&mut origin, &s);
        return string_of(&origin);
    }
    let mut v = base_dir_of(&b);
    v.push('/');
    let t = trim_start_text_of(&s, &chars_of("./"));
    push_all(&mut v, &t);
    string_of(&v)
}

// ---------------------------------------------------------------- selectors

/// Whether `n` starts with `root` followed by `sep`.
pub open spec fn root_then(n: Seq<char>, root: Seq<char>, sep: char) -> bool {
    has_prefix(n, root + seq![sep])
}

/// A selector once its scope is put in front: `*` becomes the scope; otherwise the scope, a
/// space and the selector.
pub open spec fn with_scope(n: Seq<char>, scope: Seq<char>) -> Seq<char> {
    if n == seq!['*'] { scope } else { scope + seq![' '] + n }
}

/// What follows a root selector `root ` or `root>` at the start of `n`.
pub open spec fn after_root(n: Seq<char>, root: Seq<char>) -> Seq<char> {
    if root_then(n, root, ' ') {
        trim_ws(n.skip(root.len() + 1int))
    } else {
        seq!['>'] + trim_ws(n.skip(root.len() + 1int))
    }
}

/// A CSS selector confined to `scope`: left alone when it starts with the scope; the roots
/// `html`, `body` and `:root` become the scope; a selector that starts from a root continues
/// from the scope; any other selector is put under the scope.
pub open spec fn scope_selector_text(sel: Seq<char>, scope: Seq<char>) -> Seq<char> {
    let n = trim_ws(sel);
    if has_prefix(sel, scope) {
        sel
    } else if n == "html"@ || (!root_then(n, "html"@, ' ') && !root_then(n, "html"@, '>') && (n == "body"@
        || (!root_then(n, "body"@, ' ') && !root_then(n, "body"@, '>') && n == ":root"@))) {
        scope
    } else if root_then(n, "html"@, ' ') || root_then(n, "html"@, '>') {
        with_scope(after_root(n, "html"@), scope)
    } else if root_then(n, "body"@, ' ') || root_then(n, "body"@, '>') {
        with_scope(after_root(n, "body"@), scope)
    } else if root_then(n, ":root"@, ' ') || root_then(n, ":root"@, '>') {
        with_scope(after_root(n, ":root"@), scope)
    } else {
        with_scope(n, scope)
    }
}

fn root_then_of(n: &Vec<char>, root: &Vec<char>, sep: char) -> (r: bool)
    ensures
        r == root_then(n@, root@, sep),
{
    let mut p = slice_of(root, 0, root.len());
    assert(p@ =~= root@);
    p.push(sep);
    assert(p@ =~= root@ + seq![sep]);
    has_prefix_of(n, &p)
}

fn after_root_of(n: &Vec<char>, root: &Vec<char>) -> (r: Vec<char>)
    requires
        root_then(n@, root@, ' ') || root_then(n@, root@, '>'),
    ensures
        r@ == after_root(n@, root@),
{
    let k = root.len();
    assert(k + 1 <= n.len()) by {
        assert((root@ + seq![' ']).len() == root@.len() + 1);
        assert((root@ + seq!['>']).len() == root@.len() + 1);
    }
    let rest = slice_of(n, k + 1, n.len());
    assert(rest@ =~= n@.skip(root@.len() + 1int));
    let t = trim_ws_of(&rest);
    if root_then_of(n, root, ' ') {
        t
    } else {
        let mut v = vec!['>'];
        push_all(&mut v, &t);
        v
    }
}

fn copy_of(v: &Vec<char>) -> (r: Vec<char>)
    ensures
        r@ == v@,
{
    let r = slice_of(v, 0, v.len());
    assert(r@ =~= v@);
    r
}

fn with_scope_of(n: &Vec<char>, scope: &Vec<char>) -> (r: Vec<char>)
    ensures
        r@ == with_scope(n@, scope@),
{
    let star = vec!['*'];
    assert(star@ =~= seq!['*']);
    if same_chars(n, &star) {
        copy_of(scope)
    } else {
        let mut v = copy_of(scope);
        v.push(' ');
        push_all(&mut v, n);
        v
    }
}

/// A CSS selector confined to `scope`.
pub fn scope_selector(sel: &str, scope: &str) -> (r: String)
    ensures
        r@ == scope_selector_text(sel@, scope@),
{
    let s = chars_of(sel);
    let sc = chars_of(scope);
    string_of(&scope_selector_of(&s, &sc))
}

fn scope_selector_of(s: &Vec<char>, sc: &Vec<char>) -> (r: Vec<char>)
    ensures
        r@ == scope_selector_text(s@, sc@),
{
    if has_prefix_of(s, sc) {
        return copy_of(s);
    }
    let n = trim_ws_of(s);
    let html = chars_of("html");
    let body = chars_of("body");
    let root = chars_of(":root");
    if same_chars(&n, &html) {
        return copy_of(sc);
    }
    if root_then_of(&n, &html, ' ') || root_then_of(&n, &html, '>') {
        return with_scope_of(&after_root_of(&n, &html), sc);
    }
    if same_chars(&n, &body) {
        return copy_of(sc);
    }
    if root_then_of(&n, &body, ' ') || root_then_of(&n, &body, '>') {
        return with_scope_of(&after_root_of(&n, &body), sc);
    }
    if same_chars(&n, &root) {
        return copy_of(sc);
    }
    if root_then_of(&n, &root, ' ') || root_then_of(&n, &root, '>') {
        return with_scope_of(&after_root_of(&n, &root), sc);
    }
    with_scope_of(&n, sc)
}

// ---------------------------------------------------------------- style sheets

/// The selectors of a rule's prelude split at commas, trimmed, without empty ones, each
/// confined to `scope`.
pub open spec fn scoped_selectors(parts: Seq<Seq<char>>, scope: Seq<char>) -> Seq<Seq<char>>
    decreases parts.len(),
{
    if parts.len() == 0 {
        Seq::empty()
    } else {
        let prev = scoped_selectors(parts.drop_last(), scope);
        let p = trim_ws(parts.last());
        if p.len() == 0 { prev } else { prev.push(scope_selector_text(p, scope)) }
    }
}

/// The strings joined by `sep`.
pub open spec fn join_with(v: Seq<Seq<char>>, sep: Seq<char>) -> Seq<char>
    decreases v.len(),
{
    if v.len() == 0 {
        Seq::empty()
    } else if v.len() == 1 {
        v[0]
    } else {
        join_with(v.drop_last(), sep) + sep + v.last()
    }
}

/// End of the block whose body continues at `j` with `depth` blocks open: the position just
/// after the brace that closes it, or -1 when the text ends first.
pub open spec fn block_end(s: Seq<char>, j: int, depth: int) -> int
    decreases s.len() - j,
{
    if depth <= 0 {
        j
    } else if j < 0 || j >= s.len() {
        -1
    } else if s[j] == '{' {
        block_end(s, j + 1, depth + 1)
    } else if s[j] == '}' {
        block_end(s, j + 1, depth - 1)
    } else {
        block_end(s, j + 1, depth)
    }
}

/// Where [`block_end`] can land.
pub proof fn lemma_block_end(s: Seq<char>, j: int, depth: int)
    requires
        0 <= j <= s.len(),
    ensures
        block_end(s, j, depth) == -1 || j <= block_end(s, j, depth) <= s.len(),
        depth > 0 && block_end(s, j, depth) != -1 ==> j < block_end(s, j, depth),
    decreases s.len() - j,
{
    if depth > 0 && j < s.len() {
        if s[j] == '{' {
            lemma_block_end(s, j + 1, depth + 1);
        } else if s[j] == '}' {
            lemma_block_end(s, j + 1, depth - 1);
        } else {
            lemma_block_end(s, j + 1, depth);
        }
    }
}

/// Whether an at-rule holds rules of its own (`@media`, `@supports`, `@document`, `@layer`).
pub open spec fn is_nesting_at_rule(prelude: Seq<char>) -> bool {
    has_prefix(prelude, "@media"@) || has_prefix(prelude, "@supports"@) || has_prefix(prelude, "@document"@)
        || has_prefix(prelude, "@layer"@)
}

/// A rule once confined to `scope`, given its trimmed prelude and the text of its body.
pub open spec fn scoped_rule(prelude: Seq<char>, body: Seq<char>, scoped_body: Seq<char>, scope: Seq<char>) -> Seq<char> {
    if has_prefix(prelude, seq!['@']) {
        if is_nesting_at_rule(prelude) {
            prelude + seq!['{'] + scoped_body + seq!['}']
        } else {
            prelude + seq!['{'] + body + seq!['}']
        }
    } else {
        join_with(scoped_selectors(split_on(prelude, ','), scope), ", "@) + seq!['{'] + body + seq!['}']
    }
}

/// The style sheet `s` from position `i` with every rule confined to `scope`: selectors are
/// scoped, rules nested in `@media`, `@supports`, `@document` and `@layer` too, other
/// at-rules are kept; text without a complete rule is kept as it is.
pub open spec fn scope_css_at(s: Seq<char>, i: int, scope: Seq<char>) -> Seq<char>
    decreases s.len(), s.len() - i,
{
    if i < 0 || i >= s.len() {
        Seq::empty()
    } else {
        let open = find_char(s, '{', i);
        proof { lemma_find_char(s, '{', i); }
        if open < 0 {
            s.subrange(i, s.len() as int)
        } else {
            let j = block_end(s, open + 1, 1);
            proof { lemma_block_end(s, open + 1, 1); }
            if j < 0 {
                s.subrange(i, s.len() as int)
            } else {
                let prelude = trim_ws(s.subrange(i, open));
                let body = s.subrange(open + 1, j - 1);
                scoped_rule(prelude, body, scope_css_at(body, 0, scope), scope) + scope_css_at(s, j, scope)
            }
        }
    }
}

/// A style sheet with every rule confined to `scope`.
pub open spec fn scope_css_text(s: Seq<char>, scope: Seq<char>) -> Seq<char> {
    scope_css_at(s, 0, scope)
}

fn block_end_of(s: &Vec<char>, start: usize) -> (r: Option<usize>)
    requires
        1 <= start <= s.len(),
    ensures
        match r {
            Some(j) => j as int == block_end(s@, start as int, 1) && start < j <= s.len(),
            None => block_end(s@, start as int, 1) == -1,
        },
{
    let mut depth: usize = 1;
    let mut j = start;
    proof { lemma_block_end(s@, start as int, 1); }
    while j < s.len() && depth > 0
        invariant
            1 <= start <= j,
            j <= s.len(),
            depth <= j - start + 1,
            block_end(s@, start as int, 1) == block_end(s@, j as int, depth as int),
            depth == 0 ==> start < j,
        decreases s.len() - j,
    {
        if s[j] == '{' {
            depth = depth + 1;
        } else if s[j] == '}' {
            depth = depth - 1;
        }
        j = j + 1;
    }
    if depth != 0 {
        None
    } else {
        Some(j)
    }
}

fn scoped_selectors_of(parts: &Vec<Vec<char>>, scope: &Vec<char>) -> (r: Vec<Vec<char>>)
    ensures
        vec_views(r@) == scoped_selectors(vec_views(parts@), scope@),
{
    let ghost pv = vec_views(parts@);
    let mut out: Vec<Vec<char>> = Vec::new();
    let mut i: usize = 0;
    assert(pv.take(0) =~= Seq::<Seq<char>>::empty());
    assert(vec_views(out@) =~= Seq::<Seq<char>>::empty());
    while i < parts.len()
        invariant
            i <= parts.len(),
            pv == vec_views(parts@),
            vec_views(out@) == scoped_selectors(pv.take(i as int), scope@),
        decreases parts.len() - i,
    {
        assert(pv.take(i + 1).drop_last() =~= pv.take(i as int));
        assert(pv.take(i + 1).last() == parts@[i as int]@);
        let p = trim_ws_of(&parts[i]);
        if p.len() > 0 {
            let ghost before = vec_views(out@);
            let x = scope_selector_of(&p, scope);
            out.push(x);
            assert(vec_views(out@) =~= before.push(x@));
        }
        i = i + 1;
    }
    assert(pv.take(i as int) =~= pv);
    out
}

fn join_with_of(v: &Vec<Vec<char>>, sep: &Vec<char>) -> (r: Vec<char>)
    ensures
        r@ == join_with(vec_views(v@), sep@),
{
    let ghost vv = vec_views(v@);
    let mut out: Vec<char> = Vec::new();
    let mut i: usize = 0;
    assert(vv.take(0) =~= Seq::<Seq<char>>::empty());
    while i < v.len()
        invariant
            i <= v.len(),
            vv == vec_views(v@),
            out@ == join_with(vv.take(i as int), sep@),
        decreases v.len() - i,
    {
        assert(vv.take(i + 1).drop_last() =~= vv.take(i as int));
        assert(vv.take(i + 1).last() == v@[i as int]@);
        if i > 0 {
            push_all(&mut out, sep);
        } else {
            assert(vv.take(1) =~= seq![vv[0]]);
        }
        push_all(&mut out, &v[i]);
        i = i + 1;
    }
    assert(vv.take(i as int) =~= vv);
    out
}

fn is_nesting_at_rule_of(p: &Vec<char>) -> (r: bool)
    ensures
        r == is_nesting_at_rule(p@),
{
    has_prefix_of(p, &chars_of("@media")) || has_prefix_of(p, &chars_of("@supports"))
        || has_prefix_of(p, &chars_of("@document")) || has_prefix_of(p, &chars_of("@layer"))
}

fn scope_css_of(s: &Vec<char>, scope: &Vec<char>) -> (r: Vec<char>)
    ensures
        r@ == scope_css_at(s@, 0, scope@),
    decreases s.len(),
{
    let mut out: Vec<char> = Vec::new();
    let mut i: usize = 0;
    while i < s.len()
        invariant
            i <= s.len(),
            out@ + scope_css_at(s@, i as int, scope@) == scope_css_at(s@, 0, scope@),
        decreases s.len() - i,
    {
        proof { lemma_find_char(s@, '{', i as int); }
        let open = match find_char_of(s, '{', i) {
            Some(o) => o,
            None => {
                let rest = slice_of(s, i, s.len());
                push_all(&mut out, &rest);
                assert(out@ =~= scope_css_at(s@, 0, scope@));
                return out;
            },
        };
        proof { lemma_block_end(s@, open + 1, 1); }
        let j = match block_end_of(s, open + 1) {
            Some(j) => j,
            None => {
                let rest = slice_of(s, i, s.len());
                push_all(&mut out, &rest);
                assert(out@ =~= scope_css_at(s@, 0, scope@));
                return out;
            },
        };
        let pre = slice_of(s, i, open);
        let prelude = trim_ws_of(&pre);
        let body = slice_of(s, open + 1, j - 1);
        let ghost before = out@;
        let at = vec!['@'];
        assert(at@ =~= seq!['@']);
        if has_prefix_of(&prelude, &at) {
            push_all(&mut out, &prelude);
            out.push('{');
            if is_nesting_at_rule_of(&prelude) {
                let inner = scope_css_of(&body, scope);
                push_all(&mut out, &inner);
                out.push('}');
                assert(out@ =~= before + (prelude@ + seq!['{'] + inner@ + seq!['}']));
            } else {
                push_all(&mut out, &body);
                out.push('}');
                assert(out@ =~= before + (prelude@ + seq!['{'] + body@ + seq!['}']));
            }
        } else {
            let parts = split_on_of(&prelude, ',');
            let sels = scoped_selectors_of(&parts, scope);
            let joined = join_with_of(&sels, &chars_of(", "));
            push_all(&mut out, &joined);
            out.push('{');
            push_all(&mut out, &body);
            out.push('}');
            assert(joined@ == join_with(scoped_selectors(split_on(prelude@, ','), scope@), ", "@));
            assert(out@ =~= before + (joined@ + seq!['{'] + body@ + seq!['}']));
        }
        assert(prelude@ == trim_ws(s@.subrange(i as int, open as int)));
        assert(body@ == s@.subrange(open + 1, j - 1));
        assert(out@ == before + scoped_rule(prelude@, body@, scope_css_at(body@, 0, scope@), scope@));
        assert(out@ + scope_css_at(s@, j as int, scope@) =~= before + scope_css_at(s@, i as int, scope@));
        i = j;
    }
    assert(out@ + Seq::<char>::empty() =~= out@);
    out
}

/// A style sheet with every rule confined to `scope`.
pub fn scope_css(css: &str, scope: &str) -> (r: String)
    ensures
        r@ == scope_css_text(css@, scope@),
{
    let s = chars_of(css);
    let sc = chars_of(scope);
    string_of(&scope_css_of(&s, &sc))
}

// ---------------------------------------------------------------- embedded style blocks

/// Position of the first case-insensitive occurrence of `w` at or after `i`, or -1.
pub open spec fn find_ci(s: Seq<char>, w: Seq<char>, i: int) -> int
    decreases s.len() - i,
{
    if i < 0 || i >= s.len() {
        -1
    } else if ci_at(s, i, w) {
        i
    } else {
        find_ci(s, w, i + 1)
    }
}

pub(crate) fn find_ci_of(s: &Vec<char>, w: &Vec<char>, i: usize) -> (r: Option<usize>)
    ensures
        match r {
            Some(p) => p as int == find_ci(s@, w@, i as int) && i <= p && ci_at(s@, p as int, w@),
            None => find_ci(s@, w@, i as int) == -1,
        },
{
    let mut k = i;
    while k < s.len()
        invariant
            i <= k,
            find_ci(s@, w@, i as int) == find_ci(s@, w@, k as int),
        decreases s.len() - k,
    {
        if ci_at_of(s, k, w) {
            return Some(k);
        }
        k = k + 1;
    }
    None
}

/// End of the match of `(?is)<style([^>]*)>(.*?)</style>` at `p`, or `p`: `<style` in any
/// case, the attributes up to the first `>`, and the text up to the first `</style>` in any
/// case after it.
pub open spec fn style_end(s: Seq<char>, p: int) -> int {
    let q = find_char(s, '>', p + 6);
    let r = find_ci(s, seq!['<', '/', 's', 't', 'y', 'l', 'e', '>'], q + 1);
    if ci_at(s, p, seq!['<', 's', 't', 'y', 'l', 'e']) && q >= 0 && r >= 0 { r + 8 } else { p }
}

/// The style block matcher.
pub open spec fn style_matcher() -> spec_fn(Seq<char>, int) -> int {
    |t: Seq<char>, i: int| style_end(t, i)
}

/// The whole text of the style block matched at `i`.
pub open spec fn style_capturer() -> spec_fn(Seq<char>, int) -> Seq<char> {
    |t: Seq<char>, i: int| t.subrange(i, style_end(t, i))
}

/// Whether `f` reads as a style block: a `>` closes its opening tag, and at least eight
/// characters follow it.
pub open spec fn is_style_block(f: Seq<char>) -> bool {
    6 <= find_char(f, '>', 6) && find_char(f, '>', 6) + 9 <= f.len()
}

/// The style blocks of a page, from left to right.
pub open spec fn style_blocks(html: Seq<char>) -> Seq<Seq<char>> {
    scan_captures(html, 0, style_matcher(), style_capturer())
}

/// A style block with its style sheet confined to `scope`: `<style`, its attributes, `>`, the
/// scoped sheet and `</style>`.
pub open spec fn scoped_style_block(full: Seq<char>, scope: Seq<char>) -> Seq<char> {
    let q = find_char(full, '>', 6);
    "<style"@ + full.subrange(6, q) + seq!['>'] + scope_css_text(full.subrange(q + 1, full.len() - 8), scope)
        + "</style>"@
}

/// `out` with the first `k` style blocks, one after the other, replaced everywhere by their
/// scoped form.
pub open spec fn replace_blocks(out: Seq<char>, blocks: Seq<Seq<char>>, k: int, scope: Seq<char>) -> Seq<char>
    decreases k,
{
    if k <= 0 || k > blocks.len() {
        out
    } else {
        let prev = replace_blocks(out, blocks, k - 1, scope);
        replace_text(prev, blocks[k - 1], scoped_style_block(blocks[k - 1], scope))
    }
}

/// A page with the style sheets of its style blocks confined to the document container.
pub open spec fn scoped_page(html: Seq<char>) -> Seq<char> {
    let blocks = style_blocks(html);
    replace_blocks(html, blocks, blocks.len() as int, ".aip-doc-content"@)
}

fn style_end_of(s: &Vec<char>, p: usize) -> (r: usize)
    requires
        p < s.len(),
    ensures
        r as int == style_end(s@, p as int),
        p <= r <= s.len(),
        r > p ==> is_style_block(s@.subrange(p as int, r as int)),
{
    let open = vec!['<', 's', 't', 'y', 'l', 'e'];
    let close = vec!['<', '/', 's', 't', 'y', 'l', 'e', '>'];
    assert(open@ =~= seq!['<', 's', 't', 'y', 'l', 'e']);
    assert(close@ =~= seq!['<', '/', 's', 't', 'y', 'l', 'e', '>']);
    if !ci_at_of(s, p, &open) {
        return p;
    }
    match find_char_of(s, '>', p + 6) {
        Some(q) => {
            match find_ci_of(s, &close, q + 1) {
                Some(r) => {
                    proof {
                        lemma_find_char(s@, '>', p + 6);
                        lemma_find_char_shift(s@, p as int, r + 8, 6);
                    }
                    r + 8
                },
                None => p,
            }
        },
        None => p,
    }
}

proof fn lemma_find_char_shift(s: Seq<char>, p: int, e: int, k: int)
    requires
        0 <= p,
        0 <= k,
        p + k <= e <= s.len(),
        p + k <= find_char(s, '>', p + k) < e,
    ensures
        find_char(s.subrange(p, e), '>', k) == find_char(s, '>', p + k) - p,
    decreases e - (p + k),
{
    let t = s.subrange(p, e);
    assert(t[k] == s[p + k]);
    if s[p + k] != '>' {
        assert(find_char(s, '>', p + k) == find_char(s, '>', p + k + 1));
        lemma_find_char(s, '>', p + k + 1);
        lemma_find_char_shift(s, p, e, k + 1);
    }
}

fn style_blocks_of(s: &Vec<char>) -> (r: Vec<Vec<char>>)
    ensures
        vec_views(r@) == style_blocks(s@),
        forall|j: int| 0 <= j < r@.len() ==> is_style_block(#[trigger] r@[j]@),
{
    let ghost m = style_matcher();
    let ghost cap = style_capturer();
    let mut out: Vec<Vec<char>> = Vec::new();
    let mut i: usize = 0;
    assert(vec_views(out@) + scan_captures(s@, 0, m, cap) =~= scan_captures(s@, 0, m, cap));
    while i < s.len()
        invariant
            i <= s.len(),
            m == style_matcher(),
            cap == style_capturer(),
            vec_views(out@) + scan_captures(s@, i as int, m, cap) == scan_captures(s@, 0, m, cap),
            forall|j: int| 0 <= j < out@.len() ==> is_style_block(#[trigger] out@[j]@),
        decreases s.len() - i,
    {
        proof { lemma_scan_captures_step(s@, i as int, m, cap); }
        let e = style_end_of(s, i);
        assert(m(s@, i as int) == e);
        if e > i {
            let ghost before = vec_views(out@);
            let c = slice_of(s, i, e);
            assert(cap(s@, i as int) == c@);
            out.push(c);
            let ghost rest = scan_captures(s@, e as int, m, cap);
            assert(vec_views(out@) =~= before.push(c@));
            assert(before.push(c@) + rest =~= before + (seq![c@] + rest));
            i = e;
        } else {
            i = i + 1;
        }
    }
    assert(vec_views(out@) + Seq::<Seq<char>>::empty() =~= vec_views(out@));
    out
}

/// A page with the style sheets of its `<style>` blocks confined to the document container
/// `.aip-doc-content`; each block found in the page is replaced wherever its text occurs.
pub fn scope_embedded_styles(html: &str) -> (r: String)
    ensures
        r@ == scoped_page(html@),
{
    let s = chars_of(html);
    let blocks = style_blocks_of(&s);
    let ghost bv = vec_views(blocks@);
    let scope = chars_of(".aip-doc-content");
    let mut out = chars_of(html);
    let mut k: usize = 0;
    while k < blocks.len()
        invariant
            k <= blocks.len(),
            bv == vec_views(blocks@),
            bv == style_blocks(html@),
            forall|j: int| 0 <= j < blocks@.len() ==> is_style_block(#[trigger] blocks@[j]@),
            scope@ == ".aip-doc-content"@,
            out@ == replace_blocks(html@, bv, k as int, scope@),
        decreases blocks.len() - k,
    {
        let full = &blocks[k];
        assert(bv[k as int] == full@);
        let rep = scoped_block_of(full, &scope);
        out = replace_text_of(&out, full, &rep);
        k = k + 1;
    }
    string_of(&out)
}

fn scoped_block_of(full: &Vec<char>, scope: &Vec<char>) -> (r: Vec<char>)
    requires
        is_style_block(full@),
    ensures
        r@ == scoped_style_block(full@, scope@),
{
    let q = match find_char_of(full, '>', 6) {
        Some(q) => q,
        None => {
            assert(false);
            0
        },
    };
    let mut v = chars_of("<style");
    let attrs = slice_of(full, 6, q);
    push_all(&mut v, &attrs);
    v.push('>');
    let css = slice_of(full, q + 1, full.len() - 8);
    let sc = scope_css_of(&css, scope);
    push_all(&mut v, &sc);
    push_str(&mut v, "</style>");
    v
}

} // verus!
