//! Character classes and scanning used by the chart file name grammar.
use vstd::prelude::*;

verus! {

/// Whether a non-ASCII character is a Unicode decimal digit (general category `Nd`).
pub uninterp spec fn unicode_decimal_digit(c: char) -> bool;

/// Whether a non-ASCII character is a Unicode word character (`Alphabetic`, `M`, `Nd`, `Pc`
/// or `Join_Control`).
pub uninterp spec fn unicode_word_char(c: char) -> bool;

/// Whether a character is ASCII.
pub open spec fn is_ascii_char(c: char) -> bool {
    (c as u32) < 128
}

/// The `\d` class of the `regex` crate: ASCII digits and the other Unicode `Nd` digits.
pub open spec fn re_digit(c: char) -> bool {
    if is_ascii_char(c) { '0' <= c <= '9' } else { unicode_decimal_digit(c) }
}

/// The `\w` class of the `regex` crate: ASCII letters, digits and `_`, and the other Unicode
/// word characters.
pub open spec fn re_word(c: char) -> bool {
    if is_ascii_char(c) {
        ('0' <= c <= '9') || ('A' <= c <= 'Z') || ('a' <= c <= 'z') || c == '_'
    } else {
        unicode_word_char(c)
    }
}

/// Whether `c` is a non-ASCII `\d` character of the `regex` crate (`regex::Regex` on `^\d$`).
/// The claim names the answer; for ASCII characters the library decides without this call.
#[verifier::external_body]
fn unicode_decimal_digit_of(c: char) -> (r: bool)
    ensures
        r == unicode_decimal_digit(c),
{
    let mut buf = [0u8; 4];
    regex::Regex::new(r"^\d$").unwrap().is_match(c.encode_utf8(&mut buf))
}

/// Whether `c` is a non-ASCII `\w` character of the `regex` crate (`regex::Regex` on `^\w$`).
/// The claim names the answer; for ASCII characters the library decides without this call.
#[verifier::external_body]
fn unicode_word_char_of(c: char) -> (r: bool)
    ensures
        r == unicode_word_char(c),
{
    let mut buf = [0u8; 4];
    regex::Regex::new(r"^\w$").unwrap().is_match(c.encode_utf8(&mut buf))
}

/// Whether `c` is in the `\d` class.
pub fn is_re_digit(c: char) -> (r: bool)
    ensures
        r == re_digit(c),
{
    if (c as u32) < 128 {
        '0' <= c && c <= '9'
    } else {
        unicode_decimal_digit_of(c)
    }
}

/// Whether `c` is in the `\w` class.
pub fn is_re_word(c: char) -> (r: bool)
    ensures
        r == re_word(c),
{
    if (c as u32) < 128 {
        ('0' <= c && c <= '9') || ('A' <= c && c <= 'Z') || ('a' <= c && c <= 'z') || c == '_'
    } else {
        unicode_word_char_of(c)
    }
}

/// Whether `c` matches pattern character `p` case-insensitively, as the `regex` crate's
/// simple case folding does: an ASCII letter matches both its cases, `S` also matches `ſ`
/// and `K` also matches the Kelvin sign; other characters match only themselves.
pub open spec fn ci_char(c: char, p: char) -> bool {
    if 'A' <= p <= 'Z' {
        c == p || (c as u32) == (p as u32) + 32 || (p == 'S' && c == '\u{17f}') || (p == 'K'
            && c == '\u{212a}')
    } else if 'a' <= p <= 'z' {
        c == p || (c as u32) + 32 == (p as u32) || (p == 's' && c == '\u{17f}') || (p == 'k'
            && c == '\u{212a}')
    } else {
        c == p
    }
}

/// Whether `w` occurs case-insensitively in `s` at position `i`.
pub open spec fn ci_at(s: Seq<char>, i: int, w: Seq<char>) -> bool {
    0 <= i && i + w.len() <= s.len() && forall|k: int| 0 <= k < w.len() ==> ci_char(#[trigger] s[i + k], w[k])
}

/// Whether `w` occurs exactly in `s` at position `i`.
pub open spec fn exact_at(s: Seq<char>, i: int, w: Seq<char>) -> bool {
    0 <= i && i + w.len() <= s.len() && forall|k: int| 0 <= k < w.len() ==> #[trigger] s[i + k] == w[k]
}

/// Whether `c` matches pattern character `p` case-insensitively.
pub fn ci_char_of(c: char, p: char) -> (r: bool)
    ensures
        r == ci_char(c, p),
{
    if 'A' <= p && p <= 'Z' {
        c == p || (c as u32) == (p as u32) + 32 || (p == 'S' && c == '\u{17f}') || (p == 'K'
            && c == '\u{212a}')
    } else if 'a' <= p && p <= 'z' {
        c == p || (c as u32) + 32 == (p as u32) || (p == 's' && c == '\u{17f}') || (p == 'k'
            && c == '\u{212a}')
    } else {
        c == p
    }
}

/// Whether `w` occurs case-insensitively in `s` at position `i`.
pub fn ci_at_of(s: &Vec<char>, i: usize, w: &Vec<char>) -> (r: bool)
    ensures
        r == ci_at(s@, i as int, w@),
{
    if i > s.len() || w.len() > s.len() - i {
        return false;
    }
    let mut k: usize = 0;
    while k < w.len()
        invariant
            i + w.len() <= s.len(),
            k <= w.len(),
            forall|j: int| 0 <= j < k ==> ci_char(#[trigger] s@[i + j], w@[j]),
        decreases w.len() - k,
    {
        if !ci_char_of(s[i + k], w[k]) {
            return false;
        }
        k = k + 1;
    }
    true
}

/// Whether `w` occurs exactly in `s` at position `i`.
pub fn exact_at_of(s: &Vec<char>, i: usize, w: &Vec<char>) -> (r: bool)
    ensures
        r == exact_at(s@, i as int, w@),
{
    if i > s.len() || w.len() > s.len() - i {
        return false;
    }
    let mut k: usize = 0;
    while k < w.len()
        invariant
            i + w.len() <= s.len(),
            k <= w.len(),
            forall|j: int| 0 <= j < k ==> #[trigger] s@[i + j] == w@[j],
        decreases w.len() - k,
    {
        if s[i + k] != w[k] {
            return false;
        }
        k = k + 1;
    }
    true
}

/// Whether `s` holds no line feed between positions `a` and `b` (the `.` class of the
/// `regex` crate matches any character but a line feed).
pub open spec fn no_newline(s: Seq<char>, a: int, b: int) -> bool {
    forall|k: int| a <= k < b ==> #[trigger] s[k] != '\n'
}

/// Whether `s` holds no line feed between positions `a` and `b`.
pub fn no_newline_of(s: &Vec<char>, a: usize, b: usize) -> (r: bool)
    requires
        a <= b <= s.len(),
    ensures
        r == no_newline(s@, a as int, b as int),
{
    let mut k = a;
    while k < b
        invariant
            a <= k <= b <= s.len(),
            forall|j: int| a <= j < k ==> #[trigger] s@[j] != '\n',
        decreases b - k,
    {
        if s[k] == '\n' {
            return false;
        }
        k = k + 1;
    }
    true
}

/// The characters of `s` from `a` to `b`.
pub fn slice_of(s: &Vec<char>, a: usize, b: usize) -> (r: Vec<char>)
    requires
        a <= b <= s.len(),
    ensures
        r@ == s@.subrange(a as int, b as int),
{
    let mut out: Vec<char> = Vec::new();
    let mut k = a;
    while k < b
        invariant
            a <= k <= b <= s.len(),
            out@ == s@.subrange(a as int, k as int),
        decreases b - k,
    {
        out.push(s[k]);
        k = k + 1;
        assert(out@ =~= s@.subrange(a as int, k as int));
    }
    out
}

/// `s` with every match replaced by `rep`, scanning from position `i`: at each position,
/// `m(s, p)` is the end of the match starting at `p`, or a value not after `p` when none
/// starts there; after a match the scan resumes at its end.
pub open spec fn scan_replace(s: Seq<char>, i: int, m: spec_fn(Seq<char>, int) -> int, rep: Seq<char>) -> Seq<char>
    decreases s.len() - i,
{
    if i < 0 || i >= s.len() {
        Seq::empty()
    } else {
        let e = m(s, i);
        if i < e <= s.len() {
            rep + scan_replace(s, e, m, rep)
        } else {
            seq![s[i]] + scan_replace(s, i + 1, m, rep)
        }
    }
}

/// The captures of every match, scanning from position `i` as [`scan_replace`] does: `m`
/// gives the end of a match and `cap` its captured text.
pub open spec fn scan_captures(
    s: Seq<char>,
    i: int,
    m: spec_fn(Seq<char>, int) -> int,
    cap: spec_fn(Seq<char>, int) -> Seq<char>,
) -> Seq<Seq<char>>
    decreases s.len() - i,
{
    if i < 0 || i >= s.len() {
        Seq::empty()
    } else {
        let e = m(s, i);
        if i < e <= s.len() {
            seq![cap(s, i)] + scan_captures(s, e, m, cap)
        } else {
            scan_captures(s, i + 1, m, cap)
        }
    }
}

/// `s` with its first match, scanning from position `i`, replaced by `rep`; `s` itself when
/// there is none.
pub open spec fn replace_first(s: Seq<char>, i: int, m: spec_fn(Seq<char>, int) -> int, rep: Seq<char>) -> Seq<char>
    decreases s.len() - i,
{
    if i < 0 || i >= s.len() {
        s
    } else if i < m(s, i) <= s.len() {
        s.take(i) + rep + s.skip(m(s, i))
    } else {
        replace_first(s, i + 1, m, rep)
    }
}

/// `s` split at every occurrence of `c`, scanning from `i` with the current piece starting
/// at `start`.
pub open spec fn split_from(s: Seq<char>, c: char, start: int, i: int) -> Seq<Seq<char>>
    decreases s.len() - i,
{
    if i >= s.len() {
        seq![s.subrange(start, s.len() as int)]
    } else if s[i] == c {
        seq![s.subrange(start, i)] + split_from(s, c, i + 1, i + 1)
    } else {
        split_from(s, c, start, i + 1)
    }
}

/// The pieces of `s` between occurrences of `c` (`str::split` with a character).
pub open spec fn split_on(s: Seq<char>, c: char) -> Seq<Seq<char>> {
    split_from(s, c, 0, 0)
}

/// The pieces of `s` between occurrences of `c`.
pub fn split_on_of(s: &Vec<char>, c: char) -> (r: Vec<Vec<char>>)
    ensures
        crate::text::vec_views(r@) == split_on(s@, c),
{
    let mut out: Vec<Vec<char>> = Vec::new();
    let mut start: usize = 0;
    let mut i: usize = 0;
    assert(crate::text::vec_views(out@) + split_from(s@, c, 0, 0) =~= split_from(s@, c, 0, 0));
    while i < s.len()
        invariant
            start <= i <= s.len(),
            crate::text::vec_views(out@) + split_from(s@, c, start as int, i as int)
                == split_from(s@, c, 0, 0),
        decreases s.len() - i,
    {
        if s[i] == c {
            let ghost before = crate::text::vec_views(out@);
            let piece = slice_of(s, start, i);
            out.push(piece);
            assert(crate::text::vec_views(out@) =~= before.push(piece@));
            assert(split_from(s@, c, start as int, i as int) == seq![piece@] + split_from(s@, c, i + 1, i + 1));
            assert(before.push(piece@) + split_from(s@, c, i + 1, i + 1) =~= before + (seq![piece@] + split_from(s@, c, i + 1, i + 1)));
            start = i + 1;
        }
        i = i + 1;
    }
    let ghost before = crate::text::vec_views(out@);
    let piece = slice_of(s, start, s.len());
    out.push(piece);
    assert(crate::text::vec_views(out@) =~= before.push(piece@));
    assert(split_from(s@, c, start as int, i as int) == seq![piece@]);
    assert(before.push(piece@) =~= before + seq![piece@]);
    out
}

/// End of the occurrence of `w` starting at `i`, or `i` when there is none.
pub open spec fn literal_end(w: Seq<char>) -> spec_fn(Seq<char>, int) -> int {
    |s: Seq<char>, i: int| if w.len() > 0 && exact_at(s, i, w) { i + w.len() } else { i }
}

/// `s` with every non-overlapping occurrence of `w`, from left to right, replaced by `rep`
/// (`str::replace`); `s` itself when `w` is empty and `rep` is empty.
pub open spec fn replace_text(s: Seq<char>, w: Seq<char>, rep: Seq<char>) -> Seq<char> {
    scan_replace(s, 0, literal_end(w), rep)
}

/// One step of [`scan_replace`].
pub proof fn lemma_scan_replace_step(s: Seq<char>, i: int, m: spec_fn(Seq<char>, int) -> int, rep: Seq<char>)
    requires
        0 <= i < s.len(),
    ensures
        ({
            let e = m(s, i);
            scan_replace(s, i, m, rep) == if i < e <= s.len() {
                rep + scan_replace(s, e, m, rep)
            } else {
                seq![s[i]] + scan_replace(s, i + 1, m, rep)
            }
        }),
{
}

/// `s` with every occurrence of the non-empty literal `w` replaced by `rep`.
pub fn replace_text_of(s: &Vec<char>, w: &Vec<char>, rep: &Vec<char>) -> (r: Vec<char>)
    ensures
        r@ == replace_text(s@, w@, rep@),
{
    let ghost m = literal_end(w@);
    let mut out: Vec<char> = Vec::new();
    let mut i: usize = 0;
    while i < s.len()
        invariant
            i <= s.len(),
            m == literal_end(w@),
            out@ + scan_replace(s@, i as int, m, rep@) == scan_replace(s@, 0, m, rep@),
        decreases s.len() - i,
    {
        proof { lemma_scan_replace_step(s@, i as int, m, rep@); }
        if w.len() > 0 && exact_at_of(s, i, w) {
            crate::text::push_all(&mut out, rep);
            assert(out@ + scan_replace(s@, (i + w.len()) as int, m, rep@) =~= scan_replace(s@, 0, m, rep@));
            i = i + w.len();
        } else {
            out.push(s[i]);
            assert(out@ + scan_replace(s@, i + 1, m, rep@) =~= scan_replace(s@, 0, m, rep@));
            i = i + 1;
        }
    }
    assert(scan_replace(s@, i as int, m, rep@) =~= Seq::<char>::empty());
    assert(out@ + Seq::<char>::empty() =~= out@);
    out
}

/// `s` with the first occurrence of the non-empty literal `w` replaced by `rep`
/// (`str::replacen` with a count of one); `s` itself when there is none.
pub fn replace_first_text_of(s: &Vec<char>, w: &Vec<char>, rep: &Vec<char>) -> (r: Vec<char>)
    ensures
        r@ == replace_first(s@, 0, literal_end(w@), rep@),
{
    let ghost m = literal_end(w@);
    let mut i: usize = 0;
    while i < s.len()
        invariant
            i <= s.len(),
            m == literal_end(w@),
            replace_first(s@, 0, m, rep@) == replace_first(s@, i as int, m, rep@),
        decreases s.len() - i,
    {
        if w.len() > 0 && exact_at_of(s, i, w) {
            assert(m(s@, i as int) == i + w.len());
            let mut out = slice_of(s, 0, i);
            crate::text::push_all(&mut out, rep);
            let tail = slice_of(s, i + w.len(), s.len());
            crate::text::push_all(&mut out, &tail);
            assert(out@ =~= s@.take(i as int) + rep@ + s@.skip(i + w.len()));
            return out;
        }
        assert(m(s@, i as int) == i);
        i = i + 1;
    }
    let mut out: Vec<char> = Vec::new();
    crate::text::push_all(&mut out, s);
    assert(out@ =~= s@);
    out
}

} // verus!
