use vstd::prelude::*;

verus! {

broadcast use vstd::string::group_string_axioms;

/// The characters of `s`, in order.
pub fn chars_of(s: &str) -> (r: Vec<char>)
    ensures
        r@ == s@,
{
    let mut out: Vec<char> = Vec::new();
    for c in it: s.chars()
        invariant
            it.seq() == s@,
            out@ == it.seq().take(it.index()),
    {
        out.push(c);
    }
    out
}


/// Builds a `String` from characters (std `FromIterator<char>` for `String`).
#[verifier::external_body]
pub(crate) fn string_of(v: &Vec<char>) -> (r: String)
    ensures
        r@ == v@,
{
    v.iter().collect()
}

/// Appends the characters of `w` to `v`.
pub fn push_all(v: &mut Vec<char>, w: &Vec<char>)
    ensures
        final(v)@ == old(v)@ + w@,
{
    let mut i: usize = 0;
    while i < w.len()
        invariant
            i <= w.len(),
            v@ == old(v)@ + w@.take(i as int),
        decreases w.len() - i,
    {
        v.push(w[i]);
        i = i + 1;
        assert(w@.take(i as int) == w@.take((i - 1) as int).push(w@[i - 1]));
    }
    assert(w@.take(i as int) == w@);
}

/// Appends the characters of `s` to `v`.
pub fn push_str(v: &mut Vec<char>, s: &str)
    ensures
        final(v)@ == old(v)@ + s@,
{
    let w = chars_of(s);
    push_all(v, &w);
}

/// Whether two character sequences are equal.
pub fn same_chars(a: &Vec<char>, b: &Vec<char>) -> (r: bool)
    ensures
        r == (a@ == b@),
{
    if a.len() != b.len() {
        return false;
    }
    let mut i: usize = 0;
    while i < a.len()
        invariant
            a.len() == b.len(),
            i <= a.len(),
            forall|j: int| 0 <= j < i ==> a@[j] == b@[j],
        decreases a.len() - i,
    {
        if a[i] != b[i] {
            return false;
        }
        i = i + 1;
    }
    assert(a@ =~= b@);
    true
}

/// Whether two strings hold the same characters.
pub fn same_text(a: &str, b: &str) -> (r: bool)
    ensures
        r == (a@ == b@),
{
    let x = chars_of(a);
    let y = chars_of(b);
    same_chars(&x, &y)
}

/// The decimal digit character of `d` (`d < 10`).
pub open spec fn digit_char(d: nat) -> char {
    ((d + 48) as u32) as char
}

/// Decimal notation of `n`, without leading zeros (`"0"` for zero).
pub open spec fn decimal(n: nat) -> Seq<char>
    decreases n,
{
    if n < 10 {
        seq![digit_char(n)]
    } else {
        decimal(n / 10).push(digit_char(n % 10))
    }
}

/// Decimal notation of `n`, zero-padded on the left to at least `width` characters.
pub open spec fn decimal_padded(n: nat, width: nat) -> Seq<char> {
    let d = decimal(n);
    if d.len() >= width {
        d
    } else {
        Seq::new((width - d.len()) as nat, |i: int| '0') + d
    }
}

/// Decimal notation of a signed integer, with a leading `-` when negative.
pub open spec fn signed_decimal(i: int) -> Seq<char> {
    if i < 0 {
        seq!['-'] + decimal((-i) as nat)
    } else {
        decimal(i as nat)
    }
}

pub(crate) proof fn lemma_decimal_len(n: nat)
    ensures
        decimal(n).len() >= 1,
        n < 10 ==> decimal(n).len() == 1,
        10 <= n < 100 ==> decimal(n).len() == 2,
        100 <= n < 1000 ==> decimal(n).len() == 3,
    decreases n,
{
    if n >= 10 {
        lemma_decimal_len(n / 10);
    }
}

/// Decimal notation of `n`.
pub fn decimal_of(n: u64) -> (r: Vec<char>)
    ensures
        r@ == decimal(n as nat),
    decreases n,
{
    if n < 10 {
        let mut v: Vec<char> = Vec::new();
        let c = char_of_digit(n);
        v.push(c);
        assert(v@ =~= seq![digit_char(n as nat)]);
        v
    } else {
        let mut v = decimal_of(n / 10);
        let c = char_of_digit(n % 10);
        v.push(c);
        v
    }
}

fn char_of_digit(d: u64) -> (c: char)
    requires
        d < 10,
    ensures
        c == digit_char(d as nat),
{
    if d == 0 { '0' }
    else if d == 1 { '1' }
    else if d == 2 { '2' }
    else if d == 3 { '3' }
    else if d == 4 { '4' }
    else if d == 5 { '5' }
    else if d == 6 { '6' }
    else if d == 7 { '7' }
    else if d == 8 { '8' }
    else { '9' }
}

/// Decimal notation of `n`, zero-padded on the left to at least `width` characters.
pub fn decimal_padded_of(n: u64, width: usize) -> (r: Vec<char>)
    ensures
        r@ == decimal_padded(n as nat, width as nat),
{
    let d = decimal_of(n);
    proof { lemma_decimal_len(n as nat); }
    if d.len() >= width {
        d
    } else {
        let mut v: Vec<char> = Vec::new();
        let k = width - d.len();
        let mut i: usize = 0;
        while i < k
            invariant
                i <= k,
                v@ == Seq::new(i as nat, |j: int| '0'),
            decreases k - i,
        {
            v.push('0');
            i = i + 1;
            assert(v@ =~= Seq::new(i as nat, |j: int| '0'));
        }
        push_all(&mut v, &d);
        v
    }
}

/// Signed decimal notation of `i`.
pub fn signed_decimal_of(i: i64) -> (r: Vec<char>)
    ensures
        r@ == signed_decimal(i as int),
{
    if i < 0 {
        let m: u64 = if i == i64::MIN { 9223372036854775808u64 } else { (-i) as u64 };
        let mut v: Vec<char> = Vec::new();
        v.push('-');
        let d = decimal_of(m);
        push_all(&mut v, &d);
        assert(v@ =~= seq!['-'] + decimal((-(i as int)) as nat));
        v
    } else {
        decimal_of(i as u64)
    }
}


/// Whether `s` begins with `p`.
pub open spec fn has_prefix(s: Seq<char>, p: Seq<char>) -> bool {
    p.len() <= s.len() && s.take(p.len() as int) == p
}

/// Whether `s` ends with `p`.
pub open spec fn has_suffix(s: Seq<char>, p: Seq<char>) -> bool {
    p.len() <= s.len() && s.skip(s.len() - p.len()) == p
}

/// Whether `w` occurs in `s` starting at position `i`.
pub open spec fn occurs_at(s: Seq<char>, w: Seq<char>, i: int) -> bool {
    0 <= i && i + w.len() <= s.len() && s.subrange(i, i + w.len() as int) == w
}

/// Whether `w` occurs in `s`.
pub open spec fn contains_text(s: Seq<char>, w: Seq<char>) -> bool {
    exists|i: int| occurs_at(s, w, i)
}

/// `s` without the occurrences of `c` at its start.
pub open spec fn trim_start_char(s: Seq<char>, c: char) -> Seq<char>
    decreases s.len(),
{
    if s.len() > 0 && s[0] == c {
        trim_start_char(s.drop_first(), c)
    } else {
        s
    }
}

/// `s` without the occurrences of `c` at its end.
pub open spec fn trim_end_char(s: Seq<char>, c: char) -> Seq<char>
    decreases s.len(),
{
    if s.len() > 0 && s.last() == c {
        trim_end_char(s.drop_last(), c)
    } else {
        s
    }
}

/// Whether `w` occurs in `s` starting at position `i`.
pub fn occurs_at_of(s: &Vec<char>, w: &Vec<char>, i: usize) -> (r: bool)
    ensures
        r == occurs_at(s@, w@, i as int),
{
    if i > s.len() || w.len() > s.len() - i {
        return false;
    }
    let mut k: usize = 0;
    while k < w.len()
        invariant
            i + w.len() <= s.len(),
            k <= w.len(),
            forall|j: int| 0 <= j < k ==> s@[i + j] == w@[j],
        decreases w.len() - k,
    {
        if s[i + k] != w[k] {
            assert(s@.subrange(i as int, i + w.len() as int)[k as int] != w@[k as int]);
            return false;
        }
        k = k + 1;
    }
    assert(s@.subrange(i as int, i + w.len() as int) =~= w@);
    true
}

/// Whether `s` begins with `p`.
pub fn has_prefix_of(s: &Vec<char>, p: &Vec<char>) -> (r: bool)
    ensures
        r == has_prefix(s@, p@),
{
    let r = occurs_at_of(s, p, 0);
    assert(s@.subrange(0, p@.len() as int) =~= s@.take(p@.len() as int));
    r
}

/// Whether `s` ends with `p`.
pub fn has_suffix_of(s: &Vec<char>, p: &Vec<char>) -> (r: bool)
    ensures
        r == has_suffix(s@, p@),
{
    if p.len() > s.len() {
        return false;
    }
    let r = occurs_at_of(s, p, s.len() - p.len());
    assert(s@.subrange(s@.len() - p@.len(), s@.len() as int) =~= s@.skip(s@.len() - p@.len()));
    r
}

/// Whether `w` occurs in `s`.
pub fn contains_of(s: &Vec<char>, w: &Vec<char>) -> (r: bool)
    ensures
        r == contains_text(s@, w@),
{
    if w.len() > s.len() {
        return false;
    }
    if w.len() == 0 {
        assert(s@.subrange(0, 0) =~= w@);
        assert(occurs_at(s@, w@, 0));
        return true;
    }
    let last = s.len() - w.len();
    let mut i: usize = 0;
    while i <= last
        invariant
            last == s.len() - w.len(),
            w.len() > 0,
            i <= last + 1,
            forall|j: int| 0 <= j < i ==> !occurs_at(s@, w@, j),
        decreases last + 1 - i,
    {
        if occurs_at_of(s, w, i) {
            return true;
        }
        i = i + 1;
    }
    false
}

/// `s` without the occurrences of `c` at its start.
pub fn trim_start_char_of(s: &Vec<char>, c: char) -> (r: Vec<char>)
    ensures
        r@ == trim_start_char(s@, c),
{
    let mut i: usize = 0;
    assert(s@.skip(0) =~= s@);
    while i < s.len() && s[i] == c
        invariant
            i <= s.len(),
            trim_start_char(s@, c) == trim_start_char(s@.skip(i as int), c),
        decreases s.len() - i,
    {
        assert(s@.skip(i as int).drop_first() =~= s@.skip(i + 1));
        i = i + 1;
    }
    let mut out: Vec<char> = Vec::new();
    let mut k: usize = i;
    while k < s.len()
        invariant
            i <= k <= s.len(),
            out@ == s@.subrange(i as int, k as int),
        decreases s.len() - k,
    {
        out.push(s[k]);
        k = k + 1;
        assert(out@ =~= s@.subrange(i as int, k as int));
    }
    assert(out@ =~= s@.skip(i as int));
    out
}

/// `s` without the occurrences of `c` at its end.
pub fn trim_end_char_of(s: &Vec<char>, c: char) -> (r: Vec<char>)
    ensures
        r@ == trim_end_char(s@, c),
{
    let mut n: usize = s.len();
    assert(s@.take(n as int) =~= s@);
    while n > 0 && s[n - 1] == c
        invariant
            n <= s.len(),
            trim_end_char(s@, c) == trim_end_char(s@.take(n as int), c),
        decreases n,
    {
        assert(s@.take(n as int).drop_last() =~= s@.take(n - 1));
        n = n - 1;
    }
    let mut out: Vec<char> = Vec::new();
    let mut k: usize = 0;
    while k < n
        invariant
            k <= n <= s.len(),
            out@ == s@.take(k as int),
        decreases n - k,
    {
        out.push(s[k]);
        k = k + 1;
        assert(out@ =~= s@.take(k as int));
    }
    out
}

/// A copy of a list of strings.
pub fn clone_strings(v: &Vec<String>) -> (r: Vec<String>)
    ensures
        r@ == v@,
{
    let r = v.clone();
    assert(r@ =~= v@);
    r
}

/// A copy of an optional string.
pub fn clone_opt_string(v: &Option<String>) -> (r: Option<String>)
    ensures
        r == *v,
{
    match v {
        Some(s) => Some(s.clone()),
        None => None,
    }
}

/// Views of a list of strings.
pub open spec fn strings_view(v: Seq<String>) -> Seq<Seq<char>> {
    v.map_values(|s: String| s@)
}

/// Views of a list of character vectors.
pub open spec fn vec_views(v: Seq<Vec<char>>) -> Seq<Seq<char>> {
    v.map_values(|w: Vec<char>| w@)
}

/// View of an optional string.
pub open spec fn opt_string_view(v: Option<String>) -> Option<Seq<char>> {
    match v {
        Some(s) => Some(s@),
        None => None,
    }
}


/// The upper-case form of a string (Unicode upper-case mapping, as `str::to_uppercase`).
pub uninterp spec fn uppercase(s: Seq<char>) -> Seq<char>;

/// The lower-case form of a string (Unicode lower-case mapping, as `str::to_lowercase`).
pub uninterp spec fn lowercase(s: Seq<char>) -> Seq<char>;

/// Upper-case form of `s` (`str::to_uppercase`). The mapping is Unicode's, so the claim
/// names the result and does not spell it out.
#[verifier::external_body]
pub(crate) fn to_uppercase_of(s: &str) -> (r: String)
    ensures
        r@ == uppercase(s@),
{
    s.to_uppercase()
}

/// Lower-case form of `s` (`str::to_lowercase`). The mapping is Unicode's, so the claim
/// names the result and does not spell it out.
#[verifier::external_body]
pub(crate) fn to_lowercase_of(s: &str) -> (r: String)
    ensures
        r@ == lowercase(s@),
{
    s.to_lowercase()
}

/// `s` without the repeated occurrences of `w` at its end (`str::trim_end_matches`).
pub open spec fn trim_end_text(s: Seq<char>, w: Seq<char>) -> Seq<char>
    decreases s.len(),
{
    if w.len() > 0 && has_suffix(s, w) {
        trim_end_text(s.take(s.len() - w.len()), w)
    } else {
        s
    }
}

/// `s` without the repeated occurrences of `w` at its start (`str::trim_start_matches`).
pub open spec fn trim_start_text(s: Seq<char>, w: Seq<char>) -> Seq<char>
    decreases s.len(),
{
    if w.len() > 0 && has_prefix(s, w) {
        trim_start_text(s.skip(w.len() as int), w)
    } else {
        s
    }
}

/// `s` without the repeated occurrences of `w` at its end.
pub fn trim_end_text_of(s: &Vec<char>, w: &Vec<char>) -> (r: Vec<char>)
    ensures
        r@ == trim_end_text(s@, w@),
{
    let mut n: usize = s.len();
    assert(s@.take(n as int) =~= s@);
    loop
        invariant
            n <= s.len(),
            trim_end_text(s@, w@) == trim_end_text(s@.take(n as int), w@),
        decreases n,
    {
        let cur = crate::pattern::slice_of(s, 0, n);
        assert(cur@ =~= s@.take(n as int));
        if w.len() > 0 && has_suffix_of(&cur, w) {
            assert(s@.take(n as int).take(n - w.len()) =~= s@.take(n - w.len()));
            n = n - w.len();
        } else {
            return cur;
        }
    }
}

/// `s` without the repeated occurrences of `w` at its start.
pub fn trim_start_text_of(s: &Vec<char>, w: &Vec<char>) -> (r: Vec<char>)
    ensures
        r@ == trim_start_text(s@, w@),
{
    let mut k: usize = 0;
    assert(s@.skip(0) =~= s@);
    loop
        invariant
            k <= s.len(),
            trim_start_text(s@, w@) == trim_start_text(s@.skip(k as int), w@),
        decreases s.len() - k,
    {
        let cur = crate::pattern::slice_of(s, k, s.len());
        assert(cur@ =~= s@.skip(k as int));
        if w.len() > 0 && has_prefix_of(&cur, w) {
            assert(s@.skip(k as int).skip(w.len() as int) =~= s@.skip(k + w.len()));
            k = k + w.len();
        } else {
            return cur;
        }
    }
}

/// Whether `c` is white space (`char::is_whitespace`: the Unicode `White_Space` characters).
pub open spec fn is_white_space(c: char) -> bool {
    ('\u{9}' <= c <= '\u{d}') || c == ' ' || c == '\u{85}' || c == '\u{a0}' || c == '\u{1680}'
        || ('\u{2000}' <= c <= '\u{200a}') || c == '\u{2028}' || c == '\u{2029}' || c == '\u{202f}'
        || c == '\u{205f}' || c == '\u{3000}'
}

/// Whether `c` is white space.
pub fn is_white_space_of(c: char) -> (r: bool)
    ensures
        r == is_white_space(c),
{
    ('\u{9}' <= c && c <= '\u{d}') || c == ' ' || c == '\u{85}' || c == '\u{a0}' || c == '\u{1680}'
        || ('\u{2000}' <= c && c <= '\u{200a}') || c == '\u{2028}' || c == '\u{2029}' || c == '\u{202f}'
        || c == '\u{205f}' || c == '\u{3000}'
}

/// Number of white-space characters at the start of `s`.
pub open spec fn leading_ws(s: Seq<char>) -> int
    decreases s.len(),
{
    if s.len() > 0 && is_white_space(s[0]) { 1 + leading_ws(s.drop_first()) } else { 0 }
}

/// Number of white-space characters at the end of `s`.
pub open spec fn trailing_ws(s: Seq<char>) -> int
    decreases s.len(),
{
    if s.len() > 0 && is_white_space(s.last()) { 1 + trailing_ws(s.drop_last()) } else { 0 }
}

/// `s` without white space at either end (`str::trim`).
pub open spec fn trim_ws(s: Seq<char>) -> Seq<char> {
    if leading_ws(s) == s.len() {
        Seq::empty()
    } else {
        s.subrange(leading_ws(s), s.len() - trailing_ws(s))
    }
}

proof fn lemma_leading_ws(s: Seq<char>, i: int)
    requires
        0 <= i <= s.len(),
        forall|j: int| 0 <= j < i ==> is_white_space(#[trigger] s[j]),
        i == s.len() || !is_white_space(s[i]),
    ensures
        leading_ws(s) == i,
    decreases i,
{
    if i > 0 {
        lemma_leading_ws(s.drop_first(), i - 1);
    }
}

proof fn lemma_trailing_ws(s: Seq<char>, n: int)
    requires
        0 <= n <= s.len(),
        forall|j: int| n <= j < s.len() ==> is_white_space(#[trigger] s[j]),
        n == 0 || !is_white_space(s[n - 1]),
    ensures
        trailing_ws(s) == s.len() - n,
    decreases s.len() - n,
{
    if n < s.len() {
        lemma_trailing_ws(s.drop_last(), n);
    }
}

/// `s` without white space at either end.
pub fn trim_ws_of(s: &Vec<char>) -> (r: Vec<char>)
    ensures
        r@ == trim_ws(s@),
{
    let mut i: usize = 0;
    while i < s.len() && is_white_space_of(s[i])
        invariant
            i <= s.len(),
            forall|j: int| 0 <= j < i ==> is_white_space(#[trigger] s@[j]),
        decreases s.len() - i,
    {
        i = i + 1;
    }
    proof { lemma_leading_ws(s@, i as int); }
    if i == s.len() {
        return Vec::new();
    }
    let mut n: usize = s.len();
    while n > i && is_white_space_of(s[n - 1])
        invariant
            i < s.len(),
            i <= n <= s.len(),
            forall|j: int| n <= j < s.len() ==> is_white_space(#[trigger] s@[j]),
        decreases n,
    {
        n = n - 1;
    }
    proof {
        assert(!is_white_space(s@[i as int]));
        lemma_trailing_ws(s@, n as int);
    }
    crate::pattern::slice_of(s, i, n)
}

/// Whether the list holds the string `x`.
pub fn contains_string(v: &Vec<String>, x: &str) -> (r: bool)
    ensures
        r == strings_view(v@).contains(x@),
{
    let ghost sv = strings_view(v@);
    let mut i: usize = 0;
    while i < v.len()
        invariant
            i <= v.len(),
            sv == strings_view(v@),
            forall|j: int| 0 <= j < i ==> sv[j] != x@,
        decreases v.len() - i,
    {
        if crate::text::same_text(v[i].as_str(), x) {
            assert(sv[i as int] == x@);
            return true;
        }
        i = i + 1;
    }
    false
}

/// The characters of `v` from position `n` on.
pub fn drop_chars(v: &Vec<char>, n: usize) -> (r: Vec<char>)
    requires
        n <= v.len(),
    ensures
        r@ == v@.skip(n as int),
{
    let mut out: Vec<char> = Vec::new();
    let mut i: usize = n;
    while i < v.len()
        invariant
            n <= i <= v.len(),
            out@ == v@.subrange(n as int, i as int),
        decreases v.len() - i,
    {
        out.push(v[i]);
        i = i + 1;
        assert(out@ =~= v@.subrange(n as int, i as int));
    }
    assert(v@.subrange(n as int, i as int) =~= v@.skip(n as int));
    out
}

} // verus!
