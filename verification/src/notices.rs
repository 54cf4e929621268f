//! NOTAMs of a SOFIA briefing answer: the NOTAM objects found anywhere in the JSON answer,
//! one per identifier, newest validity first.
use vstd::prelude::*;
use crate::models::{Notice, NoticeSource};
use crate::order::{lemma_lex_irreflexive, lemma_lex_total, lemma_lex_transitive, lex_lt, lex_lt_of};
use crate::text::{chars_of, opt_string_view, push_str, same_text, string_of, to_uppercase_of, uppercase};

verus! {

broadcast use vstd::string::group_string_axioms;

// ---------------------------------------------------------------- JSON values

/// A JSON value as the briefing answer holds it. An object keeps its members in the order
/// in which the answer was read (by key, as `serde_json` keeps them); a number keeps its text.
#[derive(Debug)]
pub enum JsonValue {
    Null,
    Bool(bool),
    Number(String),
    Text(String),
    Array(Vec<JsonValue>),
    Object(Vec<(String, JsonValue)>),
}

/// The value of the first member named `key`.
pub open spec fn member(entries: Seq<(String, JsonValue)>, key: Seq<char>) -> Option<JsonValue>
    decreases entries.len(),
{
    if entries.len() == 0 {
        None
    } else if entries[0].0@ == key {
        Some(entries[0].1)
    } else {
        member(entries.drop_first(), key)
    }
}

/// The string a value holds, if it is a string.
pub open spec fn text_of(v: Option<JsonValue>) -> Option<Seq<char>> {
    match v {
        Some(JsonValue::Text(s)) => Some(s@),
        _ => None,
    }
}

/// The string a value holds, or `d` when it holds none.
pub open spec fn text_or(v: Option<JsonValue>, d: Seq<char>) -> Seq<char> {
    match text_of(v) {
        Some(s) => s,
        None => d,
    }
}

/// The value of member `key` of an object value; `None` for other values.
pub open spec fn object_member(v: Option<JsonValue>, key: Seq<char>) -> Option<JsonValue> {
    match v {
        Some(JsonValue::Object(es)) => member(es@, key),
        _ => None,
    }
}

fn member_of<'a>(entries: &'a Vec<(String, JsonValue)>, key: &str) -> (r: Option<&'a JsonValue>)
    ensures
        match r {
            Some(v) => member(entries@, key@) == Some(*v),
            None => member(entries@, key@) is None,
        },
{
    let mut i: usize = 0;
    assert(entries@.skip(0) =~= entries@);
    while i < entries.len()
        invariant
            i <= entries.len(),
            member(entries@, key@) == member(entries@.skip(i as int), key@),
        decreases entries.len() - i,
    {
        assert(entries@.skip(i as int)[0] == entries@[i as int]);
        if same_text(entries[i].0.as_str(), key) {
            return Some(&entries[i].1);
        }
        assert(entries@.skip(i as int).drop_first() =~= entries@.skip(i + 1));
        i = i + 1;
    }
    None
}

fn text_of_value(v: Option<&JsonValue>) -> (r: Option<String>)
    ensures
        opt_string_view(r) == text_of(match v { Some(x) => Some(*x), None => None }),
{
    match v {
        Some(JsonValue::Text(s)) => Some(s.clone()),
        _ => None,
    }
}

// ---------------------------------------------------------------- NOTAM objects

/// The contents of a notice, as values.
pub struct NoticeView {
    pub id: Seq<char>,
    pub icao: Seq<char>,
    pub source: NoticeSource,
    pub identifier: Seq<char>,
    pub notice_type: Seq<char>,
    pub valid_from: Option<Seq<char>>,
    pub valid_to: Option<Seq<char>>,
    pub content: Seq<char>,
    pub category: Option<Seq<char>>,
}

impl View for Notice {
    type V = NoticeView;

    open spec fn view(&self) -> NoticeView {
        NoticeView {
            id: self.id@,
            icao: self.icao@,
            source: self.source,
            identifier: self.identifier@,
            notice_type: self.notice_type@,
            valid_from: opt_string_view(self.valid_from),
            valid_to: opt_string_view(self.valid_to),
            content: self.content@,
            category: opt_string_view(self.category),
        }
    }
}

/// Views of a list of notices.
pub open spec fn notices_view(v: Seq<Notice>) -> Seq<NoticeView> {
    v.map_values(|n: Notice| n@)
}

/// The notice an object describes: an object with members `id` and `itemE` whose `id` is a
/// non-empty string. Its identifier is `<serie><number>/<year>` when it has a series, else
/// its id; its type defaults to `NOTAM`; its category is `qLine.code23`.
pub open spec fn notice_of(es: Seq<(String, JsonValue)>, icao: Seq<char>) -> Option<NoticeView> {
    let id = text_or(member(es, "id"@), Seq::empty());
    let serie = text_or(member(es, "serie"@), Seq::empty());
    if member(es, "id"@) is Some && member(es, "itemE"@) is Some && id.len() > 0 {
        Some(NoticeView {
            id,
            icao: uppercase(icao),
            source: NoticeSource::Sofia,
            identifier: if serie.len() > 0 {
                serie + text_or(member(es, "number"@), Seq::empty()) + seq!['/'] + text_or(
                    member(es, "year"@),
                    Seq::empty(),
                )
            } else {
                id
            },
            notice_type: text_or(member(es, "type"@), "NOTAM"@),
            valid_from: text_of(member(es, "startValidity"@)),
            valid_to: text_of(member(es, "endValidity"@)),
            content: text_or(member(es, "itemE"@), Seq::empty()),
            category: text_of(object_member(member(es, "qLine"@), "code23"@)),
        })
    } else {
        None
    }
}

/// The notices found in a value: an object's own notice, then those of its members' values
/// in order; those of an array's items in order.
pub open spec fn notams_of(v: JsonValue, icao: Seq<char>) -> Seq<NoticeView>
    decreases v, 0int,
{
    match v {
        JsonValue::Object(es) => {
            let own = match notice_of(es@, icao) {
                Some(n) => seq![n],
                None => Seq::empty(),
            };
            own + notams_of_members(es@, icao, 0)
        },
        JsonValue::Array(items) => notams_of_items(items@, icao, 0),
        _ => Seq::empty(),
    }
}

/// The notices found in the values of members `i..` of an object.
pub open spec fn notams_of_members(es: Seq<(String, JsonValue)>, icao: Seq<char>, i: int) -> Seq<NoticeView>
    decreases es, es.len() - i,
{
    if 0 <= i < es.len() {
        notams_of(es[i].1, icao) + notams_of_members(es, icao, i + 1)
    } else {
        Seq::empty()
    }
}

/// The notices found in items `i..` of an array.
pub open spec fn notams_of_items(items: Seq<JsonValue>, icao: Seq<char>, i: int) -> Seq<NoticeView>
    decreases items, items.len() - i,
{
    if 0 <= i < items.len() {
        notams_of(items[i], icao) + notams_of_items(items, icao, i + 1)
    } else {
        Seq::empty()
    }
}

fn notice_from_object(es: &Vec<(String, JsonValue)>, icao: &str) -> (r: Option<Notice>)
    ensures
        match r {
            Some(n) => notice_of(es@, icao@) == Some(n@),
            None => notice_of(es@, icao@) is None,
        },
{
    let id_val = member_of(es, "id");
    let item_e = member_of(es, "itemE");
    if id_val.is_none() || item_e.is_none() {
        return None;
    }
    let id = match text_of_value(id_val) {
        Some(s) => s,
        None => string_of(&Vec::new()),
    };
    if id.as_str().is_empty() {
        return None;
    }
    let serie = match text_of_value(member_of(es, "serie")) {
        Some(s) => s,
        None => string_of(&Vec::new()),
    };
    let identifier = if !serie.as_str().is_empty() {
        let mut v = chars_of(serie.as_str());
        match text_of_value(member_of(es, "number")) {
            Some(s) => push_str(&mut v, s.as_str()),
            None => {},
        }
        v.push('/');
        match text_of_value(member_of(es, "year")) {
            Some(s) => push_str(&mut v, s.as_str()),
            None => {},
        }
        string_of(&v)
    } else {
        id.clone()
    };
    let notice_type = match text_of_value(member_of(es, "type")) {
        Some(s) => s,
        None => string_of(&chars_of("NOTAM")),
    };
    let content = match text_of_value(item_e) {
        Some(s) => s,
        None => string_of(&Vec::new()),
    };
    let category = match member_of(es, "qLine") {
        Some(JsonValue::Object(q)) => text_of_value(member_of(q, "code23")),
        _ => None,
    };
    let n = Notice {
        id,
        icao: to_uppercase_of(icao),
        source: NoticeSource::Sofia,
        identifier,
        notice_type,
        valid_from: text_of_value(member_of(es, "startValidity")),
        valid_to: text_of_value(member_of(es, "endValidity")),
        content,
        category,
    };
    assert(n@.identifier == notice_of(es@, icao@).unwrap().identifier);
    Some(n)
}

/// Appends to `out` the notices found in `value`, in document order.
pub fn extract_notams(value: &JsonValue, icao: &str, out: &mut Vec<Notice>)
    ensures
        notices_view(final(out)@) == notices_view(old(out)@) + notams_of(*value, icao@),
    decreases value,
{
    match value {
        JsonValue::Object(es) => {
            let ghost start = notices_view(out@);
            match notice_from_object(es, icao) {
                Some(n) => {
                    out.push(n);
                    assert(notices_view(out@) =~= start.push(n@));
                },
                None => {},
            }
            let ghost own = match notice_of(es@, icao@) {
                Some(n) => seq![n],
                None => Seq::<NoticeView>::empty(),
            };
            assert(notices_view(out@) =~= start + own);
            proof {
                assert forall|j: int| 0 <= j < es@.len() implies decreases_to!(*value => (#[trigger] es@[j]).1) by {
                    assert(decreases_to!(*value => value->Object_0));
                    assert(decreases_to!(value->Object_0 => value->Object_0@));
                    assert(decreases_to!(value->Object_0@ => value->Object_0@[j]));
                    assert(decreases_to!(value->Object_0@[j] => value->Object_0@[j].1));
                }
            }
            let mut i: usize = 0;
            while i < es.len()
                invariant
                    i <= es.len(),
                    forall|j: int| 0 <= j < es@.len() ==> decreases_to!(*value => (#[trigger] es@[j]).1),
                    notices_view(out@) + notams_of_members(es@, icao@, i as int)
                        == start + own + notams_of_members(es@, icao@, 0),
                decreases es.len() - i,
            {
                let ghost before = notices_view(out@);
                assert(decreases_to!(*value => es@[i as int].1));
                extract_notams(&es[i].1, icao, out);
                assert(notices_view(out@) + notams_of_members(es@, icao@, i + 1) =~= before
                    + notams_of_members(es@, icao@, i as int));
                i = i + 1;
            }
            assert(notices_view(out@) =~= notices_view(out@) + notams_of_members(es@, icao@, i as int));
        },
        JsonValue::Array(items) => {
            let ghost start = notices_view(out@);
            let mut i: usize = 0;
            assert(notices_view(out@) + notams_of_items(items@, icao@, 0) =~= start + notams_of_items(items@, icao@, 0));
            proof {
                assert forall|j: int| 0 <= j < items@.len() implies decreases_to!(*value => #[trigger] items@[j]) by {
                    assert(decreases_to!(*value => value->Array_0));
                    assert(decreases_to!(value->Array_0 => value->Array_0@));
                    assert(decreases_to!(value->Array_0@ => value->Array_0@[j]));
                }
            }
            while i < items.len()
                invariant
                    i <= items.len(),
                    forall|j: int| 0 <= j < items@.len() ==> decreases_to!(*value => #[trigger] items@[j]),
                    notices_view(out@) + notams_of_items(items@, icao@, i as int)
                        == start + notams_of_items(items@, icao@, 0),
                decreases items.len() - i,
            {
                let ghost before = notices_view(out@);
                assert(decreases_to!(*value => items@[i as int]));
                extract_notams(&items[i], icao, out);
                assert(notices_view(out@) + notams_of_items(items@, icao@, i + 1) =~= before
                    + notams_of_items(items@, icao@, i as int));
                i = i + 1;
            }
            assert(notices_view(out@) =~= notices_view(out@) + notams_of_items(items@, icao@, i as int));
        },
        _ => {
            assert(notices_view(out@) =~= notices_view(out@) + Seq::<NoticeView>::empty());
        },
    }
}

// ---------------------------------------------------------------- one per identifier, newest first

/// Whether validity start `a` comes after `b`: a date after no date, a later text after an
/// earlier one.
pub open spec fn later_validity(a: Option<Seq<char>>, b: Option<Seq<char>>) -> bool {
    match (a, b) {
        (Some(x), None) => true,
        (Some(x), Some(y)) => lex_lt(y, x),
        _ => false,
    }
}

/// Order of listed notices: latest validity start first, then by identifier.
pub open spec fn notice_before(a: NoticeView, b: NoticeView) -> bool {
    later_validity(a.valid_from, b.valid_from) || (a.valid_from == b.valid_from && lex_lt(a.id, b.id))
}

/// Whether the notices are in strictly increasing listing order.
pub open spec fn sorted_notices(v: Seq<NoticeView>) -> bool {
    forall|i: int, j: int| 0 <= i < j < v.len() ==> notice_before(#[trigger] v[i], #[trigger] v[j])
}

/// The ids of notices.
pub open spec fn notice_ids(v: Seq<NoticeView>) -> Seq<Seq<char>> {
    v.map_values(|n: NoticeView| n.id)
}

/// Of the notices with one id, the first, in input order.
pub open spec fn first_per_id(ns: Seq<NoticeView>) -> Seq<NoticeView>
    decreases ns.len(),
{
    if ns.len() == 0 {
        Seq::empty()
    } else {
        let prev = first_per_id(ns.drop_last());
        if notice_ids(prev).contains(ns.last().id) { prev } else { prev.push(ns.last()) }
    }
}

proof fn lemma_notice_before_transitive(a: NoticeView, b: NoticeView, c: NoticeView)
    requires
        notice_before(a, b),
        notice_before(b, c),
    ensures
        notice_before(a, c),
{
    match (a.valid_from, b.valid_from, c.valid_from) {
        (Some(x), Some(y), Some(z)) => {
            if lex_lt(z, y) && lex_lt(y, x) {
                lemma_lex_transitive(z, y, x);
            }
        },
        _ => {},
    }
    if a.valid_from == b.valid_from && b.valid_from == c.valid_from {
        match a.valid_from {
            Some(x) => lemma_lex_irreflexive(x),
            None => {},
        }
        lemma_lex_transitive(a.id, b.id, c.id);
    }
}

proof fn lemma_notice_before_total(a: NoticeView, b: NoticeView)
    requires
        a.id != b.id,
    ensures
        notice_before(a, b) || notice_before(b, a),
{
    lemma_lex_total(a.id, b.id);
    match (a.valid_from, b.valid_from) {
        (Some(x), Some(y)) => {
            lemma_lex_total(x, y);
        },
        _ => {},
    }
}

proof fn lemma_sorted_notices_insert(v: Seq<NoticeView>, k: int, x: NoticeView)
    requires
        sorted_notices(v),
        0 <= k <= v.len(),
        forall|j: int| 0 <= j < k ==> notice_before(v[j], x),
        k < v.len() ==> notice_before(x, v[k]),
    ensures
        sorted_notices(v.insert(k, x)),
{
    let w = v.insert(k, x);
    assert forall|i: int, j: int| 0 <= i < j < w.len() implies notice_before(#[trigger] w[i], #[trigger] w[j]) by {
        if i < k && j < k {
        } else if i < k && j == k {
        } else if i < k && j > k {
            assert(w[j] == v[j - 1]);
        } else if i == k {
            assert(w[j] == v[j - 1]);
            if j - 1 > k {
                lemma_notice_before_transitive(x, v[k], v[j - 1]);
            }
        } else {
            assert(w[i] == v[i - 1] && w[j] == v[j - 1]);
        }
    }
}

impl Notice {
    /// A copy of this notice.
    pub fn duplicate(&self) -> (r: Notice)
        ensures
            r@ == self@,
    {
        Notice {
            id: self.id.clone(),
            icao: self.icao.clone(),
            source: self.source,
            identifier: self.identifier.clone(),
            notice_type: self.notice_type.clone(),
            valid_from: crate::text::clone_opt_string(&self.valid_from),
            valid_to: crate::text::clone_opt_string(&self.valid_to),
            content: self.content.clone(),
            category: crate::text::clone_opt_string(&self.category),
        }
    }
}

fn later_validity_of(a: &Option<String>, b: &Option<String>) -> (r: bool)
    ensures
        r == later_validity(opt_string_view(*a), opt_string_view(*b)),
{
    match (a, b) {
        (Some(x), None) => true,
        (Some(x), Some(y)) => lex_lt_of(&chars_of(y.as_str()), &chars_of(x.as_str())),
        _ => false,
    }
}

fn same_validity(a: &Option<String>, b: &Option<String>) -> (r: bool)
    ensures
        r == (opt_string_view(*a) == opt_string_view(*b)),
{
    match (a, b) {
        (Some(x), Some(y)) => same_text(x.as_str(), y.as_str()),
        (None, None) => true,
        _ => false,
    }
}

fn notice_before_of(a: &Notice, b: &Notice) -> (r: bool)
    ensures
        r == notice_before(a@, b@),
{
    if later_validity_of(&a.valid_from, &b.valid_from) {
        return true;
    }
    same_validity(&a.valid_from, &b.valid_from) && lex_lt_of(&chars_of(a.id.as_str()), &chars_of(b.id.as_str()))
}

/// Notices as they are listed: one per id (the first found), latest validity start first,
/// notices with the same start by id.
pub fn order_notices(notices: &Vec<Notice>) -> (r: Vec<Notice>)
    ensures
        sorted_notices(notices_view(r@)),
        notices_view(r@).len() == first_per_id(notices_view(notices@)).len(),
        forall|x: NoticeView| notices_view(r@).contains(x) <==> first_per_id(notices_view(notices@)).contains(x),
{
    let ghost ns = notices_view(notices@);
    let mut out: Vec<Notice> = Vec::new();
    let mut i: usize = 0;
    assert(ns.take(0) =~= Seq::<NoticeView>::empty());
    assert(notices_view(out@) =~= Seq::<NoticeView>::empty());
    while i < notices.len()
        invariant
            i <= notices.len(),
            ns == notices_view(notices@),
            sorted_notices(notices_view(out@)),
            notices_view(out@).len() == first_per_id(ns.take(i as int)).len(),
            forall|x: NoticeView| notices_view(out@).contains(x) <==> first_per_id(ns.take(i as int)).contains(x),
        decreases notices.len() - i,
    {
        let n = &notices[i];
        let ghost ov = notices_view(out@);
        let ghost prev = first_per_id(ns.take(i as int));
        assert(ns.take(i + 1).drop_last() =~= ns.take(i as int));
        assert(ns.take(i + 1).last() == n@);
        let mut dup = false;
        let mut q: usize = 0;
        while q < out.len()
            invariant
                q <= out.len(),
                ov == notices_view(out@),
                dup == exists|j: int| 0 <= j < q && (#[trigger] ov[j]).id == n@.id,
            decreases out.len() - q,
        {
            assert(ov[q as int] == out@[q as int]@);
            if same_text(out[q].id.as_str(), n.id.as_str()) {
                dup = true;
            }
            q = q + 1;
        }
        proof {
            assert(dup == notice_ids(prev).contains(n@.id)) by {
                if dup {
                    let j = choose|j: int| 0 <= j < q && (#[trigger] ov[j]).id == n@.id;
                    assert(ov.contains(ov[j]));
                    assert(prev.contains(ov[j]));
                    let p = choose|p: int| 0 <= p < prev.len() && prev[p] == ov[j];
                    assert(notice_ids(prev)[p] == n@.id);
                }
                if notice_ids(prev).contains(n@.id) {
                    let p = choose|p: int| 0 <= p < prev.len() && notice_ids(prev)[p] == n@.id;
                    assert(prev.contains(prev[p]));
                    assert(ov.contains(prev[p]));
                    let j = choose|j: int| 0 <= j < ov.len() && ov[j] == prev[p];
                    assert(ov[j].id == n@.id);
                }
            }
        }
        if !dup {
            let mut k: usize = 0;
            while k < out.len() && notice_before_of(&out[k], n)
                invariant
                    k <= out.len(),
                    ov == notices_view(out@),
                    forall|j: int| 0 <= j < k ==> notice_before(ov[j], n@),
                decreases out.len() - k,
            {
                assert(ov[k as int] == out@[k as int]@);
                k = k + 1;
            }
            proof {
                if k < out.len() {
                    assert(ov[k as int] == out@[k as int]@);
                    assert(ov[k as int].id != n@.id);
                    lemma_notice_before_total(ov[k as int], n@);
                }
                lemma_sorted_notices_insert(ov, k as int, n@);
            }
            let nn = n.duplicate();
            out.insert(k, nn);
            proof {
                let nv = notices_view(out@);
                assert(nv =~= ov.insert(k as int, n@));
                let np = first_per_id(ns.take(i + 1));
                assert(np == prev.push(n@));
                assert forall|x: NoticeView| nv.contains(x) <==> np.contains(x) by {
                    if nv.contains(x) {
                        let p = choose|p: int| 0 <= p < nv.len() && nv[p] == x;
                        if p < k {
                            assert(ov[p] == x);
                            assert(ov.contains(x));
                        } else if p > k {
                            assert(ov[p - 1] == x);
                            assert(ov.contains(x));
                        }
                        if x != n@ {
                            assert(prev.contains(x));
                            let q2 = choose|q2: int| 0 <= q2 < prev.len() && prev[q2] == x;
                            assert(np[q2] == x);
                        } else {
                            assert(np[prev.len() as int] == x);
                        }
                    }
                    if np.contains(x) {
                        let q2 = choose|q2: int| 0 <= q2 < np.len() && np[q2] == x;
                        if q2 < prev.len() {
                            assert(prev[q2] == x);
                            assert(prev.contains(x));
                            assert(ov.contains(x));
                            let p = choose|p: int| 0 <= p < ov.len() && ov[p] == x;
                            if p < k {
                                assert(nv[p] == x);
                            } else {
                                assert(nv[p + 1] == x);
                            }
                        } else {
                            assert(nv[k as int] == x);
                        }
                    }
                }
            }
        }
        i = i + 1;
    }
    assert(ns.take(i as int) =~= ns);
    out
}

/// The NOTAMs of a briefing answer as they are listed: the notices found anywhere in it, one
/// per id, latest validity start first.
pub fn notices_from_json(json: &JsonValue, icao: &str) -> (r: Vec<Notice>)
    ensures
        sorted_notices(notices_view(r@)),
        notices_view(r@).len() == first_per_id(notams_of(*json, icao@)).len(),
        forall|x: NoticeView| notices_view(r@).contains(x) <==> first_per_id(notams_of(*json, icao@)).contains(x),
{
    let mut found: Vec<Notice> = Vec::new();
    extract_notams(json, icao, &mut found);
    assert(notices_view(found@) =~= notams_of(*json, icao@)) by {
        assert(notices_view(Seq::<Notice>::empty()) =~= Seq::<NoticeView>::empty());
    }
    order_notices(&found)
}

// ---------------------------------------------------------------- the briefing answer as text

#[verifier::external_type_specification]
#[verifier::external_body]
pub struct ExJsonDocument(serde_json::Value);

/// The JSON value that `serde_json` reads from `text`, as a [`JsonValue`]: `None` when the
/// text is not one JSON value. Numbers keep the text `serde_json` writes for them, and object
/// members come in the order `serde_json`'s map keeps them.
pub uninterp spec fn json_document(text: Seq<char>) -> Option<JsonValue>;

/// A `serde_json` value as a [`JsonValue`], each variant to its own, member by member.
#[verifier::external_body]
fn json_value_of(v: &serde_json::Value) -> JsonValue {
    match v {
        serde_json::Value::Null => JsonValue::Null,
        serde_json::Value::Bool(b) => JsonValue::Bool(*b),
        serde_json::Value::Number(n) => JsonValue::Number(n.to_string()),
        serde_json::Value::String(s) => JsonValue::Text(s.clone()),
        serde_json::Value::Array(a) => JsonValue::Array(a.iter().map(json_value_of).collect()),
        serde_json::Value::Object(m) => JsonValue::Object(m.iter().map(|(k, x)| (k.clone(), json_value_of(x))).collect()),
    }
}

/// The JSON value of `text` (`serde_json::from_str` into `serde_json::Value`, read as a
/// [`JsonValue`]). The parsing is the crate's; the claim names its result, `None` when the
/// text does not parse.
#[verifier::external_body]
fn parse_json_of(text: &str) -> (r: Option<JsonValue>)
    ensures
        r == json_document(text@),
{
    serde_json::from_str::<serde_json::Value>(text).ok().map(|v| json_value_of(&v))
}

/// The NOTAMs of a briefing answer given as text, listed as [`notices_from_json`] lists
/// them; `None` when the text is not JSON.
pub fn notices_from_text(text: &str, icao: &str) -> (r: Option<Vec<Notice>>)
    ensures
        r is Some <==> json_document(text@) is Some,
        r matches Some(v) ==> {
            let j = json_document(text@)->0;
            &&& sorted_notices(notices_view(v@))
            &&& notices_view(v@).len() == first_per_id(notams_of(j, icao@)).len()
            &&& forall|x: NoticeView| notices_view(v@).contains(x) <==> first_per_id(notams_of(j, icao@)).contains(x)
        },
{
    match parse_json_of(text) {
        Some(j) => Some(notices_from_json(&j, icao)),
        None => None,
    }
}

// ---------------------------------------------------------------- the briefing request

/// The part of `s` before its first `c` (all of `s` when it holds none).
pub open spec fn before_first(s: Seq<char>, c: char) -> Seq<char>
    decreases s.len(),
{
    if s.len() == 0 {
        s
    } else if s[0] == c {
        Seq::empty()
    } else {
        seq![s[0]] + before_first(s.drop_first(), c)
    }
}

/// The session cookie among the `Set-Cookie` header values: the first one that mentions
/// `JSESSIONID`, up to its first `;`.
pub open spec fn session_cookie_of(headers: Seq<Seq<char>>) -> Option<Seq<char>>
    decreases headers.len(),
{
    if headers.len() == 0 {
        None
    } else if crate::text::contains_text(headers[0], "JSESSIONID"@) {
        Some(before_first(headers[0], ';'))
    } else {
        session_cookie_of(headers.drop_first())
    }
}

/// The part of `s` before its first `c`.
pub fn before_first_of(s: &Vec<char>, c: char) -> (r: Vec<char>)
    ensures
        r@ == before_first(s@, c),
{
    let mut k: usize = 0;
    assert(s@.skip(0) =~= s@);
    assert(s@.take(0) + before_first(s@, c) =~= before_first(s@, c));
    while k < s.len() && s[k] != c
        invariant
            k <= s.len(),
            before_first(s@, c) == s@.take(k as int) + before_first(s@.skip(k as int), c),
        decreases s.len() - k,
    {
        assert(s@.skip(k as int)[0] == s@[k as int]);
        assert(s@.skip(k as int).drop_first() =~= s@.skip(k + 1));
        assert(s@.take(k as int) + (seq![s@[k as int]] + before_first(s@.skip(k + 1), c)) =~= s@.take(k + 1)
            + before_first(s@.skip(k + 1), c));
        k = k + 1;
    }
    assert(before_first(s@.skip(k as int), c) =~= Seq::<char>::empty()) by {
        if k < s.len() {
            assert(s@.skip(k as int)[0] == s@[k as int]);
        }
    }
    assert(s@.take(k as int) + Seq::<char>::empty() =~= s@.take(k as int));
    crate::pattern::slice_of(s, 0, k)
}

/// The session cookie among the `Set-Cookie` header values, if any.
pub fn session_cookie(headers: &Vec<String>) -> (r: Option<String>)
    ensures
        opt_string_view(r) == session_cookie_of(crate::text::strings_view(headers@)),
{
    let ghost hv = crate::text::strings_view(headers@);
    let mut i: usize = 0;
    assert(hv.skip(0) =~= hv);
    while i < headers.len()
        invariant
            i <= headers.len(),
            hv == crate::text::strings_view(headers@),
            session_cookie_of(hv) == session_cookie_of(hv.skip(i as int)),
        decreases headers.len() - i,
    {
        let h = chars_of(headers[i].as_str());
        assert(hv.skip(i as int)[0] == h@);
        if crate::text::contains_of(&h, &chars_of("JSESSIONID")) {
            return Some(string_of(&before_first_of(&h, ';')));
        }
        assert(hv.skip(i as int).drop_first() =~= hv.skip(i + 1));
        i = i + 1;
    }
    None
}

/// The form body of the NOTAM query for an aerodrome.
pub open spec fn notam_query(icao: Seq<char>) -> Seq<char> {
    "operation=search&typeTraffic=VI&flLower=0&flUpper=999&radius=25&locations="@ + uppercase(icao)
}

/// The form body of the NOTAM query for an aerodrome.
pub fn notam_query_body(icao: &str) -> (r: String)
    ensures
        r@ == notam_query(icao@),
{
    let mut v = chars_of("operation=search&typeTraffic=VI&flLower=0&flUpper=999&radius=25&locations=");
    let u = to_uppercase_of(icao);
    push_str(&mut v, u.as_str());
    string_of(&v)
}

} // verus!
