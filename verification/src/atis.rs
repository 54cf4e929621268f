//! ATIS, METAR and TAF of an aerodrome from an atis.guru page, and the cache that keeps
//! them for half an hour.
use vstd::prelude::*;
use crate::text::{
    chars_of, clone_opt_string, contains_of, contains_text, opt_string_view, same_text,
    string_of, to_uppercase_of, trim_ws, trim_ws_of, uppercase,
};

verus! {

broadcast use vstd::string::group_string_axioms;

// ---------------------------------------------------------------- the page

/// A card of an atis.guru page: the text of its first `.card-title`, of its first `.atis`
/// and of its first `.card-subtitle` element, where it has one.
pub type CardView = (Option<Seq<char>>, Option<Seq<char>>, Option<Seq<char>>);

/// The cards of an atis.guru page, in document order: for each `.card-body` element, the
/// text nodes of its first `.card-title`, `.atis` and `.card-subtitle` elements, each
/// concatenated, as the `scraper` crate parses the page.
pub uninterp spec fn html_atis_cards(html: Seq<char>) -> Seq<CardView>;

/// Views of a list of cards.
pub open spec fn cards_view(v: Seq<(Option<String>, Option<String>, Option<String>)>) -> Seq<CardView> {
    v.map_values(|c: (Option<String>, Option<String>, Option<String>)| (opt_string_view(c.0), opt_string_view(c.1), opt_string_view(c.2)))
}

/// The cards of an atis.guru page (`scraper::Html::parse_document`, the selector
/// `.card-body`, and in each card the first element of `.card-title`, `.atis` and
/// `.card-subtitle`, its text nodes concatenated). The parsing is the crate's; the claim names
/// its result.
#[verifier::external_body]
fn atis_cards_of(html: &str) -> (r: Vec<(Option<String>, Option<String>, Option<String>)>)
    ensures
        cards_view(r@) == html_atis_cards(html@),
{
    let doc = scraper::Html::parse_document(html);
    let sel = |s: &str| scraper::Selector::parse(s).unwrap();
    let (t, a, s) = (sel(".card-title"), sel(".atis"), sel(".card-subtitle"));
    let first = |c: scraper::ElementRef, q: &scraper::Selector| c.select(q).next().map(|e| e.text().collect());
    doc.select(&sel(".card-body")).map(|c| (first(c, &t), first(c, &a), first(c, &s))).collect()
}

/// An ATIS message.
#[derive(Debug, Clone, PartialEq)]
pub struct AtisMessage {
    pub title: String,
    pub timestamp: Option<String>,
    pub content: String,
}

/// ATIS, METAR and TAF of an aerodrome.
#[derive(Debug, Clone, PartialEq)]
pub struct AtisData {
    pub icao: String,
    pub arrival: Option<AtisMessage>,
    pub departure: Option<AtisMessage>,
    pub metar: Option<String>,
    pub taf: Option<String>,
}

/// An ATIS message, as values: title, time and text.
pub type AtisMessageView = (Seq<char>, Option<Seq<char>>, Seq<char>);

/// The contents of ATIS data, as values.
pub struct AtisView {
    pub icao: Seq<char>,
    pub arrival: Option<AtisMessageView>,
    pub departure: Option<AtisMessageView>,
    pub metar: Option<Seq<char>>,
    pub taf: Option<Seq<char>>,
}

/// View of an optional message.
pub open spec fn message_view(m: Option<AtisMessage>) -> Option<AtisMessageView> {
    match m {
        Some(x) => Some((x.title@, opt_string_view(x.timestamp), x.content@)),
        None => None,
    }
}

impl View for AtisData {
    type V = AtisView;

    open spec fn view(&self) -> AtisView {
        AtisView {
            icao: self.icao@,
            arrival: message_view(self.arrival),
            departure: message_view(self.departure),
            metar: opt_string_view(self.metar),
            taf: opt_string_view(self.taf),
        }
    }
}

/// A text, trimmed; empty when absent.
pub open spec fn trimmed_or_empty(t: Option<Seq<char>>) -> Seq<char> {
    match t {
        Some(x) => trim_ws(x),
        None => Seq::empty(),
    }
}

/// A text, trimmed, when present.
pub open spec fn trimmed(t: Option<Seq<char>>) -> Option<Seq<char>> {
    match t {
        Some(x) => Some(trim_ws(x)),
        None => None,
    }
}

/// The data after reading a card: an `Arrival ATIS`, `Departure ATIS` or `Combined ATIS`
/// card sets the arrival (combined) or departure message; a `METAR` or `TAF` card sets the
/// METAR or TAF; other cards change nothing.
pub open spec fn read_card(d: AtisView, c: CardView) -> AtisView {
    let title = trimmed_or_empty(c.0);
    let content = trimmed_or_empty(c.1);
    let ts = trimmed(c.2);
    if contains_text(title, "Arrival ATIS"@) {
        AtisView { arrival: Some(("Arrival ATIS"@, ts, content)), ..d }
    } else if contains_text(title, "Departure ATIS"@) {
        AtisView { departure: Some(("Departure ATIS"@, ts, content)), ..d }
    } else if contains_text(title, "Combined ATIS"@) {
        AtisView { arrival: Some(("Combined ATIS"@, ts, content)), ..d }
    } else if contains_text(title, "METAR"@) {
        AtisView { metar: Some(content), ..d }
    } else if contains_text(title, "TAF"@) {
        AtisView { taf: Some(content), ..d }
    } else {
        d
    }
}

/// The data of an aerodrome after reading the first `n` cards in order.
pub open spec fn read_cards(cards: Seq<CardView>, n: int, icao: Seq<char>) -> AtisView
    decreases n,
{
    if n <= 0 || n > cards.len() {
        AtisView { icao, arrival: None, departure: None, metar: None, taf: None }
    } else {
        read_card(read_cards(cards, n - 1, icao), cards[n - 1])
    }
}

/// Whatever ATIS message a card sets (arrival, departure or combined), it carries that card's
/// trimmed subtitle as its time and the card's trimmed text as its content; reading a card
/// keeps the aerodrome.
pub proof fn law_card_message_carries_its_subtitle(d: AtisView, c: CardView)
    ensures
        read_card(d, c).icao == d.icao,
        read_card(d, c).arrival != d.arrival ==> (read_card(d, c).arrival matches Some(m)
            && m.1 == trimmed(c.2) && m.2 == trimmed_or_empty(c.1)),
        read_card(d, c).departure != d.departure ==> (read_card(d, c).departure matches Some(m)
            && m.1 == trimmed(c.2) && m.2 == trimmed_or_empty(c.1)),
{
}

/// In the data read from an ATIS page, the departure message, when there is one, comes from a
/// card of the page titled `Departure ATIS`: its time is that card's trimmed subtitle and its
/// content the card's trimmed text; the arrival message likewise comes from a card titled
/// `Arrival ATIS` or `Combined ATIS`.
pub proof fn law_page_messages_come_from_cards(cards: Seq<CardView>, n: int, icao: Seq<char>)
    requires
        0 <= n <= cards.len(),
    ensures
        read_cards(cards, n, icao).icao == icao,
        read_cards(cards, n, icao).departure matches Some(m) ==> exists|k: int| 0 <= k < n && {
            &&& contains_text(trimmed_or_empty(#[trigger] cards[k].0), "Departure ATIS"@)
            &&& m.1 == trimmed(cards[k].2)
            &&& m.2 == trimmed_or_empty(cards[k].1)
        },
        read_cards(cards, n, icao).arrival matches Some(m) ==> exists|k: int| 0 <= k < n && {
            &&& (contains_text(trimmed_or_empty(#[trigger] cards[k].0), "Arrival ATIS"@)
                || contains_text(trimmed_or_empty(cards[k].0), "Combined ATIS"@))
            &&& m.1 == trimmed(cards[k].2)
            &&& m.2 == trimmed_or_empty(cards[k].1)
        },
    decreases n,
{
    if n > 0 {
        law_page_messages_come_from_cards(cards, n - 1, icao);
        let prev = read_cards(cards, n - 1, icao);
        let c = cards[n - 1];
        law_card_message_carries_its_subtitle(prev, c);
        let cur = read_cards(cards, n, icao);
        assert(cur == read_card(prev, c));
        if cur.departure is Some && cur.departure != prev.departure {
            assert(contains_text(trimmed_or_empty(cards[n - 1].0), "Departure ATIS"@));
        }
        if cur.arrival is Some && cur.arrival != prev.arrival {
            assert(contains_text(trimmed_or_empty(cards[n - 1].0), "Arrival ATIS"@)
                || contains_text(trimmed_or_empty(cards[n - 1].0), "Combined ATIS"@));
        }
    }
}

fn trimmed_of(t: &Option<String>) -> (r: Option<String>)
    ensures
        opt_string_view(r) == trimmed(opt_string_view(*t)),
{
    match t {
        Some(x) => Some(string_of(&trim_ws_of(&chars_of(x.as_str())))),
        None => None,
    }
}

fn trimmed_or_empty_of(t: &Option<String>) -> (r: String)
    ensures
        r@ == trimmed_or_empty(opt_string_view(*t)),
{
    match t {
        Some(x) => string_of(&trim_ws_of(&chars_of(x.as_str()))),
        None => string_of(&Vec::new()),
    }
}

fn title_has(title: &String, w: &str) -> (r: bool)
    ensures
        r == contains_text(title@, w@),
{
    contains_of(&chars_of(title.as_str()), &chars_of(w))
}

/// ATIS data of aerodrome `icao` from the cards of its page.
pub fn atis_from_cards(cards: &Vec<(Option<String>, Option<String>, Option<String>)>, icao: &str) -> (r: AtisData)
    ensures
        r@ == read_cards(cards_view(cards@), cards@.len() as int, icao@),
{
    let ghost cv = cards_view(cards@);
    let mut d = AtisData { icao: string_of(&chars_of(icao)), arrival: None, departure: None, metar: None, taf: None };
    let mut i: usize = 0;
    while i < cards.len()
        invariant
            i <= cards.len(),
            cv == cards_view(cards@),
            d@ == read_cards(cv, i as int, icao@),
        decreases cards.len() - i,
    {
        let c = &cards[i];
        assert(cv[i as int] == (opt_string_view(c.0), opt_string_view(c.1), opt_string_view(c.2)));
        let title = trimmed_or_empty_of(&c.0);
        let content = trimmed_or_empty_of(&c.1);
        let ts = trimmed_of(&c.2);
        if title_has(&title, "Arrival ATIS") {
            d.arrival = Some(AtisMessage { title: string_of(&chars_of("Arrival ATIS")), timestamp: ts, content });
        } else if title_has(&title, "Departure ATIS") {
            d.departure = Some(AtisMessage { title: string_of(&chars_of("Departure ATIS")), timestamp: ts, content });
        } else if title_has(&title, "Combined ATIS") {
            d.arrival = Some(AtisMessage { title: string_of(&chars_of("Combined ATIS")), timestamp: ts, content });
        } else if title_has(&title, "METAR") {
            d.metar = Some(content);
        } else if title_has(&title, "TAF") {
            d.taf = Some(content);
        }
        i = i + 1;
    }
    d
}

/// ATIS data of aerodrome `icao` from its atis.guru page.
pub fn parse_atis_html(html: &str, icao: &str) -> (r: AtisData)
    ensures
        r@ == read_cards(html_atis_cards(html@), html_atis_cards(html@).len() as int, icao@),
{
    let cards = atis_cards_of(html);
    atis_from_cards(&cards, icao)
}

/// Address of the atis.guru page of an aerodrome.
pub open spec fn atis_page_url(icao: Seq<char>) -> Seq<char> {
    "https://atis.guru/atis/"@ + icao
}

/// Address of the atis.guru page of an aerodrome.
pub fn atis_url(icao: &str) -> (r: String)
    ensures
        r@ == atis_page_url(icao@),
{
    let mut v = chars_of("https://atis.guru/atis/");
    crate::text::push_str(&mut v, icao);
    string_of(&v)
}

/// The key under which an aerodrome's ATIS is cached: its code trimmed and upper-cased.
pub open spec fn atis_key(icao: Seq<char>) -> Seq<char> {
    uppercase(trim_ws(icao))
}

/// The key under which an aerodrome's ATIS is cached.
pub fn atis_cache_key(icao: &str) -> (r: String)
    ensures
        r@ == atis_key(icao@),
{
    let t = string_of(&trim_ws_of(&chars_of(icao)));
    to_uppercase_of(t.as_str())
}

// ---------------------------------------------------------------- the cache

/// How long fetched ATIS data is served from the cache, in milliseconds (30 minutes).
pub const ATIS_CACHE_TTL_MS: u64 = 1800000;

impl AtisMessage {
    /// A copy of this message.
    pub fn duplicate(&self) -> (r: AtisMessage)
        ensures
            message_view(Some(r)) == message_view(Some(*self)),
    {
        AtisMessage { title: self.title.clone(), timestamp: clone_opt_string(&self.timestamp), content: self.content.clone() }
    }
}

fn duplicate_message(m: &Option<AtisMessage>) -> (r: Option<AtisMessage>)
    ensures
        message_view(r) == message_view(*m),
{
    match m {
        Some(x) => Some(x.duplicate()),
        None => None,
    }
}

impl AtisData {
    /// A copy of this data.
    pub fn duplicate(&self) -> (r: AtisData)
        ensures
            r@ == self@,
    {
        AtisData {
            icao: self.icao.clone(),
            arrival: duplicate_message(&self.arrival),
            departure: duplicate_message(&self.departure),
            metar: clone_opt_string(&self.metar),
            taf: clone_opt_string(&self.taf),
        }
    }
}

/// ATIS data fetched at a time of a monotonic clock, in milliseconds.
pub struct AtisCacheEntry {
    pub key: String,
    pub fetched_at_ms: u64,
    pub data: AtisData,
}

/// ATIS data by aerodrome key, with the time it was fetched; one entry per key.
pub struct AtisCache {
    entries: Vec<AtisCacheEntry>,
}

/// A cached item, as values: the time it was fetched and the data.
pub type CachedView = (u64, AtisView);

impl AtisCache {
    /// The cached items by key.
    pub closed spec fn items(&self) -> Map<Seq<char>, CachedView> {
        Map::new(
            |k: Seq<char>| exists|i: int| 0 <= i < self.entries@.len() && self.entries@[i].key@ == k,
            |k: Seq<char>| {
                let i = choose|i: int| 0 <= i < self.entries@.len() && self.entries@[i].key@ == k;
                (self.entries@[i].fetched_at_ms, self.entries@[i].data@)
            },
        )
    }

    /// One entry per key.
    pub closed spec fn well_formed(&self) -> bool {
        forall|i: int, j: int| 0 <= i < j < self.entries@.len() ==> self.entries@[i].key@ != self.entries@[j].key@
    }

    /// An empty cache.
    pub fn new() -> (r: AtisCache)
        ensures
            r.well_formed(),
            r.items() == Map::<Seq<char>, CachedView>::empty(),
    {
        let r = AtisCache { entries: Vec::new() };
        assert(r.items() =~= Map::<Seq<char>, CachedView>::empty());
        r
    }

    fn position(&self, key: &str) -> (r: Option<usize>)
        requires
            self.well_formed(),
        ensures
            match r {
                Some(i) => i < self.entries@.len() && self.entries@[i as int].key@ == key@,
                None => !self.items().contains_key(key@),
            },
    {
        let mut i: usize = 0;
        while i < self.entries.len()
            invariant
                i <= self.entries.len(),
                forall|j: int| 0 <= j < i ==> self.entries@[j].key@ != key@,
            decreases self.entries.len() - i,
        {
            if same_text(self.entries[i].key.as_str(), key) {
                return Some(i);
            }
            i = i + 1;
        }
        None
    }

    proof fn lemma_item_at(&self, i: int)
        requires
            self.well_formed(),
            0 <= i < self.entries@.len(),
        ensures
            self.items().contains_key(self.entries@[i].key@),
            self.items()[self.entries@[i].key@] == (self.entries@[i].fetched_at_ms, self.entries@[i].data@),
    {
        let k = self.entries@[i].key@;
        assert(self.items().contains_key(k));
        let c = choose|c: int| 0 <= c < self.entries@.len() && self.entries@[c].key@ == k;
        assert(c == i);
    }

    /// The data cached under `key`, when it was fetched less than the time to live before
    /// `now_ms`.
    pub fn lookup(&self, key: &str, now_ms: u64) -> (r: Option<AtisData>)
        requires
            self.well_formed(),
        ensures
            match r {
                Some(d) => self.items().contains_key(key@) && fresh(self.items()[key@].0, now_ms)
                    && d@ == self.items()[key@].1,
                None => !self.items().contains_key(key@) || !fresh(self.items()[key@].0, now_ms),
            },
    {
        match self.position(key) {
            Some(i) => {
                proof { self.lemma_item_at(i as int); }
                let e = &self.entries[i];
                let elapsed = if now_ms >= e.fetched_at_ms { now_ms - e.fetched_at_ms } else { 0 };
                if elapsed < ATIS_CACHE_TTL_MS {
                    Some(e.data.duplicate())
                } else {
                    None
                }
            },
            None => None,
        }
    }

    /// Caches `data` under `key`, fetched at `now_ms`, in place of what was cached there.
    pub fn store(&mut self, key: String, now_ms: u64, data: AtisData)
        requires
            old(self).well_formed(),
        ensures
            final(self).well_formed(),
            final(self).items() == old(self).items().insert(key@, (now_ms, data@)),
    {
        let ghost k = key@;
        let ghost v = (now_ms, data@);
        let ghost before = self.items();
        match self.position(key.as_str()) {
            Some(i) => {
                let ghost old_entries = self.entries@;
                self.entries.set(i, AtisCacheEntry { key, fetched_at_ms: now_ms, data });
                proof {
                    assert forall|a: int, b: int| 0 <= a < b < self.entries@.len() implies self.entries@[a].key@ != self.entries@[b].key@ by {
                        assert(old_entries[a].key@ != old_entries[b].key@);
                    }
                    assert forall|x: Seq<char>| #[trigger] self.items().contains_key(x) <==> before.insert(k, v).contains_key(x) by {
                        if before.contains_key(x) && x != k {
                            let c = choose|c: int| 0 <= c < old_entries.len() && old_entries[c].key@ == x;
                            assert(self.entries@[c].key@ == x);
                        }
                        if self.items().contains_key(x) && x != k {
                            let c = choose|c: int| 0 <= c < self.entries@.len() && self.entries@[c].key@ == x;
                            assert(old_entries[c].key@ == x);
                        }
                        if x == k {
                            assert(self.entries@[i as int].key@ == x);
                        }
                    }
                    assert forall|x: Seq<char>| #[trigger] self.items().contains_key(x) implies self.items()[x] == before.insert(k, v)[x] by {
                        let c = choose|c: int| 0 <= c < self.entries@.len() && self.entries@[c].key@ == x;
                        self.lemma_item_at(c);
                        if x != k {
                            assert(old_entries[c].key@ == x);
                            assert(c != i);
                            assert(before.contains_key(x));
                            let d = choose|d: int| 0 <= d < old_entries.len() && old_entries[d].key@ == x;
                            assert(d == c);
                        }
                    }
                    assert(self.items() =~= before.insert(k, v));
                }
            },
            None => {
                let ghost old_entries = self.entries@;
                self.entries.push(AtisCacheEntry { key, fetched_at_ms: now_ms, data });
                proof {
                    let n = old_entries.len() as int;
                    assert forall|a: int, b: int| 0 <= a < b < self.entries@.len() implies self.entries@[a].key@ != self.entries@[b].key@ by {
                        if b == n {
                            assert(old_entries[a].key@ != k) by {
                                if old_entries[a].key@ == k {
                                    assert(before.contains_key(k));
                                }
                            }
                        } else {
                            assert(old_entries[a].key@ != old_entries[b].key@);
                        }
                    }
                    assert forall|x: Seq<char>| #[trigger] self.items().contains_key(x) <==> before.insert(k, v).contains_key(x) by {
                        if before.contains_key(x) {
                            let c = choose|c: int| 0 <= c < old_entries.len() && old_entries[c].key@ == x;
                            assert(self.entries@[c].key@ == x);
                        }
                        if self.items().contains_key(x) && x != k {
                            let c = choose|c: int| 0 <= c < self.entries@.len() && self.entries@[c].key@ == x;
                            assert(c < n);
                            assert(old_entries[c].key@ == x);
                        }
                        if x == k {
                            assert(self.entries@[n].key@ == x);
                        }
                    }
                    assert forall|x: Seq<char>| #[trigger] self.items().contains_key(x) implies self.items()[x] == before.insert(k, v)[x] by {
                        let c = choose|c: int| 0 <= c < self.entries@.len() && self.entries@[c].key@ == x;
                        self.lemma_item_at(c);
                        if x != k {
                            assert(c < n);
                            assert(old_entries[c].key@ == x);
                            let d = choose|d: int| 0 <= d < old_entries.len() && old_entries[d].key@ == x;
                            assert(old_entries[d] == self.entries@[d]);
                            assert(d == c) by {
                                if d != c {
                                    assert(self.entries@[d].key@ == self.entries@[c].key@);
                                }
                            }
                        }
                    }
                    assert(self.items() =~= before.insert(k, v));
                }
            },
        }
    }
}

/// Whether data fetched at `fetched` is still served at `now`: less than the time to live
/// has passed (no time when the clock reads earlier).
pub open spec fn fresh(fetched: u64, now: u64) -> bool {
    (if now >= fetched { now - fetched } else { 0 }) < ATIS_CACHE_TTL_MS
}

/// Data just stored is served until the time to live has passed, and not after.
pub proof fn law_stored_atis_is_served_while_fresh(
    items: Map<Seq<char>, CachedView>,
    key: Seq<char>,
    at: u64,
    data: AtisView,
    now: u64,
)
    ensures
        items.insert(key, (at, data)).contains_key(key),
        items.insert(key, (at, data))[key] == (at, data),
        at <= now < at + ATIS_CACHE_TTL_MS ==> fresh(at, now),
        now >= at + ATIS_CACHE_TTL_MS ==> !fresh(at, now),
{
}

} // verus!
