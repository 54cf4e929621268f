//! AIRAC cycles: 28-day aeronautical publication cycles counted from cycle 2601,
//! which starts on 22 January 2026.
use vstd::prelude::*;
use crate::calendar::{
    date_of_day_number, day_number_of, days_from_civil, local_today, max_day_number,
    min_day_number, CalendarDate, MAX_YEAR, MIN_YEAR,
};
use crate::text::{
    chars_of, decimal_padded, decimal_padded_of, push_all, push_str, signed_decimal,
    signed_decimal_of, string_of,
};

verus! {

/// Length of a cycle in days.
pub const CYCLE_DAYS: i64 = 28;

/// An AIRAC cycle: its code (`YYNN`), first day and last day.
#[derive(Debug, Clone, PartialEq, Eq)]
pub struct AiracCycle {
    pub code: String,
    pub start_date: CalendarDate,
    pub end_date: CalendarDate,
}

/// Day number of 22 January 2026, the first day of cycle 2601.
pub open spec fn epoch_day() -> int {
    days_from_civil(2026, 1, 22)
}

/// Day number on which the cycle that contains day `n` starts.
pub open spec fn cycle_start_day(n: int) -> int {
    epoch_day() + 28 * ((n - epoch_day()) / 28)
}

/// Days from `year_start` to the first cycle start on or after it.
pub open spec fn first_cycle_offset(year_start: int) -> int {
    (epoch_day() - year_start) % 28
}

/// Rank, counted from 1, of the cycle starting on day `start` among the cycles that start in
/// the year whose first day is `year_start`.
pub open spec fn cycle_number_in_year(start: int, year_start: int) -> int {
    (start - year_start - first_cycle_offset(year_start)) / 28 + 1
}

/// The two-digit year part of a cycle code: `year % 100` as Rust computes it on an `i32`,
/// read as a `u32`.
pub open spec fn year_short(y: int) -> nat {
    if y >= 0 {
        (y % 100) as nat
    } else if (-y) % 100 == 0 {
        0
    } else {
        (4294967296 - (-y) % 100) as nat
    }
}

/// Cycle code: two-digit year then two-digit cycle number in the year.
pub open spec fn cycle_code(year: int, number: int) -> Seq<char> {
    decimal_padded(year_short(year), 2) + decimal_padded(number as nat, 2)
}

/// Whether the cycle containing day `n`, and the day after it, are representable dates.
pub open spec fn cycle_representable(n: int) -> bool {
    min_day_number() <= cycle_start_day(n) && cycle_start_day(n) + 27 <= max_day_number()
}

/// Three-letter upper-case English abbreviation of month `m`.
pub open spec fn month_abbrev(m: int) -> Seq<char> {
    if m == 1 { "JAN"@ }
    else if m == 2 { "FEB"@ }
    else if m == 3 { "MAR"@ }
    else if m == 4 { "APR"@ }
    else if m == 5 { "MAY"@ }
    else if m == 6 { "JUN"@ }
    else if m == 7 { "JUL"@ }
    else if m == 8 { "AUG"@ }
    else if m == 9 { "SEP"@ }
    else if m == 10 { "OCT"@ }
    else if m == 11 { "NOV"@ }
    else { "DEC"@ }
}

/// The English name of month `m` (1 to 12).
pub open spec fn english_month_name(m: int) -> Seq<char> {
    seq![
        "January"@, "February"@, "March"@, "April"@, "May"@, "June"@, "July"@, "August"@,
        "September"@, "October"@, "November"@, "December"@,
    ][m - 1]
}

/// The upper-case form of an ASCII letter; other characters stay as they are.
pub open spec fn ascii_upper(c: char) -> char {
    if 'a' <= c <= 'z' { ((c as int) - 32) as char } else { c }
}

/// The month abbreviation of an SIA publication name is the first three letters of the
/// English name of the month, in upper case: `SEP` for September.
pub proof fn law_month_abbrev_is_english_initials(m: int)
    requires
        1 <= m <= 12,
    ensures
        month_abbrev(m).len() == 3,
        forall|i: int| 0 <= i < 3 ==> #[trigger] month_abbrev(m)[i] == ascii_upper(english_month_name(m)[i]),
{
    reveal_strlit("JAN"); reveal_strlit("January");
    reveal_strlit("FEB"); reveal_strlit("February");
    reveal_strlit("MAR"); reveal_strlit("March");
    reveal_strlit("APR"); reveal_strlit("April");
    reveal_strlit("MAY"); reveal_strlit("May");
    reveal_strlit("JUN"); reveal_strlit("June");
    reveal_strlit("JUL"); reveal_strlit("July");
    reveal_strlit("AUG"); reveal_strlit("August");
    reveal_strlit("SEP"); reveal_strlit("September");
    reveal_strlit("OCT"); reveal_strlit("October");
    reveal_strlit("NOV"); reveal_strlit("November");
    reveal_strlit("DEC"); reveal_strlit("December");
}

/// Year as chrono's `%Y` writes it: four digits at least, with a sign outside `0..=9999`.
pub open spec fn year_text(y: int) -> Seq<char> {
    if 0 <= y <= 9999 {
        decimal_padded(y as nat, 4)
    } else if y < 0 {
        seq!['-'] + decimal_padded((-y) as nat, 4)
    } else {
        seq!['+'] + decimal_padded(y as nat, 4)
    }
}

/// A date as chrono's `%Y-%m-%d` writes it.
pub open spec fn iso_date(d: CalendarDate) -> Seq<char> {
    year_text(d.year as int) + seq!['-'] + decimal_padded(d.month as nat, 2) + seq!['-']
        + decimal_padded(d.day as nat, 2)
}

/// The date formatted with chrono's `%Y-%m-%d` (`NaiveDate::format`). The claim restates
/// chrono's rules for `%Y`, `%m` and `%d`: a four-digit year, zero-padded, signed when outside
/// `0..=9999`; two-digit month and day, zero-padded.
#[verifier::external_body]
fn format_iso_date(d: &CalendarDate) -> (r: String)
    requires
        d.is_valid(),
    ensures
        r@ == iso_date(*d),
{
    chrono::NaiveDate::from_ymd_opt(d.year, d.month, d.day).unwrap().format("%Y-%m-%d").to_string()
}

/// SIA publication name of the cycle starting on `d`.
pub open spec fn sia_cycle_name_text(d: CalendarDate) -> Seq<char> {
    "eAIP_"@ + decimal_padded(d.day as nat, 2) + "_"@ + month_abbrev(d.month as int) + "_"@
        + signed_decimal(d.year as int)
}

/// The SIA publication name of the cycle starting on a valid date `d` is `eAIP_`, the day on
/// two digits, `_`, the first three letters of the English month name in upper case, `_` and
/// the year: twelve characters and the year's digits (`eAIP_03_SEP_2026`).
pub proof fn law_sia_cycle_name_shape(d: CalendarDate)
    requires
        d.is_valid(),
    ensures
        sia_cycle_name_text(d).len() == 12 + signed_decimal(d.year as int).len(),
        sia_cycle_name_text(d)[7] == '_' && sia_cycle_name_text(d)[11] == '_',
        forall|i: int| 0 <= i < 3 ==> #[trigger] sia_cycle_name_text(d)[8 + i]
            == ascii_upper(english_month_name(d.month as int)[i]),
{
    reveal_strlit("eAIP_");
    reveal_strlit("_");
    crate::text::lemma_decimal_len(d.day as nat);
    law_month_abbrev_is_english_initials(d.month as int);
    let dd = decimal_padded(d.day as nat, 2);
    assert(dd.len() == 2);
    let mon = month_abbrev(d.month as int);
    let n = sia_cycle_name_text(d);
    assert(n == "eAIP_"@ + dd + "_"@ + mon + "_"@ + signed_decimal(d.year as int));
    assert forall|i: int| 0 <= i < 3 implies #[trigger] n[8 + i] == ascii_upper(english_month_name(d.month as int)[i]) by {
        assert(n[8 + i] == mon[i]);
    }
}

/// SIA AIRAC date tag of the cycle starting on `d`.
pub open spec fn sia_airac_date_text(d: CalendarDate) -> Seq<char> {
    "AIRAC-"@ + iso_date(d)
}

/// NATS publication folder of the cycle starting on `d`.
pub open spec fn nats_airac_part_text(d: CalendarDate) -> Seq<char> {
    iso_date(d) + "-AIRAC"@
}

/// Whether `r` is what the cycle lookup gives on the valid date `today`: the cycle that
/// contains it, and `None` exactly when that cycle runs past the representable dates.
pub open spec fn cycle_on(today: CalendarDate, r: Option<AiracCycle>) -> bool {
    &&& today.is_valid()
    &&& (r is Some <==> cycle_representable(today.day_number()))
    &&& (r matches Some(c) ==> c.is_cycle_for(today.day_number()))
}

impl AiracCycle {
    /// Whether this is the cycle that contains day `n`.
    pub open spec fn is_cycle_for(self, n: int) -> bool {
        let s = cycle_start_day(n);
        &&& self.start_date.is_valid()
        &&& self.start_date.day_number() == s
        &&& self.end_date.is_valid()
        &&& self.end_date.day_number() == s + 27
        &&& self.code@ == cycle_code(
            self.start_date.year as int,
            cycle_number_in_year(s, days_from_civil(self.start_date.year as int, 1, 1)),
        )
    }

    /// Whether the dates of this cycle are valid.
    pub open spec fn dates_valid(self) -> bool {
        self.start_date.is_valid() && self.end_date.is_valid()
    }

    /// Whether day `n` lies within this cycle.
    pub open spec fn contains_day(self, n: int) -> bool {
        self.start_date.day_number() <= n <= self.end_date.day_number()
    }

    /// The AIRAC cycle that contains `date`.
    pub fn for_date(date: CalendarDate) -> (r: AiracCycle)
        requires
            date.is_valid(),
            cycle_representable(date.day_number()),
        ensures
            r.is_cycle_for(date.day_number()),
            r.contains_day(date.day_number()),
            (r.start_date.day_number() - epoch_day()) % 28 == 0,
            1 <= cycle_number_in_year(
                r.start_date.day_number(),
                days_from_civil(r.start_date.year as int, 1, 1),
            ) <= 14,
    {
        let epoch = CalendarDate { year: 2026, month: 1, day: 22 };
        let e = day_number_of(&epoch) as i64;
        let n = day_number_of(&date) as i64;
        let diff = n - e;
        let start_n: i64 = if diff >= 0 {
            let k = (diff as u64) / 28;
            proof { lemma_floor_nonneg(diff as int, k as int); }
            e + (k as i64) * CYCLE_DAYS
        } else {
            let q = ((-diff - 1) as u64) / 28;
            let k = q + 1;
            proof { lemma_floor_neg(diff as int, q as int); }
            e - (k as i64) * CYCLE_DAYS
        };
        assert(start_n == cycle_start_day(n as int));
        proof { lemma_cycle_start_bounds(n as int); }
        let start = date_of_day_number(start_n as i32);
        let year_first = CalendarDate { year: start.year, month: 1, day: 1 };
        let j = day_number_of(&year_first) as i64;
        proof { lemma_day_within_year(start); }
        let day_of_year = start_n - j;
        let e2ys = j - e;
        let off: i64 = if e2ys <= 0 {
            (((-e2ys) as u64) % 28) as i64
        } else {
            let r = (e2ys as u64) % 28;
            ((28 - r) % 28) as i64
        };
        proof { lemma_offset(e as int, j as int, e2ys as int, off as int); }
        proof { lemma_cycle_number(e as int, j as int, start_n as int, off as int); }
        let cyc: u64 = ((day_of_year - off) as u64) / 28 + 1;
        let end = date_of_day_number((start_n + 27) as i32);
        let ys = year_short_of(start.year);
        let mut code = decimal_padded_of(ys as u64, 2);
        let tail = decimal_padded_of(cyc, 2);
        push_all(&mut code, &tail);
        AiracCycle { code: string_of(&code), start_date: start, end_date: end }
    }

    /// The cycle in effect today on the local clock, or `None` when today lies in a cycle
    /// that runs past the representable dates. Which day today is comes from the clock: the
    /// contract says what is returned for whatever valid date the clock gave.
    pub fn current() -> (r: Option<AiracCycle>)
        ensures
            exists|today: CalendarDate| #[trigger] cycle_on(today, r),
            r matches Some(c) ==> c.dates_valid() && c.start_date.day_number() + 27
                == c.end_date.day_number(),
    {
        let today = local_today();
        let n = day_number_of(&today);
        let r = if cycle_fits(n) {
            Some(Self::for_date(today))
        } else {
            None
        };
        assert(cycle_on(today, r));
        r
    }

    /// Whether today's date on the local clock lies within this cycle.
    pub fn is_active(&self) -> (r: bool)
        requires
            self.dates_valid(),
        ensures
            exists|t: CalendarDate| t.is_valid() && r == self.contains_day(t.day_number()),
    {
        let today = local_today();
        self.is_active_on(&today)
    }

    /// Whether `today` lies within this cycle.
    pub fn is_active_on(&self, today: &CalendarDate) -> (r: bool)
        requires
            self.dates_valid(),
            today.is_valid(),
        ensures
            r == self.contains_day(today.day_number()),
    {
        let t = day_number_of(today);
        let s = day_number_of(&self.start_date);
        let e = day_number_of(&self.end_date);
        t >= s && t <= e
    }

    /// SIA publication name of the cycle, e.g. `eAIP_22_JAN_2026`.
    pub fn sia_cycle_name(&self) -> (r: String)
        requires
            self.start_date.is_valid(),
        ensures
            r@ == sia_cycle_name_text(self.start_date),
    {
        let mut v: Vec<char> = Vec::new();
        push_str(&mut v, "eAIP_");
        let d = decimal_padded_of(self.start_date.day as u64, 2);
        push_all(&mut v, &d);
        push_str(&mut v, "_");
        push_str(&mut v, month_abbrev_of(self.start_date.month));
        push_str(&mut v, "_");
        let y = signed_decimal_of(self.start_date.year as i64);
        push_all(&mut v, &y);
        string_of(&v)
    }

    /// SIA AIRAC date tag, e.g. `AIRAC-2026-01-22`.
    pub fn sia_airac_date(&self) -> (r: String)
        requires
            self.start_date.is_valid(),
        ensures
            r@ == sia_airac_date_text(self.start_date),
    {
        let mut v: Vec<char> = Vec::new();
        push_str(&mut v, "AIRAC-");
        let iso = format_iso_date(&self.start_date);
        push_str(&mut v, iso.as_str());
        string_of(&v)
    }

    /// NATS publication folder of the cycle, e.g. `2026-01-22-AIRAC`.
    pub fn nats_airac_part(&self) -> (r: String)
        requires
            self.start_date.is_valid(),
        ensures
            r@ == nats_airac_part_text(self.start_date),
    {
        let iso = format_iso_date(&self.start_date);
        let mut v = chars_of(iso.as_str());
        push_str(&mut v, "-AIRAC");
        string_of(&v)
    }
}

/// Whether the cycle containing day `n` is representable.
pub fn cycle_fits(n: i32) -> (r: bool)
    ensures
        r == cycle_representable(n as int),
{
    let epoch = CalendarDate { year: 2026, month: 1, day: 22 };
    let e = day_number_of(&epoch) as i64;
    let diff = n as i64 - e;
    let start_n: i64 = if diff >= 0 {
        let k = (diff as u64) / 28;
        proof { lemma_floor_nonneg(diff as int, k as int); }
        e + (k as i64) * CYCLE_DAYS
    } else {
        let q = ((-diff - 1) as u64) / 28;
        proof { lemma_floor_neg(diff as int, q as int); }
        e - ((q + 1) as i64) * CYCLE_DAYS
    };
    let lo = CalendarDate { year: MIN_YEAR, month: 1, day: 1 };
    let hi = CalendarDate { year: MAX_YEAR, month: 12, day: 31 };
    let min_n = day_number_of(&lo) as i64;
    let max_n = day_number_of(&hi) as i64;
    min_n <= start_n && start_n + 27 <= max_n
}

/// Every day from the first to the last day of a cycle belongs to that same cycle.
pub proof fn law_days_of_a_cycle_share_it(n: int, m: int)
    requires
        cycle_start_day(n) <= m <= cycle_start_day(n) + 27,
    ensures
        cycle_start_day(m) == cycle_start_day(n),
{
    lemma_cycle_start_bounds(n);
    let e = epoch_day();
    let k = (cycle_start_day(n) - e) / 28;
    vstd::arithmetic::div_mod::lemma_fundamental_div_mod(cycle_start_day(n) - e, 28);
    assert(m - e == 28 * k + (m - cycle_start_day(n)));
    vstd::arithmetic::div_mod::lemma_fundamental_div_mod_converse(m - e, 28, k, m - cycle_start_day(n));
}

/// The cycle after a cycle starts 28 days after it starts.
pub proof fn law_next_cycle_starts_28_days_later(n: int)
    ensures
        cycle_start_day(cycle_start_day(n) + 28) == cycle_start_day(n) + 28,
        cycle_start_day(cycle_start_day(n) + 27 + 1) == cycle_start_day(n) + 28,
{
    lemma_cycle_start_bounds(n);
    let s = cycle_start_day(n);
    let e = epoch_day();
    vstd::arithmetic::div_mod::lemma_fundamental_div_mod(s - e, 28);
    let k = (s - e) / 28;
    vstd::arithmetic::div_mod::lemma_fundamental_div_mod_converse(s + 28 - e, 28, k + 1, 0);
}

/// Two dates of the same cycle get the same cycle: the same code, first day and last day.
pub proof fn law_for_date_is_constant_over_a_cycle(a: AiracCycle, b: AiracCycle, n: int, m: int)
    requires
        a.is_cycle_for(n),
        b.is_cycle_for(m),
        a.contains_day(m),
    ensures
        a.code@ == b.code@,
        a.start_date == b.start_date,
        a.end_date == b.end_date,
{
    lemma_cycle_start_bounds(n);
    law_days_of_a_cycle_share_it(n, m);
    crate::calendar::lemma_day_number_injective(a.start_date, b.start_date);
    crate::calendar::lemma_day_number_injective(a.end_date, b.end_date);
}

fn month_abbrev_of(m: u32) -> (r: &'static str)
    ensures
        r@ == month_abbrev(m as int),
{
    if m == 1 { "JAN" }
    else if m == 2 { "FEB" }
    else if m == 3 { "MAR" }
    else if m == 4 { "APR" }
    else if m == 5 { "MAY" }
    else if m == 6 { "JUN" }
    else if m == 7 { "JUL" }
    else if m == 8 { "AUG" }
    else if m == 9 { "SEP" }
    else if m == 10 { "OCT" }
    else if m == 11 { "NOV" }
    else { "DEC" }
}

fn year_short_of(y: i32) -> (r: u32)
    ensures
        r as nat == year_short(y as int),
{
    if y >= 0 {
        (y as u32) % 100
    } else {
        let a: u32 = ((-(y as i64)) as u32) % 100;
        if a == 0 { 0 } else { (4294967296u64 - a as u64) as u32 }
    }
}

proof fn lemma_floor_nonneg(diff: int, k: int)
    requires
        diff >= 0,
        k == diff / 28,
    ensures
        k * 28 == 28 * (diff / 28),
        0 <= k * 28 <= diff,
{
    assert(k * 28 <= diff) by (nonlinear_arith) requires k == diff / 28, diff >= 0;
    assert(k * 28 >= 0) by (nonlinear_arith) requires k == diff / 28, diff >= 0;
}

proof fn lemma_floor_neg(diff: int, q: int)
    requires
        diff < 0,
        q == (-diff - 1) / 28,
    ensures
        -((q + 1) * 28) == 28 * (diff / 28),
        q >= 0,
{
    let r = (-diff - 1) % 28;
    assert(-diff - 1 == 28 * q + r && 0 <= r < 28) by (nonlinear_arith)
        requires q == (-diff - 1) / 28, diff < 0, r == (-diff - 1) % 28;
    assert(diff == 28 * (-(q + 1)) + (27 - r));
    vstd::arithmetic::div_mod::lemma_fundamental_div_mod_converse(diff, 28, -(q + 1), 27 - r);
    assert(q >= 0) by (nonlinear_arith) requires q == (-diff - 1) / 28, diff < 0;
}

proof fn lemma_cycle_start_bounds(n: int)
    ensures
        cycle_start_day(n) <= n <= cycle_start_day(n) + 27,
        (cycle_start_day(n) - epoch_day()) % 28 == 0,
{
    let e = epoch_day();
    let q = (n - e) / 28;
    let r = (n - e) % 28;
    vstd::arithmetic::div_mod::lemma_fundamental_div_mod(n - e, 28);
    assert(0 <= r < 28);
    vstd::arithmetic::div_mod::lemma_mod_multiples_basic(q, 28);
    assert(28 * q == q * 28) by (nonlinear_arith);
}

proof fn lemma_day_within_year(d: CalendarDate)
    requires
        d.is_valid(),
    ensures
        days_from_civil(d.year as int, 1, 1) <= d.day_number() <= days_from_civil(d.year as int, 1, 1) + 365,
{
}

proof fn lemma_offset(e: int, j: int, e2ys: int, off: int)
    requires
        e2ys == j - e,
        e2ys <= 0 ==> off == (-e2ys) % 28,
        e2ys > 0 ==> off == (28 - (e2ys % 28)) % 28,
    ensures
        off == (e - j) % 28,
{
    if e2ys > 0 {
        let r = e2ys % 28;
        let q = e2ys / 28;
        vstd::arithmetic::div_mod::lemma_fundamental_div_mod(e2ys, 28);
        if r == 0 {
            assert(e - j == 28 * (-q));
            vstd::arithmetic::div_mod::lemma_mod_multiples_basic(-q, 28);
            assert(28 * (-q) == (-q) * 28) by (nonlinear_arith);
        } else {
            assert(e - j == 28 * (-q - 1) + (28 - r));
            vstd::arithmetic::div_mod::lemma_fundamental_div_mod_converse(e - j, 28, -q - 1, 28 - r);
        }
    }
}

proof fn lemma_cycle_number(e: int, j: int, s: int, off: int)
    requires
        off == (e - j) % 28,
        (s - e) % 28 == 0,
        j <= s <= j + 365,
    ensures
        0 <= s - j - off,
        s - j - off <= 365,
        (s - j - off) % 28 == 0,
        1 <= (s - j - off) / 28 + 1 <= 14,
{
    vstd::arithmetic::div_mod::lemma_fundamental_div_mod(e - j, 28);
    vstd::arithmetic::div_mod::lemma_fundamental_div_mod(s - e, 28);
    let a = (e - j) / 28;
    let b = (s - e) / 28;
    assert(s - j - off == 28 * (a + b));
    vstd::arithmetic::div_mod::lemma_mod_multiples_basic(a + b, 28);
    assert(28 * (a + b) == (a + b) * 28) by (nonlinear_arith);
    assert(0 <= off < 28);
    assert(a + b >= 0) by (nonlinear_arith) requires s - j - off == 28 * (a + b), s - j >= 0, off < 28;
    assert(a + b <= 13) by (nonlinear_arith) requires s - j - off == 28 * (a + b), s - j <= 365, off >= 0;
    vstd::arithmetic::div_mod::lemma_div_multiples_vanish(a + b, 28);
}

} // verus!
