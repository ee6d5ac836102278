//! Monthly spending reports: the calendar month of a time zone, and the
//! caller's expenses in it, totalled overall, by category and by local day,
//! with the largest ones listed.
use vstd::prelude::*;
use crate::authz::{status_text, status_to_db};
use crate::ledger::{first_n, keep_first};
use crate::model::{fails_with, AppError, AppResult, AuthUser, ErrorKind, ErrorView};
use crate::primitives::{
    chrono_instant, format_rfc3339, local_date, local_date_text, local_month_start, month_start, rfc3339_text,
    timezone_name, tz_name_of, utc_year_month, utc_year_month_of, uuid_text, uuid_to_string,
};
use crate::ranking::{
    index_precedes, is_ranking, lemma_ranked_order_injective, lemma_ranking_sorted, lemma_ranking_total, lists, rank_sort,
    ranked_order, total_of,
    Ranked,
};
use crate::state::{Expense, MemoryState};
use crate::table::{
    find_index, has_key_in, lemma_push_map, lemma_table_map_at, lemma_update_map, table_map, unique_keys, Keyed,
};
use crate::text::{
    lemma_text_lt_irreflexive, lemma_text_lt_total, lemma_text_lt_transitive, lemma_text_not_lt_transitive, str_lt,
    text_lt,
};

verus! {

/// Query of a monthly report.
#[derive(Debug, PartialEq, Eq)]
pub struct MonthlyReportQuery {
    pub month: Option<u32>,
    pub year: Option<i32>,
    pub timezone: Option<String>,
    pub top_n: Option<usize>,
}

/// The total of one category in a report.
#[derive(Debug, PartialEq, Eq)]
pub struct ReportByCategoryItem {
    pub category_id: String,
    pub total_amount_minor: i64,
}

/// The total of one local day in a report.
#[derive(Debug, PartialEq, Eq)]
pub struct ReportByDayItem {
    pub day: String,
    pub total_amount_minor: i64,
}

/// One of the largest expenses of a report.
#[derive(Debug, PartialEq, Eq)]
pub struct TopSpendingItem {
    pub id: String,
    pub category_id: String,
    pub amount_minor: i64,
    pub currency: String,
    pub status: String,
    pub occurred_at: String,
}

/// The period a report covers.
#[derive(Debug, PartialEq, Eq)]
pub struct MonthlyReportPeriod {
    pub month: u32,
    pub year: i32,
    pub timezone: String,
    pub from_utc: String,
    pub to_utc: String,
}

/// A monthly report.
#[derive(Debug, PartialEq, Eq)]
pub struct MonthlyReportResponse {
    pub total_amount_minor: i64,
    pub by_category: Vec<ReportByCategoryItem>,
    pub by_day: Vec<ReportByDayItem>,
    pub top_spending: Vec<TopSpendingItem>,
    pub period: MonthlyReportPeriod,
}

/// A resolved report period: the month and year, the canonical name of the
/// time zone, and the instants (microseconds since the epoch) at which the
/// month begins and the next one begins there.
#[derive(Debug, PartialEq, Eq)]
pub struct ReportPeriod {
    pub month: u32,
    pub year: i32,
    pub timezone: String,
    pub from: i64,
    pub to: i64,
}

// ---------------------------------------------------------------------------
// The period
// ---------------------------------------------------------------------------

/// The month and year that follow `month` of `year`.
pub open spec fn following_month(year: int, month: int) -> (int, int) {
    if month == 12 {
        (year + 1, 1)
    } else {
        (year, month + 1)
    }
}

/// What the period of a report asked for by `q` at `now` is: month and year
/// default to those of `now` in UTC, the zone to `UTC`; the month must be
/// from 1 to 12, the zone known, and the first instants of the month and of
/// the next one in that zone must exist exactly once.
pub open spec fn period_resolution(q: MonthlyReportQuery, now: i64) -> Result<(u32, i32, Seq<char>, i64, i64), ErrorView> {
    let month = match q.month {
        Some(m) => m,
        None => utc_year_month_of(now).1,
    };
    let year = match q.year {
        Some(y) => y,
        None => utc_year_month_of(now).0,
    };
    let zone = match q.timezone {
        Some(t) => t@,
        None => "UTC"@,
    };
    if !(1 <= month <= 12) {
        Err((ErrorKind::BadRequest, "month must be between 1 and 12"@))
    } else {
        match tz_name_of(zone) {
            None => Err((ErrorKind::BadRequest, "invalid timezone"@)),
            Some(tz) => match local_month_start(tz, year, month) {
                None => Err((ErrorKind::BadRequest, "invalid report period"@)),
                Some(from) => {
                    let next = following_month(year as int, month as int);
                    match local_month_start(tz, next.0 as i32, next.1 as u32) {
                        None => Err((ErrorKind::BadRequest, "invalid report period"@)),
                        Some(to) => Ok((month, year, tz, from, to)),
                    }
                },
            },
        }
    }
}

/// A resolved period covers exactly the requested calendar month: it runs
/// from the first instant of that month in the zone to the first instant of
/// the calendar month right after it (the next month of the same year, or
/// January of the next year after December), for any year below
/// `i32::MAX`.
pub proof fn law_period_is_one_month(q: MonthlyReportQuery, now: i64)
    requires
        period_resolution(q, now) is Ok,
        period_resolution(q, now)->Ok_0.1 < i32::MAX,
    ensures
        ({
            let v = period_resolution(q, now)->Ok_0;
            &&& 1 <= v.0 <= 12
            &&& local_month_start(v.2, v.1, v.0) == Some(v.3)
            &&& exists|y: i32, m: u32|
                1 <= m <= 12 && y * 12 + m == v.1 * 12 + v.0 + 1 && #[trigger] local_month_start(v.2, y, m) == Some(
                    v.4,
                )
        }),
{
    let v = period_resolution(q, now)->Ok_0;
    if v.0 == 12 {
        let y: i32 = (v.1 + 1) as i32;
        assert(local_month_start(v.2, y, 1u32) == Some(v.4));
    } else {
        let m: u32 = (v.0 + 1) as u32;
        assert(local_month_start(v.2, v.1, m) == Some(v.4));
    }
}

/// Whether `p` holds the resolved period `v`.
pub open spec fn period_is(p: ReportPeriod, v: (u32, i32, Seq<char>, i64, i64)) -> bool {
    p.month == v.0 && p.year == v.1 && p.timezone@ == v.2 && p.from == v.3 && p.to == v.4
}

/// Whether `p` is a period a report can be made of: its zone name is
/// canonical and its bounds are instants.
pub open spec fn period_ok(p: ReportPeriod) -> bool {
    &&& tz_name_of(p.timezone@) == Some(p.timezone@)
    &&& chrono_instant(p.from as int)
    &&& chrono_instant(p.to as int)
}

/// Resolves the period of a report asked for at `now`.
pub fn resolve_period(query: &MonthlyReportQuery, now: i64) -> (r: AppResult<ReportPeriod>)
    requires
        chrono_instant(now as int),
    ensures
        match period_resolution(*query, now) {
            Err(e) => fails_with(r, e),
            Ok(v) => r matches Ok(p) && period_is(p, v) && period_ok(p),
        },
{
    let (now_year, now_month) = utc_year_month(now);
    let month = match query.month {
        Some(m) => m,
        None => now_month,
    };
    let year = match query.year {
        Some(y) => y,
        None => now_year,
    };
    if !(1 <= month && month <= 12) {
        return Err(AppError::bad_request("month must be between 1 and 12"));
    }
    let zone_text = match &query.timezone {
        Some(t) => t.clone(),
        None => "UTC".to_owned(),
    };
    let tz = match timezone_name(zone_text.as_str()) {
        None => {
            return Err(AppError::bad_request("invalid timezone"));
        },
        Some(n) => n,
    };
    let from = match month_start(tz.as_str(), year, month) {
        None => {
            return Err(AppError::bad_request("invalid report period"));
        },
        Some(t) => t,
    };
    let (next_year, next_month) = if month == 12 {
        (year + 1, 1)
    } else {
        (year, month + 1)
    };
    let to = match month_start(tz.as_str(), next_year, next_month) {
        None => {
            return Err(AppError::bad_request("invalid report period"));
        },
        Some(t) => t,
    };
    Ok(ReportPeriod { month, year, timezone: tz, from, to })
}

/// How many of the largest expenses a report lists: 5 unless given, kept
/// within 1 to 20.
pub open spec fn top_count(top_n: Option<usize>) -> usize {
    match top_n {
        None => 5,
        Some(n) => if n < 1 {
            1
        } else if n > 20 {
            20
        } else {
            n
        },
    }
}

/// How many of the largest expenses a report lists.
pub fn top_count_of(top_n: Option<usize>) -> (r: usize)
    ensures
        r == top_count(top_n),
{
    match top_n {
        None => 5,
        Some(n) => if n < 1 {
            1
        } else if n > 20 {
            20
        } else {
            n
        },
    }
}

// ---------------------------------------------------------------------------
// Totals
// ---------------------------------------------------------------------------

/// The sum of the amounts of `s`.
pub open spec fn amount_sum(s: Seq<Expense>) -> int
    decreases s.len(),
{
    if s.len() == 0 {
        0
    } else {
        amount_sum(s.drop_last()) + s.last().amount_minor
    }
}

/// The sum of `s`.
pub open spec fn int_sum(s: Seq<int>) -> int
    decreases s.len(),
{
    if s.len() == 0 {
        0
    } else {
        int_sum(s.drop_last()) + s.last()
    }
}

/// Whether the expense `e` of account `uid` occurred in `[from, to)`.
pub open spec fn in_period(uid: u128, from: i64, to: i64, e: Expense) -> bool {
    e.owner_user_id == uid && from <= e.occurred_at && e.occurred_at < to
}

/// The test of whether an expense of account `uid` occurred in `[from, to)`.
pub open spec fn period_filter(uid: u128, from: i64, to: i64) -> spec_fn(Expense) -> bool {
    |e: Expense| in_period(uid, from, to, e)
}

/// The expenses of `s` that a report for account `uid` over `[from, to)`
/// covers, in table order.
pub open spec fn covered(s: Seq<Expense>, uid: u128, from: i64, to: i64) -> Seq<Expense> {
    s.filter(period_filter(uid, from, to))
}

/// Whether each expense of `s` that a report for account `uid` over
/// `[from, to)` covers has a local date in the zone `tz`.
pub open spec fn days_known(s: Seq<Expense>, uid: u128, tz: Seq<char>, from: i64, to: i64) -> bool {
    forall|i: int|
        #![trigger s[i]]
        0 <= i < s.len() && in_period(uid, from, to, s[i]) ==> local_date_text(tz, s[i].occurred_at) is Some
}

/// The key a category is grouped by in a report: the text of its id.
pub open spec fn by_category_key() -> spec_fn(Expense) -> Seq<char> {
    |e: Expense| uuid_text(e.category_id)
}

/// The key a local day is grouped by in a report of zone `tz`: the text of
/// the date on which the expense occurred there.
pub open spec fn by_day_key(tz: Seq<char>) -> spec_fn(Expense) -> Seq<char> {
    |e: Expense|
        match local_date_text(tz, e.occurred_at) {
            Some(d) => d,
            None => Seq::empty(),
        }
}

/// The expenses of `picked` whose key is `k`.
pub open spec fn group_of(picked: Seq<Expense>, key: spec_fn(Expense) -> Seq<char>, k: Seq<char>) -> Seq<Expense> {
    picked.filter(|e: Expense| key(e) == k)
}

/// `keys` and `totals` are the groups of `picked` by `key`: each key of an
/// expense once, with the sum of the amounts of its expenses.
pub open spec fn grouped(picked: Seq<Expense>, key: spec_fn(Expense) -> Seq<char>, keys: Seq<Seq<char>>, totals: Seq<int>) -> bool {
    &&& keys.len() == totals.len()
    &&& forall|i: int, j: int| 0 <= i < keys.len() && 0 <= j < keys.len() && i != j ==> #[trigger] keys[i] != #[trigger] keys[j]
    &&& forall|k: Seq<char>| #[trigger] keys.contains(k) <==> group_of(picked, key, k).len() > 0
    &&& forall|i: int| 0 <= i < keys.len() ==> #[trigger] totals[i] == amount_sum(group_of(picked, key, keys[i]))
}

/// The category keys of a report's category totals.
pub open spec fn category_keys(items: Seq<ReportByCategoryItem>) -> Seq<Seq<char>> {
    items.map_values(|x: ReportByCategoryItem| x.category_id@)
}

/// The amounts of a report's category totals.
pub open spec fn category_totals(items: Seq<ReportByCategoryItem>) -> Seq<int> {
    items.map_values(|x: ReportByCategoryItem| x.total_amount_minor as int)
}

/// The days of a report's daily totals.
pub open spec fn day_keys(items: Seq<ReportByDayItem>) -> Seq<Seq<char>> {
    items.map_values(|x: ReportByDayItem| x.day@)
}

/// The amounts of a report's daily totals.
pub open spec fn day_totals(items: Seq<ReportByDayItem>) -> Seq<int> {
    items.map_values(|x: ReportByDayItem| x.total_amount_minor as int)
}

/// `it` is the expense `e` as a report lists it among the largest.
pub open spec fn top_item(e: Expense, it: TopSpendingItem) -> bool {
    &&& it.id@ == uuid_text(e.id)
    &&& it.category_id@ == uuid_text(e.category_id)
    &&& it.amount_minor == e.amount_minor
    &&& it.currency@ == e.currency@
    &&& it.status@ == status_text(e.status)
    &&& it.occurred_at@ == rfc3339_text(e.occurred_at)
}

impl Ranked for ReportByDayItem {
    /// Earlier day (by its text) first.
    open spec fn ranks_before(&self, other: &Self) -> bool {
        text_lt(self.day@, other.day@)
    }

    proof fn lemma_irreflexive(a: &Self) {
        lemma_text_lt_irreflexive(a.day@);
    }

    proof fn lemma_transitive(a: &Self, b: &Self, c: &Self) {
        lemma_text_lt_transitive(a.day@, b.day@, c.day@);
    }

    proof fn lemma_not_before_transitive(a: &Self, b: &Self, c: &Self) {
        lemma_text_not_lt_transitive(a.day@, b.day@, c.day@);
    }

    fn before(&self, other: &Self) -> (r: bool) {
        str_lt(self.day.as_str(), other.day.as_str())
    }
}

impl Ranked for TopSpendingItem {
    /// Larger amount first; for equal amounts, later occurrence (by its
    /// text) first.
    open spec fn ranks_before(&self, other: &Self) -> bool {
        self.amount_minor > other.amount_minor || (self.amount_minor == other.amount_minor && text_lt(
            other.occurred_at@,
            self.occurred_at@,
        ))
    }

    proof fn lemma_irreflexive(a: &Self) {
        lemma_text_lt_irreflexive(a.occurred_at@);
    }

    proof fn lemma_transitive(a: &Self, b: &Self, c: &Self) {
        if a.amount_minor == b.amount_minor && b.amount_minor == c.amount_minor {
            lemma_text_lt_transitive(c.occurred_at@, b.occurred_at@, a.occurred_at@);
        }
    }

    proof fn lemma_not_before_transitive(a: &Self, b: &Self, c: &Self) {
        if a.amount_minor == b.amount_minor && b.amount_minor == c.amount_minor {
            lemma_text_not_lt_transitive(c.occurred_at@, b.occurred_at@, a.occurred_at@);
        }
    }

    fn before(&self, other: &Self) -> (r: bool) {
        self.amount_minor > other.amount_minor || (self.amount_minor == other.amount_minor && str_lt(
            other.occurred_at.as_str(),
            self.occurred_at.as_str(),
        ))
    }
}

// ---------------------------------------------------------------------------
// Running totals by key
// ---------------------------------------------------------------------------

/// A running total under a text key.
pub struct Tally {
    pub key: String,
    pub total: i128,
}

impl Keyed for Tally {
    type Key = String;

    open spec fn key(&self) -> Seq<char> {
        self.key@
    }

    fn has_key(&self, k: &String) -> (r: bool) {
        self.key == *k
    }
}

spec fn tally_value(x: Tally) -> int {
    x.total as int
}

spec fn tally_sum(t: Seq<Tally>) -> int {
    total_of(t, |x: Tally| tally_value(x))
}

proof fn lemma_total_of_update<T>(s: Seq<T>, f: spec_fn(T) -> int, j: int, x: T)
    requires
        0 <= j < s.len(),
    ensures
        total_of(s.update(j, x), f) == total_of(s, f) - f(s[j]) + f(x),
    decreases s.len(),
{
    if j == s.len() - 1 {
        assert(s.update(j, x).drop_last() =~= s.drop_last());
    } else {
        lemma_total_of_update(s.drop_last(), f, j, x);
        assert(s.update(j, x).drop_last() =~= s.drop_last().update(j, x));
    }
}

proof fn lemma_positive_le_total(t: Seq<Tally>, j: int)
    requires
        0 <= j < t.len(),
        forall|k: int| 0 <= k < t.len() ==> #[trigger] t[k].total > 0,
    ensures
        t[j].total <= tally_sum(t),
    decreases t.len(),
{
    let d = t.drop_last();
    assert forall|k: int| 0 <= k < d.len() implies #[trigger] d[k].total > 0 by {
        assert(d[k] == t[k]);
    }
    assert(tally_sum(t) == tally_sum(d) + tally_value(t.last()));
    lemma_nonnegative_total(d);
    if j < t.len() - 1 {
        lemma_positive_le_total(d, j);
        assert(d[j] == t[j]);
    }
}

proof fn lemma_nonnegative_total(t: Seq<Tally>)
    requires
        forall|k: int| 0 <= k < t.len() ==> #[trigger] t[k].total > 0,
    ensures
        tally_sum(t) >= 0,
    decreases t.len(),
{
    if t.len() > 0 {
        let d = t.drop_last();
        assert forall|k: int| 0 <= k < d.len() implies #[trigger] d[k].total > 0 by {
            assert(d[k] == t[k]);
        }
        lemma_nonnegative_total(d);
        assert(tally_sum(t) == tally_sum(d) + tally_value(t.last()));
    }
}

/// `t` is `s` with `amount` added to the running total of `key`.
spec fn tally_added(s: Seq<Tally>, t: Seq<Tally>, key: Seq<char>, amount: int) -> bool {
    &&& unique_keys(t)
    &&& forall|j: int| 0 <= j < t.len() ==> #[trigger] t[j].total > 0
    &&& tally_sum(t) == tally_sum(s) + amount
    &&& forall|k: Seq<char>| #[trigger] table_map(t).contains_key(k) <==> (table_map(s).contains_key(k) || k == key)
    &&& forall|k: Seq<char>|
        table_map(t).contains_key(k) ==> #[trigger] table_map(t)[k].total == (if table_map(s).contains_key(k) {
            table_map(s)[k].total as int
        } else {
            0
        }) + (if k == key {
            amount
        } else {
            0
        })
}

/// The running totals `t` are those of the expenses `p` grouped by `key`.
spec fn tallies(t: Seq<Tally>, p: Seq<Expense>, key: spec_fn(Expense) -> Seq<char>) -> bool {
    &&& unique_keys(t)
    &&& forall|j: int| 0 <= j < t.len() ==> #[trigger] t[j].total > 0
    &&& tally_sum(t) == amount_sum(p)
    &&& forall|k: Seq<char>| #[trigger] table_map(t).contains_key(k) <==> group_of(p, key, k).len() > 0
    &&& forall|k: Seq<char>| table_map(t).contains_key(k) ==> #[trigger] table_map(t)[k].total == amount_sum(group_of(p, key, k))
}

proof fn lemma_push_groups(p: Seq<Expense>, e: Expense, key: spec_fn(Expense) -> Seq<char>)
    ensures
        amount_sum(p.push(e)) == amount_sum(p) + e.amount_minor,
        forall|k: Seq<char>| #[trigger] group_of(p.push(e), key, k) == if key(e) == k {
            group_of(p, key, k).push(e)
        } else {
            group_of(p, key, k)
        },
{
    assert(p.push(e).drop_last() =~= p);
    assert forall|k: Seq<char>| #[trigger] group_of(p.push(e), key, k) == if key(e) == k {
        group_of(p, key, k).push(e)
    } else {
        group_of(p, key, k)
    } by {
        reveal(Seq::filter);
        assert(p.push(e).drop_last() =~= p);
    }
}

proof fn lemma_tallies_step(s: Seq<Tally>, t: Seq<Tally>, p: Seq<Expense>, e: Expense, key: spec_fn(Expense) -> Seq<char>)
    requires
        tallies(s, p, key),
        tally_added(s, t, key(e), e.amount_minor as int),
        e.amount_minor > 0,
    ensures
        tallies(t, p.push(e), key),
{
    lemma_push_groups(p, e, key);
    assert forall|k: Seq<char>| #[trigger] table_map(t).contains_key(k) <==> group_of(p.push(e), key, k).len() > 0 by {
        assert(group_of(p.push(e), key, k) == if key(e) == k {
            group_of(p, key, k).push(e)
        } else {
            group_of(p, key, k)
        });
    }
    assert forall|k: Seq<char>| table_map(t).contains_key(k) implies #[trigger] table_map(t)[k].total == amount_sum(
        group_of(p.push(e), key, k),
    ) by {
        assert(group_of(p.push(e), key, k) == if key(e) == k {
            group_of(p, key, k).push(e)
        } else {
            group_of(p, key, k)
        });
        lemma_push_groups(group_of(p, key, k), e, key);
        if !table_map(s).contains_key(k) {
            assert(group_of(p, key, k).len() == 0);
        }
    }
}

/// Adds `amount` to the running total of `key`, starting one at zero if
/// there is none yet.
fn add_to_tally(t: &mut Vec<Tally>, key: &String, amount: i64)
    requires
        unique_keys(old(t)@),
        amount > 0,
        forall|j: int| 0 <= j < old(t)@.len() ==> #[trigger] old(t)@[j].total > 0,
        tally_sum(old(t)@) + amount <= i128::MAX,
    ensures
        tally_added(old(t)@, final(t)@, key@, amount as int),
{
    match find_index(t, key) {
        Some(i) => {
            proof {
                lemma_table_map_at(t@, i as int);
                lemma_positive_le_total(t@, i as int);
            }
            let x = Tally { key: key.clone(), total: t[i].total + amount as i128 };
            let ghost xv = x;
            t.set(i, x);
            proof {
                lemma_update_map(old(t)@, i as int, xv);
                lemma_total_of_update(old(t)@, |x: Tally| tally_value(x), i as int, xv);
                assert forall|j: int| 0 <= j < t@.len() implies #[trigger] t@[j].total > 0 by {
                    if j != i {
                        assert(t@[j] == old(t)@[j]);
                    }
                }
            }
        },
        None => {
            let x = Tally { key: key.clone(), total: amount as i128 };
            let ghost xv = x;
            t.push(x);
            proof {
                lemma_push_map(old(t)@, xv);
                assert(t@.drop_last() =~= old(t)@);
                assert forall|j: int| 0 <= j < t@.len() implies #[trigger] t@[j].total > 0 by {
                    if j < old(t)@.len() {
                        assert(t@[j] == old(t)@[j]);
                    }
                }
            }
        },
    }
}

// ---------------------------------------------------------------------------
// The report
// ---------------------------------------------------------------------------

proof fn lemma_grouped_of_tallies(
    t: Seq<Tally>,
    p: Seq<Expense>,
    key: spec_fn(Expense) -> Seq<char>,
    keys: Seq<Seq<char>>,
    totals: Seq<int>,
)
    requires
        tallies(t, p, key),
        keys.len() == t.len(),
        totals.len() == t.len(),
        forall|m: int| 0 <= m < t.len() ==> #[trigger] keys[m] == t[m].key@ && totals[m] == t[m].total,
    ensures
        grouped(p, key, keys, totals),
{
    assert forall|i: int, j: int| 0 <= i < keys.len() && 0 <= j < keys.len() && i != j implies #[trigger] keys[i]
        != #[trigger] keys[j] by {
        assert(t[i].key() != t[j].key());
    }
    assert forall|k: Seq<char>| #[trigger] keys.contains(k) <==> group_of(p, key, k).len() > 0 by {
        if keys.contains(k) {
            let m = choose|m: int| 0 <= m < keys.len() && keys[m] == k;
            assert(t[m].key() == k);
            assert(has_key_in(t, k));
            assert(table_map(t).contains_key(k));
        }
        if group_of(p, key, k).len() > 0 {
            assert(table_map(t).contains_key(k));
            assert(has_key_in(t, k));
            let m = choose|m: int| 0 <= m < t.len() && #[trigger] t[m].key() == k;
            assert(keys[m] == k);
        }
    }
    assert forall|i: int| 0 <= i < keys.len() implies #[trigger] totals[i] == amount_sum(group_of(p, key, keys[i])) by {
        lemma_table_map_at(t, i);
    }
}

proof fn lemma_grouped_ranking(
    p: Seq<Expense>,
    key: spec_fn(Expense) -> Seq<char>,
    items: Seq<ReportByDayItem>,
    sorted: Seq<ReportByDayItem>,
)
    requires
        grouped(p, key, day_keys(items), day_totals(items)),
        is_ranking(items, sorted),
    ensures
        grouped(p, key, day_keys(sorted), day_totals(sorted)),
        forall|a: int, b: int| 0 <= a < b < sorted.len() ==> text_lt(#[trigger] sorted[a].day@, #[trigger] sorted[b].day@),
{
    let idx = choose|idx: Seq<int>| ranked_order(items, idx) && sorted == idx.map_values(|i: int| items[i]);
    lemma_ranked_order_injective(items, idx);
    let keys = day_keys(items);
    let skeys = day_keys(sorted);
    assert forall|a: int, b: int| 0 <= a < skeys.len() && 0 <= b < skeys.len() && a != b implies #[trigger] skeys[a]
        != #[trigger] skeys[b] by {
        assert(skeys[a] == keys[idx[a]]);
        assert(skeys[b] == keys[idx[b]]);
    }
    assert forall|k: Seq<char>| #[trigger] skeys.contains(k) <==> group_of(p, key, k).len() > 0 by {
        if skeys.contains(k) {
            let a = choose|a: int| 0 <= a < skeys.len() && skeys[a] == k;
            assert(keys[idx[a]] == k);
            assert(keys.contains(k));
        }
        if group_of(p, key, k).len() > 0 {
            assert(keys.contains(k));
            let m = choose|m: int| 0 <= m < keys.len() && keys[m] == k;
            assert(lists(idx, m));
            let a = choose|a: int| 0 <= a < idx.len() && #[trigger] idx[a] == m;
            assert(skeys[a] == k);
        }
    }
    assert forall|a: int| 0 <= a < skeys.len() implies #[trigger] day_totals(sorted)[a] == amount_sum(
        group_of(p, key, skeys[a]),
    ) by {
        assert(sorted[a] == items[idx[a]]);
        assert(day_totals(items)[idx[a]] == amount_sum(group_of(p, key, keys[idx[a]])));
    }
    assert forall|a: int, b: int| 0 <= a < b < sorted.len() implies text_lt(#[trigger] sorted[a].day@, #[trigger] sorted[b].day@) by {
        assert(index_precedes(items, idx[a], idx[b]));
        assert(sorted[a] == items[idx[a]]);
        assert(sorted[b] == items[idx[b]]);
        assert(keys[idx[a]] != keys[idx[b]]);
        lemma_text_lt_total(sorted[a].day@, sorted[b].day@);
    }
}

fn category_items(t: &Vec<Tally>) -> (r: Vec<ReportByCategoryItem>)
    requires
        forall|j: int| 0 <= j < t@.len() ==> 0 < #[trigger] t@[j].total <= i64::MAX,
    ensures
        r@.len() == t@.len(),
        forall|m: int| 0 <= m < t@.len() ==> #[trigger] category_keys(r@)[m] == t@[m].key@ && category_totals(r@)[m]
            == t@[m].total,
        total_of(r@, |x: ReportByCategoryItem| x.total_amount_minor as int) == tally_sum(t@),
{
    let mut r: Vec<ReportByCategoryItem> = Vec::new();
    let mut j: usize = 0;
    while j < t.len()
        invariant
            j <= t@.len(),
            forall|j: int| 0 <= j < t@.len() ==> 0 < #[trigger] t@[j].total <= i64::MAX,
            r@.len() == j,
            forall|m: int| 0 <= m < j ==> #[trigger] r@[m].category_id@ == t@[m].key@ && r@[m].total_amount_minor == t@[m].total,
            total_of(r@, |x: ReportByCategoryItem| x.total_amount_minor as int) == tally_sum(t@.take(j as int)),
        decreases t@.len() - j,
    {
        let ghost before = r@;
        r.push(ReportByCategoryItem { category_id: t[j].key.clone(), total_amount_minor: t[j].total as i64 });
        proof {
            assert(r@.drop_last() =~= before);
            assert(t@.take(j + 1).drop_last() =~= t@.take(j as int));
        }
        j = j + 1;
    }
    proof {
        assert(t@.take(t@.len() as int) =~= t@);
    }
    proof {
        assert forall|m: int| 0 <= m < t@.len() implies #[trigger] category_keys(r@)[m] == t@[m].key@
            && category_totals(r@)[m] == t@[m].total by {
            assert(r@[m].category_id@ == t@[m].key@);
        }
    }
    r
}

fn day_items(t: &Vec<Tally>) -> (r: Vec<ReportByDayItem>)
    requires
        forall|j: int| 0 <= j < t@.len() ==> 0 < #[trigger] t@[j].total <= i64::MAX,
    ensures
        r@.len() == t@.len(),
        forall|m: int| 0 <= m < t@.len() ==> #[trigger] day_keys(r@)[m] == t@[m].key@ && day_totals(r@)[m] == t@[m].total,
        total_of(r@, |x: ReportByDayItem| x.total_amount_minor as int) == tally_sum(t@),
{
    let mut r: Vec<ReportByDayItem> = Vec::new();
    let mut j: usize = 0;
    while j < t.len()
        invariant
            j <= t@.len(),
            forall|j: int| 0 <= j < t@.len() ==> 0 < #[trigger] t@[j].total <= i64::MAX,
            r@.len() == j,
            forall|m: int| 0 <= m < j ==> #[trigger] r@[m].day@ == t@[m].key@ && r@[m].total_amount_minor == t@[m].total,
            total_of(r@, |x: ReportByDayItem| x.total_amount_minor as int) == tally_sum(t@.take(j as int)),
        decreases t@.len() - j,
    {
        let ghost before = r@;
        r.push(ReportByDayItem { day: t[j].key.clone(), total_amount_minor: t[j].total as i64 });
        proof {
            assert(r@.drop_last() =~= before);
            assert(t@.take(j + 1).drop_last() =~= t@.take(j as int));
        }
        j = j + 1;
    }
    proof {
        assert(t@.take(t@.len() as int) =~= t@);
    }
    proof {
        assert forall|m: int| 0 <= m < t@.len() implies #[trigger] day_keys(r@)[m] == t@[m].key@
            && day_totals(r@)[m] == t@[m].total by {
            assert(r@[m].day@ == t@[m].key@);
        }
    }
    r
}

/// `r` is the report over `period` of the expenses `picked`, listing the
/// `top_count(top_n)` largest: their total; their totals by category (in no
/// particular order) and by local day (earliest day first); the largest
/// ones, largest first (for equal amounts, latest first; ties in table
/// order); and the period.
pub open spec fn report_of(picked: Seq<Expense>, period: ReportPeriod, top_n: Option<usize>, r: MonthlyReportResponse) -> bool {
    &&& r.total_amount_minor == amount_sum(picked)
    &&& grouped(picked, by_category_key(), category_keys(r.by_category@), category_totals(r.by_category@))
    &&& grouped(picked, by_day_key(period.timezone@), day_keys(r.by_day@), day_totals(r.by_day@))
    &&& forall|a: int, b: int| 0 <= a < b < r.by_day@.len() ==> text_lt(#[trigger] r.by_day@[a].day@, #[trigger] r.by_day@[b].day@)
    &&& exists|items: Seq<TopSpendingItem>, sorted: Seq<TopSpendingItem>|
        #![trigger is_ranking(items, sorted)]
        {
            &&& items.len() == picked.len()
            &&& (forall|i: int| 0 <= i < picked.len() ==> top_item(picked[i], #[trigger] items[i]))
            &&& is_ranking(items, sorted)
            &&& r.top_spending@ == first_n(sorted, top_count(top_n) as int)
        }
    &&& r.period.month == period.month
    &&& r.period.year == period.year
    &&& r.period.timezone@ == period.timezone@
    &&& r.period.from_utc@ == rfc3339_text(period.from)
    &&& r.period.to_utc@ == rfc3339_text(period.to)
}

fn top_item_of(e: &Expense) -> (r: TopSpendingItem)
    requires
        chrono_instant(e.occurred_at as int),
    ensures
        top_item(*e, r),
{
    TopSpendingItem {
        id: uuid_to_string(e.id),
        category_id: uuid_to_string(e.category_id),
        amount_minor: e.amount_minor,
        currency: e.currency.clone(),
        status: status_to_db(&e.status).to_owned(),
        occurred_at: format_rfc3339(e.occurred_at),
    }
}

impl MemoryState {
    /// The caller's report over `period`: the expenses the caller owns that
    /// occurred from the start of the month up to the start of the next.
    /// The category totals and the daily totals each add up to the total.
    pub fn monthly_summary(&self, auth: &AuthUser, period: &ReportPeriod, top_n: Option<usize>) -> (r: MonthlyReportResponse)
        requires
            self.wf(),
            period_ok(*period),
            amount_sum(covered(self.expenses@, auth.user_id, period.from, period.to)) <= i64::MAX,
            days_known(self.expenses@, auth.user_id, period.timezone@, period.from, period.to),
        ensures
            report_of(covered(self.expenses@, auth.user_id, period.from, period.to), *period, top_n, r),
            total_of(r.by_category@, |x: ReportByCategoryItem| x.total_amount_minor as int) == r.total_amount_minor,
            total_of(r.by_day@, |x: ReportByDayItem| x.total_amount_minor as int) == r.total_amount_minor,
    {
        let uid = auth.user_id;
        let ghost inp = period_filter(uid, period.from, period.to);
        let ghost ckey = by_category_key();
        let ghost dkey = by_day_key(period.timezone@);
        let mut total: i128 = 0;
        let mut cats: Vec<Tally> = Vec::new();
        let mut days: Vec<Tally> = Vec::new();
        let mut tops: Vec<TopSpendingItem> = Vec::new();
        let mut i: usize = 0;
        proof {
            assert(self.expenses@.take(0).filter(inp) =~= Seq::<Expense>::empty()) by {
                reveal(Seq::filter);
            }
            assert forall|k: Seq<char>| #[trigger] table_map(cats@).contains_key(k) <==> group_of(
                self.expenses@.take(0).filter(inp),
                ckey,
                k,
            ).len() > 0 by {
                reveal(Seq::filter);
            }
            assert forall|k: Seq<char>| #[trigger] table_map(days@).contains_key(k) <==> group_of(
                self.expenses@.take(0).filter(inp),
                dkey,
                k,
            ).len() > 0 by {
                reveal(Seq::filter);
            }
        }
        while i < self.expenses.len()
            invariant
                self.wf(),
                period_ok(*period),
                uid == auth.user_id,
                inp == period_filter(uid, period.from, period.to),
                ckey == by_category_key(),
                dkey == by_day_key(period.timezone@),
                days_known(self.expenses@, auth.user_id, period.timezone@, period.from, period.to),
                i <= self.expenses@.len(),
                total == amount_sum(self.expenses@.take(i as int).filter(inp)),
                0 <= total <= i * 9223372036854775807,
                tallies(cats@, self.expenses@.take(i as int).filter(inp), ckey),
                tallies(days@, self.expenses@.take(i as int).filter(inp), dkey),
                tops@.len() == self.expenses@.take(i as int).filter(inp).len(),
                forall|j: int| 0 <= j < tops@.len() ==> top_item(
                    self.expenses@.take(i as int).filter(inp)[j],
                    #[trigger] tops@[j],
                ),
            decreases self.expenses@.len() - i,
        {
            let e = &self.expenses[i];
            let ghost p = self.expenses@.take(i as int).filter(inp);
            proof {
                reveal(Seq::filter);
                assert(self.expenses@.take(i + 1).drop_last() =~= self.expenses@.take(i as int));
                assert(chrono_instant(self.expenses@[i as int].occurred_at as int));
                assert(self.expenses@[i as int].amount_minor > 0);
            }
            if e.owner_user_id == uid && !(e.occurred_at < period.from || e.occurred_at >= period.to) {
                let ghost cats0 = cats@;
                let ghost days0 = days@;
                total = total + e.amount_minor as i128;
                let ck = uuid_to_string(e.category_id);
                add_to_tally(&mut cats, &ck, e.amount_minor);
                proof {
                    assert(in_period(uid, period.from, period.to, self.expenses@[i as int]));
                }
                let dk = local_date(period.timezone.as_str(), e.occurred_at).unwrap();
                add_to_tally(&mut days, &dk, e.amount_minor);
                tops.push(top_item_of(e));
                proof {
                    assert(self.expenses@.take(i + 1).filter(inp) == p.push(*e));
                    lemma_tallies_step(cats0, cats@, p, *e, ckey);
                    lemma_tallies_step(days0, days@, p, *e, dkey);
                    lemma_push_groups(p, *e, ckey);
                }
            } else {
                proof {
                    assert(self.expenses@.take(i + 1).filter(inp) == p);
                }
            }
            i = i + 1;
        }
        let ghost picked = covered(self.expenses@, uid, period.from, period.to);
        proof {
            assert(self.expenses@.take(self.expenses@.len() as int) =~= self.expenses@);
            assert forall|j: int| 0 <= j < cats@.len() implies 0 < #[trigger] cats@[j].total <= i64::MAX by {
                lemma_positive_le_total(cats@, j);
            }
            assert forall|j: int| 0 <= j < days@.len() implies 0 < #[trigger] days@[j].total <= i64::MAX by {
                lemma_positive_le_total(days@, j);
            }
        }
        let by_category = category_items(&cats);
        let unsorted_days = day_items(&days);
        proof {
            lemma_grouped_of_tallies(cats@, picked, ckey, category_keys(by_category@), category_totals(by_category@));
            lemma_grouped_of_tallies(days@, picked, dkey, day_keys(unsorted_days@), day_totals(unsorted_days@));
        }
        let ghost unsorted_v = unsorted_days@;
        let by_day = rank_sort(unsorted_days);
        proof {
            lemma_grouped_ranking(picked, dkey, unsorted_v, by_day@);
            lemma_ranking_total(unsorted_v, by_day@, |x: ReportByDayItem| x.total_amount_minor as int);
        }
        let top = top_count_of(top_n);
        let ghost tops_v = tops@;
        let mut top_spending = rank_sort(tops);
        let ghost sorted_tops = top_spending@;
        keep_first(&mut top_spending, top);
        let r = MonthlyReportResponse {
            total_amount_minor: total as i64,
            by_category,
            by_day,
            top_spending,
            period: MonthlyReportPeriod {
                month: period.month,
                year: period.year,
                timezone: period.timezone.clone(),
                from_utc: format_rfc3339(period.from),
                to_utc: format_rfc3339(period.to),
            },
        };
        proof {
            assert(is_ranking(tops_v, sorted_tops));
        }
        r
    }
}

impl MemoryState {
    /// Whether the amounts of the expenses of account `uid` that occurred in
    /// `[from, to)` add up to at most `i64::MAX`.
    pub fn period_total_fits(&self, uid: u128, from: i64, to: i64) -> (r: bool)
        requires
            self.wf(),
        ensures
            r == (amount_sum(covered(self.expenses@, uid, from, to)) <= i64::MAX),
    {
        let ghost inp = period_filter(uid, from, to);
        let mut acc: i128 = 0;
        let mut i: usize = 0;
        proof {
            assert(self.expenses@.take(0).filter(inp) =~= Seq::<Expense>::empty()) by {
                reveal(Seq::filter);
            }
        }
        while i < self.expenses.len()
            invariant
                self.wf(),
                inp == period_filter(uid, from, to),
                i <= self.expenses@.len(),
                acc == amount_sum(self.expenses@.take(i as int).filter(inp)),
                0 <= acc <= i * 9223372036854775807,
            decreases self.expenses@.len() - i,
        {
            let e = &self.expenses[i];
            let ghost p = self.expenses@.take(i as int).filter(inp);
            proof {
                reveal(Seq::filter);
                assert(self.expenses@.take(i + 1).drop_last() =~= self.expenses@.take(i as int));
                assert(self.expenses@[i as int].amount_minor > 0);
            }
            if e.owner_user_id == uid && !(e.occurred_at < from || e.occurred_at >= to) {
                acc = acc + e.amount_minor as i128;
                proof {
                    assert(self.expenses@.take(i + 1).filter(inp) == p.push(*e));
                    assert(p.push(*e).drop_last() =~= p);
                }
            } else {
                proof {
                    assert(self.expenses@.take(i + 1).filter(inp) == p);
                }
            }
            i = i + 1;
        }
        proof {
            assert(self.expenses@.take(self.expenses@.len() as int) =~= self.expenses@);
        }
        acc <= 9223372036854775807
    }

    /// Whether each expense of account `uid` that occurred in `[from, to)`
    /// has a local date in the zone `tz`.
    pub fn period_days_known(&self, uid: u128, tz: &str, from: i64, to: i64) -> (r: bool)
        requires
            self.wf(),
            tz_name_of(tz@) == Some(tz@),
        ensures
            r == days_known(self.expenses@, uid, tz@, from, to),
    {
        let mut i: usize = 0;
        while i < self.expenses.len()
            invariant
                self.wf(),
                tz_name_of(tz@) == Some(tz@),
                i <= self.expenses@.len(),
                forall|k: int|
                    #![trigger self.expenses@[k]]
                    0 <= k < i && in_period(uid, from, to, self.expenses@[k]) ==> local_date_text(
                        tz@,
                        self.expenses@[k].occurred_at,
                    ) is Some,
            decreases self.expenses@.len() - i,
        {
            let e = &self.expenses[i];
            proof {
                assert(chrono_instant(self.expenses@[i as int].occurred_at as int));
            }
            if e.owner_user_id == uid && !(e.occurred_at < from || e.occurred_at >= to) {
                if local_date(tz, e.occurred_at).is_none() {
                    proof {
                        assert(in_period(uid, from, to, self.expenses@[i as int]));
                    }
                    return false;
                }
            }
            i = i + 1;
        }
        true
    }

    /// The caller's monthly report for the query, at `now`: the period is
    /// resolved, and `None` stands for a report that cannot be made: a
    /// total beyond `i64::MAX`, or an expense whose local date in the zone
    /// falls outside the dates chrono represents.
    pub fn monthly_report(&self, auth: &AuthUser, query: &MonthlyReportQuery, now: i64) -> (r: AppResult<
        Option<MonthlyReportResponse>,
    >)
        requires
            self.wf(),
            chrono_instant(now as int),
        ensures
            match period_resolution(*query, now) {
                Err(e) => fails_with(r, e),
                Ok(v) => r matches Ok(o) && {
                    let picked = covered(self.expenses@, auth.user_id, v.3, v.4);
                    match o {
                        None => amount_sum(picked) > i64::MAX || !days_known(
                            self.expenses@,
                            auth.user_id,
                            v.2,
                            v.3,
                            v.4,
                        ),
                        Some(rep) => exists|p: ReportPeriod| #[trigger]
                            period_is(p, v) && report_of(picked, p, query.top_n, rep),
                    }
                },
            },
    {
        let period = match resolve_period(query, now) {
            Err(e) => {
                return Err(e);
            },
            Ok(p) => p,
        };
        if !self.period_total_fits(auth.user_id, period.from, period.to) {
            return Ok(None);
        }
        if !self.period_days_known(auth.user_id, period.timezone.as_str(), period.from, period.to) {
            return Ok(None);
        }
        let rep = self.monthly_summary(auth, &period, query.top_n);
        proof {
            assert(period_is(period, period_resolution(*query, now)->Ok_0));
        }
        Ok(Some(rep))
    }
}

/// A report lists the largest of its expenses first: as many as asked for
/// (5 unless given, kept within 1 to 20), or all of them when there are
/// fewer; by amount, largest first, and for equal amounts the later
/// occurrence first; each of them one of the report's expenses.
pub proof fn law_report_lists_largest_first(
    picked: Seq<Expense>,
    period: ReportPeriod,
    top_n: Option<usize>,
    r: MonthlyReportResponse,
)
    requires
        report_of(picked, period, top_n, r),
    ensures
        1 <= top_count(top_n) <= 20,
        top_n is None ==> top_count(top_n) == 5,
        top_n is Some && 1 <= top_n->Some_0 <= 20 ==> top_count(top_n) == top_n->Some_0,
        r.top_spending@.len() == (if top_count(top_n) < picked.len() {
            top_count(top_n) as int
        } else {
            picked.len() as int
        }),
        forall|a: int, b: int|
            #![trigger r.top_spending@[a], r.top_spending@[b]]
            0 <= a < b < r.top_spending@.len() ==> r.top_spending@[a].amount_minor >= r.top_spending@[b].amount_minor
                && (r.top_spending@[a].amount_minor == r.top_spending@[b].amount_minor ==> !text_lt(
                r.top_spending@[a].occurred_at@,
                r.top_spending@[b].occurred_at@,
            )),
        forall|a: int|
            0 <= a < r.top_spending@.len() ==> exists|i: int|
                0 <= i < picked.len() && top_item(picked[i], #[trigger] r.top_spending@[a]),
{
    let (items, sorted) = choose|items: Seq<TopSpendingItem>, sorted: Seq<TopSpendingItem>|
        #![trigger is_ranking(items, sorted)]
        {
            &&& items.len() == picked.len()
            &&& (forall|i: int| 0 <= i < picked.len() ==> top_item(picked[i], #[trigger] items[i]))
            &&& is_ranking(items, sorted)
            &&& r.top_spending@ == first_n(sorted, top_count(top_n) as int)
        };
    lemma_ranking_sorted(items, sorted);
    let t = r.top_spending@;
    assert forall|a: int, b: int| #![trigger t[a], t[b]] 0 <= a < b < t.len() implies t[a].amount_minor
        >= t[b].amount_minor && (t[a].amount_minor == t[b].amount_minor ==> !text_lt(
        t[a].occurred_at@,
        t[b].occurred_at@,
    )) by {
        assert(t[a] == sorted[a] && t[b] == sorted[b]);
        assert(!sorted[b].ranks_before(&sorted[a]));
    }
    assert forall|a: int| 0 <= a < t.len() implies exists|i: int|
        0 <= i < picked.len() && top_item(picked[i], #[trigger] t[a]) by {
        assert(t[a] == sorted[a]);
        assert(items.contains(sorted[a]));
        let i = choose|i: int| 0 <= i < items.len() && items[i] == sorted[a];
        assert(top_item(picked[i], items[i]));
    }
}

/// A report over `[from, to)` for account `uid` covers exactly that
/// account's expenses that occurred at or after `from` and strictly before
/// `to`, in table order: an expense at `to` belongs to the next period.
pub proof fn law_report_covers_the_half_open_period(s: Seq<Expense>, uid: u128, from: i64, to: i64)
    ensures
        covered(s, uid, from, to) == s.filter(
            |e: Expense| e.owner_user_id == uid && from <= e.occurred_at && e.occurred_at < to,
        ),
{
    let p = |e: Expense| e.owner_user_id == uid && from <= e.occurred_at && e.occurred_at < to;
    assert(period_filter(uid, from, to) =~= p);
}

} // verus!
