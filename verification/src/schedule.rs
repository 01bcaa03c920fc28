//! Installment due-date arithmetic: the "months ahead" target month and the
//! resolution of a due-day convention inside a target month, honoring
//! month-length and year-rollover rules.

use vstd::prelude::*;

use crate::dates::Date;
use crate::dates::YEAR_CEIL;
use crate::dates::date_le;
use crate::dates::date_lt;
use crate::dates::days_in_month;
use crate::dates::days_in_month_exec;
use crate::dates::valid_ymd;
use crate::events::MonthlyDueDate;
use crate::events::TermsPerYear;

verus! {

/// The month (1-12) reached by advancing the month of a date by `inc`
/// months, wrapping modulo twelve; no year is computed.
pub open spec fn spec_future_month(m: int, inc: int) -> int {
    ((m - 1 + inc) % 12) + 1
}

/// Calculate the future month based on num month increments from provided
/// date.
pub fn future_month(date: &Date, increase: i64) -> (r: i64)
    requires
        0 <= increase <= 12,
    ensures
        r == spec_future_month(date.m(), increase as int),
        1 <= r <= 12,
{
    proof {
        use_type_invariant(date);
    }
    ((date.month() - 1 + increase) % 12) + 1
}

/// The year/month/day the due-day convention resolves to in the target
/// month: the year rolls over when the target month precedes the current
/// one, or equals it with its due day already passed; the due day is clamped
/// to the length of the target month.
pub open spec fn spec_installment_ymd(cy: int, cm: int, cd: int, due_day: int, target: int) -> (
    int,
    int,
    int,
) {
    let y0 = if target < cm {
        cy + 1
    } else {
        cy
    };
    let y = if target == cm && cd >= due_day {
        y0 + 1
    } else {
        y0
    };
    let dim = days_in_month(y, target);
    let d = if due_day <= dim {
        due_day
    } else {
        dim
    };
    (y, target, d)
}

/// [`spec_installment_ymd`] as a date value.
pub open spec fn spec_installment_date(current: Date, due_day: int, target: int) -> Date {
    let (y, m, d) = spec_installment_ymd(current.y(), current.m(), current.d(), due_day, target);
    Date::date_from(y, m, d)
}

/// Calculate the installment date based on the current date, the desired
/// month and the due day within the month.
pub fn installment_date_from_target_month(current: &Date, due: MonthlyDueDate, target_month: i64)
    -> (r: Date)
    requires
        1 <= target_month <= 12,
        1 <= due.spec_due_day() <= 31,
        current.y() < YEAR_CEIL,
    ensures
        (r.y(), r.m(), r.d()) == spec_installment_ymd(
            current.y(),
            current.m(),
            current.d(),
            due.spec_due_day(),
            target_month as int,
        ),
        r == spec_installment_date(*current, due.spec_due_day(), target_month as int),
        r.y() <= current.y() + 1,
{
    proof {
        use_type_invariant(current);
    }
    let mut year: i64 = current.year();
    if target_month < current.month() {
        year = year + 1;
    }
    let day: i64 = due.to_u32() as i64;
    if target_month == current.month() && current.day() >= day {
        year = year + 1;
    }
    let dim: i64 = days_in_month_exec(year, target_month);
    let day: i64 = if day <= dim {
        day
    } else {
        dim
    };
    Date::from_ymd(year, target_month, day)
}

/// The installment date one term interval ahead of a date: the target month
/// is the month-step of the configured terms per year ahead, and the due-day
/// convention resolves the day within it.
pub open spec fn spec_installment_from_interval(
    cy: int,
    cm: int,
    cd: int,
    due_day: int,
    tpy: TermsPerYear,
) -> (int, int, int) {
    spec_installment_ymd(cy, cm, cd, due_day, spec_future_month(cm, tpy.spec_month_step()))
}

/// [`spec_installment_from_interval`] as a date value.
pub open spec fn spec_interval_date(current: Date, due_day: int, tpy: TermsPerYear) -> Date {
    spec_installment_date(current, due_day, spec_future_month(current.m(), tpy.spec_month_step()))
}

/// Calculate the next installment date based on the current date, the
/// desired due day of month and the term interval.
pub fn installment_date_from_interval(current: &Date, due: MonthlyDueDate, interval: TermsPerYear)
    -> (r: Date)
    requires
        1 <= due.spec_due_day() <= 31,
        current.y() < YEAR_CEIL,
    ensures
        (r.y(), r.m(), r.d()) == spec_installment_from_interval(
            current.y(),
            current.m(),
            current.d(),
            due.spec_due_day(),
            interval,
        ),
        r == spec_interval_date(*current, due.spec_due_day(), interval),
        r.y() <= current.y() + 1,
{
    let increase: i64 = interval.month_step();
    let month: i64 = future_month(current, increase);
    installment_date_from_target_month(current, due, month)
}

/// The first due date at or after a start date: the due day in the start's
/// month when still ahead, else the due day of the next month.
pub open spec fn spec_first_term_ymd(y: int, m: int, d: int, due_day: int) -> (int, int, int) {
    if d > due_day {
        let m2 = (m % 12) + 1;
        let y2 = if m2 == 1 {
            y + 1
        } else {
            y
        };
        (y2, m2, due_day)
    } else {
        (y, m, due_day)
    }
}

/// Calculate the first term due date at or after the start date.
///
/// The due day is capped at 28 so that it exists in every month.
pub fn calculate_first_term_due_date(start: &Date, term_due_day: i64) -> (r: Date)
    requires
        1 <= term_due_day <= 28,
        start.y() < YEAR_CEIL,
    ensures
        (r.y(), r.m(), r.d()) == spec_first_term_ymd(
            start.y(),
            start.m(),
            start.d(),
            term_due_day as int,
        ),
        r.y() <= start.y() + 1,
{
    proof {
        use_type_invariant(start);
    }
    if start.day() > term_due_day {
        let month: i64 = (start.month() % 12) + 1;
        let year: i64 = if month == 1 {
            start.year() + 1
        } else {
            start.year()
        };
        Date::from_ymd(year, month, term_due_day)
    } else {
        Date::from_ymd(start.year(), start.month(), term_due_day)
    }
}

/// The chain of due dates from a first one: each steps the month by `inc`,
/// rolling the year over on wrap, keeping the same day of month.
pub open spec fn spec_due_chain(y: int, m: int, due_day: int, inc: int, n: nat) -> Seq<Date>
    decreases n,
{
    if n == 0 {
        Seq::empty()
    } else {
        let m2 = ((m - 1 + inc) % 12) + 1;
        let y2 = if m2 < m {
            y + 1
        } else {
            y
        };
        seq![Date::date_from(y, m, due_day)] + spec_due_chain(y2, m2, due_day, inc, (n - 1) as nat)
    }
}

/// Calculate each date a term is due: `terms` dates starting at the first
/// term due date, one month-step of the configured terms per year apart.
pub fn calculate_due_term_dates(start: &Date, term_due_day: i64, terms: u32, tpy: TermsPerYear)
    -> (r: Vec<Date>)
    requires
        1 <= term_due_day <= 28,
        start.y() < YEAR_CEIL - 1 - terms,
    ensures
        r@ == ({
            let (y, m, d) = spec_first_term_ymd(
                start.y(),
                start.m(),
                start.d(),
                term_due_day as int,
            );
            spec_due_chain(y, m, term_due_day as int, tpy.spec_month_step(), terms as nat)
        }),
{
    let first = calculate_first_term_due_date(start, term_due_day);
    let inc: i64 = tpy.month_step();
    calculate_due_chain(first, term_due_day, inc, terms)
}

/// A due-date chain holds one date per term.
pub proof fn lemma_due_chain_len(y: int, m: int, due_day: int, inc: int, n: nat)
    ensures
        spec_due_chain(y, m, due_day, inc, n).len() == n,
    decreases n,
{
    if n > 0 {
        let m2 = ((m - 1 + inc) % 12) + 1;
        let y2 = if m2 < m {
            y + 1
        } else {
            y
        };
        lemma_due_chain_len(y2, m2, due_day, inc, (n - 1) as nat);
    }
}

/// Calculate the dates of a monthly extra-payment plan: `terms` dates one
/// month apart starting at the first one, each paired with the amount.
pub fn calculate_extra_payment_dates(terms: u32, amount: i64, first_term_date: Date) -> (r: Vec<
    (Date, i64),
>)
    requires
        1 <= first_term_date.d() <= 28,
        first_term_date.y() < YEAR_CEIL - 1 - terms,
    ensures
        r@.len() == terms,
        ({
            let chain = spec_due_chain(
                first_term_date.y(),
                first_term_date.m(),
                first_term_date.d(),
                1,
                terms as nat,
            );
            forall|i: int|
                0 <= i < terms ==> #[trigger] r@[i] == (chain[i], amount)
        }),
{
    proof {
        use_type_invariant(&first_term_date);
        lemma_due_chain_len(
            first_term_date.y(),
            first_term_date.m(),
            first_term_date.d(),
            1,
            terms as nat,
        );
    }
    let day: i64 = first_term_date.day();
    let dates = calculate_due_chain(first_term_date, day, 1, terms);
    let mut r: Vec<(Date, i64)> = Vec::new();
    let mut i: usize = 0;
    while i < dates.len()
        invariant
            0 <= i <= dates@.len(),
            r@.len() == i,
            forall|k: int| 0 <= k < i ==> #[trigger] r@[k] == (dates@[k], amount),
        decreases dates@.len() - i,
    {
        r.push((dates[i], amount));
        i = i + 1;
    }
    r
}

/// The due-date chain itself, started exactly at a given first date and
/// stepping by `inc` months.
fn calculate_due_chain(first: Date, due_day: i64, inc: i64, terms: u32) -> (r: Vec<Date>)
    requires
        first.d() == due_day,
        1 <= due_day <= 28,
        1 <= inc <= 12,
        first.y() < YEAR_CEIL - terms,
    ensures
        r@ == spec_due_chain(first.y(), first.m(), due_day as int, inc as int, terms as nat),
{
    proof {
        use_type_invariant(&first);
    }
    let mut dates: Vec<Date> = Vec::new();
    let mut current: Date = first;
    let mut n: u32 = terms;
    let ghost full = spec_due_chain(first.y(), first.m(), due_day as int, inc as int, terms as nat);
    while n > 0
        invariant
            n <= terms,
            current.d() == due_day,
            current.y() <= first.y() + (terms - n),
            full == dates@ + spec_due_chain(
                current.y(),
                current.m(),
                due_day as int,
                inc as int,
                n as nat,
            ),
            1 <= current.m() <= 12,
        decreases n,
    {
        proof {
            use_type_invariant(&current);
        }
        let ghost old_dates = dates@;
        let ghost old_cur = current;
        dates.push(current);
        let month: i64 = ((current.month() - 1 + inc) % 12) + 1;
        let year: i64 = if month < current.month() {
            current.year() + 1
        } else {
            current.year()
        };
        current = Date::from_ymd(year, month, due_day);
        n = n - 1;
        proof {
            assert(old_dates + (seq![old_cur] + spec_due_chain(
                current.y(),
                current.m(),
                due_day as int,
                inc as int,
                n as nat,
            )) =~= dates@ + spec_due_chain(
                current.y(),
                current.m(),
                due_day as int,
                inc as int,
                n as nat,
            ));
            assert(Date::date_from(old_cur.y(), old_cur.m(), due_day as int) == old_cur) by {
                Date::lemma_eq(Date::date_from(old_cur.y(), old_cur.m(), due_day as int), old_cur);
                Date::lemma_date_from(old_cur.y(), old_cur.m(), due_day as int);
            }
        }
    }
    proof {
        assert(dates@ + spec_due_chain(current.y(), current.m(), due_day as int, inc as int, 0)
            =~= dates@);
    }
    dates
}

/// A linear ordinal on dates: strictly monotone in calendar order over
/// valid dates (months padded to 31 days).
pub open spec fn date_ord(d: Date) -> int {
    d.y() * 372 + (d.m() - 1) * 31 + (d.d() - 1)
}

/// The ordinal respects calendar order, and stepping one day forward
/// strictly raises it.
pub proof fn lemma_date_ord(a: Date, b: Date)
    requires
        valid_ymd(a.y(), a.m(), a.d()),
        valid_ymd(b.y(), b.m(), b.d()),
    ensures
        date_lt(a, b) ==> date_ord(a) < date_ord(b),
        date_le(a, b) ==> date_ord(a) <= date_ord(b),
{
}

/// The day `n` days after `d`.
pub open spec fn nth_next_day(d: Date, n: nat) -> Date
    decreases n,
{
    if n == 0 {
        d
    } else {
        nth_next_day(d, (n - 1) as nat).spec_succ()
    }
}

/// The operations that can occur on a single day of the simple repayment
/// plan.
#[derive(Clone, Copy, PartialEq, Eq, Structural, Debug)]
pub enum DayAction {
    /// A term installment is due.
    InstallmentDue,
    /// An additional downpayment of the amount, in micro-units.
    ExtraDownpayment(i64),
}

/// The amount of the first entry of an extra-payment plan that falls on a
/// date.
pub open spec fn find_amount(l: Seq<(Date, i64)>, date: Date) -> Option<i64>
    decreases l.len(),
{
    if l.len() == 0 {
        Option::None
    } else if l[0].0 == date {
        Option::Some(l[0].1)
    } else {
        find_amount(l.drop_first(), date)
    }
}

/// The extra-downpayment actions of a date: one per plan that has an entry
/// on it, in plan order.
pub open spec fn extras_for(date: Date, plans: Seq<Seq<(Date, i64)>>) -> Seq<DayAction>
    decreases plans.len(),
{
    if plans.len() == 0 {
        Seq::empty()
    } else {
        (match find_amount(plans[0], date) {
            Option::Some(a) => seq![DayAction::ExtraDownpayment(a)],
            Option::None => Seq::empty(),
        }) + extras_for(date, plans.drop_first())
    }
}

/// The actions of one date: the installment when the date is a due date,
/// then the extra downpayments.
pub open spec fn day_actions_for(
    date: Date,
    dues: Seq<Date>,
    plans: Seq<Seq<(Date, i64)>>,
) -> Seq<DayAction> {
    (if dues.contains(date) {
        seq![DayAction::InstallmentDue]
    } else {
        Seq::empty()
    }) + extras_for(date, plans)
}

/// One scheduled day of the simple repayment plan: the date and its
/// actions.
#[derive(Debug)]
pub struct DayPlan {
    pub date: Date,
    pub actions: Vec<DayAction>,
}

impl View for DayPlan {
    type V = (Date, Seq<DayAction>);

    open spec fn view(&self) -> (Date, Seq<DayAction>) {
        (self.date, self.actions@)
    }
}

/// The values of a sequence of scheduled days.
pub open spec fn day_plan_views(s: Seq<DayPlan>) -> Seq<(Date, Seq<DayAction>)> {
    s.map(|i: int, e: DayPlan| e@)
}

/// The values of a sequence of extra-payment plans.
pub open spec fn plan_views(s: Seq<Vec<(Date, i64)>>) -> Seq<Seq<(Date, i64)>> {
    s.map(|i: int, v: Vec<(Date, i64)>| v@)
}

/// One more plan at the end contributes its action, if any, at the end.
proof fn lemma_extras_for_push(date: Date, s: Seq<Seq<(Date, i64)>>, x: Seq<(Date, i64)>)
    ensures
        extras_for(date, s.push(x)) == extras_for(date, s) + (match find_amount(x, date) {
            Option::Some(a) => seq![DayAction::ExtraDownpayment(a)],
            Option::None => Seq::<DayAction>::empty(),
        }),
    decreases s.len(),
{
    let tail: Seq<DayAction> = match find_amount(x, date) {
        Option::Some(a) => seq![DayAction::ExtraDownpayment(a)],
        Option::None => Seq::empty(),
    };
    if s.len() == 0 {
        assert(s.push(x)[0] == x);
        assert(s.push(x).drop_first() =~= Seq::<Seq<(Date, i64)>>::empty());
        assert(extras_for(date, Seq::<Seq<(Date, i64)>>::empty()) =~= Seq::<DayAction>::empty());
        assert(extras_for(date, s.push(x)) =~= extras_for(date, s) + tail);
    } else {
        assert(s.push(x)[0] == s[0]);
        assert(s.push(x).drop_first() =~= s.drop_first().push(x));
        lemma_extras_for_push(date, s.drop_first(), x);
        let head: Seq<DayAction> = match find_amount(s[0], date) {
            Option::Some(a) => seq![DayAction::ExtraDownpayment(a)],
            Option::None => Seq::empty(),
        };
        assert(head + (extras_for(date, s.drop_first()) + tail) =~= (head + extras_for(
            date,
            s.drop_first(),
        )) + tail);
    }
}

/// The amount of the first plan entry on a date.
fn find_amount_exec(l: &Vec<(Date, i64)>, date: &Date) -> (r: Option<i64>)
    ensures
        r == find_amount(l@, *date),
{
    let mut i: usize = 0;
    proof {
        assert(l@.skip(0) =~= l@);
    }
    while i < l.len()
        invariant
            0 <= i <= l@.len(),
            find_amount(l@, *date) == find_amount(l@.skip(i as int), *date),
        decreases l@.len() - i,
    {
        proof {
            assert(l@.skip(i as int)[0] == l@[i as int]);
            assert(l@.skip(i as int).drop_first() =~= l@.skip(i as int + 1));
        }
        if l[i].0 == *date {
            return Some(l[i].1);
        }
        i = i + 1;
    }
    proof {
        assert(l@.skip(l@.len() as int) =~= Seq::<(Date, i64)>::empty());
    }
    None
}

/// Whether a date is one of the due dates.
fn dues_contain(dues: &Vec<Date>, date: &Date) -> (r: bool)
    ensures
        r == dues@.contains(*date),
{
    let mut i: usize = 0;
    while i < dues.len()
        invariant
            0 <= i <= dues@.len(),
            forall|k: int| 0 <= k < i ==> dues@[k] != *date,
        decreases dues@.len() - i,
    {
        if dues[i] == *date {
            return true;
        }
        i = i + 1;
    }
    false
}

/// In calendar order there is no day between a date and its successor.
proof fn lemma_succ_le(a: Date, b: Date)
    requires
        valid_ymd(a.y(), a.m(), a.d()),
        valid_ymd(b.y(), b.m(), b.d()),
        date_lt(a, b),
        a.y() < YEAR_CEIL,
    ensures
        date_le(a.spec_succ(), b),
{
    a.lemma_succ_components();
    Date::lemma_eq(a.spec_succ(), b);
}

/// Walk the calendar from the start date through the last due date and
/// collect each day's actions: the due installment and the extra
/// downpayments of that day. One entry is produced for every day walked.
///
/// The due dates and each extra-payment plan must be strictly ascending and
/// not precede the start date; the walk ends on the last due date.
pub fn compute_day_actions(
    start: &Date,
    due_term_dates: &Vec<Date>,
    extra_payments: &Vec<Vec<(Date, i64)>>,
) -> (r: Vec<DayPlan>)
    requires
        due_term_dates@.len() >= 1,
        forall|i: int, j: int|
            0 <= i < j < due_term_dates@.len() ==> date_lt(
                #[trigger] due_term_dates@[i],
                #[trigger] due_term_dates@[j],
            ),
        date_le(*start, due_term_dates@[0]),
        due_term_dates@.last().y() < YEAR_CEIL,
    ensures
        r@.len() >= 1,
        forall|k: int|
            0 <= k < r@.len() ==> (#[trigger] day_plan_views(r@)[k]) == (
                nth_next_day(*start, k as nat),
                day_actions_for(
                    nth_next_day(*start, k as nat),
                    due_term_dates@,
                    plan_views(extra_payments@),
                ),
            ),
        day_plan_views(r@).last().0 == due_term_dates@.last(),
{
    let ghost dues = due_term_dates@;
    let ghost plans = plan_views(extra_payments@);
    let last_idx: usize = due_term_dates.len() - 1;
    let last: Date = due_term_dates[last_idx];
    let mut out: Vec<DayPlan> = Vec::new();
    let mut current: Date = *start;
    proof {
        use_type_invariant(start);
        use_type_invariant(&last);
        crate::dates::lemma_date_order(*start, last);
        lemma_date_ord(*start, last);
    }
    let mut done: bool = false;
    while !done
        invariant
            !done ==> date_le(current, last),
            !done ==> current == nth_next_day(*start, out@.len()),
            done ==> out@.len() >= 1 && out@.last()@.0 == dues.last(),
            valid_ymd(current.y(), current.m(), current.d()),
            last == dues.last(),
            dues.len() >= 1,
            last.y() < YEAR_CEIL,
            forall|k: int|
                0 <= k < out@.len() ==> (#[trigger] day_plan_views(out@)[k]) == (
                    nth_next_day(*start, k as nat),
                    day_actions_for(nth_next_day(*start, k as nat), dues, plans),
                ),
        decreases (if done {
            0int
        } else {
            1int
        }), date_ord(last) - date_ord(current),
    {
        let mut actions: Vec<DayAction> = Vec::new();
        if dues_contain(due_term_dates, &current) {
            actions.push(DayAction::InstallmentDue);
        }
        let mut p: usize = 0;
        proof {
            assert(plans.take(0) =~= Seq::<Seq<(Date, i64)>>::empty());
            assert(actions@ =~= (if dues.contains(current) {
                seq![DayAction::InstallmentDue]
            } else {
                Seq::<DayAction>::empty()
            }) + extras_for(current, plans.take(0)));
        }
        while p < extra_payments.len()
            invariant
                0 <= p <= plans.len(),
                plans.len() == extra_payments@.len(),
                actions@ == (if dues.contains(current) {
                    seq![DayAction::InstallmentDue]
                } else {
                    Seq::<DayAction>::empty()
                }) + extras_for(current, plans.take(p as int)),
            decreases plans.len() - p,
        {
            proof {
                assert(plans.take(p + 1) =~= plans.take(p as int).push(plans[p as int]));
                lemma_extras_for_push(current, plans.take(p as int), plans[p as int]);
                assert(plans[p as int] == extra_payments@[p as int]@);
            }
            match find_amount_exec(&extra_payments[p], &current) {
                Some(amount) => {
                    actions.push(DayAction::ExtraDownpayment(amount));
                    proof {
                        assert(actions@ =~= (if dues.contains(current) {
                            seq![DayAction::InstallmentDue]
                        } else {
                            Seq::<DayAction>::empty()
                        }) + extras_for(current, plans.take(p + 1)));
                    }
                },
                None => {
                    proof {
                        assert(actions@ =~= (if dues.contains(current) {
                            seq![DayAction::InstallmentDue]
                        } else {
                            Seq::<DayAction>::empty()
                        }) + extras_for(current, plans.take(p + 1)));
                    }
                },
            }
            p = p + 1;
        }
        proof {
            assert(plans.take(plans.len() as int) =~= plans);
        }
        let ghost old_out = out@;
        let is_last: bool = current == last;
        out.push(DayPlan { date: current, actions });
        proof {
            assert(day_plan_views(out@) =~= day_plan_views(old_out).push(
                (current, (if dues.contains(current) {
                    seq![DayAction::InstallmentDue]
                } else {
                    Seq::<DayAction>::empty()
                }) + extras_for(current, plans)),
            ));
        }
        if is_last {
            done = true;
        } else {
            proof {
                crate::dates::lemma_date_order(current, last);
                lemma_succ_le(current, last);
                current.lemma_succ_components();
                lemma_date_ord(current.spec_succ(), last);
                lemma_date_ord(current, current.spec_succ());
                crate::dates::lemma_next_ymd_lt(current, current.spec_succ());
            }
            current = current.next_day();
        }
    }
    proof {
        assert(day_plan_views(out@).last() == out@.last()@);
    }
    out
}

/// An installment date never precedes the date it was computed from.
pub proof fn lemma_installment_not_past(current: Date, r: Date, due_day: int, target: int)
    requires
        valid_ymd(current.y(), current.m(), current.d()),
        1 <= target <= 12,
        1 <= due_day <= 31,
        (r.y(), r.m(), r.d()) == spec_installment_ymd(
            current.y(),
            current.m(),
            current.d(),
            due_day,
            target,
        ),
    ensures
        date_le(current, r),
{
    Date::lemma_eq(current, r);
}

} // verus!
