//! The public calculator: the event timeline and the compute facade that
//! drives the day-by-day simulation and aggregates the result.

use vstd::prelude::*;

use crate::dates::Date;
use crate::dates::USER_YEAR_MAX;
use crate::dates::YEAR_CEIL;
use crate::dates::date_lt;
use crate::engine::CompoundingStrategy;
use crate::engine::CurrentCalculationState;
use crate::engine::DayActions;
use crate::engine::DayActionsV;
use crate::engine::InstallmentType;
use crate::engine::process_day_action;
use crate::engine::spec_day_step;
use crate::engine::state_bounded;
use crate::engine::state_bounded_exec;
use crate::events::LoanEvent;
use crate::events::LoanExtraInstallment;
use crate::events::LoanInitialization;
use crate::events::LoanRecurringExtraInstallments;
use crate::events::RecurringInterval;
use crate::projector::ScheduledDay;
use crate::projector::ScheduledDayV;
use crate::projector::compute_actions_on_disbursement;
use crate::projector::count_rep;
use crate::projector::lemma_count_rep_nonneg;
use crate::projector::lemma_count_rep_push;
use crate::projector::lemma_count_rep_split;
use crate::projector::lemma_project_count;
use crate::projector::sched_views;
use crate::projector::spec_project_all;
use crate::reports::Daily;
use crate::reports::DailyV;
use crate::reports::TotalResult;
use crate::reports::aggregate_reports;
use crate::reports::daily_views;
use crate::reports::spec_aggregate;
use crate::schedule::installment_date_from_target_month;
use crate::schedule::spec_installment_date;

verus! {

/// The failures a computation can surface. Every failure is descriptive and
/// final: nothing is retried inside the engine.
#[derive(Clone, Copy, PartialEq, Eq, Structural, Debug)]
pub enum CalculationError {
    /// More than one event is attached to the loan initialization date.
    MultipleInitialEvents,
    /// The earliest timeline entry does not hold the initialization event.
    MissingInitialEvent,
    /// The initial outstanding loan is zero or negative.
    NonPositiveLoan,
    /// The initial nominal interest is zero or negative.
    NonPositiveInterest,
    /// A timeline event is dated before the day being processed.
    EventDateInPast,
    /// A timeline event reached the engine that it has no transition
    /// logic for.
    UnsupportedEvent,
    /// The projected action queue ran out before the simulation finished.
    ScheduleExhausted,
    /// A fixed-point capacity guard stopped the computation.
    NumericalCapacity,
}

impl CalculationError {
    /// A descriptive message for this failure.
    pub fn message(&self) -> (r: &'static str)
        ensures
            r@ == self.spec_message(),
    {
        match self {
            CalculationError::MultipleInitialEvents => "Unexpected amount of events on loan initialization, expected one",
            CalculationError::MissingInitialEvent => "expecting the initial loan event to be the earliest event in the timeline",
            CalculationError::NonPositiveLoan => "expecting non-zero positive value for outstanding loan in initial loan event",
            CalculationError::NonPositiveInterest => "expecting non-zero positive value for nominal interest in initial loan event",
            CalculationError::EventDateInPast => "event_date is in the past",
            CalculationError::UnsupportedEvent => "the timeline holds an event kind with no transition logic",
            CalculationError::ScheduleExhausted => "no more daily actions, yet we have not terminated computation",
            CalculationError::NumericalCapacity => "a computed amount left the numerical range of the calculator",
        }
    }

    /// The message of each failure, as a sequence of characters.
    pub open spec fn spec_message(self) -> Seq<char> {
        match self {
            CalculationError::MultipleInitialEvents => "Unexpected amount of events on loan initialization, expected one"@,
            CalculationError::MissingInitialEvent => "expecting the initial loan event to be the earliest event in the timeline"@,
            CalculationError::NonPositiveLoan => "expecting non-zero positive value for outstanding loan in initial loan event"@,
            CalculationError::NonPositiveInterest => "expecting non-zero positive value for nominal interest in initial loan event"@,
            CalculationError::EventDateInPast => "event_date is in the past"@,
            CalculationError::UnsupportedEvent => "the timeline holds an event kind with no transition logic"@,
            CalculationError::ScheduleExhausted => "no more daily actions, yet we have not terminated computation"@,
            CalculationError::NumericalCapacity => "a computed amount left the numerical range of the calculator"@,
        }
    }
}

/// One timeline entry: a date and the events on it, in insertion order.
#[derive(Debug)]
pub struct TimelineEntry {
    pub date: Date,
    pub events: Vec<LoanEvent>,
}

impl View for TimelineEntry {
    type V = (Date, Seq<LoanEvent>);

    open spec fn view(&self) -> (Date, Seq<LoanEvent>) {
        (self.date, self.events@)
    }
}

/// The values of a sequence of timeline entries.
pub open spec fn timeline_views(s: Seq<TimelineEntry>) -> Seq<(Date, Seq<LoanEvent>)> {
    s.map(|i: int, e: TimelineEntry| e@)
}

/// A well-formed timeline value: at least the initialization entry, strictly
/// date-ordered entries, each holding at least one event, every date within
/// the accepted year range, and a first-entry initialization payload whose
/// due-day convention and first installment month are in range.
pub open spec fn timeline_wf(t: Seq<(Date, Seq<LoanEvent>)>) -> bool {
    &&& t.len() >= 1
    &&& forall|i: int| 0 <= i < t.len() - 1 ==> date_lt(#[trigger] t[i].0, t[i + 1].0)
    &&& forall|i: int| 0 <= i < t.len() ==> (#[trigger] t[i].1).len() >= 1
    &&& forall|i: int| 0 <= i < t.len() ==> (#[trigger] t[i].0).y() <= USER_YEAR_MAX
    &&& (t[0].1[0] matches LoanEvent::Initial(li) ==> 1 <= li.due_within_month.spec_due_day()
        <= 31 && 1 <= li.first_installment_month <= 12)
}

/// This is an interactive structure used to construct and alter the events
/// within an installment loan calculation.
pub struct InteractiveCalculator {
    /// The set of events, ordered by date. The first element is meant to be
    /// the initialization event; `compute` fails when it is not.
    events: Vec<TimelineEntry>,
}

impl View for InteractiveCalculator {
    type V = Seq<(Date, Seq<LoanEvent>)>;

    closed spec fn view(&self) -> Seq<(Date, Seq<LoanEvent>)> {
        timeline_views(self.events@)
    }
}

/// The timeline after appending an event at a date: pushed onto the entry
/// with that date when one exists, else a new entry inserted in date order.
pub open spec fn spec_add_event(
    t: Seq<(Date, Seq<LoanEvent>)>,
    date: Date,
    ev: LoanEvent,
) -> Seq<(Date, Seq<LoanEvent>)>
    decreases t.len(),
{
    if t.len() == 0 {
        seq![(date, seq![ev])]
    } else if date_lt(date, t[0].0) {
        seq![(date, seq![ev])] + t
    } else if t[0].0 == date {
        seq![(t[0].0, t[0].1.push(ev))] + t.drop_first()
    } else {
        seq![t[0]] + spec_add_event(t.drop_first(), date, ev)
    }
}

/// Appending at the first position whose date is not earlier than the new
/// one lands where the recursive definition puts it.
proof fn lemma_add_event_at(t: Seq<(Date, Seq<LoanEvent>)>, date: Date, ev: LoanEvent, idx: int)
    requires
        0 <= idx <= t.len(),
        forall|i: int| 0 <= i < idx ==> date_lt((#[trigger] t[i]).0, date),
        idx < t.len() ==> !date_lt(t[idx].0, date),
    ensures
        spec_add_event(t, date, ev) == (if idx < t.len() && t[idx].0 == date {
            t.update(idx, (date, t[idx].1.push(ev)))
        } else {
            t.take(idx) + seq![(date, seq![ev])] + t.skip(idx)
        }),
    decreases t.len(),
{
    if idx == 0 {
        if t.len() == 0 {
            assert(spec_add_event(t, date, ev) =~~= t.take(0) + seq![(date, seq![ev])] + t.skip(
                0,
            ));
        } else if t[0].0 == date {
            assert(spec_add_event(t, date, ev) =~~= t.update(0, (date, t[0].1.push(ev))));
        } else {
            crate::dates::lemma_date_order(date, t[0].0);
            assert(spec_add_event(t, date, ev) =~~= t.take(0) + seq![(date, seq![ev])] + t.skip(
                0,
            ));
        }
    } else {
        crate::dates::lemma_date_order(date, t[0].0);
        let rest = t.drop_first();
        assert(forall|i: int| 0 <= i < idx - 1 ==> date_lt((#[trigger] rest[i]).0, date));
        lemma_add_event_at(rest, date, ev, idx - 1);
        if idx < t.len() && t[idx].0 == date {
            assert(seq![t[0]] + rest.update(idx - 1, (date, rest[idx - 1].1.push(ev))) =~~= t.update(
                idx,
                (date, t[idx].1.push(ev)),
            ));
        } else {
            assert(seq![t[0]] + (rest.take(idx - 1) + seq![(date, seq![ev])] + rest.skip(idx - 1))
                =~~= t.take(idx) + seq![(date, seq![ev])] + t.skip(idx));
        }
    }
}

/// Adding a non-initial event preserves well-formedness of the timeline.
proof fn lemma_add_event_wf(t: Seq<(Date, Seq<LoanEvent>)>, date: Date, ev: LoanEvent, idx: int)
    requires
        timeline_wf(t),
        date.y() <= USER_YEAR_MAX,
        !(ev is Initial),
        0 <= idx <= t.len(),
        forall|i: int| 0 <= i < idx ==> date_lt((#[trigger] t[i]).0, date),
        idx < t.len() ==> !date_lt(t[idx].0, date),
    ensures
        timeline_wf(spec_add_event(t, date, ev)),
{
    lemma_add_event_at(t, date, ev, idx);
    if idx < t.len() && t[idx].0 == date {
        let r = t.update(idx, (date, t[idx].1.push(ev)));
        assert(forall|i: int| 0 <= i < r.len() - 1 ==> date_lt(
            (#[trigger] r[i]).0,
            r[i + 1].0,
        ));
        assert(r[0].1[0] == t[0].1[0]);
    } else {
        let r = t.take(idx) + seq![(date, seq![ev])] + t.skip(idx);
        if idx < t.len() {
            crate::dates::lemma_date_order(date, t[idx].0);
        }
        assert forall|i: int| 0 <= i < r.len() - 1 implies date_lt(
            (#[trigger] r[i]).0,
            r[i + 1].0,
        ) by {
            if i < idx - 1 {
                assert(r[i] == t[i] && r[i + 1] == t[i + 1]);
            } else if i == idx - 1 {
                assert(r[i] == t[i] && r[i + 1].0 == date);
            } else if i == idx {
                assert(r[i].0 == date && r[i + 1] == t[i]);
            } else {
                assert(r[i] == t[i - 1] && r[i + 1] == t[i]);
            }
        }
        if idx == 0 {
            assert(r[0].1[0] == ev);
        } else {
            assert(r[0].1[0] == t[0].1[0]);
        }
    }
}

impl InteractiveCalculator {
    /// Construct a new InteractiveCalculator with the initial loan event.
    pub fn new(date: Date, initial: LoanInitialization) -> (r: InteractiveCalculator)
        requires
            date.y() <= USER_YEAR_MAX,
            1 <= initial.due_within_month.spec_due_day() <= 31,
            1 <= initial.first_installment_month <= 12,
        ensures
            r@ == seq![(date, seq![LoanEvent::Initial(initial)])],
            timeline_wf(r@),
    {
        let mut events: Vec<LoanEvent> = Vec::new();
        events.push(LoanEvent::Initial(initial));
        let mut entries: Vec<TimelineEntry> = Vec::new();
        entries.push(TimelineEntry { date, events });
        let r = InteractiveCalculator { events: entries };
        proof {
            assert(r@ =~= seq![(date, seq![LoanEvent::Initial(initial)])]);
        }
        r
    }

    /// Add a one-off extra installment event to the calculator.
    pub fn add_event_extra_single(&mut self, date: Date, extra: LoanExtraInstallment) -> (r:
        Result<(), CalculationError>)
        requires
            date.y() <= USER_YEAR_MAX,
        ensures
            r is Ok,
            final(self)@ == spec_add_event(
                old(self)@,
                date,
                LoanEvent::Extra(
                    (LoanRecurringExtraInstallments {
                        amount: extra.amount,
                        count: 1,
                        recurring_interval: RecurringInterval::Monthly,
                    }),
                ),
            ),
            timeline_wf(old(self)@) ==> timeline_wf(final(self)@),
    {
        // A one-off extra installment is a recurring one of count 1.
        let extra = LoanRecurringExtraInstallments {
            amount: extra.amount,
            count: 1,
            recurring_interval: RecurringInterval::Monthly,
        };
        self.add_event_extra_recurring(date, extra)
    }

    /// The first timeline position whose date is not earlier than the
    /// given one.
    fn find_insert_pos(entries: &Vec<TimelineEntry>, date: Date) -> (idx: usize)
        ensures
            0 <= idx <= entries@.len(),
            forall|i: int|
                0 <= i < idx ==> date_lt((#[trigger] timeline_views(entries@)[i]).0, date),
            idx < entries@.len() ==> !date_lt(timeline_views(entries@)[idx as int].0, date),
    {
        let mut idx: usize = 0;
        while idx < entries.len() && crate::dates::date_before(&entries[idx].date, &date)
            invariant
                0 <= idx <= entries@.len(),
                forall|i: int|
                    0 <= i < idx ==> date_lt((#[trigger] timeline_views(entries@)[i]).0, date),
            decreases entries@.len() - idx,
        {
            idx = idx + 1;
        }
        idx
    }

    /// Add a recurring extra installment event to the calculator.
    #[verifier::rlimit(100)]
    fn add_event_extra_recurring(
        &mut self,
        date: Date,
        extra: LoanRecurringExtraInstallments,
    ) -> (r: Result<(), CalculationError>)
        requires
            date.y() <= USER_YEAR_MAX,
        ensures
            r is Ok,
            final(self)@ == spec_add_event(old(self)@, date, LoanEvent::Extra(extra)),
            timeline_wf(old(self)@) ==> timeline_wf(final(self)@),
    {
        let ghost t0 = self@;
        let ev = LoanEvent::Extra(extra);
        let idx: usize = Self::find_insert_pos(&self.events, date);
        proof {
            lemma_add_event_at(t0, date, ev, idx as int);
            if timeline_wf(t0) {
                lemma_add_event_wf(t0, date, ev, idx as int);
            }
        }
        if idx < self.events.len() && self.events[idx].date == date {
            let mut entry = self.events.remove(idx);
            entry.events.push(ev);
            self.events.insert(idx, entry);
            proof {
                assert(self@ =~~= t0.update(idx as int, (date, t0[idx as int].1.push(ev))));
            }
        } else {
            let mut events: Vec<LoanEvent> = Vec::new();
            events.push(ev);
            self.events.insert(idx, TimelineEntry { date, events });
            proof {
                assert(self@ =~~= t0.take(idx as int) + seq![(date, seq![ev])] + t0.skip(
                    idx as int,
                ));
            }
        }
        Ok(())
    }
}

/// The calculation state derived from the initialization event: counters at
/// zero, rates and fees taken over, the first installment date resolved from
/// the due convention and the first installment month.
pub open spec fn spec_initial_state(payout: Date, li: LoanInitialization)
    -> CurrentCalculationState {
    CurrentCalculationState {
        interest_compounding_strategy: CompoundingStrategy::OnInstallment,
        planned_repayment_terms: li.terms,
        completed_repayment_terms: 0,
        original_outstanding_loan: 0,
        accrued_interest: 0,
        accrued_interest_since_last_installment: 0,
        current_nominal_interest: li.nominal_interest as i128,
        current_outstanding_loan: 0,
        current_installment_fee: li.installment_fee as i128,
        current_terms_per_year: li.terms_per_year,
        current_monthly_due_day: li.due_within_month,
        computed_installment_date: spec_installment_date(
            payout,
            li.due_within_month.spec_due_day(),
            li.first_installment_month as int,
        ),
        computed_effective_interest: 0,
        computed_term_payment: 0,
    }
}

/// Build the initial calculation state from the initialization event.
pub(crate) fn initial_computing_state(payout_date: &Date, initial: &LoanInitialization) -> (r:
    CurrentCalculationState)
    requires
        1 <= initial.due_within_month.spec_due_day() <= 31,
        1 <= initial.first_installment_month <= 12,
        payout_date.y() < YEAR_CEIL,
    ensures
        r == spec_initial_state(*payout_date, *initial),
{
    let computed_installment_date = installment_date_from_target_month(
        payout_date,
        initial.due_within_month,
        initial.first_installment_month as i64,
    );
    CurrentCalculationState {
        interest_compounding_strategy: CompoundingStrategy::OnInstallment,
        planned_repayment_terms: initial.terms,
        completed_repayment_terms: 0,
        original_outstanding_loan: 0,
        accrued_interest: 0,
        accrued_interest_since_last_installment: 0,
        current_nominal_interest: initial.nominal_interest as i128,
        current_outstanding_loan: 0,
        current_installment_fee: initial.installment_fee as i128,
        current_terms_per_year: initial.terms_per_year,
        current_monthly_due_day: initial.due_within_month,
        computed_installment_date,
        computed_effective_interest: 0,
        computed_term_payment: 0,
    }
}

/// The outcome of driving the day loop over a projected queue.
pub enum RunOutcome {
    /// The simulation signalled completion; the daily reports and the final
    /// state.
    Finished { dailys: Seq<DailyV>, state: CurrentCalculationState },
    /// The queue ran out before the simulation finished.
    Exhausted,
    /// A timeline event was dated before the day being processed.
    PastEvent,
    /// A timeline event with no transition logic was reached.
    Unsupported,
    /// A capacity guard stopped the computation.
    Capacity,
}

/// The failure a non-finished outcome surfaces.
pub open spec fn outcome_error(o: RunOutcome) -> Option<CalculationError> {
    match o {
        RunOutcome::Finished { dailys, state } => Option::None,
        RunOutcome::Exhausted => Option::Some(CalculationError::ScheduleExhausted),
        RunOutcome::PastEvent => Option::Some(CalculationError::EventDateInPast),
        RunOutcome::Unsupported => Option::Some(CalculationError::UnsupportedEvent),
        RunOutcome::Capacity => Option::Some(CalculationError::NumericalCapacity),
    }
}

/// The extra-installment amounts of one date's events, in order; `None`
/// when any event of the date has no transition logic in the engine.
pub open spec fn extras_of_events(evs: Seq<LoanEvent>) -> Option<Seq<i64>>
    decreases evs.len(),
{
    if evs.len() == 0 {
        Option::Some(Seq::empty())
    } else {
        match extras_of_events(evs.drop_last()) {
            Option::None => Option::None,
            Option::Some(pre) => match evs.last() {
                LoanEvent::Extra(sch) => Option::Some(pre.push(sch.amount)),
                _ => Option::None,
            },
        }
    }
}

/// A date whose events failed to merge keeps failing with more events.
proof fn lemma_extras_none(evs: Seq<LoanEvent>, i: int)
    requires
        0 <= i <= evs.len(),
        extras_of_events(evs.take(i)) is None,
    ensures
        extras_of_events(evs) is None,
    decreases evs.len() - i,
{
    if i == evs.len() {
        assert(evs.take(i) =~= evs);
    } else {
        assert(evs.take(i + 1).drop_last() =~= evs.take(i));
        lemma_extras_none(evs, i + 1);
    }
}

/// A day's bundle with the date's event-sourced extras appended.
pub open spec fn spec_merged_bundle(a: DayActionsV, extras: Seq<i64>) -> DayActionsV {
    DayActionsV { extra_installments: a.extra_installments + extras, ..a }
}

/// The day loop from queue position `i` with pending-event cursor `j`, as a
/// mathematical function: merge the events of the day into its bundle, run
/// the day step, stop on completion or on a failure.
pub open spec fn spec_run(
    s: CurrentCalculationState,
    q: Seq<ScheduledDayV>,
    ev: Seq<(Date, Seq<LoanEvent>)>,
    i: nat,
    j: nat,
) -> RunOutcome
    decreases q.len() - i,
{
    if i >= q.len() {
        RunOutcome::Exhausted
    } else {
        let entry = q[i as int];
        if j < ev.len() && ev[j as int].0 != entry.date && date_lt(ev[j as int].0, entry.date) {
            RunOutcome::PastEvent
        } else {
            let merged: Option<(Seq<i64>, nat)> = if j < ev.len() && ev[j as int].0
                == entry.date {
                match extras_of_events(ev[j as int].1) {
                    Option::None => Option::None,
                    Option::Some(ex) => Option::Some((ex, (j + 1) as nat)),
                }
            } else {
                Option::Some((Seq::empty(), j))
            };
            match merged {
                Option::None => RunOutcome::Unsupported,
                Option::Some((ex, j2)) => {
                    match spec_day_step(s, entry.date, spec_merged_bundle(entry.actions, ex)) {
                        Option::None => RunOutcome::Capacity,
                        Option::Some(st) => {
                            if st.finished {
                                RunOutcome::Finished {
                                    dailys: seq![st.daily],
                                    state: st.state,
                                }
                            } else if !state_bounded(st.state) {
                                RunOutcome::Capacity
                            } else {
                                match spec_run(st.state, q, ev, (i + 1) as nat, j2) {
                                    RunOutcome::Finished { dailys, state } => RunOutcome::Finished {
                                        dailys: seq![st.daily] + dailys,
                                        state,
                                    },
                                    o => o,
                                }
                            }
                        },
                    }
                },
            }
        }
    }
}

/// An outcome with earlier daily reports prepended to a finished run.
pub open spec fn prepend_outcome(ds: Seq<DailyV>, o: RunOutcome) -> RunOutcome {
    match o {
        RunOutcome::Finished { dailys, state } => RunOutcome::Finished {
            dailys: ds + dailys,
            state,
        },
        _ => o,
    }
}

/// Prepending nothing changes nothing.
proof fn lemma_prepend_empty(o: RunOutcome)
    ensures
        prepend_outcome(Seq::empty(), o) == o,
{
    match o {
        RunOutcome::Finished { dailys, state } => {
            assert(Seq::empty() + dailys =~= dailys);
        },
        _ => {},
    }
}

/// Prepending report by report composes.
proof fn lemma_prepend_push(ds: Seq<DailyV>, d: DailyV, o: RunOutcome)
    ensures
        prepend_outcome(ds, prepend_outcome(seq![d], o)) == prepend_outcome(ds.push(d), o),
{
    match o {
        RunOutcome::Finished { dailys, state } => {
            assert(ds + (seq![d] + dailys) =~= ds.push(d) + dailys);
        },
        _ => {},
    }
}

/// Drive the day loop over the projected queue: the executable form of
/// [`spec_run`] started at the head of the queue, with the pending-event
/// cursor just past the initialization entry.
#[verifier::rlimit(100)]
fn run_queue(
    st0: CurrentCalculationState,
    queue: &Vec<ScheduledDay>,
    entries: &Vec<TimelineEntry>,
) -> (r: Result<(Vec<Daily>, CurrentCalculationState), CalculationError>)
    requires
        state_bounded(st0),
        st0.current_nominal_interest > 0,
        st0.completed_repayment_terms == 0,
        count_rep(sched_views(queue@)) <= st0.planned_repayment_terms,
        entries@.len() >= 1,
    ensures
        ({
            let o = spec_run(st0, sched_views(queue@), timeline_views(entries@), 0, 1);
            match r {
                Ok((ds, fs)) => o == (RunOutcome::Finished {
                    dailys: daily_views(ds@),
                    state: fs,
                }) && ds@.len() >= 1,
                Err(e) => outcome_error(o) == Some(e),
            }
        }),
{
    let ghost q = sched_views(queue@);
    let ghost evv = timeline_views(entries@);
    let mut dailys: Vec<Daily> = Vec::new();
    let mut state = st0;
    let mut i: usize = 0;
    let mut j: usize = 1;
    proof {
        assert(daily_views(dailys@) =~= Seq::<DailyV>::empty());
        lemma_prepend_empty(spec_run(st0, q, evv, 0, 1));
        assert(q.take(0) =~= Seq::<ScheduledDayV>::empty());
    }
    while i < queue.len()
        invariant
            0 <= i <= queue@.len(),
            1 <= j <= entries@.len(),
            state_bounded(state),
            state.current_nominal_interest == st0.current_nominal_interest,
            state.planned_repayment_terms == st0.planned_repayment_terms,
            state.completed_repayment_terms == count_rep(q.take(i as int)),
            spec_run(st0, q, evv, 0, 1) == prepend_outcome(
                daily_views(dailys@),
                spec_run(state, q, evv, i as nat, j as nat),
            ),
        decreases queue@.len() - i,
    {
        let entry = &queue[i];
        let date: Date = entry.date;
        proof {
            assert(q[i as int] == queue@[i as int]@);
        }
        // Fold this day's pending timeline events into the bundle.
        if j < entries.len() {
            proof {
                assert(evv[j as int] == entries@[j as int]@);
            }
            if !(entries[j].date == date) && crate::dates::date_before(&entries[j].date, &date) {
                return Err(CalculationError::EventDateInPast);
            }
        }
        let mut extras: Vec<i64> = Vec::new();
        let ghost base = entry.actions.extra_installments@;
        let mut k: usize = 0;
        while k < entry.actions.extra_installments.len()
            invariant
                0 <= k <= base.len(),
                extras@ == base.take(k as int),
            decreases base.len() - k,
        {
            extras.push(entry.actions.extra_installments[k]);
            k = k + 1;
        }
        proof {
            assert(extras@ =~= base);
        }
        let mut j2: usize = j;
        let ghost mut merged_ex: Seq<i64> = Seq::empty();
        if j < entries.len() && entries[j].date == date {
            let evs = &entries[j].events;
            let ghost evsv = evs@;
            let mut m: usize = 0;
            proof {
                assert(evsv.take(0) =~= Seq::<LoanEvent>::empty());
                assert(extras@ =~= base + extras_of_events(evsv.take(0))->Some_0);
            }
            while m < evs.len()
                invariant
                    0 <= m <= evsv.len(),
                    extras_of_events(evsv.take(m as int)) is Some,
                    extras@ == base + extras_of_events(evsv.take(m as int))->Some_0,
                decreases evsv.len() - m,
            {
                proof {
                    assert(evsv.take(m + 1).drop_last() =~= evsv.take(m as int));
                    assert(evsv.take(m + 1).last() == evsv[m as int]);
                }
                match &evs[m] {
                    LoanEvent::Extra(sch) => {
                        extras.push(sch.amount);
                        proof {
                            assert(extras@ =~= base + extras_of_events(evsv.take(m + 1))
                                ->Some_0);
                        }
                    },
                    _ => {
                        proof {
                            lemma_extras_none(evsv, m + 1);
                        }
                        return Err(CalculationError::UnsupportedEvent);
                    },
                }
                m = m + 1;
            }
            proof {
                assert(evsv.take(evsv.len() as int) =~= evsv);
                merged_ex = extras_of_events(evsv)->Some_0;
            }
            j2 = j + 1;
        }
        let actions = DayActions {
            initialization: entry.actions.initialization,
            interest_accumulating: entry.actions.interest_accumulating,
            interest_compounding: entry.actions.interest_compounding,
            installment: entry.actions.installment,
            extra_installments: extras,
        };
        proof {
            assert(actions@ == spec_merged_bundle(q[i as int].actions, merged_ex));
            lemma_count_rep_split(q, i as int);
            lemma_count_rep_nonneg(q.skip(i as int));
            if q[i as int].actions.installment == Some(InstallmentType::Repayment) {
                assert(q.skip(i as int)[0] == q[i as int]);
                assert(q.skip(i as int).drop_first() =~= q.skip(i as int + 1));
                lemma_count_rep_nonneg(q.skip(i as int + 1));
            }
        }
        let ghost old_dailys = dailys@;
        match process_day_action(state, date, actions) {
            None => {
                return Err(CalculationError::NumericalCapacity);
            },
            Some((daily, s2, finished)) => {
                dailys.push(daily);
                proof {
                    assert(daily_views(dailys@) =~= daily_views(old_dailys).push(daily@));
                    lemma_prepend_push(
                        daily_views(old_dailys),
                        daily@,
                        spec_run(s2, q, evv, (i + 1) as nat, j2 as nat),
                    );
                }
                if finished {
                    proof {
                        assert(daily_views(old_dailys) + seq![daily@] =~= daily_views(
                            old_dailys,
                        ).push(daily@));
                    }
                    return Ok((dailys, s2));
                }
                if !state_bounded_exec(&s2) {
                    return Err(CalculationError::NumericalCapacity);
                }
                proof {
                    assert(q.take(i as int + 1) =~= q.take(i as int).push(q[i as int]));
                    lemma_count_rep_push(q.take(i as int), q[i as int]);
                }
                state = s2;
                i = i + 1;
                j = j2;
            },
        }
    }
    Err(CalculationError::ScheduleExhausted)
}

/// The full simulation over a timeline value: validate the initialization,
/// build the initial state, project the action queue and drive the day
/// loop. The result is the daily-report sequence and the final state, or
/// the failure.
pub open spec fn spec_simulate(t: Seq<(Date, Seq<LoanEvent>)>) -> Result<
    (Seq<DailyV>, CurrentCalculationState),
    CalculationError,
>
    recommends
        t.len() >= 1,
{
    let date0 = t[0].0;
    let evs0 = t[0].1;
    if evs0.len() > 1 {
        Result::Err(CalculationError::MultipleInitialEvents)
    } else if !(evs0[0] is Initial) {
        Result::Err(CalculationError::MissingInitialEvent)
    } else {
        let li = evs0[0]->Initial_0;
        if li.loan <= 0 {
            Result::Err(CalculationError::NonPositiveLoan)
        } else if li.nominal_interest <= 0 {
            Result::Err(CalculationError::NonPositiveInterest)
        } else {
            let st0 = spec_initial_state(date0, li);
            if !state_bounded(st0) {
                Result::Err(CalculationError::NumericalCapacity)
            } else {
                match spec_project_all(li.loan, li.administration_fee, date0, st0) {
                    Option::None => Result::Err(CalculationError::ScheduleExhausted),
                    Option::Some(qq) => match spec_run(st0, qq, t, 0, 1) {
                        RunOutcome::Finished { dailys, state } => Result::Ok((dailys, state)),
                        o => Result::Err(outcome_error(o)->Some_0),
                    },
                }
            }
        }
    }
}

/// The total report of a timeline value: the simulation's daily reports
/// aggregated, or the failure.
pub open spec fn spec_compute(t: Seq<(Date, Seq<LoanEvent>)>) -> Result<
    TotalResult,
    CalculationError,
>
    recommends
        t.len() >= 1,
{
    match spec_simulate(t) {
        Result::Err(e) => Result::Err(e),
        Result::Ok((ds, fs)) => match spec_aggregate(
            ds,
            fs.planned_repayment_terms,
            fs.completed_repayment_terms,
        ) {
            Option::None => Result::Err(CalculationError::NumericalCapacity),
            Option::Some(tr) => Result::Ok(tr),
        },
    }
}

impl InteractiveCalculator {
    /// Run the simulation: the executable form of [`spec_simulate`].
    fn simulate(&self) -> (r: Result<(Vec<Daily>, CurrentCalculationState), CalculationError>)
        requires
            timeline_wf(self@),
        ensures
            match r {
                Ok((ds, fs)) => spec_simulate(self@) == Result::<
                    (Seq<DailyV>, CurrentCalculationState),
                    CalculationError,
                >::Ok((daily_views(ds@), fs)) && ds@.len() >= 1,
                Err(e) => spec_simulate(self@) == Result::<
                    (Seq<DailyV>, CurrentCalculationState),
                    CalculationError,
                >::Err(e),
            },
    {
        let entry0 = &self.events[0];
        proof {
            assert(self@[0] == self.events@[0]@);
        }
        if entry0.events.len() > 1 {
            return Err(CalculationError::MultipleInitialEvents);
        }
        let initial: LoanInitialization = match &entry0.events[0] {
            LoanEvent::Initial(li) => *li,
            _ => {
                return Err(CalculationError::MissingInitialEvent);
            },
        };
        if initial.loan <= 0 {
            return Err(CalculationError::NonPositiveLoan);
        }
        if initial.nominal_interest <= 0 {
            return Err(CalculationError::NonPositiveInterest);
        }
        let payout_date: Date = entry0.date;
        let state = initial_computing_state(&payout_date, &initial);
        if !state_bounded_exec(&state) {
            return Err(CalculationError::NumericalCapacity);
        }
        let queue = match compute_actions_on_disbursement(
            initial.loan,
            initial.administration_fee,
            &payout_date,
            &state,
        ) {
            Some(q) => q,
            None => {
                return Err(CalculationError::ScheduleExhausted);
            },
        };
        proof {
            let qv = sched_views(queue@);
            let p = crate::projector::spec_params_of(state);
            let fuel = crate::projector::spec_proj_fuel(state.planned_repayment_terms);
            let rest = crate::projector::spec_project(
                p,
                payout_date.spec_succ(),
                state.computed_installment_date,
                0,
                0,
                fuel,
            )->Some_0;
            lemma_project_count(
                p,
                payout_date.spec_succ(),
                state.computed_installment_date,
                0,
                0,
                fuel,
            );
            assert(qv.drop_first() =~= rest);
            assert(count_rep(qv) == state.planned_repayment_terms);
        }
        match run_queue(state, &queue, &self.events) {
            Ok((dailys, fs)) => Ok((dailys, fs)),
            Err(e) => Err(e),
        }
    }

    /// Compute the installment loan result for the lifetime of the loan
    /// based on current events.
    pub fn compute(&self) -> (r: Result<TotalResult, CalculationError>)
        requires
            timeline_wf(self@),
        ensures
            r == spec_compute(self@),
    {
        match self.simulate() {
            Err(e) => Err(e),
            Ok((dailys, fs)) => match aggregate_reports(
                &dailys,
                fs.planned_repayment_terms,
                fs.completed_repayment_terms,
            ) {
                Some(total) => Ok(total),
                None => Err(CalculationError::NumericalCapacity),
            },
        }
    }

    /// Compute the full daily-report sequence for the lifetime of the loan,
    /// for consumers that chart or tabulate the run.
    pub fn compute_reports(&self) -> (r: Result<Vec<Daily>, CalculationError>)
        requires
            timeline_wf(self@),
        ensures
            match r {
                Ok(v) => spec_simulate(self@) matches Result::Ok(p) && p.0 == daily_views(v@),
                Err(e) => spec_simulate(self@) matches Result::Err(e2) && e2 == e,
            },
    {
        match self.simulate() {
            Ok((dailys, _)) => Ok(dailys),
            Err(e) => Err(e),
        }
    }
}

} // verus!
