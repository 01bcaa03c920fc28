//! The day-action projector: from the disbursement and the initialized
//! calculation state, the full ordered queue of per-day action bundles until
//! the planned number of repayment installments has been scheduled.
//!
//! The queue holds one entry per calendar day. The disbursement date carries
//! only the disbursement; every later day accrues interest, is flagged for
//! compounding per the configured strategy, and carries an installment when
//! it equals the tracked next-installment date. A hard day cap bounds the
//! projection so it terminates even for degenerate due-day configurations.
//!
//! The interest-only installment branch is wired in for repayment freezes,
//! but no event currently schedules one: the skip count stays zero over a
//! whole projection.

use vstd::prelude::*;

use crate::dates::Date;
use crate::dates::USER_YEAR_MAX;
use crate::dates::YEAR_CEIL;
use crate::engine::CompoundingStrategy;
use crate::engine::CurrentCalculationState;
use crate::engine::DayActions;
use crate::engine::DayActionsV;
use crate::engine::InstallmentType;
use crate::schedule::installment_date_from_interval;
use crate::schedule::spec_interval_date;

verus! {

/// One entry of the projected queue: the date and its action bundle.
#[derive(Debug)]
pub struct ScheduledDay {
    pub date: Date,
    pub actions: DayActions,
}

/// The mathematical value of a queue entry.
pub struct ScheduledDayV {
    pub date: Date,
    pub actions: DayActionsV,
}

impl View for ScheduledDay {
    type V = ScheduledDayV;

    open spec fn view(&self) -> ScheduledDayV {
        ScheduledDayV { date: self.date, actions: self.actions@ }
    }
}

/// The values of a sequence of queue entries.
pub open spec fn sched_views(s: Seq<ScheduledDay>) -> Seq<ScheduledDayV> {
    s.map(|i: int, e: ScheduledDay| e@)
}

/// The parameters of a projection, fixed over the whole run.
pub struct ProjParams {
    pub planned: u32,
    pub due_day: int,
    pub tpy: crate::events::TermsPerYear,
    pub strategy: CompoundingStrategy,
}

/// The action bundle projected for one ordinary day.
pub open spec fn spec_proj_entry(p: ProjParams, date: Date, next_inst: Date, skip: u32)
    -> ScheduledDayV {
    ScheduledDayV {
        date,
        actions: DayActionsV {
            initialization: Option::None,
            interest_accumulating: true,
            interest_compounding: match p.strategy {
                CompoundingStrategy::EndOfYear => date.spec_succ().y() != date.y(),
                CompoundingStrategy::EndOfMonth => date.spec_succ().m() != date.m(),
                CompoundingStrategy::OnInstallment => date == next_inst,
                CompoundingStrategy::Daily => true,
            },
            installment: if date == next_inst && skip > 0 {
                Option::Some(InstallmentType::InterestOnly)
            } else if date == next_inst {
                Option::Some(InstallmentType::Repayment)
            } else {
                Option::None
            },
            extra_installments: Seq::empty(),
        },
    }
}

/// The queue of per-day bundles from `date` on, until `planned` repayments
/// have been scheduled; `None` when the day cap `fuel` runs out first.
pub open spec fn spec_project(
    p: ProjParams,
    date: Date,
    next_inst: Date,
    completed: u32,
    skip: u32,
    fuel: nat,
) -> Option<Seq<ScheduledDayV>>
    decreases fuel,
{
    if completed == p.planned {
        Option::Some(Seq::empty())
    } else if fuel == 0 {
        Option::None
    } else {
        let entry = spec_proj_entry(p, date, next_inst, skip);
        let skip2: u32 = if date == next_inst && skip > 0 {
            (skip - 1) as u32
        } else {
            skip
        };
        let completed2: u32 = if date == next_inst && skip == 0 {
            (completed + 1) as u32
        } else {
            completed
        };
        let next2 = if date == next_inst {
            spec_interval_date(date, p.due_day, p.tpy)
        } else {
            next_inst
        };
        match spec_project(p, date.spec_succ(), next2, completed2, skip2, (fuel - 1) as nat) {
            Option::None => Option::None,
            Option::Some(rest) => Option::Some(seq![entry] + rest),
        }
    }
}

/// The hard cap on projected days: generous room for every installment
/// interval plus the run-up to the first installment.
pub open spec fn spec_proj_fuel(planned: u32) -> nat {
    (366 * (planned + 2) + 40) as nat
}

/// The bundle projected for the disbursement date itself: only the
/// disbursement.
pub open spec fn spec_disbursement_entry(amount: i64, fee: i64, date: Date) -> ScheduledDayV {
    ScheduledDayV {
        date,
        actions: DayActionsV {
            initialization: Option::Some((amount, fee)),
            interest_accumulating: false,
            interest_compounding: false,
            installment: Option::None,
            extra_installments: Seq::empty(),
        },
    }
}

/// The parameters a projection takes from the calculation state.
pub open spec fn spec_params_of(st: CurrentCalculationState) -> ProjParams {
    ProjParams {
        planned: st.planned_repayment_terms,
        due_day: st.current_monthly_due_day.spec_due_day(),
        tpy: st.current_terms_per_year,
        strategy: st.interest_compounding_strategy,
    }
}

/// The full projected queue for a disbursement of `amount` with `fee` on
/// `date`, given the freshly initialized state; `None` when the day cap runs
/// out before the planned repayments are all scheduled.
pub open spec fn spec_project_all(
    amount: i64,
    fee: i64,
    date: Date,
    st: CurrentCalculationState,
) -> Option<Seq<ScheduledDayV>> {
    match spec_project(
        spec_params_of(st),
        date.spec_succ(),
        st.computed_installment_date,
        0,
        0,
        spec_proj_fuel(st.planned_repayment_terms),
    ) {
        Option::None => Option::None,
        Option::Some(rest) => Option::Some(seq![spec_disbursement_entry(amount, fee, date)] + rest),
    }
}

/// Compute the future set of day actions for the remainder of this loan:
/// the executable form of [`spec_project_all`]. `None` when the day cap
/// runs out before the planned repayments are all scheduled.
///
/// NOTE: the disbursement that happens on the first day is the only action
/// scheduled for that date.
pub(crate) fn compute_actions_on_disbursement(
    amount: i64,
    fee: i64,
    current_date: &Date,
    state: &CurrentCalculationState,
) -> (r: Option<Vec<ScheduledDay>>)
    requires
        current_date.y() <= USER_YEAR_MAX,
        1 <= state.current_monthly_due_day.spec_due_day() <= 31,
    ensures
        match r {
            Option::Some(v) => spec_project_all(amount, fee, *current_date, *state) == Some(
                sched_views(v@),
            ),
            Option::None => spec_project_all(amount, fee, *current_date, *state) is None,
        },
{
    let ghost p = spec_params_of(*state);
    let ghost fuel0 = spec_proj_fuel(state.planned_repayment_terms);

    let first = ScheduledDay {
        date: *current_date,
        actions: DayActions {
            initialization: Some((amount, fee)),
            interest_accumulating: false,
            interest_compounding: false,
            installment: None,
            extra_installments: Vec::new(),
        },
    };
    let mut all: Vec<ScheduledDay> = Vec::new();
    all.push(first);
    proof {
        assert(sched_views(all@) =~= seq![spec_disbursement_entry(amount, fee, *current_date)]);
    }

    let planned: u32 = state.planned_repayment_terms;
    let mut completed: u32 = 0;
    let mut skip: u32 = 0;
    let mut date: Date = current_date.next_day();
    let mut next_inst: Date = state.computed_installment_date;
    let mut fuel: u64 = 366 * (planned as u64 + 2) + 40;

    while completed < planned
        invariant
            completed <= planned,
            fuel <= fuel0,
            date.y() <= USER_YEAR_MAX + 1 + (fuel0 - fuel as nat),
            all@.len() >= 1,
            match spec_project(p, date, next_inst, completed, skip, fuel as nat) {
                Option::None => spec_project_all(amount, fee, *current_date, *state) is None,
                Option::Some(rest) => spec_project_all(amount, fee, *current_date, *state)
                    == Some(sched_views(all@) + rest),
            },
        decreases fuel,
    {
        if fuel == 0 {
            return None;
        }
        proof {
            use_type_invariant(&date);
            assert(date.y() <= USER_YEAR_MAX + 1 + fuel0 < YEAR_CEIL);
        }
        let ghost old_skip = skip;
        let ghost old_completed = completed;
        let ghost old_fuel = fuel;
        let nd: Date = date.next_day();
        let is_inst_day: bool = date == next_inst;
        let installment: Option<InstallmentType> = if is_inst_day && skip > 0 {
            skip = skip - 1;
            Some(InstallmentType::InterestOnly)
        } else if is_inst_day {
            completed = completed + 1;
            Some(InstallmentType::Repayment)
        } else {
            None
        };
        let compounding: bool = match state.interest_compounding_strategy {
            CompoundingStrategy::EndOfYear => nd.year() != date.year(),
            CompoundingStrategy::EndOfMonth => nd.month() != date.month(),
            CompoundingStrategy::OnInstallment => is_inst_day,
            CompoundingStrategy::Daily => true,
        };
        let entry = ScheduledDay {
            date,
            actions: DayActions {
                initialization: None,
                interest_accumulating: true,
                interest_compounding: compounding,
                installment,
                extra_installments: Vec::new(),
            },
        };
        let ghost old_all = all@;
        let ghost old_date = date;
        let ghost old_next = next_inst;
        all.push(entry);
        if is_inst_day {
            next_inst = installment_date_from_interval(
                &date,
                state.current_monthly_due_day,
                state.current_terms_per_year,
            );
        }
        date = nd;
        fuel = fuel - 1;
        proof {
            assert(entry@ == spec_proj_entry(p, old_date, old_next, old_skip));
            assert(sched_views(all@) =~= sched_views(old_all).push(entry@));
            assert(sched_views(old_all).push(entry@) + spec_project_rest_or_empty(
                p,
                date,
                next_inst,
                completed,
                skip,
                fuel as nat,
            ) =~= sched_views(old_all) + (seq![entry@] + spec_project_rest_or_empty(
                p,
                date,
                next_inst,
                completed,
                skip,
                fuel as nat,
            )));
        }
    }
    proof {
        assert(spec_project(p, date, next_inst, completed, skip, fuel as nat) == Some(
            Seq::<ScheduledDayV>::empty(),
        ));
        assert(sched_views(all@) + Seq::<ScheduledDayV>::empty() =~= sched_views(all@));
    }
    Some(all)
}

/// The number of repayment installments a queue schedules.
pub open spec fn count_rep(q: Seq<ScheduledDayV>) -> int
    decreases q.len(),
{
    if q.len() == 0 {
        0
    } else {
        (if q[0].actions.installment == Some(InstallmentType::Repayment) {
            1int
        } else {
            0
        }) + count_rep(q.drop_first())
    }
}

/// A queue schedules a nonnegative number of repayments.
pub proof fn lemma_count_rep_nonneg(q: Seq<ScheduledDayV>)
    ensures
        count_rep(q) >= 0,
    decreases q.len(),
{
    if q.len() > 0 {
        lemma_count_rep_nonneg(q.drop_first());
    }
}

/// Appending one entry adds its repayment, if any, to the count.
pub proof fn lemma_count_rep_push(q: Seq<ScheduledDayV>, x: ScheduledDayV)
    ensures
        count_rep(q.push(x)) == count_rep(q) + (if x.actions.installment == Some(
            InstallmentType::Repayment,
        ) {
            1int
        } else {
            0
        }),
    decreases q.len(),
{
    let inc: int = if x.actions.installment == Some(InstallmentType::Repayment) {
        1
    } else {
        0
    };
    if q.len() == 0 {
        assert(q.push(x)[0] == x);
        assert(q.push(x).drop_first() =~= Seq::<ScheduledDayV>::empty());
        assert(count_rep(Seq::<ScheduledDayV>::empty()) == 0);
        assert(count_rep(q.push(x)) == inc + count_rep(q.push(x).drop_first()));
    } else {
        assert(q.push(x)[0] == q[0]);
        assert(q.push(x).drop_first() =~= q.drop_first().push(x));
        lemma_count_rep_push(q.drop_first(), x);
        assert(count_rep(q.push(x)) == (if q[0].actions.installment == Some(
            InstallmentType::Repayment,
        ) {
            1int
        } else {
            0
        }) + count_rep(q.push(x).drop_first()));
    }
}

/// The count splits over a prefix and the matching suffix.
pub proof fn lemma_count_rep_split(q: Seq<ScheduledDayV>, i: int)
    requires
        0 <= i <= q.len(),
    ensures
        count_rep(q) == count_rep(q.take(i)) + count_rep(q.skip(i)),
    decreases i,
{
    if i == 0 {
        assert(q.take(0) =~= Seq::<ScheduledDayV>::empty());
        assert(q.skip(0) =~= q);
    } else {
        lemma_count_rep_split(q, i - 1);
        assert(q.take(i) =~= q.take(i - 1).push(q[i - 1]));
        lemma_count_rep_push(q.take(i - 1), q[i - 1]);
        assert(q.skip(i - 1).drop_first() =~= q.skip(i));
        assert(q.skip(i - 1)[0] == q[i - 1]);
    }
}

/// A defined projection starts at or under the plan and schedules exactly
/// the missing repayments.
pub proof fn lemma_project_count(
    p: ProjParams,
    date: Date,
    next_inst: Date,
    completed: u32,
    skip: u32,
    fuel: nat,
)
    requires
        spec_project(p, date, next_inst, completed, skip, fuel) is Some,
        completed <= p.planned,
    ensures
        count_rep(spec_project(p, date, next_inst, completed, skip, fuel)->Some_0) == p.planned
            - completed,
    decreases fuel,
{
    if completed == p.planned {
    } else {
        let entry = spec_proj_entry(p, date, next_inst, skip);
        let skip2: u32 = if date == next_inst && skip > 0 {
            (skip - 1) as u32
        } else {
            skip
        };
        let completed2: u32 = if date == next_inst && skip == 0 {
            (completed + 1) as u32
        } else {
            completed
        };
        let next2 = if date == next_inst {
            spec_interval_date(date, p.due_day, p.tpy)
        } else {
            next_inst
        };
        lemma_project_count(p, date.spec_succ(), next2, completed2, skip2, (fuel - 1) as nat);
        let rest = spec_project(p, date.spec_succ(), next2, completed2, skip2, (fuel - 1) as nat)
            ->Some_0;
        assert((seq![entry] + rest).drop_first() =~= rest);
    }
}

/// The projected suffix when defined, the empty sequence otherwise; a
/// helper for relating a queue prefix to the whole projection.
pub open spec fn spec_project_rest_or_empty(
    p: ProjParams,
    date: Date,
    next_inst: Date,
    completed: u32,
    skip: u32,
    fuel: nat,
) -> Seq<ScheduledDayV> {
    match spec_project(p, date, next_inst, completed, skip, fuel) {
        Option::None => Seq::empty(),
        Option::Some(rest) => rest,
    }
}

} // verus!
