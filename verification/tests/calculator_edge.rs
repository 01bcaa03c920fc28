use interest_calculator::{
    Date, InteractiveCalculator, LoanExtraInstallment, LoanInitialization, MonthlyDueDate,
    NotableEvents, TermsPerYear, SCALE,
};

fn scenario_initial() -> LoanInitialization {
    LoanInitialization {
        loan: 1000 * SCALE,
        nominal_interest: SCALE,
        administration_fee: 0,
        installment_fee: 0,
        terms: 12,
        terms_per_year: TermsPerYear::Twelve,
        due_within_month: MonthlyDueDate::First,
        first_installment_month: 2,
    }
}

#[test]
fn compute_twice_is_identical() {
    let calculator =
        InteractiveCalculator::new(Date::new(2021, 1, 10).unwrap(), scenario_initial());

    let first = calculator.compute().unwrap();
    let second = calculator.compute().unwrap();
    assert_eq!(first, second);

    // The daily report sequences are identical too, row by row.
    let reports1 = calculator.compute_reports().unwrap();
    let reports2 = calculator.compute_reports().unwrap();
    assert_eq!(reports1.len(), reports2.len());
    for (a, b) in reports1.iter().zip(reports2.iter()) {
        assert_eq!(a.date, b.date);
        assert_eq!(a.accrued_interest, b.accrued_interest);
        assert_eq!(a.compounded_interest, b.compounded_interest);
        assert_eq!(a.disbursed, b.disbursed);
        assert_eq!(a.fee, b.fee);
        assert_eq!(a.repayed, b.repayed);
        assert_eq!(a.repayment_installment, b.repayment_installment);
        assert_eq!(a.interest_installment, b.interest_installment);
        assert_eq!(a.extra_installment, b.extra_installment);
    }
}

#[test]
fn extra_payment_moves_end_date_earlier_and_counts_exactly() {
    let start = Date::new(2021, 1, 10).unwrap();
    let baseline = InteractiveCalculator::new(start, scenario_initial())
        .compute()
        .unwrap();

    let mut with_extra = InteractiveCalculator::new(start, scenario_initial());
    with_extra
        .add_event_extra_single(
            Date::new(2021, 2, 20).unwrap(),
            LoanExtraInstallment { amount: 100 * SCALE },
        )
        .unwrap();
    let with_extra = with_extra.compute().unwrap();

    assert_eq!(
        with_extra.total_extra_installment,
        baseline.total_extra_installment + 100 * SCALE
    );
    // The loan finishes strictly earlier here (a month's worth of payments).
    assert!(with_extra.end_date.year() <= baseline.end_date.year());
    assert_ne!(with_extra.end_date, baseline.end_date);
    assert!(with_extra.completed_terms < baseline.completed_terms);
}

#[test]
fn daily_reports_expose_the_run() {
    let start = Date::new(2021, 1, 10).unwrap();
    let mut calculator = InteractiveCalculator::new(start, scenario_initial());
    calculator
        .add_event_extra_single(
            Date::new(2021, 2, 20).unwrap(),
            LoanExtraInstallment { amount: 100 * SCALE },
        )
        .unwrap();
    let reports = calculator.compute_reports().unwrap();

    assert!(reports.len() > 300);
    assert_eq!(reports[0].date, start);
    assert_eq!(reports[0].disbursed, (1000 * SCALE) as i128);
    assert_eq!(reports[0].notable_events.len(), 1);
    assert!(matches!(
        reports[0].notable_events[0],
        NotableEvents::Initialization(amount) if amount == (1000 * SCALE) as i128
    ));
    let last = reports.last().unwrap();
    assert!(matches!(
        last.notable_events.last().unwrap(),
        NotableEvents::RepaymentInstallment(_)
    ));
    // Interest accrues from the second day on.
    assert!(reports[1].accrued_interest > 0);
    assert_eq!(reports[1].disbursed, 0);
    // The extra payment shows up on its day, and only there.
    let extra_day = Date::new(2021, 2, 20).unwrap();
    let mut extra_total: i128 = 0;
    for d in reports.iter() {
        if d.date == extra_day {
            assert_eq!(d.extra_installment, (100 * SCALE) as i128);
        } else {
            assert_eq!(d.extra_installment, 0);
        }
        extra_total += d.extra_installment;
    }
    assert_eq!(extra_total, (100 * SCALE) as i128);
}

#[test]
fn second_event_on_initial_date_is_rejected() {
    let start = Date::new(2021, 1, 10).unwrap();
    let mut calculator = InteractiveCalculator::new(start, scenario_initial());
    calculator
        .add_event_extra_single(start, LoanExtraInstallment { amount: 50 * SCALE })
        .unwrap();
    let res = calculator.compute();
    assert_eq!(
        "Unexpected amount of events on loan initialization, expected one",
        res.unwrap_err().message()
    );
}

#[test]
fn event_before_initial_date_is_rejected() {
    let start = Date::new(2021, 1, 10).unwrap();
    let mut calculator = InteractiveCalculator::new(start, scenario_initial());
    calculator
        .add_event_extra_single(
            Date::new(2020, 12, 24).unwrap(),
            LoanExtraInstallment { amount: 50 * SCALE },
        )
        .unwrap();
    let res = calculator.compute();
    assert_eq!(
        "expecting the initial loan event to be the earliest event in the timeline",
        res.unwrap_err().message()
    );
}

#[test]
fn zero_planned_terms_cannot_size_a_payment() {
    let mut initial = scenario_initial();
    initial.terms = 0;
    let calculator = InteractiveCalculator::new(Date::new(2021, 1, 10).unwrap(), initial);
    // The annuity formula has a zero denominator over zero terms; the
    // fixed-point guard stops the run.
    let res = calculator.compute();
    assert_eq!(
        "a computed amount left the numerical range of the calculator",
        res.unwrap_err().message()
    );
}

#[test]
fn oversized_amounts_stop_with_a_capacity_error() {
    let mut initial = scenario_initial();
    initial.loan = i64::MAX;
    let calculator = InteractiveCalculator::new(Date::new(2021, 1, 10).unwrap(), initial);
    let res = calculator.compute();
    assert_eq!(
        "a computed amount left the numerical range of the calculator",
        res.unwrap_err().message()
    );
}

#[test]
fn single_term_loan_ends_on_first_installment() {
    let mut initial = scenario_initial();
    initial.terms = 1;
    let calculator = InteractiveCalculator::new(Date::new(2021, 1, 10).unwrap(), initial);
    let summary = calculator.compute().unwrap();
    assert_eq!(summary.end_date, Date::new(2021, 2, 1).unwrap());
    assert_eq!(summary.completed_terms, 1);
    assert_eq!(summary.planned_terms, 1);
    assert_eq!(summary.first_installment_date, Date::new(2021, 2, 1).unwrap());
}

#[test]
fn installment_fee_is_charged_per_term() {
    let mut initial = scenario_initial();
    initial.installment_fee = 5 * SCALE;
    let calculator = InteractiveCalculator::new(Date::new(2021, 1, 10).unwrap(), initial);
    let summary = calculator.compute().unwrap();
    // One fee per completed term.
    assert_eq!(
        summary.total_fee,
        (summary.completed_terms as i64) * 5 * SCALE
    );
    assert!(summary.total_fee > 0);
}

#[test]
fn two_extras_on_one_date_both_count() {
    let start = Date::new(2021, 1, 10).unwrap();
    let mut calculator = InteractiveCalculator::new(start, scenario_initial());
    let day = Date::new(2021, 3, 5).unwrap();
    calculator
        .add_event_extra_single(day, LoanExtraInstallment { amount: 40 * SCALE })
        .unwrap();
    calculator
        .add_event_extra_single(day, LoanExtraInstallment { amount: 60 * SCALE })
        .unwrap();
    let summary = calculator.compute().unwrap();
    assert_eq!(summary.total_extra_installment, 100 * SCALE);
}
