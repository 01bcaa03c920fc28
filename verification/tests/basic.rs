use interest_calculator::{
    Date, InteractiveCalculator, LoanInitialization, MonthlyDueDate, TermsPerYear, SCALE,
};

#[test]
fn interactive_calculator_initial_event() {
    let initial = LoanInitialization {
        loan: 1000 * SCALE,
        nominal_interest: SCALE,
        administration_fee: 0,
        installment_fee: 0,

        terms: 12,
        terms_per_year: TermsPerYear::Twelve,
        due_within_month: MonthlyDueDate::First,
        first_installment_month: 2,
    };

    let loan_start_date = Date::new(2021, 1, 10).unwrap();
    let calculator = InteractiveCalculator::new(loan_start_date.clone(), initial);

    let summary = calculator.compute();
    assert!(summary.is_ok());
    let summary = summary.unwrap();

    assert_eq!(summary.total_loan, 1000 * SCALE);
    assert!(summary.total_interest > SCALE);
    assert_eq!(summary.disbursement_date, loan_start_date);
    assert_eq!(summary.end_date, Date::new(2022, 1, 1).unwrap());
}

#[test]
fn outstanding_loan_is_negative() {
    let initial = LoanInitialization {
        // -560.5 currency units, in micro-units
        loan: -560_500_000,
        nominal_interest: SCALE,
        administration_fee: 0,
        installment_fee: 0,
        terms: 12,
        terms_per_year: TermsPerYear::Twelve,
        due_within_month: MonthlyDueDate::First,
        first_installment_month: 2,
    };

    let loan_start_date = Date::new(2021, 1, 10).unwrap();
    let calculator = InteractiveCalculator::new(loan_start_date, initial);

    let res = calculator.compute();
    assert!(res.is_err());
    assert_eq!(
        "expecting non-zero positive value for outstanding loan in initial loan event",
        res.unwrap_err().message()
    );
}

#[test]
fn outstanding_loan_is_zero() {
    let initial = LoanInitialization {
        loan: 0,
        nominal_interest: SCALE,
        administration_fee: 0,
        installment_fee: 0,
        terms: 12,
        terms_per_year: TermsPerYear::Twelve,
        due_within_month: MonthlyDueDate::First,
        first_installment_month: 2,
    };

    let loan_start_date = Date::new(2021, 1, 10).unwrap();
    let calculator = InteractiveCalculator::new(loan_start_date, initial);

    let res = calculator.compute();
    assert!(res.is_err());
    assert_eq!(
        "expecting non-zero positive value for outstanding loan in initial loan event",
        res.unwrap_err().message()
    );
}

#[test]
fn interest_is_zero() {
    let initial = LoanInitialization {
        loan: 1000 * SCALE,
        nominal_interest: 0,
        administration_fee: 0,
        installment_fee: 0,
        terms: 12,
        terms_per_year: TermsPerYear::Twelve,
        due_within_month: MonthlyDueDate::First,
        first_installment_month: 2,
    };

    let loan_start_date = Date::new(2021, 1, 10).unwrap();
    let calculator = InteractiveCalculator::new(loan_start_date, initial);

    let res = calculator.compute();
    assert!(res.is_err());
    assert_eq!(
        "expecting non-zero positive value for nominal interest in initial loan event",
        res.unwrap_err().message()
    );
}

#[test]
fn interest_is_negative() {
    let initial = LoanInitialization {
        loan: 1000 * SCALE,
        nominal_interest: -SCALE,
        administration_fee: 0,
        installment_fee: 0,
        terms: 12,
        terms_per_year: TermsPerYear::Twelve,
        due_within_month: MonthlyDueDate::First,
        first_installment_month: 2,
    };

    let loan_start_date = Date::new(2021, 1, 10).unwrap();
    let calculator = InteractiveCalculator::new(loan_start_date, initial);

    let res = calculator.compute();
    assert!(res.is_err());
    assert_eq!(
        "expecting non-zero positive value for nominal interest in initial loan event",
        res.unwrap_err().message()
    );
}
