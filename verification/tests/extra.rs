use interest_calculator::{
    Date, InteractiveCalculator, LoanExtraInstallment, LoanInitialization, MonthlyDueDate,
    TermsPerYear, SCALE,
};

#[test]
fn interactive_calculator_extra_installment() {
    let initial = LoanInitialization {
        loan: 1000 * SCALE,
        nominal_interest: SCALE,
        administration_fee: 0,
        installment_fee: 0,

        terms: 12,
        terms_per_year: TermsPerYear::Twelve,
        due_within_month: MonthlyDueDate::First,
        first_installment_month: 2,
    };

    let loan_start_date = Date::new(2021, 1, 10).unwrap();
    let mut calculator = InteractiveCalculator::new(loan_start_date.clone(), initial);

    let extra_event = LoanExtraInstallment { amount: 100 * SCALE };
    let extra_date = Date::new(2021, 2, 20).unwrap();
    calculator
        .add_event_extra_single(extra_date, extra_event)
        .unwrap();

    let summary = calculator.compute();
    assert!(summary.is_ok());
    let summary = summary.unwrap();

    // Loan is paid back earlier due to the extra installment.
    assert_eq!(summary.total_extra_installment, 100 * SCALE);
    assert_eq!(summary.end_date, Date::new(2021, 12, 1).unwrap());
}
