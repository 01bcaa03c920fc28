use interest_calculator::dates::Date as LibDate;
use interest_calculator::money::{
    annuity_term_payment, calculate_annulity_term_payment, effective_interest,
};
use interest_calculator::schedule::{
    calculate_due_term_dates, calculate_extra_payment_dates, calculate_first_term_due_date,
    compute_day_actions, future_month, DayAction,
};
use interest_calculator::{Date, TermsPerYear, SCALE};

#[test]
fn effective_interest_with_single_compounding_is_nominal() {
    // With one compounding term per year the effective rate is the nominal.
    assert_eq!(effective_interest(5 * SCALE as i128, 1), Some(5 * SCALE as i128));
    assert_eq!(effective_interest(1_000_000, 1), Some(1_000_000));
}

#[test]
fn effective_interest_monthly_compounding_exceeds_nominal() {
    // 1% nominal compounded twelve times: about 1.00459%.
    let eff = effective_interest(SCALE as i128, 12).unwrap();
    assert!(eff > SCALE as i128);
    assert!(1_004_000 < eff && eff < 1_005_000);
}

#[test]
fn annuity_payment_for_one_term_at_hundred_percent_doubles() {
    // 100% effective over a single yearly term: the single payment is twice
    // the principal.
    let principal: i128 = 1000 * SCALE as i128;
    let eff: i128 = 100 * SCALE as i128;
    assert_eq!(
        annuity_term_payment(principal, eff, 1, 1),
        Some(2 * principal)
    );
    assert_eq!(
        calculate_annulity_term_payment(1000 * SCALE, eff, 1, 1),
        Some(2 * principal)
    );
}

#[test]
fn annuity_payment_with_zero_rate_has_no_denominator() {
    assert_eq!(annuity_term_payment(1000 * SCALE as i128, 0, 12, 12), None);
}

#[test]
fn annuity_payment_for_the_basic_scenario() {
    // 1000 at 1% nominal compounded monthly over 12 monthly terms: the
    // classic annuity is close to 83.79 per month.
    let eff = effective_interest(SCALE as i128, 12).unwrap();
    let payment = annuity_term_payment(1000 * SCALE as i128, eff, 12, 12).unwrap();
    assert!(83_700_000 < payment && payment < 83_900_000);
}

#[test]
fn dates_step_over_month_year_and_leap_boundaries() {
    let d = Date::new(2021, 1, 31).unwrap();
    assert_eq!(d.next_day(), Date::new(2021, 2, 1).unwrap());

    let d = Date::new(2021, 12, 31).unwrap();
    assert_eq!(d.next_day(), Date::new(2022, 1, 1).unwrap());

    let d = Date::new(2024, 2, 28).unwrap();
    assert_eq!(d.next_day(), Date::new(2024, 2, 29).unwrap());
    assert_eq!(
        Date::new(2024, 2, 29).unwrap().next_day(),
        Date::new(2024, 3, 1).unwrap()
    );

    // 1900 was not a leap year; 2000 was.
    assert!(Date::new(1900, 2, 29).is_none());
    assert!(Date::new(2000, 2, 29).is_some());
}

#[test]
fn invalid_dates_are_rejected() {
    assert!(LibDate::new(2021, 0, 1).is_none());
    assert!(LibDate::new(2021, 13, 1).is_none());
    assert!(LibDate::new(2021, 4, 31).is_none());
    assert!(LibDate::new(0, 1, 1).is_none());
}

#[test]
fn future_month_wraps_around_the_year() {
    let d = Date::new(2021, 11, 10).unwrap();
    assert_eq!(future_month(&d, 1), 12);
    assert_eq!(future_month(&d, 2), 1);
    assert_eq!(future_month(&d, 12), 11);
}

#[test]
fn first_term_due_date_rolls_into_the_next_month() {
    // Start past the due day: the first term lands next month.
    let start = Date::new(2021, 1, 25).unwrap();
    let first = calculate_first_term_due_date(&start, 20);
    assert_eq!(first, Date::new(2021, 2, 20).unwrap());

    // Start before the due day: the first term lands the same month.
    let start = Date::new(2021, 1, 10).unwrap();
    let first = calculate_first_term_due_date(&start, 20);
    assert_eq!(first, Date::new(2021, 1, 20).unwrap());

    // December rolls the year over.
    let start = Date::new(2021, 12, 25).unwrap();
    let first = calculate_first_term_due_date(&start, 20);
    assert_eq!(first, Date::new(2022, 1, 20).unwrap());
}

#[test]
fn due_term_dates_step_by_the_term_interval() {
    let start = Date::new(2021, 1, 10).unwrap();
    let dates = calculate_due_term_dates(&start, 20, 4, TermsPerYear::Four);
    assert_eq!(dates.len(), 4);
    assert_eq!(dates[0], Date::new(2021, 1, 20).unwrap());
    assert_eq!(dates[1], Date::new(2021, 4, 20).unwrap());
    assert_eq!(dates[2], Date::new(2021, 7, 20).unwrap());
    assert_eq!(dates[3], Date::new(2021, 10, 20).unwrap());
}

#[test]
fn extra_payment_dates_are_monthly() {
    let first = Date::new(2021, 11, 25).unwrap();
    let dates = calculate_extra_payment_dates(3, 6000 * SCALE, first);
    assert_eq!(dates.len(), 3);
    assert_eq!(dates[0], (Date::new(2021, 11, 25).unwrap(), 6000 * SCALE));
    assert_eq!(dates[1], (Date::new(2021, 12, 25).unwrap(), 6000 * SCALE));
    assert_eq!(dates[2], (Date::new(2022, 1, 25).unwrap(), 6000 * SCALE));
}

#[test]
fn day_actions_walk_every_day_to_the_last_due_date() {
    let start = Date::new(2021, 1, 18).unwrap();
    let dues = vec![
        Date::new(2021, 1, 20).unwrap(),
        Date::new(2021, 2, 20).unwrap(),
    ];
    let extras = vec![vec![(Date::new(2021, 1, 25).unwrap(), 6000 * SCALE)]];
    let plan = compute_day_actions(&start, &dues, &extras);

    // One entry per day, 18 January through 20 February.
    assert_eq!(plan.len(), 34);
    assert_eq!(plan[0].date, start);
    assert!(plan[0].actions.is_empty());
    assert_eq!(plan[2].date, Date::new(2021, 1, 20).unwrap());
    assert_eq!(plan[2].actions, vec![DayAction::InstallmentDue]);
    assert_eq!(plan[7].date, Date::new(2021, 1, 25).unwrap());
    assert_eq!(plan[7].actions, vec![DayAction::ExtraDownpayment(6000 * SCALE)]);
    assert_eq!(plan[33].date, Date::new(2021, 2, 20).unwrap());
    assert_eq!(plan[33].actions, vec![DayAction::InstallmentDue]);
}
