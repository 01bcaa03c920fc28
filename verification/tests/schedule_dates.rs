use interest_calculator::schedule::installment_date_from_target_month;
use interest_calculator::{Date, MonthlyDueDate};

#[test]
fn installment_date_from_target_month_next_month() {
    let today = Date::new(2021, 1, 10).unwrap();
    let monthly_due_day = MonthlyDueDate::First;
    let target_month: i64 = 2;

    let result = installment_date_from_target_month(&today, monthly_due_day, target_month);
    assert_eq!(Date::new(2021, 2, 1).unwrap(), result);
}

#[test]
fn due_day_clamps_to_month_length() {
    // Due day 31 in February lands on the last valid day of February.
    let today = Date::new(2021, 1, 10).unwrap();
    let result = installment_date_from_target_month(&today, MonthlyDueDate::End, 2);
    assert_eq!(Date::new(2021, 2, 28).unwrap(), result);

    // In a leap year February has 29 days.
    let today = Date::new(2024, 1, 10).unwrap();
    let result = installment_date_from_target_month(&today, MonthlyDueDate::End, 2);
    assert_eq!(Date::new(2024, 2, 29).unwrap(), result);
}
