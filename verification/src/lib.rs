//! Day-by-day installment loan calculator.
//!
//! The library simulates the lifecycle of an installment loan: starting from a
//! disbursement event and a timeline of loan events, it derives the daily
//! schedule of interest accrual, compounding and installments, processes each
//! day through a verified state machine, and aggregates the daily reports into
//! a total summary.
//!
//! All monetary quantities are fixed-point integers in micro-units (one
//! millionth of a currency unit); interest rates are fixed-point percentages in
//! micro-percent. Dates are plain calendar dates in the proleptic Gregorian
//! calendar.

#![verifier::loop_isolation(false)]

pub mod calculator;
pub mod dates;
pub mod engine;
pub mod events;
pub mod laws;
pub mod money;
pub mod projector;
pub mod reports;
pub mod schedule;

pub use calculator::CalculationError;
pub use calculator::InteractiveCalculator;
pub use dates::Date;
pub use engine::CompoundingStrategy;
pub use events::LoanEvent;
pub use events::LoanExtraInstallment;
pub use events::LoanInitialization;
pub use events::LoanInterestChange;
pub use events::LoanRecurringExtraInstallments;
pub use events::LoanRefinance;
pub use events::LoanRepaymentFreeze;
pub use events::LoanTransfer;
pub use events::MonthlyDueDate;
pub use events::RecurringInterval;
pub use events::TermsPerYear;
pub use money::SCALE;
pub use reports::Daily;
pub use reports::NotableEvents;
pub use reports::TotalResult;
