//! From a salary as it is quoted to the annual income that is taxed.
use crate::amount::{round_half_up, round_half_up_div};
use crate::band::BandTable;
use crate::error::TaxError;
use crate::euro::{amount_of_text, parse_amount};
use crate::tax::{calculate, tax_owed};
use vstd::prelude::*;

verus! {

/// The period that a quoted salary covers.
#[derive(Clone, Copy, Debug, PartialEq, Eq, Structural)]
pub enum SalaryPeriod {
    /// The salary of a whole year.
    Annual,
    /// The salary of one month.
    Monthly,
}

/// A salary as it is quoted: an amount in minor units, the period it
/// covers, and whether a thirteenth month is paid on top of it.
#[derive(Clone, Copy, Debug, PartialEq, Eq, Structural)]
pub struct SalaryInput {
    /// The quoted amount in minor units.
    pub amount: u64,
    /// The period that the amount covers.
    pub period: SalaryPeriod,
    /// Whether one more month's pay is added to the year.
    pub thirteenth_month: bool,
}

/// The annual amount that a quoted salary comes to. A monthly salary is paid
/// twelve times. A thirteenth month adds one month's pay: the monthly amount
/// itself, or a twelfth of an annual one, rounded half-up to a minor unit.
pub open spec fn annual_amount(input: SalaryInput) -> int {
    let twelve_months = match input.period {
        SalaryPeriod::Annual => input.amount as int,
        SalaryPeriod::Monthly => input.amount * 12,
    };
    let one_month = match input.period {
        SalaryPeriod::Annual => round_half_up(input.amount as int, 12),
        SalaryPeriod::Monthly => input.amount as int,
    };
    if input.thirteenth_month {
        twelve_months + one_month
    } else {
        twelve_months
    }
}

/// The annual income of a quoted salary, or `InvalidSalary` where it is
/// beyond the amount type.
pub open spec fn annualized(input: SalaryInput) -> Result<u64, TaxError> {
    if annual_amount(input) <= u64::MAX {
        Ok(annual_amount(input) as u64)
    } else {
        Err(TaxError::InvalidSalary)
    }
}

/// The annual income of a salary quoted as text.
pub open spec fn normalized(
    salary: Seq<char>,
    period: SalaryPeriod,
    thirteenth_month: bool,
) -> Result<u64, TaxError> {
    match amount_of_text(salary) {
        Ok(amount) => annualized(SalaryInput { amount, period, thirteenth_month }),
        Err(error) => Err(error),
    }
}

/// Converts a quoted salary into the annual income that is taxed.
pub fn annualize(input: SalaryInput) -> (income: Result<u64, TaxError>)
    ensures
        income == annualized(input),
{
    let amount: u128 = input.amount as u128;
    let twelve_months: u128 = match input.period {
        SalaryPeriod::Annual => amount,
        SalaryPeriod::Monthly => amount * 12,
    };
    let one_month: u128 = match input.period {
        SalaryPeriod::Annual => round_half_up_div(amount, 12),
        SalaryPeriod::Monthly => amount,
    };
    let total: u128 = if input.thirteenth_month {
        twelve_months + one_month
    } else {
        twelve_months
    };
    if total <= u64::MAX as u128 {
        Ok(total as u64)
    } else {
        Err(TaxError::InvalidSalary)
    }
}

/// Reads a salary quoted as text and converts it into the annual income
/// that is taxed. Fails with `InvalidSalary` where the text is no
/// non-negative amount of money, or the year's total is beyond the amount
/// type.
pub fn normalize(salary: &str, period: SalaryPeriod, thirteenth_month: bool) -> (income: Result<
    u64,
    TaxError,
>)
    ensures
        income == normalized(salary@, period, thirteenth_month),
{
    match parse_amount(salary) {
        Ok(amount) => annualize(SalaryInput { amount, period, thirteenth_month }),
        Err(error) => Err(error),
    }
}

/// The tax on a quoted salary: the salary is brought to a year, and the
/// year's income is taxed band by band.
pub fn tax_on_salary(input: SalaryInput, bands: &BandTable) -> (tax: Result<u64, TaxError>)
    ensures
        match annualized(input) {
            Ok(income) => tax is Ok && tax->Ok_0 == tax_owed(bands@, income as int),
            Err(error) => tax == Err::<u64, TaxError>(error),
        },
{
    match annualize(input) {
        Ok(income) => Ok(calculate(income, bands)),
        Err(error) => Err(error),
    }
}

/// The tax on a salary quoted as text. A salary that is rejected is never
/// taxed.
pub fn tax_on_salary_text(
    salary: &str,
    period: SalaryPeriod,
    thirteenth_month: bool,
    bands: &BandTable,
) -> (tax: Result<u64, TaxError>)
    ensures
        match normalized(salary@, period, thirteenth_month) {
            Ok(income) => tax is Ok && tax->Ok_0 == tax_owed(bands@, income as int),
            Err(error) => tax == Err::<u64, TaxError>(error),
        },
{
    match normalize(salary, period, thirteenth_month) {
        Ok(income) => Ok(calculate(income, bands)),
        Err(error) => Err(error),
    }
}

} // verus!
