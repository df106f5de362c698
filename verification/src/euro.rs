//! Amounts of euros, read and built with the `rusty_money` crate.
//!
//! `rusty_money` holds an amount as a decimal number of major units. The two
//! calls into it are made here, and what they hand back is turned into whole
//! minor units by verified code.
use crate::amount::{amount_from_decimal, amount_of_decimal, lemma_round_half_up_exact, pow10};
use crate::error::TaxError;
use rusty_money::{iso, Money, MoneyError};
use vstd::prelude::*;

verus! {

/// The error type of `rusty_money`; nothing is read from it.
#[verifier::external_type_specification]
#[verifier::external_body]
pub struct ExMoneyError(MoneyError);

/// The longest text that is handed on for parsing.
pub const MAX_AMOUNT_TEXT: usize = 28;

/// Whether `c` is one of the ten decimal digits.
pub open spec fn is_digit(c: char) -> bool {
    '0' <= c <= '9'
}

/// The texts that are handed on for parsing: at most `MAX_AMOUNT_TEXT`
/// characters, the first a digit, each of the others a digit, a `.` (which
/// groups digits in thousands) or a `,` (which starts the fraction). A sign
/// has no place in an amount.
pub open spec fn plain_amount_text(text: Seq<char>) -> bool {
    &&& 1 <= text.len() <= MAX_AMOUNT_TEXT
    &&& is_digit(text[0])
    &&& forall|i: int|
        0 <= i < text.len() ==> is_digit(#[trigger] text[i]) || text[i] == '.' || text[i] == ','
}

/// What `rusty_money` reads in `text` as an amount of euros: the mantissa
/// and the scale of the decimal number, or nothing where it rejects the text.
pub uninterp spec fn euro_decimal_of_text(text: Seq<char>) -> Option<(i128, u32)>;

/// Calls `rusty_money::Money::from_str` with the currency `iso::EUR` and
/// hands back the mantissa and the scale of the amount it read.
///
/// Trusted: the result is a function of the text alone, named
/// `euro_decimal_of_text`, and the call does not panic on a plain amount
/// text. `from_str` unwraps what `Decimal::from_str` makes of the digits
/// before the `,`, a `.` and the digits behind it (`00` where there is no
/// `,`). For a plain amount text that string holds nothing but digits around
/// one `.`, with at least one and at most 28 digits in front, and
/// `Decimal::from_str` accepts every such string: it rounds a fraction that
/// is too long, and refuses digits only where the integer part reaches 96
/// bits, which takes 29 of them.
#[verifier::external_body]
fn money_from_str(text: &str) -> (parsed: Result<(i128, u32), MoneyError>)
    requires
        plain_amount_text(text@),
    ensures
        match parsed {
            Ok(decimal) => euro_decimal_of_text(text@) == Some(decimal),
            Err(_) => euro_decimal_of_text(text@) is None,
        },
{
    match Money::from_str(text, iso::EUR) {
        Ok(money) => Ok((money.amount().mantissa(), money.amount().scale())),
        Err(error) => Err(error),
    }
}

/// Calls `rusty_money::Money::from_major` with the currency `iso::EUR` and
/// hands back the mantissa and the scale of the amount it built.
///
/// Trusted: `from_major` keeps the units as the mantissa of a decimal
/// number with scale zero.
#[verifier::external_body]
fn money_from_major(units: i64) -> (decimal: (i128, u32))
    ensures
        decimal.0 == units,
        decimal.1 == 0,
{
    let money = Money::from_major(units, iso::EUR);
    (money.amount().mantissa(), money.amount().scale())
}

/// Whether `text` is a plain amount text.
pub fn is_plain_amount_text(text: &str) -> (plain: bool)
    ensures
        plain == plain_amount_text(text@),
{
    let n: usize = text.unicode_len();
    if n < 1 || n > MAX_AMOUNT_TEXT {
        return false;
    }
    let first: char = text.get_char(0);
    if !(first >= '0' && first <= '9') {
        return false;
    }
    let mut i: usize = 0;
    while i < n
        invariant
            n == text@.len(),
            i <= n,
            forall|k: int|
                0 <= k < i ==> is_digit(#[trigger] text@[k]) || text@[k] == '.' || text@[k] == ',',
        decreases n - i,
    {
        let c: char = text.get_char(i);
        if !((c >= '0' && c <= '9') || c == '.' || c == ',') {
            return false;
        }
        i = i + 1;
    }
    true
}

/// The amount that `text` stands for, or `InvalidSalary`: for a text that
/// is not a plain amount text, for one that `rusty_money` rejects, and for
/// one whose value does not fit the amount type.
pub open spec fn amount_of_text(text: Seq<char>) -> Result<u64, TaxError> {
    if !plain_amount_text(text) {
        Err(TaxError::InvalidSalary)
    } else {
        amount_of_parsed(euro_decimal_of_text(text))
    }
}

/// The amount that a parsed decimal number stands for.
pub open spec fn amount_of_parsed(parsed: Option<(i128, u32)>) -> Result<u64, TaxError> {
    match parsed {
        Some((mantissa, scale)) => match amount_of_decimal(mantissa as int, scale as nat) {
            Some(amount) => Ok(amount),
            None => Err(TaxError::InvalidSalary),
        },
        None => Err(TaxError::InvalidSalary),
    }
}

/// Turns what the parser handed back into an amount of minor units.
pub fn amount_from_parsed(parsed: Option<(i128, u32)>) -> (amount: Result<u64, TaxError>)
    ensures
        amount == amount_of_parsed(parsed),
{
    match parsed {
        Some((mantissa, scale)) => match amount_from_decimal(mantissa, scale) {
            Some(amount) => Ok(amount),
            None => Err(TaxError::InvalidSalary),
        },
        None => Err(TaxError::InvalidSalary),
    }
}

/// Reads an amount of euros, such as `39.000` or `1.250,75`, into minor
/// units. A fraction of a cent is rounded half-up. Text that is negative,
/// not a number or too large is rejected with `InvalidSalary`.
pub fn parse_amount(text: &str) -> (amount: Result<u64, TaxError>)
    ensures
        amount == amount_of_text(text@),
{
    if !is_plain_amount_text(text) {
        return Err(TaxError::InvalidSalary);
    }
    let parsed: Option<(i128, u32)> = match money_from_str(text) {
        Ok(decimal) => Some(decimal),
        Err(_) => None,
    };
    amount_from_parsed(parsed)
}

/// An amount of whole euros in minor units.
pub fn from_major(units: u32) -> (amount: u64)
    ensures
        amount == units * 100,
{
    let decimal: (i128, u32) = money_from_major(units as i64);
    proof {
        reveal_with_fuel(pow10, 1);
        lemma_round_half_up_exact(units * 100, 1);
    }
    amount_from_decimal(decimal.0, decimal.1).unwrap()
}

} // verus!
