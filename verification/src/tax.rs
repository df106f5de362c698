//! The progressive tax on an annual income.
use crate::amount::{
    lemma_round_half_up_is_nearest, lemma_round_half_up_monotonic, round_half_up,
    round_half_up_div, BASIS_POINTS,
};
use crate::band::{
    adjoins_next, lemma_bands_ascend, valid_table, BandTable, TaxBand, UpperBound,
};
use vstd::prelude::*;

verus! {

/// The tax on `width` minor units of income at `rate_bp` basis points:
/// their product, rounded half-up to a whole minor unit.
pub open spec fn band_tax(width: int, rate_bp: int) -> int {
    round_half_up(width * rate_bp, BASIS_POINTS as int)
}

/// How much of an income of `income` minor units lies inside `band`.
pub open spec fn taxable_width(band: TaxBand, income: int) -> int {
    if income <= band.lower_bound {
        0
    } else {
        match band.upper_bound {
            UpperBound::Bounded(hi) => if income < hi {
                income - band.lower_bound
            } else {
                hi - band.lower_bound
            },
            UpperBound::Unbounded => income - band.lower_bound,
        }
    }
}

/// The tax that the first `count` bands charge on `income`.
pub open spec fn tax_in_first(bands: Seq<TaxBand>, count: int, income: int) -> int
    decreases count,
{
    if count <= 0 {
        0
    } else {
        tax_in_first(bands, count - 1, income) + band_tax(
            taxable_width(bands[count - 1], income),
            bands[count - 1].rate_bp as int,
        )
    }
}

/// The total tax on `income`: each band charges its rate on the part of
/// the income that lies inside it, and the charges add up.
pub open spec fn tax_owed(bands: Seq<TaxBand>, income: int) -> int {
    tax_in_first(bands, bands.len() as int, income)
}

/// A band never charges more than the income it covers, and never less
/// than nothing.
pub proof fn lemma_band_tax_bounds(width: int, rate_bp: int)
    requires
        0 <= width,
        0 <= rate_bp <= BASIS_POINTS,
    ensures
        0 <= band_tax(width, rate_bp) <= width,
        width == 0 ==> band_tax(width, rate_bp) == 0,
        rate_bp == 0 ==> band_tax(width, rate_bp) == 0,
{
    assert(0 <= width * rate_bp <= width * 10_000) by (nonlinear_arith)
        requires
            0 <= width,
            0 <= rate_bp <= 10_000,
    ;
    lemma_round_half_up_is_nearest(width * rate_bp, 10_000);
    if width == 0 || rate_bp == 0 {
        assert(width * rate_bp == 0) by (nonlinear_arith)
            requires
                width == 0 || rate_bp == 0,
        ;
    }
}

/// A wider slice of income is never taxed less at the same rate.
pub proof fn lemma_band_tax_monotonic(narrow: int, wide: int, rate_bp: int)
    requires
        0 <= narrow <= wide,
        0 <= rate_bp,
    ensures
        band_tax(narrow, rate_bp) <= band_tax(wide, rate_bp),
{
    assert(0 <= narrow * rate_bp <= wide * rate_bp) by (nonlinear_arith)
        requires
            0 <= narrow <= wide,
            0 <= rate_bp,
    ;
    lemma_round_half_up_monotonic(narrow * rate_bp, wide * rate_bp, 10_000);
}

/// The first `count` bands of a valid table cover the income below the
/// lower edge of the band that follows them, and charge no more than
/// what they cover.
proof fn lemma_tax_in_first_bounds(bands: Seq<TaxBand>, count: int, income: int)
    requires
        valid_table(bands),
        0 <= count <= bands.len(),
        0 <= income,
    ensures
        0 <= tax_in_first(bands, count, income) <= income,
        count < bands.len() ==> tax_in_first(bands, count, income) <= bands[count].lower_bound,
    decreases count,
{
    if count > 0 {
        let band = bands[count - 1];
        lemma_tax_in_first_bounds(bands, count - 1, income);
        assert(band.well_formed());
        lemma_band_tax_bounds(taxable_width(band, income), band.rate_bp as int);
        if count < bands.len() {
            assert(adjoins_next(bands, count - 1));
        }
    }
}

/// Bands that start at or above the income charge nothing.
proof fn lemma_bands_above_income(bands: Seq<TaxBand>, from: int, count: int, income: int)
    requires
        valid_table(bands),
        0 <= from <= count <= bands.len(),
        0 <= income,
        from < bands.len() ==> income <= bands[from].lower_bound,
    ensures
        tax_in_first(bands, count, income) == tax_in_first(bands, from, income),
    decreases count - from,
{
    if from < count {
        lemma_bands_above_income(bands, from, count - 1, income);
        lemma_bands_ascend(bands, from, count - 1);
        lemma_band_tax_bounds(0, bands[count - 1].rate_bp as int);
    }
}

/// Bands that end at or below both incomes charge the same on each.
proof fn lemma_bands_below_income(bands: Seq<TaxBand>, count: int, index: int, low: int, high: int)
    requires
        valid_table(bands),
        0 <= count <= index < bands.len(),
        bands[index].lower_bound <= low <= high,
    ensures
        tax_in_first(bands, count, low) == tax_in_first(bands, count, high),
    decreases count,
{
    if count > 0 {
        lemma_bands_below_income(bands, count - 1, index, low, high);
        lemma_bands_ascend(bands, count - 1, index);
        assert(bands[count - 1].well_formed());
    }
}

/// The income that the first `count` bands leave untaxed: what lies at or
/// above the lower edge of the band that follows them.
pub open spec fn untaxed_above(bands: Seq<TaxBand>, count: int, income: int) -> int {
    if count >= bands.len() || income <= bands[count].lower_bound {
        0
    } else {
        income - bands[count].lower_bound
    }
}

/// While income is left, the next band takes as much of it as fits between
/// its edges, and leaves the rest to the bands after it.
proof fn lemma_next_band(bands: Seq<TaxBand>, index: int, income: int)
    requires
        valid_table(bands),
        0 <= index < bands.len(),
        0 <= income,
        untaxed_above(bands, index, income) > 0,
    ensures
        bands[index].well_formed(),
        taxable_width(bands[index], income) == (match bands[index].upper_bound {
            UpperBound::Bounded(hi) => if untaxed_above(bands, index, income) < hi
                - bands[index].lower_bound {
                untaxed_above(bands, index, income)
            } else {
                hi - bands[index].lower_bound
            },
            UpperBound::Unbounded => untaxed_above(bands, index, income),
        }),
        untaxed_above(bands, index + 1, income) == untaxed_above(bands, index, income)
            - taxable_width(bands[index], income),
{
    assert(bands[index].well_formed());
    if index + 1 < bands.len() {
        assert(adjoins_next(bands, index));
    }
}

/// The tax on `width` minor units at `rate_bp` basis points.
fn tax_on_width(width: u64, rate_bp: u32) -> (tax: u64)
    requires
        rate_bp <= BASIS_POINTS,
    ensures
        tax == band_tax(width as int, rate_bp as int),
        tax <= width,
{
    proof {
            lemma_band_tax_bounds(width as int, rate_bp as int);
        assert(0 <= width * rate_bp <= 0xffff_ffff_ffff_ffff * 10_000) by (nonlinear_arith)
            requires
                0 <= width <= 0xffff_ffff_ffff_ffff,
                0 <= rate_bp <= 10_000,
        ;
    }
    let product: u128 = (width as u128) * (rate_bp as u128);
    let rounded: u128 = round_half_up_div(product, BASIS_POINTS as u128);
    rounded as u64
}

/// The total tax on an annual income under a progressive schedule.
///
/// Both the income and the tax are in minor units. The bands are walked from
/// the lowest upwards while any income is left to tax; each band takes the
/// part of what is left that fits inside it and charges its rate on that
/// part, rounded half-up to a whole minor unit. The function is total: the
/// open-ended top band absorbs whatever the bounded bands leave over. What
/// holds of `tax_owed` under a valid schedule holds of the result, since a
/// table is always one.
pub fn calculate(annual_income: u64, bands: &BandTable) -> (total_tax: u64)
    ensures
        total_tax == tax_owed(bands@, annual_income as int),
        total_tax <= annual_income,
        annual_income == 0 ==> total_tax == 0,
        valid_table(bands@),
{
    let n: usize = bands.len();
    let ghost table = bands@;
    let mut total_tax: u64 = 0;
    let mut remaining: u64 = annual_income;
    let mut i: usize = 0;
    while i < n && remaining > 0
        invariant
            valid_table(table),
            table == bands@,
            n == table.len(),
            i <= n,
            remaining == untaxed_above(table, i as int, annual_income as int),
            total_tax == tax_in_first(table, i as int, annual_income as int),
            total_tax <= annual_income - remaining,
        decreases n - i,
    {
        let band: TaxBand = bands.at(i);
        proof {
            lemma_next_band(table, i as int, annual_income as int);
        }
        let width: u64 = match band.upper_bound {
            UpperBound::Bounded(hi) => {
                let span: u64 = hi - band.lower_bound;
                if remaining < span {
                    remaining
                } else {
                    span
                }
            },
            UpperBound::Unbounded => remaining,
        };
        let tax: u64 = tax_on_width(width, band.rate_bp);
        total_tax = total_tax + tax;
        remaining = remaining - width;
        i = i + 1;
    }
    proof {
        lemma_bands_above_income(table, i as int, n as int, annual_income as int);
        lemma_tax_in_first_bounds(table, n as int, annual_income as int);
        if annual_income == 0 {
            lemma_zero_income(table);
        }
    }
    total_tax
}

/// No income, no tax: an income of zero owes zero under any bands at all.
pub proof fn lemma_zero_income(bands: Seq<TaxBand>)
    ensures
        tax_owed(bands, 0) == 0,
{
    lemma_zero_income_in_first(bands, bands.len() as int);
}

proof fn lemma_zero_income_in_first(bands: Seq<TaxBand>, count: int)
    ensures
        tax_in_first(bands, count, 0) == 0,
    decreases count,
{
    if count > 0 {
        lemma_zero_income_in_first(bands, count - 1);
            assert(0 * (bands[count - 1].rate_bp as int) == 0);
    }
}

/// Whether `income` lies inside `band`, either edge included.
pub open spec fn within_band(band: TaxBand, income: int) -> bool {
    &&& band.lower_bound <= income
    &&& match band.upper_bound {
        UpperBound::Bounded(hi) => income <= hi,
        UpperBound::Unbounded => true,
    }
}

proof fn lemma_tax_in_first_monotonic(bands: Seq<TaxBand>, count: int, low: int, high: int)
    requires
        valid_table(bands),
        0 <= count <= bands.len(),
        0 <= low <= high,
    ensures
        tax_in_first(bands, count, low) <= tax_in_first(bands, count, high),
    decreases count,
{
    if count > 0 {
        let band = bands[count - 1];
        lemma_tax_in_first_monotonic(bands, count - 1, low, high);
        assert(band.well_formed());
        lemma_band_tax_monotonic(
            taxable_width(band, low),
            taxable_width(band, high),
            band.rate_bp as int,
        );
    }
}

/// The tax is never negative, never more than the income, and never falls
/// when the income rises.
pub proof fn lemma_tax_monotonic(bands: Seq<TaxBand>, low: int, high: int)
    requires
        valid_table(bands),
        0 <= low <= high,
    ensures
        0 <= tax_owed(bands, low) <= tax_owed(bands, high) <= high,
{
    lemma_tax_in_first_monotonic(bands, bands.len() as int, low, high);
    lemma_tax_in_first_bounds(bands, bands.len() as int, low);
    lemma_tax_in_first_bounds(bands, bands.len() as int, high);
}

/// The tax on `income` as the band at `index` alone gives it: the tax at the
/// band's lower edge, plus the band's rate on what lies above that edge,
/// rounded half-up to a whole minor unit.
pub open spec fn tax_via_band(bands: Seq<TaxBand>, index: int, income: int) -> int {
    tax_owed(bands, bands[index].lower_bound as int) + band_tax(
        income - bands[index].lower_bound,
        bands[index].rate_bp as int,
    )
}

/// Inside one band the tax is linear in the income, with the band's rate
/// as slope: the tax on an income between the band's edges, either edge
/// included, is what that band alone gives. What it adds to the tax at the
/// lower edge is within half a minor unit of the exact product of rate and
/// width.
pub proof fn lemma_tax_linear_within_band(bands: Seq<TaxBand>, index: int, income: int)
    requires
        valid_table(bands),
        0 <= index < bands.len(),
        within_band(bands[index], income),
    ensures
        tax_owed(bands, income) == tax_via_band(bands, index, income),
        2 * (BASIS_POINTS * (tax_owed(bands, income) - tax_owed(
            bands,
            bands[index].lower_bound as int,
        )) - bands[index].rate_bp * (income - bands[index].lower_bound)) <= BASIS_POINTS,
        2 * (bands[index].rate_bp * (income - bands[index].lower_bound) - BASIS_POINTS * (tax_owed(
            bands,
            income,
        ) - tax_owed(bands, bands[index].lower_bound as int))) < BASIS_POINTS,
{
    let band = bands[index];
    let lower = band.lower_bound as int;
    let count = bands.len() as int;
    assert(band.well_formed());
    if index + 1 < count {
        assert(adjoins_next(bands, index));
    }
    lemma_bands_above_income(bands, index + 1, count, income);
    lemma_bands_above_income(bands, index, count, lower);
    lemma_bands_below_income(bands, index, index, lower, income);
    assert(taxable_width(band, income) == income - lower);
    assert(tax_in_first(bands, index + 1, income) == tax_in_first(bands, index, income) + band_tax(
        income - lower,
        band.rate_bp as int,
    ));
    assert(0 <= (income - lower) * band.rate_bp) by (nonlinear_arith)
        requires
            0 <= income - lower,
            0 <= band.rate_bp,
    ;
    assert((income - lower) * band.rate_bp == band.rate_bp * (income - lower))
        by (nonlinear_arith);
    lemma_round_half_up_is_nearest((income - lower) * band.rate_bp, 10_000);
}

/// The tax is continuous at every edge between two bands: at the edge, the
/// band that ends there and the band that starts there give the same tax,
/// so nothing is taxed twice and nothing escapes.
pub proof fn lemma_tax_continuous_at_edge(bands: Seq<TaxBand>, index: int)
    requires
        valid_table(bands),
        0 <= index < bands.len() - 1,
    ensures
        bands[index].upper_bound == UpperBound::Bounded(bands[index + 1].lower_bound),
        tax_via_band(bands, index, bands[index + 1].lower_bound as int) == tax_via_band(
            bands,
            index + 1,
            bands[index + 1].lower_bound as int,
        ),
        tax_via_band(bands, index, bands[index + 1].lower_bound as int) == tax_owed(
            bands,
            bands[index + 1].lower_bound as int,
        ),
{
    let edge = bands[index + 1].lower_bound as int;
    assert(adjoins_next(bands, index));
    assert(bands[index].well_formed());
    assert(bands[index + 1].well_formed());
    lemma_tax_linear_within_band(bands, index, edge);
    lemma_tax_linear_within_band(bands, index + 1, edge);
}

/// The open-ended top band takes every income above its lower edge,
/// however large: there the tax is linear in the income, with the top
/// band's rate as slope.
pub proof fn lemma_tax_linear_in_top_band(bands: Seq<TaxBand>, income: int)
    requires
        valid_table(bands),
        bands[bands.len() - 1].lower_bound <= income,
    ensures
        tax_owed(bands, income) == tax_via_band(bands, bands.len() - 1, income),
        2 * (BASIS_POINTS * (tax_owed(bands, income) - tax_owed(
            bands,
            bands[bands.len() - 1].lower_bound as int,
        )) - bands[bands.len() - 1].rate_bp * (income - bands[bands.len() - 1].lower_bound))
            <= BASIS_POINTS,
        2 * (bands[bands.len() - 1].rate_bp * (income - bands[bands.len() - 1].lower_bound)
            - BASIS_POINTS * (tax_owed(bands, income) - tax_owed(
            bands,
            bands[bands.len() - 1].lower_bound as int,
        ))) < BASIS_POINTS,
{
    lemma_tax_linear_within_band(bands, bands.len() - 1, income);
}

} // verus!
