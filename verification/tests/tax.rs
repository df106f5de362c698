use taxcy::band::{BandTable, TaxBand, UpperBound};
use taxcy::tax::calculate;

fn single_rate(rate_bp: u32) -> BandTable {
    let bands = vec![TaxBand { lower_bound: 0, upper_bound: UpperBound::Unbounded, rate_bp }];
    BandTable::new(bands).unwrap()
}

#[test]
fn zero_income_owes_nothing() {
    assert_eq!(calculate(0, &BandTable::standard()), 0);
    assert_eq!(calculate(0, &single_rate(10_000)), 0);
}

#[test]
fn upper_edge_of_the_zero_rate_band_owes_nothing() {
    assert_eq!(calculate(1_950_000, &BandTable::standard()), 0);
}

#[test]
fn income_at_the_end_of_the_second_band() {
    assert_eq!(calculate(2_800_000, &BandTable::standard()), 170_000);
}

#[test]
fn income_in_the_top_band() {
    assert_eq!(calculate(10_000_000, &BandTable::standard()), 2_488_500);
}

#[test]
fn income_of_thirty_nine_thousand() {
    assert_eq!(calculate(3_900_000, &BandTable::standard()), 458_500);
}

#[test]
fn tax_at_every_edge_of_the_standard_schedule() {
    let table = BandTable::standard();
    assert_eq!(calculate(1_950_000, &table), 0);
    assert_eq!(calculate(2_800_000, &table), 170_000);
    assert_eq!(calculate(3_630_000, &table), 377_500);
    assert_eq!(calculate(6_000_000, &table), 1_088_500);
}

#[test]
fn tax_is_continuous_across_an_edge() {
    let table = BandTable::standard();
    assert_eq!(calculate(5_999_999, &table), 1_088_500);
    assert_eq!(calculate(6_000_000, &table), 1_088_500);
    assert_eq!(calculate(6_000_001, &table), 1_088_500);
    assert_eq!(calculate(6_000_002, &table), 1_088_501);
}

#[test]
fn tax_grows_with_the_rate_of_the_band() {
    let table = BandTable::standard();
    let at_edge = calculate(1_950_000, &table);
    assert_eq!(calculate(2_000_000, &table) - at_edge, 10_000);
    assert_eq!(calculate(2_050_000, &table) - at_edge, 20_000);
    let at_top_edge = calculate(6_000_000, &table);
    assert_eq!(calculate(6_100_000, &table) - at_top_edge, 35_000);
    assert_eq!(calculate(7_000_000, &table) - at_top_edge, 350_000);
}

#[test]
fn tax_never_falls_when_income_rises() {
    let table = BandTable::standard();
    let incomes: [u64; 9] =
        [0, 1, 1_949_999, 1_950_000, 1_950_003, 2_800_000, 3_630_001, 6_000_000, 123_456_789];
    let mut previous: u64 = 0;
    for income in incomes {
        let tax = calculate(income, &table);
        assert!(tax >= previous);
        assert!(tax <= income);
        previous = tax;
    }
}

#[test]
fn largest_income_is_taxed_without_failure() {
    assert_eq!(calculate(u64::MAX, &BandTable::standard()), 6_456_360_425_797_331_565);
    assert_eq!(calculate(u64::MAX, &single_rate(10_000)), u64::MAX);
    assert_eq!(calculate(u64::MAX, &single_rate(0)), 0);
}

#[test]
fn half_a_minor_unit_rounds_up() {
    let table = single_rate(1);
    assert_eq!(calculate(4_999, &table), 0);
    assert_eq!(calculate(5_000, &table), 1);
    assert_eq!(calculate(14_999, &table), 1);
    assert_eq!(calculate(15_000, &table), 2);
    let standard = BandTable::standard();
    assert_eq!(calculate(1_950_002, &standard), 0);
    assert_eq!(calculate(1_950_003, &standard), 1);
}

#[test]
fn each_band_rounds_on_its_own() {
    let bands = vec![
        TaxBand { lower_bound: 0, upper_bound: UpperBound::Bounded(5_000), rate_bp: 1 },
        TaxBand { lower_bound: 5_000, upper_bound: UpperBound::Unbounded, rate_bp: 1 },
    ];
    let table = BandTable::new(bands).unwrap();
    assert_eq!(calculate(10_000, &table), 2);
    assert_eq!(calculate(10_000, &single_rate(1)), 1);
}

#[test]
fn empty_band_charges_nothing() {
    let bands = vec![
        TaxBand { lower_bound: 0, upper_bound: UpperBound::Bounded(0), rate_bp: 1_000 },
        TaxBand { lower_bound: 0, upper_bound: UpperBound::Bounded(100), rate_bp: 5_000 },
        TaxBand { lower_bound: 100, upper_bound: UpperBound::Bounded(100), rate_bp: 6_000 },
        TaxBand { lower_bound: 100, upper_bound: UpperBound::Unbounded, rate_bp: 10_000 },
    ];
    let table = BandTable::new(bands).unwrap();
    assert_eq!(calculate(100, &table), 50);
    assert_eq!(calculate(150, &table), 100);
}
