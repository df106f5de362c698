use taxcy::band::{BandTable, TaxBand, UpperBound};
use taxcy::error::TaxError;

fn band(lower_bound: u64, upper: Option<u64>, rate_bp: u32) -> TaxBand {
    let upper_bound = match upper {
        Some(edge) => UpperBound::Bounded(edge),
        None => UpperBound::Unbounded,
    };
    TaxBand { lower_bound, upper_bound, rate_bp }
}

fn rejected(bands: Vec<TaxBand>) -> bool {
    BandTable::new(bands).err() == Some(TaxError::InvalidBandTable)
}

#[test]
fn standard_schedule_has_the_five_bands() {
    let table = BandTable::standard();
    assert_eq!(table.len(), 5);
    assert_eq!(
        table.bands(),
        vec![
            band(0, Some(1_950_000), 0),
            band(1_950_000, Some(2_800_000), 2_000),
            band(2_800_000, Some(3_630_000), 2_500),
            band(3_630_000, Some(6_000_000), 3_000),
            band(6_000_000, None, 3_500),
        ]
    );
}

#[test]
fn band_is_found_by_its_position() {
    let table = BandTable::standard();
    assert_eq!(table.band(0), Some(band(0, Some(1_950_000), 0)));
    assert_eq!(table.band(4), Some(band(6_000_000, None, 3_500)));
    assert_eq!(table.band(5), None);
    assert_eq!(table.band(usize::MAX), None);
}

#[test]
fn valid_bands_are_kept_unchanged() {
    let bands = vec![band(0, Some(1_000), 1_000), band(1_000, None, 1_000)];
    let table = BandTable::new(bands.clone()).unwrap();
    assert_eq!(table.bands(), bands);
    let single = vec![band(0, None, 10_000)];
    assert_eq!(BandTable::new(single.clone()).unwrap().bands(), single);
}

#[test]
fn no_bands_are_rejected() {
    assert!(rejected(vec![]));
}

#[test]
fn bands_that_do_not_start_at_zero_are_rejected() {
    assert!(rejected(vec![band(1, None, 0)]));
}

#[test]
fn bands_with_a_gap_or_an_overlap_are_rejected() {
    assert!(rejected(vec![band(0, Some(100), 0), band(101, None, 0)]));
    assert!(rejected(vec![band(0, Some(100), 0), band(99, None, 0)]));
}

#[test]
fn bounded_top_band_is_rejected() {
    assert!(rejected(vec![band(0, Some(100), 0)]));
    assert!(rejected(vec![band(0, Some(100), 0), band(100, Some(200), 0)]));
}

#[test]
fn unbounded_band_below_the_top_is_rejected() {
    assert!(rejected(vec![band(0, None, 0), band(100, None, 0)]));
}

#[test]
fn rate_above_one_is_rejected() {
    assert!(rejected(vec![band(0, None, 10_001)]));
    assert!(rejected(vec![band(0, Some(100), 10_001), band(100, None, 10_001)]));
    assert!(!rejected(vec![band(0, None, 10_000)]));
}

#[test]
fn falling_rates_are_rejected() {
    assert!(rejected(vec![band(0, Some(100), 2_000), band(100, None, 1_999)]));
    assert!(!rejected(vec![band(0, Some(100), 2_000), band(100, None, 2_000)]));
}

#[test]
fn upper_edge_below_the_lower_edge_is_rejected() {
    assert!(rejected(vec![
        band(0, Some(100), 0),
        band(100, Some(50), 0),
        band(50, None, 0),
    ]));
}

#[test]
fn single_bands_are_judged_on_their_own() {
    assert!(band(0, None, 10_000).is_well_formed());
    assert!(band(5, Some(5), 0).is_well_formed());
    assert!(!band(5, Some(4), 0).is_well_formed());
    assert!(!band(0, None, 10_001).is_well_formed());
}

#[test]
fn errors_say_what_they_are() {
    assert_eq!(TaxError::InvalidSalary.message(), "invalid salary");
    assert_eq!(TaxError::InvalidBandTable.message(), "invalid band table");
}
