//! Tax bands and the table that partitions income among them.
use crate::amount::BASIS_POINTS;
use crate::error::TaxError;
use crate::euro::from_major;
use vstd::prelude::*;

verus! {

/// The upper edge of a band. The edge itself lies outside the band.
#[derive(Clone, Copy, Debug, PartialEq, Eq, Structural)]
pub enum UpperBound {
    /// The band ends just below this amount, in minor units.
    Bounded(u64),
    /// The band has no upper edge.
    Unbounded,
}

/// One band of a progressive schedule: the income from `lower_bound`
/// (inclusive) up to `upper_bound` (exclusive) is taxed at `rate_bp`.
#[derive(Clone, Copy, Debug, PartialEq, Eq, Structural)]
pub struct TaxBand {
    /// Lower edge in minor units; it belongs to the band.
    pub lower_bound: u64,
    /// Upper edge; it belongs to the next band.
    pub upper_bound: UpperBound,
    /// Marginal rate in basis points: 10 000 is a rate of one.
    pub rate_bp: u32,
}

impl TaxBand {
    /// The band's own edges and rate make sense: the rate is at most one and
    /// a bounded upper edge is not below the lower edge.
    pub open spec fn well_formed(self) -> bool {
        &&& self.rate_bp <= BASIS_POINTS
        &&& match self.upper_bound {
            UpperBound::Bounded(hi) => self.lower_bound <= hi,
            UpperBound::Unbounded => true,
        }
    }

    /// Whether `well_formed` holds.
    pub fn is_well_formed(&self) -> (ok: bool)
        ensures
            ok == self.well_formed(),
    {
        self.rate_bp <= BASIS_POINTS && match self.upper_bound {
            UpperBound::Bounded(hi) => self.lower_bound <= hi,
            UpperBound::Unbounded => true,
        }
    }
}

/// The band at `index` ends exactly where the next one begins, and the
/// next one's rate is not lower.
pub open spec fn adjoins_next(bands: Seq<TaxBand>, index: int) -> bool {
    &&& bands[index].upper_bound == UpperBound::Bounded(bands[index + 1].lower_bound)
    &&& bands[index].rate_bp <= bands[index + 1].rate_bp
}

/// `bands` is a progressive schedule: the bands start at zero, each one ends
/// where the next begins, only the last is unbounded, every band is
/// well formed and the rates never decrease.
pub open spec fn valid_table(bands: Seq<TaxBand>) -> bool {
    &&& bands.len() >= 1
    &&& bands[0].lower_bound == 0
    &&& bands[bands.len() - 1].upper_bound == UpperBound::Unbounded
    &&& forall|i: int| 0 <= i < bands.len() ==> (#[trigger] bands[i]).well_formed()
    &&& forall|i: int| 0 <= i < bands.len() - 1 ==> #[trigger] adjoins_next(bands, i)
}

/// In a valid table the lower edges ascend, and every band before another
/// ends at or below the lower edge of that other.
pub proof fn lemma_bands_ascend(bands: Seq<TaxBand>, i: int, j: int)
    requires
        valid_table(bands),
        0 <= i <= j < bands.len(),
    ensures
        bands[i].lower_bound <= bands[j].lower_bound,
        bands[i].rate_bp <= bands[j].rate_bp,
        i < j ==> bands[i].upper_bound is Bounded && bands[i].upper_bound->Bounded_0
            <= bands[j].lower_bound,
    decreases j - i,
{
    if i < j {
        assert(bands[j - 1].well_formed());
        assert(adjoins_next(bands, j - 1));
        lemma_bands_ascend(bands, i, j - 1);
        assert(bands[i].well_formed());
    }
}

/// The bands of the standard schedule, in minor units and basis points:
/// nothing up to 19 500, a fifth up to 28 000, a quarter up to 36 300,
/// three tenths up to 60 000 and 35 percent on everything above.
pub open spec fn standard_bands() -> Seq<TaxBand> {
    seq![
        TaxBand { lower_bound: 0, upper_bound: UpperBound::Bounded(1_950_000), rate_bp: 0 },
        TaxBand {
            lower_bound: 1_950_000,
            upper_bound: UpperBound::Bounded(2_800_000),
            rate_bp: 2_000,
        },
        TaxBand {
            lower_bound: 2_800_000,
            upper_bound: UpperBound::Bounded(3_630_000),
            rate_bp: 2_500,
        },
        TaxBand {
            lower_bound: 3_630_000,
            upper_bound: UpperBound::Bounded(6_000_000),
            rate_bp: 3_000,
        },
        TaxBand { lower_bound: 6_000_000, upper_bound: UpperBound::Unbounded, rate_bp: 3_500 },
    ]
}

/// The standard schedule is a valid one.
pub proof fn lemma_standard_bands_valid()
    ensures
        valid_table(standard_bands()),
{
    let bands = standard_bands();
    assert(bands.len() == 5);
    assert forall|i: int| 0 <= i < bands.len() implies (#[trigger] bands[i]).well_formed() by {
        assert(i == 0 || i == 1 || i == 2 || i == 3 || i == 4);
    }
    assert forall|i: int| 0 <= i < bands.len() - 1 implies #[trigger] adjoins_next(bands, i) by {
        assert(i == 0 || i == 1 || i == 2 || i == 3);
    }
}

/// An immutable, validated schedule of tax bands.
pub struct BandTable {
    bands: Vec<TaxBand>,
}

impl View for BandTable {
    type V = Seq<TaxBand>;

    closed spec fn view(&self) -> Seq<TaxBand> {
        self.bands@
    }
}

impl BandTable {
    #[verifier::type_invariant]
    closed spec fn inv(&self) -> bool {
        valid_table(self.bands@)
    }

    /// Checks `bands` and wraps them. Fails with `InvalidBandTable` exactly
    /// when they are not a valid schedule.
    pub fn new(bands: Vec<TaxBand>) -> (table: Result<BandTable, TaxError>)
        ensures
            match table {
                Ok(table) => valid_table(bands@) && table@ == bands@,
                Err(error) => !valid_table(bands@) && error == TaxError::InvalidBandTable,
            },
    {
        let n: usize = bands.len();
        if n == 0 {
            return Err(TaxError::InvalidBandTable);
        }
        if bands[0].lower_bound != 0 {
            return Err(TaxError::InvalidBandTable);
        }
        let mut i: usize = 0;
        while i < n - 1
            invariant
                n == bands.len(),
                n >= 1,
                i <= n - 1,
                forall|k: int| 0 <= k < i ==> (#[trigger] bands[k]).well_formed(),
                forall|k: int| 0 <= k < i ==> #[trigger] adjoins_next(bands@, k),
            decreases n - i,
        {
            let band: TaxBand = bands[i];
            let next: TaxBand = bands[i + 1];
            let joined: bool = match band.upper_bound {
                UpperBound::Bounded(hi) => hi == next.lower_bound,
                UpperBound::Unbounded => false,
            };
            if !band.is_well_formed() || !joined || band.rate_bp > next.rate_bp {
                assert(!valid_table(bands@)) by {
                    if valid_table(bands@) {
                        assert(bands@[i as int].well_formed());
                        assert(adjoins_next(bands@, i as int));
                    }
                }
                return Err(TaxError::InvalidBandTable);
            }
            i = i + 1;
        }
        let last: TaxBand = bands[n - 1];
        let open_ended: bool = match last.upper_bound {
            UpperBound::Bounded(_) => false,
            UpperBound::Unbounded => true,
        };
        if !last.is_well_formed() || !open_ended {
            assert(!valid_table(bands@)) by {
                if valid_table(bands@) {
                    assert(bands@[n - 1].well_formed());
                }
            }
            return Err(TaxError::InvalidBandTable);
        }
        Ok(BandTable { bands })
    }

    /// The standard schedule of five bands.
    pub fn standard() -> (table: BandTable)
        ensures
            table@ == standard_bands(),
    {
        let zero: u64 = from_major(0);
        let first: u64 = from_major(19_500);
        let second: u64 = from_major(28_000);
        let third: u64 = from_major(36_300);
        let fourth: u64 = from_major(60_000);
        let mut bands: Vec<TaxBand> = Vec::new();
        bands.push(
            TaxBand { lower_bound: zero, upper_bound: UpperBound::Bounded(first), rate_bp: 0 },
        );
        bands.push(
            TaxBand {
                lower_bound: first,
                upper_bound: UpperBound::Bounded(second),
                rate_bp: 2_000,
            },
        );
        bands.push(
            TaxBand {
                lower_bound: second,
                upper_bound: UpperBound::Bounded(third),
                rate_bp: 2_500,
            },
        );
        bands.push(
            TaxBand {
                lower_bound: third,
                upper_bound: UpperBound::Bounded(fourth),
                rate_bp: 3_000,
            },
        );
        bands.push(
            TaxBand { lower_bound: fourth, upper_bound: UpperBound::Unbounded, rate_bp: 3_500 },
        );
        proof {
            assert(bands@ =~= standard_bands());
            lemma_standard_bands_valid();
        }
        BandTable { bands }
    }

    /// The number of bands; at least one, since every table is a valid
    /// schedule.
    pub fn len(&self) -> (n: usize)
        ensures
            n == self@.len(),
            valid_table(self@),
    {
        proof {
            use_type_invariant(self);
        }
        self.bands.len()
    }

    /// The band at position `index`, which must exist.
    pub(crate) fn at(&self, index: usize) -> (band: TaxBand)
        requires
            index < self@.len(),
        ensures
            band == self@[index as int],
    {
        self.bands[index]
    }

    /// The band at position `index`, counted from the lowest.
    pub fn band(&self, index: usize) -> (band: Option<TaxBand>)
        ensures
            index < self@.len() ==> band == Some(self@[index as int]),
            index >= self@.len() ==> band is None,
    {
        if index < self.bands.len() {
            Some(self.bands[index])
        } else {
            None
        }
    }

    /// All bands in ascending order, unchanged.
    pub fn bands(&self) -> (bands: Vec<TaxBand>)
        ensures
            bands@ == self@,
            valid_table(bands@),
    {
        proof {
            use_type_invariant(self);
        }
        self.bands.clone()
    }
}

} // verus!
