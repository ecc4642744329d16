//! The tax rates of a run: a table that is read once and not changed while
//! the run lasts.

use vstd::prelude::*;

verus! {

/// What the tax resolver says of a metadata hash.
#[derive(Clone, Copy, Debug, PartialEq, Eq, Structural)]
pub enum TaxAnswer {
    /// The jurisdiction's rate, rounded to whole percent.
    Rate(u32),
    /// No jurisdiction is known for the hash.
    Unknown,
    /// The resolver failed.
    Failed,
}

/// The tax rate of a jurisdiction.
#[derive(Clone, Debug, PartialEq, Eq)]
pub struct TaxRate {
    /// The name of the jurisdiction.
    pub jurisdiction: String,
    /// The rate, rounded to whole percent.
    pub percent: u32,
}

/// What the store says of a metadata hash.
#[derive(Clone, Debug, PartialEq, Eq)]
pub enum MetadataLookup {
    /// The owner's metadata names this jurisdiction.
    Jurisdiction(String),
    /// The store holds no metadata under the hash.
    Missing,
    /// The store could not be asked.
    Failed,
}

/// The rate that the table gives for `jurisdiction`, if it gives one. Where
/// the table names a jurisdiction more than once, its last entry counts, as if
/// each entry had replaced the ones before it.
pub open spec fn rate_of(rates: Seq<TaxRate>, jurisdiction: Seq<char>) -> Option<u32>
    decreases rates.len(),
{
    if rates.len() == 0 {
        None
    } else if rates.last().jurisdiction@ == jurisdiction {
        Some(rates.last().percent)
    } else {
        rate_of(rates.drop_last(), jurisdiction)
    }
}

/// The answer that the tax resolver gives for what the store says: the rate
/// of the jurisdiction where the table knows it, no rate where the hash or the
/// jurisdiction is unknown, a failure where the store failed.
pub open spec fn resolved(rates: Seq<TaxRate>, lookup: MetadataLookup) -> TaxAnswer {
    match lookup {
        MetadataLookup::Jurisdiction(name) => match rate_of(rates, name@) {
            Some(percent) => TaxAnswer::Rate(percent),
            None => TaxAnswer::Unknown,
        },
        MetadataLookup::Missing => TaxAnswer::Unknown,
        MetadataLookup::Failed => TaxAnswer::Failed,
    }
}

/// The tax rates by jurisdiction.
#[derive(Clone, Debug)]
pub struct TaxTable {
    /// The entries of the table; a later entry replaces an earlier one for
    /// the same jurisdiction.
    pub rates: Vec<TaxRate>,
}

impl TaxTable {
    /// The rate of a jurisdiction, `None` where the table does not know it.
    pub fn percent_for(&self, jurisdiction: &String) -> (r: Option<u32>)
        ensures
            r == rate_of(self.rates@, jurisdiction@),
    {
        let mut i: usize = self.rates.len();
        assert(self.rates@.take(i as int) =~= self.rates@);
        while i > 0
            invariant
                i <= self.rates@.len(),
                rate_of(self.rates@, jurisdiction@) == rate_of(
                    self.rates@.take(i as int),
                    jurisdiction@,
                ),
            decreases i,
        {
            proof {
                let front = self.rates@.take(i as int);
                assert(front.last() == self.rates@[i - 1]);
                assert(front.drop_last() =~= self.rates@.take(i - 1));
            }
            i -= 1;
            if self.rates[i].jurisdiction == *jurisdiction {
                return Some(self.rates[i].percent);
            }
        }
        None
    }

    /// The tax resolver's answer for what the store says of a metadata hash.
    pub fn resolve(&self, lookup: &MetadataLookup) -> (r: TaxAnswer)
        ensures
            r == resolved(self.rates@, *lookup),
    {
        match lookup {
            MetadataLookup::Jurisdiction(name) => match self.percent_for(name) {
                Some(percent) => TaxAnswer::Rate(percent),
                None => TaxAnswer::Unknown,
            },
            MetadataLookup::Missing => TaxAnswer::Unknown,
            MetadataLookup::Failed => TaxAnswer::Failed,
        }
    }
}

} // verus!
