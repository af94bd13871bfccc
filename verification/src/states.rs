//! Small result shapes of the statistics queries that the executor
//! around the library runs.

use vstd::prelude::*;

verus! {

/// Counts of the stored items of each kind.
#[derive(Clone, PartialEq, Debug)]
pub struct Counts<I> {
    /// How many entries are stored.
    pub lemmas: I,
    /// How many concepts are stored.
    pub konseps: I,
    /// How many word classes are stored.
    pub golongan_katas: I,
    /// How many context tags are stored.
    pub cakupans: I,
    /// How many foreign words are stored.
    pub kata_asings: I,
}

/// A count that an aggregate query may leave empty, read as zero.
pub open spec fn count_or_zero(o: Option<i64>) -> i64 {
    match o {
        Some(v) => v,
        None => 0,
    }
}

impl Counts<Option<i64>> {
    /// Reads each possibly-empty count, an absent count standing for
    /// zero.
    pub fn unwrap_fields(self) -> (r: Counts<i64>)
        ensures
            r.lemmas == count_or_zero(self.lemmas),
            r.konseps == count_or_zero(self.konseps),
            r.golongan_katas == count_or_zero(self.golongan_katas),
            r.cakupans == count_or_zero(self.cakupans),
            r.kata_asings == count_or_zero(self.kata_asings),
    {
        Counts {
            lemmas: match self.lemmas {
                Some(v) => v,
                None => 0,
            },
            konseps: match self.konseps {
                Some(v) => v,
                None => 0,
            },
            golongan_katas: match self.golongan_katas {
                Some(v) => v,
                None => 0,
            },
            cakupans: match self.cakupans {
                Some(v) => v,
                None => 0,
            },
            kata_asings: match self.kata_asings {
                Some(v) => v,
                None => 0,
            },
        }
    }
}

/// A single text value read back from a query.
#[derive(Clone, PartialEq, Debug)]
pub struct StringItem {
    /// The value itself.
    pub item: String,
}

} // verus!
