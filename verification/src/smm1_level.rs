//! The canonical level record of the batch-export game variant and the
//! filter-parameter set of its selection interface. This variant tracks
//! externally-resolved levels (already cleared, currently reserved), which
//! its selection excludes.
use vstd::prelude::*;

use crate::dates::Date;

verus! {

/// One canonical catalog row of the batch-export variant.
#[derive(Clone, Debug)]
pub struct Smm1Level {
    pub id: String,
    pub year: i64,
    pub title: String,
    pub uploaded_at: Date,
    pub attempts: i64,
    pub footprints: i64,
    pub likes: i64,
}

/// A lowercase alphanumeric character.
pub open spec fn is_lower_alnum(c: char) -> bool {
    'a' <= c <= 'z' || '0' <= c <= '9'
}

impl Smm1Level {
    /// A fully-present row: a nonempty lowercase alphanumeric id, the year
    /// derived from the upload date, and nonnegative metrics.
    pub open spec fn wf(self) -> bool {
        &&& self.id@.len() > 0
        &&& forall|i: int| 0 <= i < self.id@.len() ==> is_lower_alnum(#[trigger] self.id@[i])
        &&& self.uploaded_at.wf()
        &&& self.year == self.uploaded_at.year
        &&& self.attempts >= 0
        &&& self.footprints >= 0
        &&& self.likes >= 0
    }
}

/// The filter-parameter set of this variant's selection interface: the year
/// is the required partition key, the attempt bounds are optional.
#[derive(Clone, Copy, Debug)]
pub struct FilterParams {
    pub year: i64,
    pub min_attempts: Option<i64>,
    pub max_attempts: Option<i64>,
}

/// Every present predicate of the filter set: the required year and the
/// optional attempt bounds.
pub open spec fn spec_smm1_matches(p: FilterParams, l: Smm1Level) -> bool {
    &&& l.year == p.year
    &&& (p.min_attempts matches Some(v) ==> l.attempts >= v)
    &&& (p.max_attempts matches Some(v) ==> l.attempts <= v)
}

/// Decides whether a row satisfies the filter set.
pub fn smm1_matches(p: &FilterParams, l: &Smm1Level) -> (b: bool)
    ensures
        b == spec_smm1_matches(*p, *l),
{
    if l.year != p.year {
        return false;
    }
    if let Some(v) = p.min_attempts {
        if l.attempts < v {
            return false;
        }
    }
    if let Some(v) = p.max_attempts {
        if l.attempts > v {
            return false;
        }
    }
    true
}

} // verus!
