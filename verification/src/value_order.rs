//! The comparison operators on cells: `<` and its kin follow the listing
//! order.

use crate::csv_type::CsvAny;
use std::cmp::Ordering;
use vstd::prelude::*;
use vstd::std_specs::cmp::PartialOrdSpecImpl;

verus! {

impl PartialOrd for CsvAny {
    /// How two cells compare in the listing order. Every two cells compare.
    fn partial_cmp(&self, other: &CsvAny) -> (r: Option<Ordering>) {
        if self.precedes(other) {
            Some(Ordering::Less)
        } else if other.precedes(self) {
            Some(Ordering::Greater)
        } else {
            Some(Ordering::Equal)
        }
    }
}

impl PartialOrdSpecImpl for CsvAny {
    open spec fn obeys_partial_cmp_spec() -> bool {
        true
    }

    open spec fn partial_cmp_spec(&self, other: &CsvAny) -> Option<Ordering> {
        if self@.below(other@) {
            Some(Ordering::Less)
        } else if other@.below(self@) {
            Some(Ordering::Greater)
        } else {
            Some(Ordering::Equal)
        }
    }
}

} // verus!
