//! Positions are ordered by line, then by column.

use crate::char_data::LineColumn;
use std::cmp::Ordering;
use vstd::prelude::*;

verus! {

/// The order of two positions: by line first, then by column.
pub open spec fn compare_positions(a: LineColumn, b: LineColumn) -> Ordering {
    if a.line < b.line {
        Ordering::Less
    } else if a.line > b.line {
        Ordering::Greater
    } else if a.column < b.column {
        Ordering::Less
    } else if a.column > b.column {
        Ordering::Greater
    } else {
        Ordering::Equal
    }
}

impl PartialOrd for LineColumn {
    fn partial_cmp(&self, other: &LineColumn) -> (r: Option<Ordering>) {
        if self.line < other.line {
            Some(Ordering::Less)
        } else if self.line > other.line {
            Some(Ordering::Greater)
        } else if self.column < other.column {
            Some(Ordering::Less)
        } else if self.column > other.column {
            Some(Ordering::Greater)
        } else {
            Some(Ordering::Equal)
        }
    }
}

impl vstd::std_specs::cmp::PartialOrdSpecImpl for LineColumn {
    open spec fn obeys_partial_cmp_spec() -> bool {
        true
    }

    open spec fn partial_cmp_spec(&self, other: &LineColumn) -> Option<Ordering> {
        Some(compare_positions(*self, *other))
    }
}

/// Positions compare as equal exactly when they are the same position, and
/// swapping them reverses the order.
pub proof fn lemma_position_order(a: LineColumn, b: LineColumn)
    ensures
        (compare_positions(a, b) == Ordering::Equal) <==> (a == b),
        compare_positions(a, b) == Ordering::Less <==> compare_positions(b, a)
            == Ordering::Greater,
{
}

} // verus!
