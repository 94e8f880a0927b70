//! Conversion of three-way comparison results to `std::cmp::Ordering`.

use std::cmp::Ordering;
use vstd::prelude::*;

use crate::text::TextOrder;

verus! {

/// The `Ordering` that a three-way comparison result stands for.
pub fn to_ordering(order: TextOrder) -> (r: Ordering)
    ensures
        order == TextOrder::Less ==> r == Ordering::Less,
        order == TextOrder::Equal ==> r == Ordering::Equal,
        order == TextOrder::Greater ==> r == Ordering::Greater,
{
    match order {
        TextOrder::Less => Ordering::Less,
        TextOrder::Equal => Ordering::Equal,
        TextOrder::Greater => Ordering::Greater,
    }
}

} // verus!
