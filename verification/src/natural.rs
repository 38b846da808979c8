//! The natural order of names, in which runs of digits count by their value.

use std::cmp::Ordering;
use vstd::prelude::*;

verus! {

/// How one name stands to another.
#[derive(Clone, Copy, Debug, PartialEq, Eq, Structural)]
pub enum NameOrder {
    Less,
    Equal,
    Greater,
}

/// How `a` stands to `b` in the natural order of `alphanumeric_sort`.
pub uninterp spec fn natural_order(a: Seq<char>, b: Seq<char>) -> NameOrder;

/// Calls `alphanumeric_sort::compare_str`.
///
/// Trusted: the comparison reads nothing but the characters of its two
/// arguments, so its answer is the value of `natural_order` on them. Nothing
/// else is claimed of that order.
#[verifier::external_body]
pub(crate) fn compare_names(a: &str, b: &str) -> (order: NameOrder)
    ensures
        order == natural_order(a@, b@),
{
    match alphanumeric_sort::compare_str(a, b) {
        Ordering::Less => NameOrder::Less,
        Ordering::Equal => NameOrder::Equal,
        Ordering::Greater => NameOrder::Greater,
    }
}

} // verus!
