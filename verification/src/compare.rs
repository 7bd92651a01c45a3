//! The order of two version strings as a standard ordering.

use vstd::prelude::*;
use crate::order::{rank_versions, version_rank, Rank};

verus! {

/// Orders two version strings by their numbers: the dot-separated segments
/// that read as numbers, compared from the left, a version that ends first
/// being the lesser.
pub fn compare_versions(a: &str, b: &str) -> (r: std::cmp::Ordering)
    ensures
        match r {
            std::cmp::Ordering::Less => version_rank(a@, b@) == Rank::Lower,
            std::cmp::Ordering::Equal => version_rank(a@, b@) == Rank::Same,
            std::cmp::Ordering::Greater => version_rank(a@, b@) == Rank::Higher,
        },
{
    match rank_versions(a, b) {
        Rank::Lower => std::cmp::Ordering::Less,
        Rank::Same => std::cmp::Ordering::Equal,
        Rank::Higher => std::cmp::Ordering::Greater,
    }
}

} // verus!
