//! Queries of single chain values for the HTTP side.
use vstd::prelude::*;

verus! {

/// The ERC-20 balance query; it has no behaviour yet.
pub fn get_erc20_balance() {
}

} // verus!
