use vstd::prelude::*;
use crate::address::Address;

verus! {

/// What the captured execution of a transaction produced.
#[derive(Clone, Debug)]
pub struct ExecutionResult {
    /// Serialized transaction status.
    pub status: Vec<u8>,
    pub compute_units_consumed: u64,
    pub return_data_program: Address,
    pub return_data: Vec<u8>,
}

} // verus!
