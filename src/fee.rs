//! The anti-spam fee charged for each signature request.

use vstd::prelude::*;
use crate::types::SignError;

verus! {

/// The fee kept for each accepted request, in yoctoNEAR.
pub const MINIMUM_FEE: u128 = 1;

/// What collecting the fee from `deposit` yields: the refund to transfer
/// back, if there is one, or the error when the deposit is too small.
pub open spec fn fee_outcome(deposit: u128) -> Result<Option<u128>, SignError> {
    if deposit < MINIMUM_FEE {
        Err(SignError::InsufficientDeposit)
    } else if deposit == MINIMUM_FEE {
        Ok(None)
    } else {
        Ok(Some((deposit - MINIMUM_FEE) as u128))
    }
}

/// Charges the minimum fee out of `deposit` and returns the excess to
/// refund; `None` when nothing is left over.
pub fn collect_fee(deposit: u128) -> (r: Result<Option<u128>, SignError>)
    ensures
        r == fee_outcome(deposit),
        r is Err <==> deposit < MINIMUM_FEE,
        r == Ok::<Option<u128>, SignError>(None) <==> deposit == MINIMUM_FEE,
        forall|refund: u128| r == Ok::<Option<u128>, SignError>(Some(refund)) ==> refund > 0 && deposit == MINIMUM_FEE + refund,
{
    match deposit.checked_sub(MINIMUM_FEE) {
        None => Err(SignError::InsufficientDeposit),
        Some(diff) => {
            if diff > 0 {
                Ok(Some(diff))
            } else {
                Ok(None)
            }
        },
    }
}

} // verus!
