//! Checks on a request that need no state but the domain's curve.

use vstd::prelude::*;
use k256::elliptic_curve::PrimeField;
use crate::types::{CurveType, Payload, PayloadView, SignError};

verus! {

/// The order of the secp256k1 group.
pub open spec fn secp256k1_order() -> int {
    0xFFFFFFFFFFFFFFFFFFFFFFFFFFFFFFFEBAAEDCE6AF48A03BBFD25E8CD0364141int
}

/// The integer that `bytes` encode, most significant byte first.
pub open spec fn be_value(bytes: Seq<u8>) -> int
    decreases bytes.len(),
{
    if bytes.len() == 0 {
        0
    } else {
        be_value(bytes.drop_last()) * 256 + bytes.last()
    }
}

/// Relies on k256's `Scalar::from_repr`: it returns a scalar exactly when the
/// big-endian integer in `bytes` lies below the group order.
#[verifier::external_body]
fn is_secp256k1_scalar(bytes: [u8; 32]) -> (r: bool)
    ensures
        r == (be_value(bytes@) < secp256k1_order()),
{
    k256::Scalar::from_repr(bytes.into()).into_option().is_some()
}

/// Whether `payload` can be signed under a key of `curve`: `Ok` when it can,
/// else the error that names the first check it fails.
pub open spec fn payload_check(curve: CurveType, payload: PayloadView) -> Result<(), SignError> {
    match (curve, payload) {
        (CurveType::Secp256k1, PayloadView::Ecdsa(h)) => {
            if be_value(h) < secp256k1_order() {
                Ok(())
            } else {
                Err(SignError::InvalidPayload)
            }
        },
        (CurveType::Ed25519, PayloadView::Eddsa(_)) => Ok(()),
        _ => Err(SignError::PayloadCurveMismatch),
    }
}

/// Checks that `payload` suits a key of `curve`.
pub fn check_payload(curve: CurveType, payload: &Payload) -> (r: Result<(), SignError>)
    ensures
        r == payload_check(curve, payload@),
{
    match (curve, payload) {
        (CurveType::Secp256k1, Payload::Ecdsa(h)) => {
            if is_secp256k1_scalar(*h) {
                Ok(())
            } else {
                Err(SignError::InvalidPayload)
            }
        },
        (CurveType::Ed25519, Payload::Eddsa(_)) => Ok(()),
        _ => Err(SignError::PayloadCurveMismatch),
    }
}

} // verus!
