use mpc_contract::contract::{
    CallContext, SignRequestArgs, VersionedMpcContract, GAS_FOR_SIGN_CALL,
};
use mpc_contract::fee::{collect_fee, MINIMUM_FEE};
use mpc_contract::types::{CurveType, Payload, SignError};
use mpc_contract::validator::check_payload;

const SECP256K1_ORDER: [u8; 32] = [
    0xFF, 0xFF, 0xFF, 0xFF, 0xFF, 0xFF, 0xFF, 0xFF, 0xFF, 0xFF, 0xFF, 0xFF, 0xFF, 0xFF, 0xFF, 0xFE,
    0xBA, 0xAE, 0xDC, 0xE6, 0xAF, 0x48, 0xA0, 0x3B, 0xBF, 0xD2, 0x5E, 0x8C, 0xD0, 0x36, 0x41, 0x41,
];

fn contract() -> VersionedMpcContract {
    let mut c = VersionedMpcContract::new();
    assert!(c.add_domain(0, CurveType::Ed25519));
    assert!(c.add_domain(1, CurveType::Secp256k1));
    c
}

fn ctx(deposit: u128) -> CallContext {
    CallContext {
        predecessor: "alice.near".to_string(),
        prepaid_gas: GAS_FOR_SIGN_CALL,
        attached_deposit: deposit,
    }
}

fn ecdsa_args(domain_id: u64, hash: [u8; 32]) -> SignRequestArgs {
    SignRequestArgs { domain_id, payload: Payload::Ecdsa(hash), path: "path".to_string() }
}

fn eddsa_args(domain_id: u64) -> SignRequestArgs {
    SignRequestArgs { domain_id, payload: Payload::Eddsa(vec![7u8; 40]), path: "path".to_string() }
}

#[test]
fn ecdsa_request_on_eddsa_domain_is_a_curve_mismatch() {
    let c = contract();
    let r = c.sign(ecdsa_args(0, [1u8; 32]), ctx(MINIMUM_FEE));
    assert_eq!(r.unwrap_err(), SignError::PayloadCurveMismatch);
}

#[test]
fn eddsa_request_on_ecdsa_domain_is_a_curve_mismatch() {
    let c = contract();
    let r = c.sign(eddsa_args(1), ctx(MINIMUM_FEE));
    assert_eq!(r.unwrap_err(), SignError::PayloadCurveMismatch);
}

#[test]
fn deposit_equal_to_fee_is_accepted_without_refund() {
    let c = contract();
    let plan = c.sign(eddsa_args(0), ctx(MINIMUM_FEE)).unwrap();
    assert_eq!(plan.refund, None);
    assert_eq!(plan.request.requester, "alice.near");
    assert_eq!(plan.request.path, "path");
    assert_eq!(plan.request.domain_id, 0);
}

#[test]
fn excess_deposit_of_four_is_refunded() {
    let c = contract();
    let plan = c.sign(eddsa_args(0), ctx(MINIMUM_FEE + 4)).unwrap();
    assert_eq!(plan.refund, Some(4));
}

#[test]
fn zero_deposit_is_refused() {
    let c = contract();
    let r = c.sign(eddsa_args(0), ctx(0));
    assert_eq!(r.unwrap_err(), SignError::InsufficientDeposit);
}

#[test]
fn unknown_domain_is_refused() {
    let c = contract();
    let r = c.sign(eddsa_args(9), ctx(MINIMUM_FEE));
    assert_eq!(r.unwrap_err(), SignError::DomainNotFound);
}

#[test]
fn too_little_gas_is_refused() {
    let c = contract();
    let mut context = ctx(MINIMUM_FEE);
    context.prepaid_gas = GAS_FOR_SIGN_CALL - 1;
    let r = c.sign(eddsa_args(0), context);
    assert_eq!(r.unwrap_err(), SignError::InsufficientGas);
}

#[test]
fn checks_run_in_order() {
    let c = contract();
    let context = CallContext {
        predecessor: "bob.near".to_string(),
        prepaid_gas: 0,
        attached_deposit: 0,
    };
    let r = c.sign(ecdsa_args(0, [1u8; 32]), context);
    assert_eq!(r.unwrap_err(), SignError::PayloadCurveMismatch);
    let context = CallContext {
        predecessor: "bob.near".to_string(),
        prepaid_gas: 0,
        attached_deposit: 0,
    };
    let r = c.sign(eddsa_args(0), context);
    assert_eq!(r.unwrap_err(), SignError::InsufficientGas);
}

#[test]
fn scalar_at_group_order_is_invalid() {
    let c = contract();
    let r = c.sign(ecdsa_args(1, SECP256K1_ORDER), ctx(MINIMUM_FEE));
    assert_eq!(r.unwrap_err(), SignError::InvalidPayload);
    let r = c.sign(ecdsa_args(1, [0xFFu8; 32]), ctx(MINIMUM_FEE));
    assert_eq!(r.unwrap_err(), SignError::InvalidPayload);
}

#[test]
fn scalar_below_group_order_is_valid() {
    let c = contract();
    let mut below = SECP256K1_ORDER;
    below[31] -= 1;
    assert!(c.sign(ecdsa_args(1, below), ctx(MINIMUM_FEE)).is_ok());
    assert!(c.sign(ecdsa_args(1, [0u8; 32]), ctx(MINIMUM_FEE)).is_ok());
}

#[test]
fn check_payload_by_curve() {
    assert_eq!(check_payload(CurveType::Secp256k1, &Payload::Ecdsa([3u8; 32])), Ok(()));
    assert_eq!(
        check_payload(CurveType::Secp256k1, &Payload::Ecdsa(SECP256K1_ORDER)),
        Err(SignError::InvalidPayload)
    );
    assert_eq!(check_payload(CurveType::Ed25519, &Payload::Eddsa(vec![1, 2])), Ok(()));
    assert_eq!(
        check_payload(CurveType::Ed25519, &Payload::Ecdsa([3u8; 32])),
        Err(SignError::PayloadCurveMismatch)
    );
}

#[test]
fn fee_collection() {
    assert_eq!(collect_fee(0), Err(SignError::InsufficientDeposit));
    assert_eq!(collect_fee(MINIMUM_FEE), Ok(None));
    assert_eq!(collect_fee(MINIMUM_FEE + 4), Ok(Some(4)));
    assert_eq!(collect_fee(u128::MAX), Ok(Some(u128::MAX - MINIMUM_FEE)));
}

#[test]
fn domain_is_added_once() {
    let mut c = contract();
    assert!(!c.add_domain(0, CurveType::Secp256k1));
    assert_eq!(c.domain_curve(0), Some(CurveType::Ed25519));
    assert_eq!(c.domain_curve(1), Some(CurveType::Secp256k1));
    assert_eq!(c.domain_curve(2), None);
}
