//! Plain data of the signing service and its mathematical views.

use vstd::prelude::*;

verus! {

/// The signing scheme of a domain's key.
#[derive(Clone, Copy, Debug, PartialEq, Eq, Structural)]
pub enum CurveType {
    /// ECDSA over secp256k1.
    Secp256k1,
    /// EdDSA over Curve25519.
    Ed25519,
}

/// Data to be signed, tagged with the scheme it is meant for.
#[derive(Debug)]
pub enum Payload {
    /// A 32-byte message hash, signed with ECDSA.
    Ecdsa([u8; 32]),
    /// A message signed with EdDSA.
    Eddsa(Vec<u8>),
}

/// The mathematical value of a [`Payload`].
pub enum PayloadView {
    Ecdsa(Seq<u8>),
    Eddsa(Seq<u8>),
}

impl View for Payload {
    type V = PayloadView;

    open spec fn view(&self) -> PayloadView {
        match self {
            Payload::Ecdsa(h) => PayloadView::Ecdsa(h@),
            Payload::Eddsa(m) => PayloadView::Eddsa(m@),
        }
    }
}

/// Why a signature request is turned away at intake.
#[derive(Clone, Copy, Debug, PartialEq, Eq, Structural)]
pub enum SignError {
    /// The domain has no active signing key.
    DomainNotFound,
    /// The payload's tag does not match the domain's curve.
    PayloadCurveMismatch,
    /// An ECDSA payload that is not a scalar of the curve's field.
    InvalidPayload,
    /// Too little gas is reserved for the resume callback.
    InsufficientGas,
    /// The attached deposit is below the minimum fee.
    InsufficientDeposit,
}

} // verus!

verus! {

/// Whether two byte strings are equal.
pub fn bytes_equal(a: &[u8], b: &[u8]) -> (r: bool)
    ensures
        r == (a@ == b@),
{
    if a.len() != b.len() {
        return false;
    }
    let mut i: usize = 0;
    while i < a.len()
        invariant
            a@.len() == b@.len(),
            0 <= i <= a@.len(),
            forall|j: int| 0 <= j < i ==> a@[j] == b@[j],
        decreases a@.len() - i,
    {
        if a[i] != b[i] {
            return false;
        }
        i = i + 1;
    }
    assert(a@ =~= b@);
    true
}

impl Payload {
    /// Whether `self` and `other` carry the same tag and the same bytes.
    pub fn same_as(&self, other: &Payload) -> (r: bool)
        ensures
            r == (self@ == other@),
    {
        match (self, other) {
            (Payload::Ecdsa(a), Payload::Ecdsa(b)) => bytes_equal(a.as_slice(), b.as_slice()),
            (Payload::Eddsa(a), Payload::Eddsa(b)) => bytes_equal(a.as_slice(), b.as_slice()),
            _ => false,
        }
    }
}

/// A request as it is registered: the fields from which its fingerprint is
/// derived.
#[derive(Debug)]
pub struct SignatureRequest {
    pub domain_id: u64,
    pub payload: Payload,
    /// The account that asked for the signature.
    pub requester: String,
    /// The key derivation path that the requester chose.
    pub path: String,
}

/// The fingerprint of a [`SignatureRequest`]: two requests are duplicates
/// exactly when their views are equal.
pub struct RequestView {
    pub domain_id: u64,
    pub payload: PayloadView,
    pub requester: Seq<char>,
    pub path: Seq<char>,
}

impl View for SignatureRequest {
    type V = RequestView;

    open spec fn view(&self) -> RequestView {
        RequestView {
            domain_id: self.domain_id,
            payload: self.payload@,
            requester: self.requester@,
            path: self.path@,
        }
    }
}

impl SignatureRequest {
    /// Whether `self` and `other` have the same fingerprint.
    pub fn same_fingerprint(&self, other: &SignatureRequest) -> (r: bool)
        ensures
            r == (self@ == other@),
    {
        self.domain_id == other.domain_id && self.payload.same_as(&other.payload)
            && self.requester == other.requester && self.path == other.path
    }
}

/// The handle that the host assigns to one suspended call.
#[derive(Clone, Copy, Debug)]
pub struct ContinuationToken {
    pub id: [u8; 32],
}

impl View for ContinuationToken {
    type V = Seq<u8>;

    open spec fn view(&self) -> Seq<u8> {
        self.id@
    }
}

impl ContinuationToken {
    /// Whether `self` and `other` name the same suspension.
    pub fn same_as(&self, other: &ContinuationToken) -> (r: bool)
        ensures
            r == (self@ == other@),
    {
        bytes_equal(self.id.as_slice(), other.id.as_slice())
    }
}

/// Why a suspended request ended without a signature.
#[derive(Clone, Copy, Debug, PartialEq, Eq, Structural)]
pub enum FailureReason {
    /// The host's timeout ended the suspension.
    Timeout,
    /// The signing cluster answered with something that is no signature.
    MalformedResult,
}

/// What resumes a suspended request.
#[derive(Debug)]
pub enum SignOutcome {
    /// The signature produced by the signing cluster.
    Success(Vec<u8>),
    Failure(FailureReason),
}

} // verus!
