//! The signing contract: intake of requests and the suspend/resume protocol.

use vstd::prelude::*;
use crate::fee::{collect_fee, fee_outcome, MINIMUM_FEE};
use crate::registry::{EntryView, RequestRegistry, fingerprints_unique, has_request, has_token, inserted, without_token};
use crate::types::{
    ContinuationToken, CurveType, Payload, PayloadView, RequestView, SignError, SignOutcome,
    SignatureRequest,
};
use crate::validator::{check_payload, payload_check};

verus! {

/// Gas that a sign call must bring so that the yield and resume can run
/// to completion: 10 Tgas.
pub const GAS_FOR_SIGN_CALL: u64 = 10_000_000_000_000;

/// Gas given to the resume callback when it is scheduled: 5 Tgas.
pub const RETURN_SIGNATURE_CALL_GAS: u64 = 5_000_000_000_000;

/// A signing domain: a configured key and the curve it lives on.
#[derive(Clone, Copy, Debug, PartialEq, Eq, Structural)]
pub struct DomainConfig {
    pub id: u64,
    pub curve: CurveType,
}

/// The curve of domain `id` in `s`, the latest entry for it counting.
pub open spec fn domain_curve(s: Seq<DomainConfig>, id: u64) -> Option<CurveType>
    decreases s.len(),
{
    if s.len() == 0 {
        None
    } else if s.last().id == id {
        Some(s.last().curve)
    } else {
        domain_curve(s.drop_last(), id)
    }
}

/// What a caller submits to have data signed.
#[derive(Debug)]
pub struct SignRequestArgs {
    pub domain_id: u64,
    pub payload: Payload,
    pub path: String,
}

/// What the host tells about the call that carries a request.
#[derive(Debug)]
pub struct CallContext {
    /// The account that made the call.
    pub predecessor: String,
    /// Gas attached to the call.
    pub prepaid_gas: u64,
    /// Deposit attached to the call, in yoctoNEAR.
    pub attached_deposit: u128,
}

/// An accepted request: what to suspend on, and the excess deposit to send
/// back to the requester, if any.
#[derive(Debug)]
pub struct SignPlan {
    pub request: SignatureRequest,
    pub refund: Option<u128>,
}

/// The result of intake for a request with `payload` on a domain whose
/// curve is `curve`: the refund when it is accepted, else the error of the
/// first check that fails.
pub open spec fn sign_outcome(
    curve: Option<CurveType>,
    payload: PayloadView,
    prepaid_gas: u64,
    deposit: u128,
) -> Result<Option<u128>, SignError> {
    match curve {
        None => Err(SignError::DomainNotFound),
        Some(c) => match payload_check(c, payload) {
            Err(e) => Err(e),
            Ok(_) => if prepaid_gas < GAS_FOR_SIGN_CALL {
                Err(SignError::InsufficientGas)
            } else {
                fee_outcome(deposit)
            },
        },
    }
}

/// Whether a request may be accepted: the domain has a key, the payload
/// suits its curve, enough gas is reserved and the fee is covered.
pub open spec fn sign_accepted(
    curve: Option<CurveType>,
    payload: PayloadView,
    prepaid_gas: u64,
    deposit: u128,
) -> bool {
    &&& curve is Some
    &&& payload_check(curve->Some_0, payload) is Ok
    &&& prepaid_gas >= GAS_FOR_SIGN_CALL
    &&& deposit >= MINIMUM_FEE
}

/// The signing contract: its domains and its pending requests.
pub struct VersionedMpcContract {
    domains: Vec<DomainConfig>,
    pending: RequestRegistry,
}

impl VersionedMpcContract {
    /// The curve of the key of domain `id`, if the domain has one.
    pub closed spec fn curve_of(&self, id: u64) -> Option<CurveType> {
        domain_curve(self.domains@, id)
    }

    /// The pending requests, in the order they were first registered.
    pub closed spec fn pending(&self) -> Seq<EntryView> {
        self.pending@
    }

    /// A contract with no domains and nothing pending.
    pub fn new() -> (r: VersionedMpcContract)
        ensures
            fingerprints_unique(r.pending()),
            r.pending() == Seq::<EntryView>::empty(),
            forall|id: u64| #[trigger] r.curve_of(id) is None,
    {
        VersionedMpcContract { domains: Vec::new(), pending: RequestRegistry::new() }
    }

    /// Adds domain `id` with a key on `curve`. Returns `false`, and changes
    /// nothing, when the domain already has a key.
    pub fn add_domain(&mut self, id: u64, curve: CurveType) -> (added: bool)
        ensures
            added == old(self).curve_of(id) is None,
            forall|x: u64|
                #[trigger] final(self).curve_of(x) == (if added && x == id {
                    Some(curve)
                } else {
                    old(self).curve_of(x)
                }),
            final(self).pending() == old(self).pending(),
    {
        if self.domain_curve(id).is_some() {
            return false;
        }
        let ghost s = self.domains@;
        self.domains.push(DomainConfig { id, curve });
        assert(self.domains@.drop_last() =~= s);
        true
    }

    /// The curve of the key of domain `id`, if the domain has one.
    pub fn domain_curve(&self, id: u64) -> (r: Option<CurveType>)
        ensures
            r == self.curve_of(id),
    {
        let mut i: usize = self.domains.len();
        assert(self.domains@.subrange(0, i as int) =~= self.domains@);
        while i > 0
            invariant
                0 <= i <= self.domains@.len(),
                domain_curve(self.domains@, id) == domain_curve(self.domains@.subrange(0, i as int), id),
            decreases i,
        {
            let d = self.domains[i - 1];
            proof {
                let p = self.domains@.subrange(0, i as int);
                assert(p.drop_last() =~= self.domains@.subrange(0, i - 1));
            }
            if d.id == id {
                return Some(d.curve);
            }
            i = i - 1;
        }
        None
    }

    /// The number of pending requests.
    pub fn pending_count(&self) -> (r: usize)
        ensures
            r == self.pending().len(),
    {
        self.pending.len()
    }

    /// Whether a request with the fingerprint of `request` is pending.
    pub fn is_pending(&self, request: &SignatureRequest) -> (r: bool)
        ensures
            r == has_request(self.pending(), request@),
    {
        self.pending.contains(request)
    }
}

impl VersionedMpcContract {
    /// Intake of a signature request made by `ctx.predecessor`. Checks, in
    /// this order, that the domain has a key, that the payload suits its
    /// curve, that enough gas is reserved and that the deposit covers the
    /// fee; the first that fails gives the error. Nothing is changed: on
    /// success the caller suspends on the returned request, sends the
    /// refund, if any, and then registers the request with
    /// [`Self::record_pending`].
    pub fn sign(&self, request: SignRequestArgs, ctx: CallContext) -> (r: Result<SignPlan, SignError>)
        ensures
            (r is Ok) == sign_accepted(
                self.curve_of(request.domain_id),
                request.payload@,
                ctx.prepaid_gas,
                ctx.attached_deposit,
            ),
            (match r {
                Ok(plan) => {
                    &&& sign_outcome(
                        self.curve_of(request.domain_id),
                        request.payload@,
                        ctx.prepaid_gas,
                        ctx.attached_deposit,
                    ) == Ok::<Option<u128>, SignError>(plan.refund)
                    &&& plan.request@ == (RequestView {
                        domain_id: request.domain_id,
                        payload: request.payload@,
                        requester: ctx.predecessor@,
                        path: request.path@,
                    })
                },
                Err(e) => sign_outcome(
                    self.curve_of(request.domain_id),
                    request.payload@,
                    ctx.prepaid_gas,
                    ctx.attached_deposit,
                ) == Err::<Option<u128>, SignError>(e),
            }),
    {
        let curve = match self.domain_curve(request.domain_id) {
            None => return Err(SignError::DomainNotFound),
            Some(c) => c,
        };
        match check_payload(curve, &request.payload) {
            Err(e) => return Err(e),
            Ok(()) => {},
        }
        if ctx.prepaid_gas < GAS_FOR_SIGN_CALL {
            return Err(SignError::InsufficientGas);
        }
        let refund = match collect_fee(ctx.attached_deposit) {
            Err(e) => return Err(e),
            Ok(refund) => refund,
        };
        let request = SignatureRequest {
            domain_id: request.domain_id,
            payload: request.payload,
            requester: ctx.predecessor,
            path: request.path,
        };
        Ok(SignPlan { request, refund })
    }

    /// Registers an accepted request as waiting on the suspension `token`
    /// that the host allocated for it. Returns `true` when a request with
    /// the same fingerprint was pending: it now waits on `token`, and the
    /// suspension it waited on before finds no entry when it resumes.
    pub fn record_pending(&mut self, request: SignatureRequest, token: ContinuationToken) -> (overwrote: bool)
        ensures
            fingerprints_unique(final(self).pending()),
            overwrote == has_request(old(self).pending(), request@),
            final(self).pending() == inserted(old(self).pending(), request@, token@),
            forall|id: u64| #[trigger] final(self).curve_of(id) == old(self).curve_of(id),
    {
        self.pending.insert(request, token)
    }

    /// Resumes the suspension `token` with `outcome`. When a request waits
    /// on it, its entry is removed and the outcome is returned for delivery
    /// to the requester; otherwise (already resumed, or superseded by a
    /// duplicate request) nothing changes and `None` is returned.
    pub fn finalize(&mut self, token: &ContinuationToken, outcome: SignOutcome) -> (r: Option<SignOutcome>)
        ensures
            fingerprints_unique(final(self).pending()),
            final(self).pending() == without_token(old(self).pending(), token@),
            r == (if has_token(old(self).pending(), token@) {
                Some(outcome)
            } else {
                None
            }),
            forall|id: u64| #[trigger] final(self).curve_of(id) == old(self).curve_of(id),
    {
        if self.pending.remove_token(token) {
            Some(outcome)
        } else {
            None
        }
    }
}

/// The deposit is conserved: an accepted request keeps exactly the minimum
/// fee and refunds the rest, refunds nothing when the deposit is exactly
/// the fee, and a deposit below the fee is always refused.
pub proof fn lemma_deposit_conservation(
    curve: Option<CurveType>,
    payload: PayloadView,
    prepaid_gas: u64,
    deposit: u128,
)
    ensures
        forall|refund: u128|
            #[trigger] sign_outcome(curve, payload, prepaid_gas, deposit) == Ok::<
                Option<u128>,
                SignError,
            >(Some(refund)) ==> refund > 0 && deposit == MINIMUM_FEE + refund,
        sign_outcome(curve, payload, prepaid_gas, deposit) == Ok::<Option<u128>, SignError>(None)
            ==> deposit == MINIMUM_FEE,
        sign_accepted(curve, payload, prepaid_gas, deposit) && deposit == MINIMUM_FEE
            ==> sign_outcome(curve, payload, prepaid_gas, deposit) == Ok::<Option<u128>, SignError>(None),
        deposit < MINIMUM_FEE ==> sign_outcome(curve, payload, prepaid_gas, deposit) is Err,
{
}

} // verus!
