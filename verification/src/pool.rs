//! The pool: deposit, deposit by permit, and borrow on behalf of a depositor.
//!
//! Each operation is one step: it either goes through, changing the
//! environment and handing back the calls to make on the token service, or it
//! is rejected and changes nothing.

use crate::accounting::{
    charged, covers, credit_collateral, credited, get_collateral, get_liabilities,
    increase_liability, lemma_charge_keeps_balances_sound, lemma_credit_keeps_balances_sound,
};
use crate::auth::{
    get_nonce, nonce_checked, nonce_consumed, signature_payload, verify,
    verify_and_consume_nonce, Arg, Error, PayloadView, SignaturePayload,
};
use crate::env::{lemma_soundness_carries, Env, EnvView};
use crate::identity::{Identifier, Signature};
pub use crate::store::DataKey;
use crate::store::DataValue;
use vstd::prelude::*;

verus! {

/// A call on the token service that an operation of the pool asks for, with
/// the arguments of the token service's entry point in their order.
///
/// Each starts with the artifact that authorizes the call and the nonce that
/// the token service holds it against. The pool makes `XferFrom` and `Xfer`
/// as the invoker of the token service, with the nonce 0. `Approve` carries
/// the artifact that the depositor signed for the token service, with the
/// nonce that the token service has for the signer.
#[derive(Clone, Debug, PartialEq, Eq)]
pub enum TokenCall {
    /// Let `spender` draw up to `amount` of the signer's tokens.
    Approve { sig: Signature, nonce: i64, spender: Identifier, amount: i64 },
    /// Move `amount` from `from` to `to`, out of what `from` lets the caller draw.
    XferFrom { sig: Signature, nonce: i64, from: Identifier, to: Identifier, amount: i64 },
    /// Move `amount` of the caller's own tokens to `to`.
    Xfer { sig: Signature, nonce: i64, to: Identifier, amount: i64 },
}

/// The name of the action that an authorization to borrow is signed for.
pub const BORROW_OBO: &'static str = "borrow_obo";

/// The pool as a party: the contract at the pool's own address.
pub open spec fn pool_party(s: EnvView) -> Identifier {
    Identifier::Contract(s.contract)
}

/// The call by which the pool, as itself, draws `amount` from `from`.
pub open spec fn draw_call(s: EnvView, from: Identifier, amount: i64) -> TokenCall {
    TokenCall::XferFrom { sig: Signature::Invoker, nonce: 0, from, to: pool_party(s), amount }
}

/// The call by which the pool, as itself, pays `amount` out to `to`.
pub open spec fn pay_call(to: Identifier, amount: i64) -> TokenCall {
    TokenCall::Xfer { sig: Signature::Invoker, nonce: 0, to, amount }
}

/// The environment after `initialize`: the token is set, unless one was set before.
pub open spec fn initialized_with(s: EnvView, token: [u8; 32]) -> EnvView {
    if s.initialized() {
        s
    } else {
        s.with(DataKey::Token, DataValue::Address(token))
    }
}

/// The environment after the invoker has deposited `amount`.
pub open spec fn deposited(s: EnvView, amount: i64) -> EnvView {
    if s.initialized() {
        credited(s, s.invoker, amount)
    } else {
        s
    }
}

/// The environment after the signer of `sig` has deposited `amount` by permit.
pub open spec fn deposited_by_permit(s: EnvView, sig: Signature, amount: i64) -> EnvView {
    if s.initialized() {
        credited(s, sig.signer(s.invoker), amount)
    } else {
        s
    }
}

/// Whether `party` may deposit `amount` in `s`. On a pool without a token
/// every deposit is answered, with a rejection. Else the amount is added to
/// the collateral: it is not negative, and the sum fits into 64 bits.
pub open spec fn deposit_admitted(s: EnvView, party: Identifier, amount: i64) -> bool {
    s.initialized() ==> amount >= 0 && s.collateral_of(party) + amount <= i64::MAX
}

/// The message that `signer` signs to let `receiver` borrow `amount` on its
/// behalf from the pool at `contract`, until `expiration`: the pool's address,
/// the action's name, and then in this order the signer, the nonce, the
/// receiver, the amount and the expiration.
pub open spec fn borrow_message(
    contract: [u8; 32],
    signer: Identifier,
    nonce: i64,
    receiver: Identifier,
    amount: i64,
    expiration: u64,
) -> PayloadView {
    PayloadView {
        contract,
        function: BORROW_OBO@,
        args: seq![
            Arg::Id(signer),
            Arg::I64(nonce),
            Arg::Id(receiver),
            Arg::I64(amount),
            Arg::U64(expiration),
        ],
    }
}

/// The message that the signer of `sig` has to have signed, for the invoker
/// to borrow `amount` on its behalf until `expiration`: it names the pool,
/// the signer with its current nonce, and the invoker as the receiver.
pub open spec fn borrow_obo_message(
    s: EnvView,
    sig: Signature,
    amount: i64,
    expiration: u64,
) -> PayloadView {
    let signer = sig.signer(s.invoker);
    borrow_message(s.contract, signer, s.nonce_of(signer), s.invoker, amount, expiration)
}

/// The message that `signer` signs to let `receiver` borrow `amount` on its
/// behalf from the pool at `contract`, until `expiration`. `nonce` is the
/// signer's current nonce with the pool.
pub fn borrow_payload(
    contract: [u8; 32],
    signer: Identifier,
    nonce: i64,
    receiver: Identifier,
    amount: i64,
    expiration: u64,
) -> (payload: SignaturePayload)
    ensures
        payload@ == borrow_message(contract, signer, nonce, receiver, amount, expiration),
{
    let mut args: Vec<Arg> = Vec::new();
    args.push(Arg::Id(signer));
    args.push(Arg::I64(nonce));
    args.push(Arg::Id(receiver));
    args.push(Arg::I64(amount));
    args.push(Arg::U64(expiration));
    let payload = signature_payload(contract, BORROW_OBO, args);
    assert(payload@.args =~= borrow_message(
        contract,
        signer,
        nonce,
        receiver,
        amount,
        expiration,
    ).args);
    payload
}

/// Why a request to borrow on behalf of the signer of `sig` is rejected
/// before the signer's nonce and balances come into it, if it is: the
/// authorization has expired, or the signatures of a keyed `sig` are not
/// good, or the invoker authorizes the request itself and has a nonce.
pub open spec fn authorization_rejection(
    s: EnvView,
    sig: Signature,
    expiration: u64,
    signature_ok: bool,
) -> Option<Error> {
    if s.timestamp >= expiration {
        Some(Error::ExpiredAuthorization)
    } else if sig.is_keyed() && !signature_ok {
        Some(Error::BadSignature)
    } else if !sig.is_keyed() && s.nonce_of(s.invoker) != 0 {
        Some(Error::IncorrectNonceForInvoker)
    } else {
        None
    }
}

/// Why the invoker may not borrow `amount` on behalf of the signer of `sig`,
/// if it may not. `signature_ok` says whether the signatures of a keyed `sig`
/// are good for [`borrow_obo_message`].
pub open spec fn borrow_obo_rejection(
    s: EnvView,
    sig: Signature,
    amount: i64,
    expiration: u64,
    signature_ok: bool,
) -> Option<Error> {
    match authorization_rejection(s, sig, expiration, signature_ok) {
        Some(error) => Some(error),
        None => {
            if !covers(s, sig.signer(s.invoker), amount) {
                Some(Error::InsufficientCollateral)
            } else if !s.initialized() {
                Some(Error::NotInitialized)
            } else {
                None
            }
        },
    }
}

/// Whether the invoker may ask to borrow `amount` on behalf of the signer of
/// `sig` in `s`. A request that is rejected for its authorization is answered
/// whatever it asks for. Else the nonce of a keyed signer is advanced and the
/// amount is added to the signer's liability: the nonce is not the last one,
/// and the amount is not negative.
pub open spec fn borrow_obo_admitted(
    s: EnvView,
    sig: Signature,
    amount: i64,
    expiration: u64,
    signature_ok: bool,
) -> bool {
    authorization_rejection(s, sig, expiration, signature_ok) is None ==> amount >= 0 && (
    sig.is_keyed() ==> s.nonce_of(sig.signer(s.invoker)) < i64::MAX)
}

/// The environment after the invoker has asked to borrow `amount` on behalf
/// of the signer of `sig`: where the request goes through, the nonce of a
/// keyed signer is consumed and its liability has grown by `amount`.
pub open spec fn borrowed(
    s: EnvView,
    sig: Signature,
    amount: i64,
    expiration: u64,
    signature_ok: bool,
) -> EnvView {
    let signer = sig.signer(s.invoker);
    if borrow_obo_rejection(s, sig, amount, expiration, signature_ok) is None {
        charged(nonce_consumed(s, sig, s.nonce_of(signer)), signer, amount)
    } else {
        s
    }
}

/// Whether no nonce is lower in `after` than in `before`.
pub open spec fn nonces_kept_or_advanced(before: EnvView, after: EnvView) -> bool {
    forall|id: Identifier| #[trigger] after.nonce_of(id) >= before.nonce_of(id)
}

/// Whether every nonce is in `after` what it is in `before`.
pub open spec fn nonces_kept(before: EnvView, after: EnvView) -> bool {
    forall|id: Identifier| #[trigger] after.nonce_of(id) == before.nonce_of(id)
}

/// Whether every liability is in `after` what it is in `before`, but for that
/// of `party`.
pub open spec fn liabilities_kept_but(before: EnvView, after: EnvView, party: Identifier) -> bool {
    forall|id: Identifier| id != party ==> #[trigger] after.liability_of(id) == before.liability_of(id)
}

/// Whether every liability is in `after` what it is in `before`.
pub open spec fn liabilities_kept(before: EnvView, after: EnvView) -> bool {
    forall|id: Identifier| #[trigger] after.liability_of(id) == before.liability_of(id)
}

/// Whether every collateral is in `after` what it is in `before`, but for
/// that of `party`.
pub open spec fn collaterals_kept_but(before: EnvView, after: EnvView, party: Identifier) -> bool {
    forall|id: Identifier|
        id != party ==> #[trigger] after.collateral_of(id) == before.collateral_of(id)
}

/// Whether every collateral is in `after` what it is in `before`.
pub open spec fn collaterals_kept(before: EnvView, after: EnvView) -> bool {
    forall|id: Identifier| #[trigger] after.collateral_of(id) == before.collateral_of(id)
}

/// The pool as a party.
pub fn get_contract_id(e: &Env) -> (id: Identifier)
    ensures
        id == pool_party(e@),
{
    Identifier::Contract(e.contract)
}

/// The pool's token, once the pool has been initialized.
pub fn get_token_id(e: &Env) -> (token: Option<[u8; 32]>)
    ensures
        token == e@.token(),
        token is Some <==> e@.initialized(),
{
    match e.data.get(&DataKey::Token) {
        Some(DataValue::Address(token)) => Some(token),
        _ => None,
    }
}

/// A pool of tokens.
///
/// Parties deposit the token and are credited collateral; another party may
/// borrow on behalf of a depositor who has signed for it.
pub struct Pool;

/// The operations of a pool and its views. Each is given the environment it
/// runs in; an operation that is rejected leaves the environment as it was.
pub trait PoolTrait {
    /// Initializes the pool with its token. This can be done once.
    fn initialize(e: &mut Env, token: [u8; 32]) -> (result: Result<(), Error>)
        ensures
            result == if old(e)@.initialized() {
                Err::<(), Error>(Error::AlreadyInitialized)
            } else {
                Ok::<(), Error>(())
            },
            final(e)@ == initialized_with(old(e)@, token),
            result is Err ==> final(e)@ == old(e)@,
            final(e)@.token() == if old(e)@.initialized() {
                old(e)@.token()
            } else {
                Some(token)
            },
            old(e)@.solvent() ==> final(e)@.solvent(),
            old(e)@.non_negative() ==> final(e)@.non_negative(),
            nonces_kept(old(e)@, final(e)@),
            liabilities_kept(old(e)@, final(e)@),
            collaterals_kept(old(e)@, final(e)@),
    ;

    /// The invoker deposits `amount` of the token and is credited that much
    /// collateral. The deposit stands once the token service has made the
    /// call that is handed back, which draws on what the invoker lets the
    /// pool draw.
    fn deposit(e: &mut Env, amount: i64) -> (result: Result<TokenCall, Error>)
        requires
            deposit_admitted(old(e)@, old(e)@.invoker, amount),
        ensures
            result == if old(e)@.initialized() {
                Ok::<TokenCall, Error>(draw_call(old(e)@, old(e)@.invoker, amount))
            } else {
                Err::<TokenCall, Error>(Error::NotInitialized)
            },
            final(e)@ == deposited(old(e)@, amount),
            result is Err ==> final(e)@ == old(e)@,
            result is Ok ==> final(e)@.collateral_of(old(e)@.invoker) == old(e)@.collateral_of(
                old(e)@.invoker,
            ) + amount,
            final(e)@.token() == old(e)@.token(),
            old(e)@.solvent() ==> final(e)@.solvent(),
            old(e)@.non_negative() ==> final(e)@.non_negative(),
            nonces_kept(old(e)@, final(e)@),
            liabilities_kept(old(e)@, final(e)@),
            collaterals_kept_but(old(e)@, final(e)@, old(e)@.invoker),
    ;

    /// The signer of `token_approval_sig` deposits `amount` of the token and
    /// is credited that much collateral, without an approval made beforehand:
    /// the artifact is what the signer signed for the token service's
    /// `approve`, with the pool as spender, and `sender_nonce` is the nonce
    /// that the token service has for the signer. The deposit stands once the
    /// token service has made the two calls that are handed back, in their
    /// order.
    ///
    /// The nonce that this artifact consumes is the token service's: no
    /// nonce of the pool changes.
    fn deposit_p(
        e: &mut Env,
        token_approval_sig: Signature,
        amount: i64,
        sender_nonce: i64,
    ) -> (result: Result<(TokenCall, TokenCall), Error>)
        requires
            deposit_admitted(old(e)@, token_approval_sig.signer(old(e)@.invoker), amount),
        ensures
            result == if old(e)@.initialized() {
                Ok::<(TokenCall, TokenCall), Error>(
                    (
                        TokenCall::Approve {
                            sig: token_approval_sig,
                            nonce: sender_nonce,
                            spender: pool_party(old(e)@),
                            amount,
                        },
                        draw_call(old(e)@, token_approval_sig.signer(old(e)@.invoker), amount),
                    ),
                )
            } else {
                Err::<(TokenCall, TokenCall), Error>(Error::NotInitialized)
            },
            final(e)@ == deposited_by_permit(old(e)@, token_approval_sig, amount),
            result is Err ==> final(e)@ == old(e)@,
            result is Ok ==> final(e)@.collateral_of(token_approval_sig.signer(old(e)@.invoker))
                == old(e)@.collateral_of(token_approval_sig.signer(old(e)@.invoker)) + amount,
            final(e)@.token() == old(e)@.token(),
            old(e)@.solvent() ==> final(e)@.solvent(),
            old(e)@.non_negative() ==> final(e)@.non_negative(),
            nonces_kept(old(e)@, final(e)@),
            liabilities_kept(old(e)@, final(e)@),
            collaterals_kept_but(
                old(e)@,
                final(e)@,
                token_approval_sig.signer(old(e)@.invoker),
            ),
    ;

    /// The invoker borrows `amount` on behalf of the signer of `sig`, who has
    /// allowed that by signing [`borrow_obo_message`]; `signature_ok` is the
    /// outcome of checking the signatures of a keyed `sig` against that
    /// message, which [`Pool::borrow_obo_request`] hands out. The loan stands
    /// once the token service has made the call that is handed back.
    ///
    /// The request is rejected, and nothing changes, not even the signer's
    /// nonce: as `ExpiredAuthorization` when the ledger's time has reached
    /// `expiration`; else as `BadSignature` when the signatures are not good;
    /// else as `IncorrectNonceForInvoker` when `sig` is `Invoker` and the
    /// invoker has a nonce other than 0; else as `InsufficientCollateral`
    /// when the signer's liability would exceed its collateral; else as
    /// `NotInitialized` when the pool has no token.
    fn borrow_obo(
        e: &mut Env,
        sig: Signature,
        amount: i64,
        expiration: u64,
        signature_ok: bool,
    ) -> (result: Result<TokenCall, Error>)
        requires
            borrow_obo_admitted(old(e)@, sig, amount, expiration, signature_ok),
        ensures
            result == match borrow_obo_rejection(old(e)@, sig, amount, expiration, signature_ok) {
                Some(error) => Err::<TokenCall, Error>(error),
                None => Ok::<TokenCall, Error>(pay_call(old(e)@.invoker, amount)),
            },
            final(e)@ == borrowed(old(e)@, sig, amount, expiration, signature_ok),
            result is Err ==> final(e)@ == old(e)@,
            result is Ok ==> final(e)@.liability_of(sig.signer(old(e)@.invoker))
                == old(e)@.liability_of(sig.signer(old(e)@.invoker)) + amount,
            result is Ok ==> final(e)@.liability_of(sig.signer(old(e)@.invoker))
                <= final(e)@.collateral_of(sig.signer(old(e)@.invoker)),
            final(e)@.token() == old(e)@.token(),
            old(e)@.solvent() ==> final(e)@.solvent(),
            old(e)@.non_negative() ==> final(e)@.non_negative(),
            nonces_kept_or_advanced(old(e)@, final(e)@),
            liabilities_kept_but(old(e)@, final(e)@, sig.signer(old(e)@.invoker)),
            collaterals_kept(old(e)@, final(e)@),
    ;

    /// The token of the pool, once it has been initialized.
    fn get_token(e: &Env) -> (token: Option<[u8; 32]>)
        ensures
            token == e@.token(),
            token is Some <==> e@.initialized(),
    ;

    /// The collateral of `id`.
    fn collateral(e: &Env, id: Identifier) -> (balance: i64)
        ensures
            balance == e@.collateral_of(id),
    ;

    /// The liability of `id`.
    fn liability(e: &Env, id: Identifier) -> (balance: i64)
        ensures
            balance == e@.liability_of(id),
    ;

    /// The current nonce of `id`.
    fn nonce(e: &Env, id: Identifier) -> (nonce: i64)
        ensures
            nonce == e@.nonce_of(id),
    ;
}

impl PoolTrait for Pool {
    fn initialize(e: &mut Env, token: [u8; 32]) -> (result: Result<(), Error>) {
        if e.data.has(&DataKey::Token) {
            return Err(Error::AlreadyInitialized);
        }
        e.data.set(DataKey::Token, DataValue::Address(token));
        proof {
            lemma_initialize_keeps_books(old(e)@, token);
        }
        Ok(())
    }

    fn deposit(e: &mut Env, amount: i64) -> (result: Result<TokenCall, Error>) {
        let sender_id = e.invoker;
        if get_token_id(e).is_none() {
            return Err(Error::NotInitialized);
        }
        let call = TokenCall::XferFrom {
            sig: Signature::Invoker,
            nonce: 0,
            from: sender_id,
            to: get_contract_id(e),
            amount,
        };
        credit_collateral(e, sender_id, amount);
        proof {
            lemma_deposit_keeps_books(old(e)@, sender_id, amount);
        }
        Ok(call)
    }

    fn deposit_p(
        e: &mut Env,
        token_approval_sig: Signature,
        amount: i64,
        sender_nonce: i64,
    ) -> (result: Result<(TokenCall, TokenCall), Error>) {
        let sig_id = token_approval_sig.identifier(e);
        if get_token_id(e).is_none() {
            return Err(Error::NotInitialized);
        }
        let approve = TokenCall::Approve {
            sig: token_approval_sig,
            nonce: sender_nonce,
            spender: get_contract_id(e),
            amount,
        };
        let draw = TokenCall::XferFrom {
            sig: Signature::Invoker,
            nonce: 0,
            from: sig_id,
            to: get_contract_id(e),
            amount,
        };
        credit_collateral(e, sig_id, amount);
        proof {
            lemma_deposit_keeps_books(old(e)@, sig_id, amount);
        }
        Ok((approve, draw))
    }

    fn borrow_obo(
        e: &mut Env,
        sig: Signature,
        amount: i64,
        expiration: u64,
        signature_ok: bool,
    ) -> (result: Result<TokenCall, Error>) {
        if e.timestamp >= expiration {
            return Err(Error::ExpiredAuthorization);
        }
        let signer_id = sig.identifier(e);
        let sender_id = e.invoker;
        let nonce = get_nonce(e, &signer_id);
        match verify(e, &signer_id, &sig, signature_ok) {
            Err(error) => {
                return Err(error);
            },
            Ok(()) => {},
        }
        // What follows is done on a copy, which takes the place of the
        // environment only when nothing has been rejected.
        let mut next = e.clone();
        match verify_and_consume_nonce(&mut next, &sig, &nonce) {
            Err(error) => {
                return Err(error);
            },
            Ok(()) => {},
        }
        match increase_liability(&mut next, signer_id, amount) {
            Err(error) => {
                return Err(error);
            },
            Ok(()) => {},
        }
        if get_token_id(&next).is_none() {
            return Err(Error::NotInitialized);
        }
        proof {
            lemma_borrow_keeps_books(old(e)@, sig, amount, expiration, signature_ok);
        }
        *e = next;
        Ok(TokenCall::Xfer { sig: Signature::Invoker, nonce: 0, to: sender_id, amount })
    }

    fn get_token(e: &Env) -> (token: Option<[u8; 32]>) {
        get_token_id(e)
    }

    fn collateral(e: &Env, id: Identifier) -> (balance: i64) {
        get_collateral(e, id)
    }

    fn liability(e: &Env, id: Identifier) -> (balance: i64) {
        get_liabilities(e, id)
    }

    fn nonce(e: &Env, id: Identifier) -> (nonce: i64) {
        get_nonce(e, &id)
    }
}

impl Pool {
    /// The first half of a request to borrow: what the platform has to check
    /// before [`PoolTrait::borrow_obo`] is called with the same arguments in
    /// the same environment.
    ///
    /// Where the authorization has expired there is nothing to check, and the
    /// request is rejected. Else the message is handed out that the
    /// signatures of a keyed `sig` have to be good for.
    pub fn borrow_obo_request(e: &Env, sig: &Signature, amount: i64, expiration: u64) -> (request:
        Result<SignaturePayload, Error>)
        ensures
            e.timestamp >= expiration ==> request == Err::<SignaturePayload, Error>(
                Error::ExpiredAuthorization,
            ),
            e.timestamp < expiration ==> request is Ok && request->Ok_0@ == borrow_obo_message(
                e@,
                *sig,
                amount,
                expiration,
            ),
    {
        if e.timestamp >= expiration {
            return Err(Error::ExpiredAuthorization);
        }
        let signer_id = sig.identifier(e);
        let nonce = get_nonce(e, &signer_id);
        Ok(borrow_payload(e.contract, signer_id, nonce, e.invoker, amount, expiration))
    }
}

/// Setting the token touches no balance and no nonce, and a token that is
/// set is kept.
pub proof fn lemma_initialize_keeps_books(s: EnvView, token: [u8; 32])
    ensures
        initialized_with(s, token).initialized(),
        initialized_with(s, token).token() == if s.initialized() {
            s.token()
        } else {
            Some(token)
        },
        s.solvent() ==> initialized_with(s, token).solvent(),
        s.non_negative() ==> initialized_with(s, token).non_negative(),
        nonces_kept(s, initialized_with(s, token)),
        liabilities_kept(s, initialized_with(s, token)),
        collaterals_kept(s, initialized_with(s, token)),
{
    let next = initialized_with(s, token);
    assert forall|id: Identifier| #[trigger] next.nonce_of(id) == s.nonce_of(id) by {}
    assert forall|id: Identifier| #[trigger] next.liability_of(id) == s.liability_of(id) by {}
    assert forall|id: Identifier| #[trigger] next.collateral_of(id) == s.collateral_of(id) by {}
    lemma_soundness_carries(s, next);
}

/// A deposit of `party`, by itself or by permit, keeps every liability within
/// its collateral and keeps balances from being negative. Where it goes
/// through it changes one thing: the collateral of `party`, which has grown
/// by `amount`. It lowers no collateral, and touches no liability, no nonce
/// and not the token.
pub proof fn lemma_deposit_keeps_books(s: EnvView, party: Identifier, amount: i64)
    requires
        deposit_admitted(s, party, amount),
    ensures
        ({
            let next = if s.initialized() {
                credited(s, party, amount)
            } else {
                s
            };
            &&& s.solvent() ==> next.solvent()
            &&& s.non_negative() ==> next.non_negative()
            &&& next.token() == s.token()
            &&& nonces_kept(s, next)
            &&& liabilities_kept(s, next)
            &&& collaterals_kept_but(s, next, party)
            &&& s.initialized() ==> next.collateral_of(party) == s.collateral_of(party) + amount
            &&& forall|id: Identifier| #[trigger] next.collateral_of(id) >= s.collateral_of(id)
        }),
{
    if s.initialized() {
        lemma_credit_keeps_balances_sound(s, party, amount);
    }
}

/// A request to borrow, whether it goes through or is rejected, keeps every
/// liability within its collateral, keeps balances from being negative, and
/// lowers no nonce. Where it goes through it changes two things at most: the
/// liability of the signer, which has grown by `amount` and is within the
/// signer's collateral, and the nonce of a keyed signer, which has gone up by
/// one. It touches no collateral and not the token.
pub proof fn lemma_borrow_keeps_books(
    s: EnvView,
    sig: Signature,
    amount: i64,
    expiration: u64,
    signature_ok: bool,
)
    requires
        borrow_obo_admitted(s, sig, amount, expiration, signature_ok),
    ensures
        ({
            let signer = sig.signer(s.invoker);
            let next = borrowed(s, sig, amount, expiration, signature_ok);
            let through = borrow_obo_rejection(s, sig, amount, expiration, signature_ok) is None;
            &&& s.solvent() ==> next.solvent()
            &&& s.non_negative() ==> next.non_negative()
            &&& next.token() == s.token()
            &&& collaterals_kept(s, next)
            &&& liabilities_kept_but(s, next, signer)
            &&& next.liability_of(signer) == if through {
                s.liability_of(signer) + amount
            } else {
                s.liability_of(signer) as int
            }
            &&& through ==> next.liability_of(signer) <= next.collateral_of(signer)
            &&& nonces_kept_or_advanced(s, next)
            &&& forall|id: Identifier| #[trigger]
                next.nonce_of(id) == if through && sig.is_keyed() && id == signer {
                    s.nonce_of(id) + 1
                } else {
                    s.nonce_of(id) as int
                }
        }),
{
    let signer = sig.signer(s.invoker);
    let next = borrowed(s, sig, amount, expiration, signature_ok);
    if borrow_obo_rejection(s, sig, amount, expiration, signature_ok) is None {
        let mid = nonce_consumed(s, sig, s.nonce_of(signer));
        assert forall|id: Identifier| #[trigger] mid.liability_of(id) == s.liability_of(id) by {}
        assert forall|id: Identifier| #[trigger] mid.collateral_of(id) == s.collateral_of(id) by {}
        assert forall|id: Identifier| #[trigger]
            mid.nonce_of(id) == if sig.is_keyed() && id == signer {
                s.nonce_of(id) + 1
            } else {
                s.nonce_of(id) as int
            } by {}
        lemma_soundness_carries(s, mid);
        lemma_charge_keeps_balances_sound(mid, signer, amount);
        assert forall|id: Identifier| #[trigger]
            next.nonce_of(id) == if sig.is_keyed() && id == signer {
                s.nonce_of(id) + 1
            } else {
                s.nonce_of(id) as int
            } by {
            assert(next.nonce_of(id) == mid.nonce_of(id));
        }
        assert forall|id: Identifier| #[trigger] next.collateral_of(id) == s.collateral_of(id) by {
            assert(next.collateral_of(id) == mid.collateral_of(id));
        }
        assert forall|id: Identifier| id != signer implies #[trigger] next.liability_of(id)
            == s.liability_of(id) by {
            assert(next.liability_of(id) == mid.liability_of(id));
        }
        assert(next.liability_of(signer) == mid.liability_of(signer) + amount);
        assert(next.collateral_of(signer) == mid.collateral_of(signer));
    }
}

/// A request to borrow with an authorization that has expired is rejected as
/// such whatever else it holds, and changes nothing.
pub proof fn lemma_expired_request_changes_nothing(
    s: EnvView,
    sig: Signature,
    amount: i64,
    expiration: u64,
    signature_ok: bool,
)
    requires
        s.timestamp >= expiration,
    ensures
        borrow_obo_admitted(s, sig, amount, expiration, signature_ok),
        borrow_obo_rejection(s, sig, amount, expiration, signature_ok) == Some(
            Error::ExpiredAuthorization,
        ),
        borrowed(s, sig, amount, expiration, signature_ok) == s,
{
}

/// A message that was signed over another nonce than the signer's current
/// one is not the message that a request to borrow is held against.
pub proof fn lemma_stale_message_differs(
    s: EnvView,
    sig: Signature,
    amount: i64,
    expiration: u64,
    nonce: i64,
)
    requires
        nonce != s.nonce_of(sig.signer(s.invoker)),
    ensures
        borrow_message(s.contract, sig.signer(s.invoker), nonce, s.invoker, amount, expiration)
            != borrow_obo_message(s, sig, amount, expiration),
        nonce_checked(s, sig.signer(s.invoker), nonce) == Err::<(), Error>(Error::IncorrectNonce),
{
    let signer = sig.signer(s.invoker);
    let signed = borrow_message(s.contract, signer, nonce, s.invoker, amount, expiration);
    let held = borrow_obo_message(s, sig, amount, expiration);
    assert(signed.args[1] == Arg::I64(nonce));
    assert(held.args[1] == Arg::I64(s.nonce_of(signer)));
}

/// An authorization to borrow cannot be used twice.
///
/// Once a request with a keyed artifact has gone through, the signer's nonce
/// is one more. The same request is then held against another message than
/// the one that was signed, since the message carries the nonce; the nonce
/// that was signed is no longer the signer's current one; and with
/// signatures that are not good for the new message the request is rejected
/// as `BadSignature` and changes nothing.
pub proof fn lemma_replay_is_rejected(s: EnvView, sig: Signature, amount: i64, expiration: u64)
    requires
        sig.is_keyed(),
        borrow_obo_admitted(s, sig, amount, expiration, true),
        borrow_obo_rejection(s, sig, amount, expiration, true) is None,
    ensures
        ({
            let signer = sig.signer(s.invoker);
            let after = borrowed(s, sig, amount, expiration, true);
            &&& after.nonce_of(signer) == s.nonce_of(signer) + 1
            &&& borrow_obo_message(after, sig, amount, expiration) != borrow_obo_message(
                s,
                sig,
                amount,
                expiration,
            )
            &&& nonce_checked(after, signer, s.nonce_of(signer)) == Err::<(), Error>(
                Error::IncorrectNonce,
            )
            &&& borrow_obo_admitted(after, sig, amount, expiration, false)
            &&& borrow_obo_rejection(after, sig, amount, expiration, false) == Some(
                Error::BadSignature,
            )
            &&& borrowed(after, sig, amount, expiration, false) == after
        }),
{
    let signer = sig.signer(s.invoker);
    let after = borrowed(s, sig, amount, expiration, true);
    lemma_borrow_keeps_books(s, sig, amount, expiration, true);
    assert(after.nonce_of(signer) == s.nonce_of(signer) + 1);
    let first = borrow_obo_message(s, sig, amount, expiration);
    let second = borrow_obo_message(after, sig, amount, expiration);
    assert(first.args[1] == Arg::I64(s.nonce_of(signer)));
    assert(second.args[1] == Arg::I64(after.nonce_of(signer)));
}

/// The signed message binds every field that a request to borrow acts on:
/// two messages that are equal are for the same pool, signer, nonce,
/// receiver, amount and expiration.
pub proof fn lemma_message_binds_request(
    contract1: [u8; 32],
    signer1: Identifier,
    nonce1: i64,
    receiver1: Identifier,
    amount1: i64,
    expiration1: u64,
    contract2: [u8; 32],
    signer2: Identifier,
    nonce2: i64,
    receiver2: Identifier,
    amount2: i64,
    expiration2: u64,
)
    requires
        borrow_message(contract1, signer1, nonce1, receiver1, amount1, expiration1)
            == borrow_message(contract2, signer2, nonce2, receiver2, amount2, expiration2),
    ensures
        contract1 == contract2,
        signer1 == signer2,
        nonce1 == nonce2,
        receiver1 == receiver2,
        amount1 == amount2,
        expiration1 == expiration2,
{
    let first = borrow_message(contract1, signer1, nonce1, receiver1, amount1, expiration1);
    let second = borrow_message(contract2, signer2, nonce2, receiver2, amount2, expiration2);
    assert(first.args[0] == second.args[0]);
    assert(first.args[1] == second.args[1]);
    assert(first.args[2] == second.args[2]);
    assert(first.args[3] == second.args[3]);
    assert(first.args[4] == second.args[4]);
}

} // verus!
