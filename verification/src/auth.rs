//! Authorization: the message that a signer signs, the check of an
//! authorization artifact, and the nonces that keep one from being used twice.

use crate::env::{Env, EnvView};
use crate::identity::{Identifier, Signature};
use crate::store::{DataKey, DataValue};
use vstd::prelude::*;

verus! {

/// Why an operation was rejected. A rejected operation changes nothing.
#[derive(Clone, Copy, Debug, PartialEq, Eq, Hash, Structural)]
pub enum Error {
    /// An invoker-authorized call presented a nonce other than 0.
    IncorrectNonceForInvoker,
    /// The presented nonce is not the signer's current nonce.
    IncorrectNonce,
    /// The pool already has its token.
    AlreadyInitialized,
    /// The pool has no token yet.
    NotInitialized,
    /// The authorization is no longer valid at the ledger's time.
    ExpiredAuthorization,
    /// The artifact does not authorize the call for the party it is held to speak for.
    BadSignature,
    /// The liability would exceed the collateral.
    InsufficientCollateral,
}

impl Error {
    /// The number under which the rejection is reported to the submitter.
    pub open spec fn code_of(self) -> u32 {
        match self {
            Error::IncorrectNonceForInvoker => 1,
            Error::IncorrectNonce => 2,
            Error::AlreadyInitialized => 3,
            Error::NotInitialized => 4,
            Error::ExpiredAuthorization => 5,
            Error::BadSignature => 6,
            Error::InsufficientCollateral => 7,
        }
    }

    /// The number under which the rejection is reported to the submitter.
    pub fn code(&self) -> (code: u32)
        ensures
            code == self.code_of(),
            1 <= code <= 7,
    {
        match self {
            Error::IncorrectNonceForInvoker => 1,
            Error::IncorrectNonce => 2,
            Error::AlreadyInitialized => 3,
            Error::NotInitialized => 4,
            Error::ExpiredAuthorization => 5,
            Error::BadSignature => 6,
            Error::InsufficientCollateral => 7,
        }
    }

    /// Two rejections with the same number are the same rejection.
    pub proof fn lemma_code_tells_apart(a: Error, b: Error)
        requires
            a.code_of() == b.code_of(),
        ensures
            a == b,
    {
    }

    /// The rejection in words.
    pub fn message(&self) -> (text: &'static str)
        ensures
            text@ == self.message_of()@,
    {
        match self {
            Error::IncorrectNonceForInvoker => "incorrect nonce for invoker",
            Error::IncorrectNonce => "incorrect nonce",
            Error::AlreadyInitialized => "pool already initialized",
            Error::NotInitialized => "pool not initialized",
            Error::ExpiredAuthorization => "expired signature",
            Error::BadSignature => "bad signature",
            Error::InsufficientCollateral => "not enough collateral",
        }
    }

    /// The rejection in words.
    pub open spec fn message_of(self) -> &'static str {
        match self {
            Error::IncorrectNonceForInvoker => "incorrect nonce for invoker",
            Error::IncorrectNonce => "incorrect nonce",
            Error::AlreadyInitialized => "pool already initialized",
            Error::NotInitialized => "pool not initialized",
            Error::ExpiredAuthorization => "expired signature",
            Error::BadSignature => "bad signature",
            Error::InsufficientCollateral => "not enough collateral",
        }
    }
}

/// One field of a signed message.
#[derive(Clone, Copy, Debug, PartialEq, Eq)]
pub enum Arg {
    Id(Identifier),
    I64(i64),
    U64(u64),
}

/// The message that a keyed artifact has to be a signature of: the address of
/// the contract that is called, the name of the action, and the action's
/// arguments in their fixed order.
#[derive(Clone, Debug, PartialEq, Eq)]
pub struct SignaturePayload {
    pub contract: [u8; 32],
    pub function: &'static str,
    pub args: Vec<Arg>,
}

/// The mathematical value of a [`SignaturePayload`].
pub struct PayloadView {
    pub contract: [u8; 32],
    pub function: Seq<char>,
    pub args: Seq<Arg>,
}

impl View for SignaturePayload {
    type V = PayloadView;

    open spec fn view(&self) -> PayloadView {
        PayloadView { contract: self.contract, function: self.function@, args: self.args@ }
    }
}

/// The message for the action `function` of the contract at `contract`, with
/// the arguments `args`.
pub fn signature_payload(contract: [u8; 32], function: &'static str, args: Vec<Arg>) -> (payload:
    SignaturePayload)
    ensures
        payload@ == (PayloadView { contract, function: function@, args: args@ }),
{
    SignaturePayload { contract, function, args }
}

/// Whether `sig` authorizes a call for `id`, when `invoker` runs the operation
/// and `signature_ok` says whether the signatures that a keyed `sig` carries
/// are good for the message of the call.
///
/// An `Invoker` artifact speaks for the invoker and for nobody else. A keyed
/// artifact speaks for the party it names, if its signatures are good.
pub open spec fn authorizes(
    invoker: Identifier,
    id: Identifier,
    sig: Signature,
    signature_ok: bool,
) -> bool {
    id == sig.signer(invoker) && (sig.is_keyed() ==> signature_ok)
}

/// Checks that `sig` authorizes a call for `id`.
///
/// `signature_ok` is the outcome of checking the signatures that a keyed `sig`
/// carries against the message of the call ([`signature_payload`]); for an
/// `Invoker` artifact it is not looked at. The check changes nothing: to
/// consume the signer's nonce is up to the caller.
pub fn verify(env: &Env, id: &Identifier, sig: &Signature, signature_ok: bool) -> (result: Result<
    (),
    Error,
>)
    ensures
        result == if authorizes(env.invoker, *id, *sig, signature_ok) {
            Ok::<(), Error>(())
        } else {
            Err::<(), Error>(Error::BadSignature)
        },
{
    let signer = sig.identifier(env);
    if *id == signer && (signature_ok || !sig.keyed()) {
        Ok(())
    } else {
        Err(Error::BadSignature)
    }
}

/// The current nonce of `id`: 0 until one has been consumed.
pub fn get_nonce(env: &Env, id: &Identifier) -> (nonce: i64)
    ensures
        nonce == env@.nonce_of(*id),
{
    env.get_int(&DataKey::Nonce(*id))
}

/// Sets the nonce of `id`.
pub fn set_nonce(env: &mut Env, id: &Identifier, nonce: i64)
    ensures
        final(env)@ == old(env)@.with(DataKey::Nonce(*id), DataValue::Int(nonce)),
{
    env.data.set(DataKey::Nonce(*id), DataValue::Int(nonce));
}

/// Why `nonce` cannot be presented with `sig`, if it cannot: a call that the
/// invoker authorizes is not tracked by a nonce, and has to present 0.
pub open spec fn nonce_rejection(sig: Signature, nonce: i64) -> Option<Error> {
    if !sig.is_keyed() && nonce != 0 {
        Some(Error::IncorrectNonceForInvoker)
    } else {
        None
    }
}

/// The environment after `nonce` was presented with `sig` in `s`: the nonce
/// of the signer of a keyed artifact is one more than the presented nonce,
/// whatever it was before, and nothing has changed otherwise.
pub open spec fn nonce_consumed(s: EnvView, sig: Signature, nonce: i64) -> EnvView {
    if sig.is_keyed() {
        s.with(DataKey::Nonce(sig.signer(s.invoker)), DataValue::Int((nonce + 1) as i64))
    } else {
        s
    }
}

/// Consumes the nonce that comes with `sig`.
///
/// A call that the invoker authorizes is not tracked by a nonce, so it has to
/// present 0 and changes nothing. For a keyed artifact the signer's nonce
/// becomes the presented nonce plus one, on every call, so that no path uses
/// a nonce twice. The presented nonce is not compared with the signer's
/// current one here: it is part of the signed message, so that comparing
/// them is up to whoever checks the signatures (see [`check_nonce`]).
pub fn verify_and_consume_nonce(env: &mut Env, sig: &Signature, nonce: &i64) -> (result: Result<
    (),
    Error,
>)
    requires
        sig.is_keyed() ==> *nonce < i64::MAX,
    ensures
        result == match nonce_rejection(*sig, *nonce) {
            Some(error) => Err::<(), Error>(error),
            None => Ok::<(), Error>(()),
        },
        final(env)@ == nonce_consumed(old(env)@, *sig, *nonce),
        result is Err ==> final(env)@ == old(env)@,
{
    match sig {
        Signature::Invoker => {
            if *nonce != 0 {
                return Err(Error::IncorrectNonceForInvoker);
            }
        },
        Signature::Ed25519(_) | Signature::Account(_) => {
            let id = sig.identifier(env);
            set_nonce(env, &id, *nonce + 1);
        },
    }
    Ok(())
}

/// Whether `nonce` is the current nonce of `id` in `s`, as a result.
pub open spec fn nonce_checked(s: EnvView, id: Identifier, nonce: i64) -> Result<(), Error> {
    if nonce == s.nonce_of(id) {
        Ok(())
    } else {
        Err(Error::IncorrectNonce)
    }
}

/// Compares a presented nonce with the current nonce of `id`, and reports
/// `IncorrectNonce` where they differ. Nothing is consumed.
pub fn check_nonce(env: &Env, id: &Identifier, nonce: i64) -> (result: Result<(), Error>)
    ensures
        result == nonce_checked(env@, *id, nonce),
{
    if nonce == get_nonce(env, id) {
        Ok(())
    } else {
        Err(Error::IncorrectNonce)
    }
}

/// Where the presented nonce is the signer's current one, consuming it lowers
/// no nonce: the nonce of the signer of a keyed artifact goes up by exactly
/// one, and every other nonce stays as it is, as do all nonces for a call
/// that the invoker authorizes. No balance changes.
pub proof fn lemma_nonce_only_advances(s: EnvView, sig: Signature, nonce: i64, id: Identifier)
    requires
        sig.is_keyed() ==> nonce == s.nonce_of(sig.signer(s.invoker)) && nonce < i64::MAX,
    ensures
        nonce_consumed(s, sig, nonce).nonce_of(id) == if sig.is_keyed() && id == sig.signer(
            s.invoker,
        ) {
            s.nonce_of(id) + 1
        } else {
            s.nonce_of(id) as int
        },
        nonce_consumed(s, sig, nonce).nonce_of(id) >= s.nonce_of(id),
        nonce_consumed(s, sig, nonce).collateral_of(id) == s.collateral_of(id),
        nonce_consumed(s, sig, nonce).liability_of(id) == s.liability_of(id),
        nonce_consumed(s, sig, nonce).token() == s.token(),
{
}

/// A nonce that a keyed artifact has consumed is no longer the signer's
/// current nonce: compared with it again, it is reported as `IncorrectNonce`.
pub proof fn lemma_consumed_nonce_is_rejected(s: EnvView, sig: Signature, nonce: i64)
    requires
        sig.is_keyed(),
        nonce < i64::MAX,
    ensures
        nonce_consumed(s, sig, nonce).nonce_of(sig.signer(s.invoker)) == nonce + 1,
        nonce_checked(nonce_consumed(s, sig, nonce), sig.signer(s.invoker), nonce) == Err::<
            (),
            Error,
        >(Error::IncorrectNonce),
{
}

} // verus!
