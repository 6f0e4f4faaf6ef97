//! What holds of the pool after any run of operations.

use crate::env::{lemma_empty_is_sound, lemma_soundness_carries, EnvView};
use crate::identity::{Identifier, Signature};
use crate::pool::{
    borrow_obo_admitted, borrowed, deposit_admitted, deposited, deposited_by_permit,
    initialized_with, lemma_borrow_keeps_books, lemma_deposit_keeps_books,
    lemma_initialize_keeps_books, nonces_kept_or_advanced,
};
use crate::store::{DataKey, DataValue};
use vstd::prelude::*;

verus! {

/// An operation of the pool with its arguments.
pub enum Operation {
    Initialize { token: [u8; 32] },
    Deposit { amount: i64 },
    DepositP { token_approval_sig: Signature, amount: i64, sender_nonce: i64 },
    BorrowObo { sig: Signature, amount: i64, expiration: u64, signature_ok: bool },
}

/// One operation as it reaches the pool: who invokes it, and at what time of
/// the ledger.
pub struct Invocation {
    pub invoker: Identifier,
    pub timestamp: u64,
    pub operation: Operation,
}

/// Whether `operation` may be run in `s`: where an amount is added or a nonce
/// advanced, the amount is not negative, a collateral stays within 64 bits,
/// and the nonce of a keyed signer is not the last one.
pub open spec fn admitted(s: EnvView, operation: Operation) -> bool {
    match operation {
        Operation::Initialize { token } => true,
        Operation::Deposit { amount } => deposit_admitted(s, s.invoker, amount),
        Operation::DepositP { token_approval_sig, amount, sender_nonce } => {
            deposit_admitted(s, token_approval_sig.signer(s.invoker), amount)
        },
        Operation::BorrowObo { sig, amount, expiration, signature_ok } => {
            borrow_obo_admitted(s, sig, amount, expiration, signature_ok)
        },
    }
}

/// The environment after `operation` has run in `s`.
pub open spec fn applied(s: EnvView, operation: Operation) -> EnvView {
    match operation {
        Operation::Initialize { token } => initialized_with(s, token),
        Operation::Deposit { amount } => deposited(s, amount),
        Operation::DepositP { token_approval_sig, amount, sender_nonce } => {
            deposited_by_permit(s, token_approval_sig, amount)
        },
        Operation::BorrowObo { sig, amount, expiration, signature_ok } => {
            borrowed(s, sig, amount, expiration, signature_ok)
        },
    }
}

/// The environment after `invocation` has reached the pool in `s`. An
/// operation that may not be run is not run.
pub open spec fn invoked(s: EnvView, invocation: Invocation) -> EnvView {
    let at = EnvView { invoker: invocation.invoker, timestamp: invocation.timestamp, ..s };
    if admitted(at, invocation.operation) {
        applied(at, invocation.operation)
    } else {
        at
    }
}

/// The environment after the invocations of `history` have reached the pool
/// in `s`, one after the other.
pub open spec fn after(s: EnvView, history: Seq<Invocation>) -> EnvView
    decreases history.len(),
{
    if history.len() == 0 {
        s
    } else {
        invoked(after(s, history.drop_last()), history.last())
    }
}

/// One invocation, whatever it is and whether it goes through or not, keeps
/// every liability within its collateral, keeps balances from being
/// negative, lowers no nonce, leaves the pool at its address, and keeps the
/// token that is set.
pub proof fn lemma_invocation_keeps_books(s: EnvView, invocation: Invocation)
    ensures
        s.solvent() ==> invoked(s, invocation).solvent(),
        s.non_negative() ==> invoked(s, invocation).non_negative(),
        nonces_kept_or_advanced(s, invoked(s, invocation)),
        invoked(s, invocation).contract == s.contract,
        s.initialized() ==> invoked(s, invocation).initialized() && invoked(
            s,
            invocation,
        ).token() == s.token(),
{
    let at = EnvView { invoker: invocation.invoker, timestamp: invocation.timestamp, ..s };
    let next = invoked(s, invocation);
    assert forall|id: Identifier| #[trigger] at.nonce_of(id) == s.nonce_of(id) by {}
    assert forall|id: Identifier| #[trigger] at.liability_of(id) == s.liability_of(id) by {}
    assert forall|id: Identifier| #[trigger] at.collateral_of(id) == s.collateral_of(id) by {}
    lemma_soundness_carries(s, at);
    if admitted(at, invocation.operation) {
        match invocation.operation {
            Operation::Initialize { token } => {
                lemma_initialize_keeps_books(at, token);
            },
            Operation::Deposit { amount } => {
                lemma_deposit_keeps_books(at, at.invoker, amount);
            },
            Operation::DepositP { token_approval_sig, amount, sender_nonce } => {
                lemma_deposit_keeps_books(at, token_approval_sig.signer(at.invoker), amount);
            },
            Operation::BorrowObo { sig, amount, expiration, signature_ok } => {
                lemma_borrow_keeps_books(at, sig, amount, expiration, signature_ok);
            },
        }
    }
    assert forall|id: Identifier| #[trigger] next.nonce_of(id) >= s.nonce_of(id) by {
        assert(next.nonce_of(id) >= at.nonce_of(id));
        assert(at.nonce_of(id) == s.nonce_of(id));
    }
}

/// Whatever reaches the pool, in whatever order: at every point no liability
/// exceeds its collateral, no balance is negative where none was, no nonce is
/// lower than it was before, and the token, once set, is the one that was set.
pub proof fn lemma_history_keeps_books(s: EnvView, history: Seq<Invocation>)
    ensures
        s.solvent() ==> after(s, history).solvent(),
        s.non_negative() ==> after(s, history).non_negative(),
        nonces_kept_or_advanced(s, after(s, history)),
        after(s, history).contract == s.contract,
        s.initialized() ==> after(s, history).initialized() && after(s, history).token()
            == s.token(),
    decreases history.len(),
{
    if history.len() > 0 {
        let before = after(s, history.drop_last());
        lemma_history_keeps_books(s, history.drop_last());
        lemma_invocation_keeps_books(before, history.last());
        let last = after(s, history);
        assert forall|id: Identifier| #[trigger] last.nonce_of(id) >= s.nonce_of(id) by {
            assert(last.nonce_of(id) >= before.nonce_of(id));
            assert(before.nonce_of(id) >= s.nonce_of(id));
        }
    }
}

/// A pool that starts without data is sound for ever: after any history, for
/// every party, the liability is at least 0 and at most the collateral, and
/// the nonce is at least 0.
pub proof fn lemma_pool_stays_sound(s: EnvView, history: Seq<Invocation>, id: Identifier)
    requires
        s.data == Map::<DataKey, DataValue>::empty(),
    ensures
        0 <= after(s, history).liability_of(id) <= after(s, history).collateral_of(id),
        0 <= after(s, history).nonce_of(id),
{
    lemma_empty_is_sound(s);
    lemma_history_keeps_books(s, history);
    let last = after(s, history);
    assert(last.liability_of(id) <= last.collateral_of(id));
    assert(0 <= last.liability_of(id));
    assert(last.nonce_of(id) >= s.nonce_of(id));
    assert(s.nonce_of(id) == 0);
}

} // verus!
