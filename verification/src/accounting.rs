//! Accounting: the collateral and the liability of each party.

use crate::auth::Error;
use crate::env::{lemma_soundness_carries, Env, EnvView};
use crate::identity::Identifier;
use crate::store::{DataKey, DataValue};
use vstd::prelude::*;

verus! {

/// The collateral of `id`: 0 until it has deposited.
pub fn get_collateral(e: &Env, id: Identifier) -> (balance: i64)
    ensures
        balance == e@.collateral_of(id),
{
    e.get_int(&DataKey::Collateral(id))
}

/// Sets the collateral of `id` to `amount`.
pub fn set_collateral(e: &mut Env, id: Identifier, amount: i64)
    ensures
        final(e)@ == old(e)@.with(DataKey::Collateral(id), DataValue::Int(amount)),
{
    e.data.set(DataKey::Collateral(id), DataValue::Int(amount));
}

/// The liability of `id`: 0 until something was borrowed against its collateral.
pub fn get_liabilities(e: &Env, id: Identifier) -> (balance: i64)
    ensures
        balance == e@.liability_of(id),
{
    e.get_int(&DataKey::Liability(id))
}

/// Sets the liability of `id` to `amount`.
pub fn set_liabilities(e: &mut Env, id: Identifier, amount: i64)
    ensures
        final(e)@ == old(e)@.with(DataKey::Liability(id), DataValue::Int(amount)),
{
    e.data.set(DataKey::Liability(id), DataValue::Int(amount));
}

/// The environment `s` with `amount` more collateral for `id`.
pub open spec fn credited(s: EnvView, id: Identifier, amount: i64) -> EnvView {
    s.with(DataKey::Collateral(id), DataValue::Int((s.collateral_of(id) + amount) as i64))
}

/// Adds `amount` to the collateral of `id`.
///
/// A deposit only ever adds collateral, so `amount` is not negative, and the
/// new collateral has to fit into 64 bits.
pub fn credit_collateral(e: &mut Env, id: Identifier, amount: i64)
    requires
        amount >= 0,
        old(e)@.collateral_of(id) + amount <= i64::MAX,
    ensures
        final(e)@ == credited(old(e)@, id, amount),
        final(e)@.collateral_of(id) == old(e)@.collateral_of(id) + amount,
{
    let cur_collateral = get_collateral(e, id);
    set_collateral(e, id, cur_collateral + amount);
}

/// Whether the collateral of `id` covers its liability and `amount` more.
pub open spec fn covers(s: EnvView, id: Identifier, amount: i64) -> bool {
    s.liability_of(id) + amount <= s.collateral_of(id)
}

/// The environment `s` with `amount` more liability for `id`, where its
/// collateral covers that; else `s` itself.
pub open spec fn charged(s: EnvView, id: Identifier, amount: i64) -> EnvView {
    if covers(s, id, amount) {
        s.with(DataKey::Liability(id), DataValue::Int((s.liability_of(id) + amount) as i64))
    } else {
        s
    }
}

/// Adds `amount` to the liability of `id`, unless the liability would then
/// exceed the collateral of `id`: that is rejected as `InsufficientCollateral`
/// and changes nothing.
///
/// Every borrow goes through this gate.
pub fn increase_liability(e: &mut Env, id: Identifier, amount: i64) -> (result: Result<(), Error>)
    requires
        amount >= 0,
    ensures
        result == if covers(old(e)@, id, amount) {
            Ok::<(), Error>(())
        } else {
            Err::<(), Error>(Error::InsufficientCollateral)
        },
        final(e)@ == charged(old(e)@, id, amount),
        result is Err ==> final(e)@ == old(e)@,
{
    let collateral = get_collateral(e, id);
    let liability = get_liabilities(e, id);
    if (collateral as i128) < (liability as i128) + (amount as i128) {
        return Err(Error::InsufficientCollateral);
    }
    set_liabilities(e, id, liability + amount);
    Ok(())
}

/// Crediting collateral keeps every liability within its collateral, and
/// keeps balances from being negative. It changes one thing: the collateral
/// of `id`, which has grown by `amount`.
pub proof fn lemma_credit_keeps_balances_sound(s: EnvView, id: Identifier, amount: i64)
    requires
        amount >= 0,
        s.collateral_of(id) + amount <= i64::MAX,
    ensures
        s.solvent() ==> credited(s, id, amount).solvent(),
        s.non_negative() ==> credited(s, id, amount).non_negative(),
        credited(s, id, amount).token() == s.token(),
        forall|other: Identifier| #[trigger]
            credited(s, id, amount).nonce_of(other) == s.nonce_of(other),
        forall|other: Identifier| #[trigger]
            credited(s, id, amount).liability_of(other) == s.liability_of(other),
        forall|other: Identifier| #[trigger]
            credited(s, id, amount).collateral_of(other) == if other == id {
                s.collateral_of(id) + amount
            } else {
                s.collateral_of(other) as int
            },
{
    let next = credited(s, id, amount);
    assert forall|other: Identifier| #[trigger]
        next.collateral_of(other) == if other == id {
            s.collateral_of(id) + amount
        } else {
            s.collateral_of(other) as int
        } by {}
    assert forall|other: Identifier| #[trigger] next.liability_of(other) == s.liability_of(other) by {}
    lemma_soundness_carries(s, next);
}

/// Charging a liability keeps every liability within its collateral, for
/// every amount, and keeps balances from being negative. It changes one
/// thing at most: the liability of `id`, which has grown by `amount` where
/// the collateral covers that.
pub proof fn lemma_charge_keeps_balances_sound(s: EnvView, id: Identifier, amount: i64)
    requires
        amount >= 0,
    ensures
        s.solvent() ==> charged(s, id, amount).solvent(),
        s.non_negative() ==> charged(s, id, amount).non_negative(),
        charged(s, id, amount).token() == s.token(),
        forall|other: Identifier| #[trigger]
            charged(s, id, amount).nonce_of(other) == s.nonce_of(other),
        forall|other: Identifier| #[trigger]
            charged(s, id, amount).collateral_of(other) == s.collateral_of(other),
        forall|other: Identifier| #[trigger]
            charged(s, id, amount).liability_of(other) == if other == id && covers(s, id, amount) {
                s.liability_of(id) + amount
            } else {
                s.liability_of(other) as int
            },
{
    let next = charged(s, id, amount);
    assert forall|other: Identifier| #[trigger]
        next.liability_of(other) == if other == id && covers(s, id, amount) {
            s.liability_of(id) + amount
        } else {
            s.liability_of(other) as int
        } by {}
    assert forall|other: Identifier| #[trigger] next.collateral_of(other) == s.collateral_of(other) by {}
    lemma_soundness_carries(s, next);
}

} // verus!
