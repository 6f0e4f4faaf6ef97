//! The environment that an operation of the pool runs in.

use crate::identity::Identifier;
use crate::store::{DataKey, DataValue, Store};
use vstd::prelude::*;

verus! {

/// What an operation of the pool sees and changes: who invoked it, the pool's
/// own address, the ledger time, and the pool's data.
#[derive(Debug)]
pub struct Env {
    /// The party that the platform has authenticated as the invoker of the
    /// running operation.
    pub invoker: Identifier,
    /// The address of the pool itself.
    pub contract: [u8; 32],
    /// The time of the ledger in which the operation runs.
    pub timestamp: u64,
    /// The pool's data.
    pub data: Store,
}

/// The mathematical value of an [`Env`].
pub struct EnvView {
    pub invoker: Identifier,
    pub contract: [u8; 32],
    pub timestamp: u64,
    pub data: Map<DataKey, DataValue>,
}

impl View for Env {
    type V = EnvView;

    open spec fn view(&self) -> EnvView {
        EnvView {
            invoker: self.invoker,
            contract: self.contract,
            timestamp: self.timestamp,
            data: self.data@,
        }
    }
}

/// The integer stored under `key`, or 0 where there is none.
pub open spec fn int_at(data: Map<DataKey, DataValue>, key: DataKey) -> i64 {
    match data.get(key) {
        Some(DataValue::Int(n)) => n,
        _ => 0,
    }
}

impl EnvView {
    /// The pool's token, once it has been set.
    pub open spec fn token(self) -> Option<[u8; 32]> {
        match self.data.get(DataKey::Token) {
            Some(DataValue::Address(token)) => Some(token),
            _ => None,
        }
    }

    /// Whether the pool has been initialized.
    pub open spec fn initialized(self) -> bool {
        self.data.contains_key(DataKey::Token)
    }

    /// The nonce of `id`: 0 until one has been consumed.
    pub open spec fn nonce_of(self, id: Identifier) -> i64 {
        int_at(self.data, DataKey::Nonce(id))
    }

    /// The collateral of `id`: 0 until it has deposited.
    pub open spec fn collateral_of(self, id: Identifier) -> i64 {
        int_at(self.data, DataKey::Collateral(id))
    }

    /// The liability of `id`: 0 until something was borrowed against its collateral.
    pub open spec fn liability_of(self, id: Identifier) -> i64 {
        int_at(self.data, DataKey::Liability(id))
    }

    /// The same environment with `value` stored under `key`.
    pub open spec fn with(self, key: DataKey, value: DataValue) -> EnvView {
        EnvView { data: self.data.insert(key, value), ..self }
    }

    /// No party's liability exceeds its collateral.
    pub open spec fn solvent(self) -> bool {
        forall|id: Identifier| #[trigger] self.liability_of(id) <= self.collateral_of(id)
    }

    /// No party's collateral or liability is negative.
    pub open spec fn non_negative(self) -> bool {
        &&& forall|id: Identifier| 0 <= #[trigger] self.liability_of(id)
        &&& forall|id: Identifier| 0 <= #[trigger] self.collateral_of(id)
    }
}

impl Clone for Env {
    fn clone(&self) -> (copy: Env)
        ensures
            copy@ == self@,
    {
        Env {
            invoker: self.invoker,
            contract: self.contract,
            timestamp: self.timestamp,
            data: self.data.clone(),
        }
    }
}

impl Env {
    /// The environment of a pool at `contract` that holds no data yet, with
    /// `invoker` about to run an operation at ledger time `timestamp`.
    pub fn new(contract: [u8; 32], invoker: Identifier, timestamp: u64) -> (env: Env)
        ensures
            env@ == (EnvView { invoker, contract, timestamp, data: Map::empty() }),
    {
        Env { invoker, contract, timestamp, data: Store::new() }
    }

    /// The integer stored under `key`, or 0 where there is none.
    pub(crate) fn get_int(&self, key: &DataKey) -> (n: i64)
        ensures
            n == int_at(self@.data, *key),
    {
        match self.data.get(key) {
            Some(DataValue::Int(n)) => n,
            _ => 0,
        }
    }
}

/// An environment without data is sound: the pool is not initialized, and
/// every nonce, collateral and liability is 0.
pub proof fn lemma_empty_is_sound(s: EnvView)
    requires
        s.data == Map::<DataKey, DataValue>::empty(),
    ensures
        !s.initialized(),
        s.token() is None,
        s.solvent(),
        s.non_negative(),
        forall|id: Identifier| #[trigger] s.nonce_of(id) == 0,
        forall|id: Identifier| #[trigger] s.collateral_of(id) == 0,
        forall|id: Identifier| #[trigger] s.liability_of(id) == 0,
{
}

/// Balances that are sound stay sound where no collateral goes down and each
/// liability either stays as it is or goes up within its collateral.
pub proof fn lemma_soundness_carries(before: EnvView, after: EnvView)
    requires
        forall|id: Identifier| #[trigger] after.collateral_of(id) >= before.collateral_of(id),
        forall|id: Identifier|
            #![trigger after.liability_of(id)]
            after.liability_of(id) == before.liability_of(id) || before.liability_of(id)
                <= after.liability_of(id) <= after.collateral_of(id),
    ensures
        before.solvent() ==> after.solvent(),
        before.non_negative() ==> after.non_negative(),
{
    if before.solvent() {
        assert forall|id: Identifier| #[trigger]
            after.liability_of(id) <= after.collateral_of(id) by {
            assert(before.liability_of(id) <= before.collateral_of(id));
        }
    }
    if before.non_negative() {
        assert forall|id: Identifier| 0 <= #[trigger] after.liability_of(id) by {
            assert(0 <= before.liability_of(id));
        }
        assert forall|id: Identifier| 0 <= #[trigger] after.collateral_of(id) by {
            assert(0 <= before.collateral_of(id));
        }
    }
}

} // verus!
