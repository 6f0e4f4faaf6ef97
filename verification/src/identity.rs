//! How a party is named, and what it presents to authorize a call.

use crate::env::Env;
use vstd::prelude::*;
use vstd::std_specs::cmp::PartialEqSpecImpl;

verus! {

/// Whether two 32-byte strings hold the same bytes.
pub fn bytes32_eq(a: &[u8; 32], b: &[u8; 32]) -> (same: bool)
    ensures
        same == (*a == *b),
{
    let mut i: usize = 0;
    while i < 32
        invariant
            i <= 32,
            forall|j: int| 0 <= j < i ==> a@[j] == b@[j],
        decreases 32 - i,
    {
        if a[i] != b[i] {
            return false;
        }
        i += 1;
    }
    assert(*a =~= *b);
    true
}

/// The name of a party: the key under which its nonce and balances are kept.
///
/// Two identifiers are equal when their kind and their 32 bytes are equal.
/// The invoker of an operation has no name of a kind of its own: it is the
/// account or the contract that the platform has authenticated.
#[derive(Clone, Copy, Debug, Eq, Hash)]
pub enum Identifier {
    /// A contract, by its address.
    Contract([u8; 32]),
    /// The holder of an ed25519 key, by the public key.
    Ed25519([u8; 32]),
    /// A ledger account, by its account id.
    Account([u8; 32]),
}

impl PartialEq for Identifier {
    fn eq(&self, other: &Identifier) -> (same: bool) {
        match (self, other) {
            (Identifier::Contract(a), Identifier::Contract(b)) => bytes32_eq(a, b),
            (Identifier::Ed25519(a), Identifier::Ed25519(b)) => bytes32_eq(a, b),
            (Identifier::Account(a), Identifier::Account(b)) => bytes32_eq(a, b),
            _ => false,
        }
    }
}

impl PartialEqSpecImpl for Identifier {
    open spec fn obeys_eq_spec() -> bool {
        true
    }

    open spec fn eq_spec(&self, other: &Identifier) -> bool {
        *self == *other
    }
}

/// An ed25519 public key with a signature made by its holder.
#[derive(Clone, Copy, Debug, PartialEq, Eq)]
pub struct Ed25519Signature {
    pub public_key: [u8; 32],
    pub signature: [u8; 64],
}

/// The signatures of some of the signers of a ledger account.
#[derive(Clone, Debug, PartialEq, Eq)]
pub struct AccountSignatures {
    pub account_id: [u8; 32],
    pub signatures: Vec<Ed25519Signature>,
}

/// What a party presents to authorize a call.
///
/// `Invoker` carries no proof of its own: it stands for whoever the platform
/// has authenticated as the invoker of the running operation. The two other
/// kinds are keyed: they name the signer and carry signatures over a message
/// that has to be rebuilt and checked (see [`crate::auth::verify`]).
#[derive(Clone, Debug, PartialEq, Eq)]
pub enum Signature {
    Invoker,
    Ed25519(Ed25519Signature),
    Account(AccountSignatures),
}

impl Signature {
    /// Whether the artifact names its signer itself and carries signatures.
    pub open spec fn is_keyed(&self) -> bool {
        !(self is Invoker)
    }

    /// The party that the artifact speaks for, when `invoker` runs the operation.
    pub open spec fn signer(&self, invoker: Identifier) -> Identifier {
        match self {
            Signature::Invoker => invoker,
            Signature::Ed25519(s) => Identifier::Ed25519(s.public_key),
            Signature::Account(a) => Identifier::Account(a.account_id),
        }
    }

    /// The party that the artifact speaks for: the invoker of the running
    /// operation for `Invoker`, else the key or account that it names.
    pub fn identifier(&self, env: &Env) -> (id: Identifier)
        ensures
            id == self.signer(env.invoker),
    {
        match self {
            Signature::Invoker => env.invoker,
            Signature::Ed25519(s) => Identifier::Ed25519(s.public_key),
            Signature::Account(a) => Identifier::Account(a.account_id),
        }
    }

    /// Whether the artifact is of a keyed kind.
    pub fn keyed(&self) -> (keyed: bool)
        ensures
            keyed == self.is_keyed(),
    {
        match self {
            Signature::Invoker => false,
            _ => true,
        }
    }
}

} // verus!
