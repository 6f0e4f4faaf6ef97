//! The authorization and accounting core of a minimal lending pool.
//!
//! A party deposits a token and is credited collateral. Another party may
//! borrow against that collateral when the depositor has signed an
//! authorization that names the borrower, the amount and an expiration, and
//! that carries the depositor's current nonce.
//!
//! The pool runs on an explicit [`env::Env`]: the invoker, the pool's own
//! address, the ledger time and the pool's data. Every operation is a step
//! from one such environment to the next, and hands back the calls that have
//! to be made on the token service.

pub mod accounting;
pub mod auth;
pub mod env;
pub mod history;
pub mod identity;
pub mod pool;
pub mod store;
