//! Coordinator core of a layer-2 rollup: transaction admission, the
//! account-balance state machine, batching, proof dispatch bookkeeping and
//! ordered settlement, with every rule stated as a contract.
//!
//! The sequencer decides and does nothing else: it is told what happened and
//! answers with what to do next. Whoever drives it waits on the network,
//! asks the prover and talks to the settlement chain. What those
//! collaborators work out about a transaction (whether its signature
//! verifies, which addresses its keys have) comes in as plain values.

pub mod account;
pub mod admission;
pub mod convert;
pub mod dispatch;
pub mod encoding;
pub mod mempool;
pub mod sequencer;
pub mod settlement;
pub mod state;
pub mod transition;
pub mod tx;
pub mod uint;

pub use convert::{PrivateKey, ToBabyJubjubPoint, ToBabyJubjubSignature, ToBigInt, ToU256};
pub use tx::{hash_tx, SignedTx, Tx, TxKind};
