//! Ledger bookkeeping and fee engine for a family of on-chain registry
//! contracts: an action registry that logs user operations with a
//! commission, an NFT-collection factory that deploys and indexes child
//! contracts, and the mint-counter core of the child NFT contract itself.
//!
//! Each contract is modelled as an explicit state value; every entry point
//! is a total state transition that either commits all of its effects or
//! returns an error and leaves the state untouched.  The host collaborators
//! (persistent storage, authorization proofs, event publication, contract
//! deployment, token transfer) stay outside this crate: callers pass in the
//! authorization context, the ledger timestamp and deployed addresses, and
//! perform the outbound calls the transitions request.

pub mod address;
pub mod assoc;
pub mod auth;
pub mod errors;
pub mod factory;
pub mod fees;
pub mod laws;
pub mod nft;
pub mod registry;

pub use address::Address;
pub use auth::AuthContext;
pub use errors::RegistryError;
pub use fees::fee;
