//! Token ledgers for an actor-based virtual machine: persistent ownership,
//! balance and allowance state, atomic state transitions, and the two-phase
//! receiver-hook protocol that tolerates re-entrant mutation.
//!
//! - `codec`, `idmap`: the layout of persisted records and the persistent
//!   map layer, a key-ordered map that is flushed to and loaded from a store.
//! - `address`, `store`, `messaging`, `actor`: addresses and the three
//!   capabilities that a ledger asks of its host, each with a stand-in for tests.
//! - `receiver`: the receiver hook, a notification that is owed exactly once.
//! - `nft_state`, `nft`: the non-fungible ledger, its pure transitions and
//!   its handle; `nft_theorems`: what holds of every such ledger;
//!   `nft_invariant`: that its bookkeeping agrees with its tokens.
//! - `token_state`, `token`, `factory`: the fungible ledger, its operations
//!   on addresses, and a token with an authorised minter; `token_theorems`:
//!   what holds of every such ledger; `token_invariant`: that its supply is
//!   the sum of its balances.
//! - `dispatch`, `invoke`: method numbers by name, and the dispatch surface.

pub mod actor;
pub mod address;
pub mod codec;
pub mod dispatch;
pub mod factory;
pub mod idmap;
pub mod invoke;
pub mod messaging;
pub mod nft;
pub mod nft_invariant;
pub mod nft_state;
pub mod nft_theorems;
pub mod receiver;
pub mod store;
pub mod token;
pub mod token_invariant;
pub mod token_state;
pub mod token_theorems;
