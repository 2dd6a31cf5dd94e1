//! Wallet/address watcher and sync coordinator for a watch-only Bitcoin
//! indexer.
//!
//! The library tracks a set of ranged output descriptors ("wallets"), decides
//! which derivation indices must be imported into the backing node's
//! watch-only wallet under the BIP44-style gap-limit rule, reconciles with
//! addresses already imported (discovered through the node's label API), and
//! drives a debounced sync loop that harvests transaction history into an
//! in-memory store.

pub mod types;
pub mod numstr;
pub mod labels;
pub mod descriptor;
pub mod store;
pub mod xpub;
pub mod wallet;
pub mod watcher;
pub mod indexer;
pub mod node;
pub mod sync;
