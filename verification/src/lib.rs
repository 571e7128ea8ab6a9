//! State-management core of a minimal social-graph ledger.
//!
//! Every owning identity has a follow list and a sequence of posts. Each is a
//! record stored at an address derived from the identity and a namespace tag.
//! The crate holds the address derivation (`address`), the byte layout of the
//! records (`codec`, over `bytes`), the allocation of their regions
//! (`store`), the processor that applies the six operations to them
//! (`processor`), and what holds of the operations one after another
//! (`laws`).

pub mod address;
pub mod bytes;
pub mod codec;
pub mod error;
pub mod identity;
pub mod instruction;
pub mod laws;
pub mod processor;
pub mod state;
pub mod store;
