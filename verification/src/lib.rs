//! Verified core of the delorean replay client: the fixture data model,
//! the blob table of batch responses, the replay bank and its account
//! bookkeeping, program replacement, the precompile table, feature sets,
//! post-state comparison, and argument handling.

pub mod accounts;
pub mod args;
pub mod address;
pub mod bank;
pub mod batch;
pub mod blob;
pub mod block;
pub mod bytes;
pub mod error;
pub mod features;
pub mod fixture;
pub mod hex;
pub mod ids;
pub mod loader;
pub mod message;
pub mod mismatch;
pub mod post_state;
pub mod precompiles;
pub mod rent;
pub mod replace;
pub mod result;
pub mod synthetic;
pub mod text;
