//! Storage logic for a chunked video service, a per-owner password vault,
//! and the decisions of a canister manager.
pub mod bytes;
pub mod manager;
pub mod vault;
pub mod video;

