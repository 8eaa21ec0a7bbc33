//! What holds across the steps of the proxy's operations.

pub mod answers;
pub mod assembly;
pub mod copies;
pub mod deletions;
pub mod listings;
pub mod lookups;
pub mod requests;
pub mod runs;
pub mod startup;
pub mod storage;
