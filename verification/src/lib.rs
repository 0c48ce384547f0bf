//! A verified model of the Linkora social protocol: profiles, a follow
//! graph with blocking, posts with likes and tips, and multi-signer
//! community pools.
pub mod contract;
pub mod fees;
pub mod laws;
pub mod state;
pub mod types;
pub mod validation;
