//! The commands on packs.

pub mod installed;
pub mod installed_laws;
pub mod pull;
pub mod pull_laws;
pub mod versions;
