//! Offering to save what a run was denied as additions to a profile.

pub mod offer;
pub mod patch;
pub mod patch_laws;
pub mod prompts;
pub mod save;
pub mod save_laws;
