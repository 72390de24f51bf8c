//! The commands on profiles.

pub mod compare_laws;
pub mod diff;
pub mod diff_json;
pub mod diff_laws;
pub mod groups;
pub mod groups_laws;
pub mod init;
pub mod init_laws;
pub mod list;
pub mod list_laws;
pub mod manifest;
pub mod manifest_laws;
pub mod promote;
pub mod promote_laws;
pub mod show;
pub mod show_laws;
pub mod validate;
pub mod validate_laws;
