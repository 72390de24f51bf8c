//! Decision logic of a command-line sandbox runner.

pub mod error;
pub mod text;
pub mod digest;
pub mod pty_proxy;
pub mod report;
pub mod json;
pub mod extends;
pub mod loopback;
pub mod migration;
pub mod network_policy;
pub mod open_url_runtime;
pub mod output;
pub mod pack_update_hint;
pub mod package;
pub mod package_cmd;
pub mod package_status;
pub mod paths;
pub mod capability;
pub mod protected_paths;
pub mod proxy_runtime;
pub mod query_ext;
pub mod platform;
pub mod policy;
pub mod profile;
pub mod assoc;
pub mod profile_cmd;
pub mod profile_runtime;
pub mod profile_save_runtime;
