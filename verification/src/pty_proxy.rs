//! Terminal proxy for detachable sandboxed sessions.

pub mod alt_screen;
pub mod attach;
pub mod attach_loop;
pub mod detach;
pub mod screen;
pub mod session;
pub mod laws;
