//! Verified core logic of the WubiLex desktop shell and its developer tasks.

pub mod text;
pub mod error;
pub mod launch;
pub mod events;
pub mod runtime;
pub mod features;
pub mod config;
pub mod window;
pub mod logging;
pub mod recovery;
pub mod xtask;
pub mod ui_bootstrap;
