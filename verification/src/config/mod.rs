//! Versioned application configuration.

pub mod order;
pub mod model;
pub mod document;
pub mod text_form;
pub mod migration;
pub mod schema;
pub mod codec;
pub mod storage;
pub mod files;
pub mod native;
pub mod snapshot;
pub mod persist;
pub mod startup;
pub mod service;
