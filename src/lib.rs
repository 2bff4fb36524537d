pub mod config;
pub mod error;
pub mod image;
pub mod lifecycle;
pub mod names;
pub mod reconcile;
pub mod registry;
pub mod runtime;
pub mod text;
