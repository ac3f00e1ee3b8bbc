//! Verified core of a TEA-style (The Elm Architecture) runtime.
pub mod key;
pub mod attribute;
pub mod command;
pub mod composite;
pub mod config;
pub mod error;
pub mod expansion;
pub mod keyed_map;
pub mod keyed_tasks;
pub mod observability;
pub mod policy;
pub mod program;
pub mod queue;
pub mod registry;
pub mod runtime;
pub mod scope;
pub mod subscription;
pub mod text;
