//! Verified core of a desktop semantic image browser.

pub mod batching;
pub mod benchmark;
pub mod cluster;
pub mod clustering;
pub mod config;
pub mod embedding;
pub mod image_ops;
pub mod inference;
pub mod paths;
pub mod sql;
pub mod runtime;
pub mod runtime_deps;
pub mod scan;
pub mod search;
pub mod text;
pub mod thumbnail;
