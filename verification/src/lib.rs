//! Decisions of a tool that keeps directories of a monorepo in step with standalone git
//! repositories: what to export, what to import, and when to refuse.

pub mod config;
pub mod doctor;
pub mod exporter;
pub mod filter;
pub mod git;
pub mod hooks;
pub mod importer;
pub mod index;
pub mod laws;
pub mod list;
pub mod ops;
pub mod report;
pub mod sync_view;
pub mod talk;
pub mod text;
pub mod trailers;
