//! Core of an editor-protocol backend for the tremor scripting languages:
//! a per-document text store, translation of engine parse results into
//! protocol diagnostics, and cursor-driven completion and hover lookups
//! against the engine's function registry.

pub mod completion;
pub mod diagnostic;
pub mod docs;
pub mod position;
pub mod registry;
pub mod server;
pub mod store;
pub mod strutil;
pub mod table;
pub mod token;
