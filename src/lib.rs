//! Marshalling and session layer between a dynamically typed host and the
//! stoolap embedded SQL engine.
//!
//! The modules, leaves first:
//! - `text`: character-level helpers;
//! - `splitter`: splits a script into statements;
//! - `error`: the failures of this layer;
//! - `value`: the closed value union, and the encoding of host values into it and
//!   back;
//! - `params`: classification of host parameter collections, positional or named;
//! - `engine`: the engine operations this layer relies on;
//! - `rows`: values to and from the engine, and query results in host form;
//! - `database`, `statement`, `transaction`: connections, prepared statements and
//!   transaction handles.
pub mod text;
pub mod splitter;
pub mod error;
pub mod value;
pub mod params;
pub mod engine;
pub mod rows;
pub mod database;
pub mod statement;
pub mod transaction;
