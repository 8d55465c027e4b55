//! Schema-driven SQL generation with machine-checked contracts.
//!
//! A record type is described once by a table name and an ordered list of
//! typed fields. From that description the crate renders table-creation DDL,
//! positional insert statements, unconditional select and delete statements,
//! and filtered select and delete statements whose placeholders stay aligned
//! with the values bound to them.
pub mod expand;
pub mod filter;
pub mod laws;
pub mod registry;
pub mod schema;
pub mod statement;
pub mod text;
pub mod types;
pub mod value;
