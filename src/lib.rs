//! Turns decoded event-log records into aligned, schema-typed columnar
//! tables, keeps them in a session registry, and drives the interactive
//! command session that loads files and dispatches queries.
pub mod text;
pub mod record;
pub mod schema;
pub mod table;
pub mod registry;
pub mod session;
