//! Generic CRUD over arbitrary relational tables: a structured query
//! descriptor is turned into a parameterized statement (text plus an ordered
//! bind list), and native rows come back as ordered, type-tagged documents.
//!
//! The library covers statement construction, value marshaling in both
//! directions, catalog introspection parsing, and the lifecycle of the single
//! active connection pool. Network I/O and request routing live outside it.

pub mod accounts;
pub mod builder;
pub mod codec;
pub mod config;
pub mod conn;
pub mod errors;
pub mod ident;
pub mod introspect;
pub mod predicate;
pub mod strutil;
pub mod util;
pub mod value;
