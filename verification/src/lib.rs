//! A reader core for table-based binary metadata databases: a byte-view
//! decoder, a database facade with generic table/row access, and a
//! cross-database cache that indexes type definitions by namespace and name.

pub mod bytes;
pub mod cache;
pub mod database;
pub mod error;
pub mod schema;

pub use cache::{Cache, CacheEntry};
pub use database::{Database, Row, Table, TableAccess};
pub use error::Error;
pub use schema::{ColumnSpec, Header, TableInfo, TableKind};
