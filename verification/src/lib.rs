//! Read-only decoder for a page-based B-tree database file: the file header,
//! the variable-length integer codec, page classification, the schema page and
//! the records stored in its cells.

pub mod db;
pub mod db_file;
pub mod db_interface;
pub mod error;
pub mod page;
pub mod record;
pub mod sqlite_varint_processing;
pub mod util;
