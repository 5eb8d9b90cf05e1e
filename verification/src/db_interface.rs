//! The entry point for callers that hold the bytes of a database file.

use crate::db::{spec_locate_pages, spec_table_schemas, Db};
use crate::error::DbError;
use vstd::prelude::*;

verus! {

pub struct DbInterface {
    pub db: Db,
}

impl DbInterface {
    /// An interface to a database without a file.
    pub fn new() -> (r: Self)
        ensures
            r.db.spec_file() is None,
            r.db.spec_pages().len() == 0,
    {
        Self { db: Db::new() }
    }

    /// Opens the database whose file holds `contents`: locates its pages and
    /// checks that its schema table can be read. The error is that of
    /// locating the pages, or else that of reading the schema table.
    pub fn open_db(contents: Vec<u8>) -> (r: Result<Self, DbError>)
        ensures
            match spec_locate_pages(Some(contents@)) {
                Ok(pages) => match spec_table_schemas(Some(contents@)) {
                    Ok(rows) => {
                        &&& r matches Ok(opened)
                        &&& opened.db.spec_file() == Some(contents@)
                        &&& opened.db.spec_pages() == pages
                    },
                    Err(e) => r matches Err(re) && re == e,
                },
                Err(e) => r matches Err(re) && re == e,
            },
    {
        let mut db = Db::new_with_file(contents);
        match db.discover_db() {
            Ok(()) => Ok(Self { db }),
            Err(e) => Err(e),
        }
    }
}

} // verus!
