//! A database held in memory as the bytes of its file, and the two queries
//! on it: the page size with the number of tables, and the names of the tables.

use crate::db_file::{spec_parse_header, DbFile, TEXT_ENCODING_UTF8};
use crate::error::DbError;
use crate::page::{
    describe_page, read_schema_page, spec_describe_page, spec_read_schema_page, Page,
};
use crate::record::{decode_cell, spec_after, spec_decode_cell, ColumnType, Record, RecordView};
use crate::util::string_from_utf8;
use vstd::prelude::*;
use vstd::utf8::{decode_utf8, valid_utf8};

verus! {

/// Index of the column of a schema row that holds the name of the table.
pub const TABLE_NAME_COLUMN: usize = 2;

#[derive(Debug, Clone, Copy, PartialEq, Eq, Structural)]
pub struct DbInfoResult {
    /// Number of cells on the schema page.
    pub number_of_tables: u16,
    pub database_page_size: u32,
}

#[derive(Debug, Clone, PartialEq, Eq)]
pub struct TablesInfoResult {
    /// In the order of the cell pointers of the schema page.
    pub table_names: Vec<String>,
}

/// A database file whose bytes are in memory, with the pages located so far.
pub struct Db {
    disk_file: Option<Vec<u8>>,
    pages: Vec<Page>,
}

/// The contents of a list of records.
pub open spec fn spec_records(v: Seq<Record>) -> Seq<RecordView> {
    Seq::new(v.len(), |i: int| v[i]@)
}

/// The contents of a list of strings.
pub open spec fn spec_strings(v: Seq<String>) -> Seq<Seq<char>> {
    Seq::new(v.len(), |i: int| v[i]@)
}

/// The pages of a file, one for each page that its header counts:
/// `IoFailure` without a file, the error of the header where it has no valid
/// one, `TruncatedPage` where the file ends before the last page starts.
pub open spec fn spec_locate_pages(file: Option<Seq<u8>>) -> Result<Seq<Page>, DbError> {
    match file {
        None => Err(DbError::IoFailure),
        Some(s) => match spec_parse_header(s) {
            Err(e) => Err(e),
            Ok(header) => if forall|i: int|
                0 <= i < header.db_size_in_pages ==> (#[trigger] spec_describe_page(
                    s,
                    header,
                    i,
                )) is Ok {
                Ok(
                    Seq::new(
                        header.db_size_in_pages as nat,
                        |i: int| spec_describe_page(s, header, i).unwrap(),
                    ),
                )
            } else {
                Err(DbError::TruncatedPage)
            },
        },
    }
}

/// Page size and number of tables of a file: the errors of its header and
/// of its schema page.
pub open spec fn spec_db_info(file: Option<Seq<u8>>) -> Result<DbInfoResult, DbError> {
    match file {
        None => Err(DbError::IoFailure),
        Some(s) => match spec_parse_header(s) {
            Err(e) => Err(e),
            Ok(header) => match spec_read_schema_page(s, header) {
                Err(e) => Err(e),
                Ok((page_header, pointers)) => Ok(
                    DbInfoResult {
                        number_of_tables: page_header.cell_count,
                        database_page_size: header.database_page_size,
                    },
                ),
            },
        },
    }
}

/// The records in the cells that `pointers` name, from the one with index
/// `from` on and in the order of the pointers: the error of the first cell
/// that fails to decode.
pub open spec fn spec_rows_from(s: Seq<u8>, pointers: Seq<u16>, from: int) -> Result<
    Seq<RecordView>,
    DbError,
>
    decreases pointers.len() - from,
{
    if from < 0 || from >= pointers.len() {
        Ok(Seq::empty())
    } else {
        match spec_decode_cell(s, pointers[from] as int) {
            Err(e) => Err(e),
            Ok(record) => spec_after(seq![record], spec_rows_from(s, pointers, from + 1)),
        }
    }
}

/// The rows of the schema table of a file.
pub open spec fn spec_table_schemas(file: Option<Seq<u8>>) -> Result<Seq<RecordView>, DbError> {
    match file {
        None => Err(DbError::IoFailure),
        Some(s) => match spec_parse_header(s) {
            Err(e) => Err(e),
            Ok(header) => match spec_read_schema_page(s, header) {
                Err(e) => Err(e),
                Ok((page_header, pointers)) => spec_rows_from(s, pointers, 0),
            },
        },
    }
}

/// The table name in a schema row: `InvalidSerialType` where the row has no
/// text in the name column, `Utf8DecodeFailure` where the file declares
/// another encoding than UTF-8 or the text is not valid UTF-8.
pub open spec fn spec_table_name(record: RecordView, text_encoding: u32) -> Result<
    Seq<char>,
    DbError,
> {
    if record.column_types.len() <= TABLE_NAME_COLUMN || record.column_values.len()
        <= TABLE_NAME_COLUMN || !(record.column_types[TABLE_NAME_COLUMN as int] is Text) {
        Err(DbError::InvalidSerialType)
    } else if text_encoding != TEXT_ENCODING_UTF8 || !valid_utf8(
        record.column_values[TABLE_NAME_COLUMN as int],
    ) {
        Err(DbError::Utf8DecodeFailure)
    } else {
        Ok(decode_utf8(record.column_values[TABLE_NAME_COLUMN as int]))
    }
}

/// The table names in the cells that `pointers` name, from the one with
/// index `from` on and in the order of the pointers: each cell is decoded
/// and its name read before the next cell is looked at, and the first error
/// decides.
pub open spec fn spec_names_from(
    s: Seq<u8>,
    text_encoding: u32,
    pointers: Seq<u16>,
    from: int,
) -> Result<Seq<Seq<char>>, DbError>
    decreases pointers.len() - from,
{
    if from < 0 || from >= pointers.len() {
        Ok(Seq::empty())
    } else {
        match spec_decode_cell(s, pointers[from] as int) {
            Err(e) => Err(e),
            Ok(record) => match spec_table_name(record, text_encoding) {
                Err(e) => Err(e),
                Ok(name) => spec_after(
                    seq![name],
                    spec_names_from(s, text_encoding, pointers, from + 1),
                ),
            },
        }
    }
}

/// The names of the tables of a file.
pub open spec fn spec_table_names(file: Option<Seq<u8>>) -> Result<Seq<Seq<char>>, DbError> {
    match file {
        None => Err(DbError::IoFailure),
        Some(s) => match spec_parse_header(s) {
            Err(e) => Err(e),
            Ok(header) => match spec_read_schema_page(s, header) {
                Err(e) => Err(e),
                Ok((page_header, pointers)) => spec_names_from(
                    s,
                    header.db_text_encoding,
                    pointers,
                    0,
                ),
            },
        },
    }
}

/// A listing that succeeds has one name for each cell pointer, in the order
/// of the pointers: the name at each place is the name in the cell that the
/// pointer at that place names.
pub proof fn lemma_names_follow_pointers(
    s: Seq<u8>,
    text_encoding: u32,
    pointers: Seq<u16>,
    from: int,
)
    requires
        0 <= from <= pointers.len(),
        spec_names_from(s, text_encoding, pointers, from) is Ok,
    ensures
        spec_names_from(s, text_encoding, pointers, from).unwrap().len() == pointers.len() - from,
        forall|i: int|
            from <= i < pointers.len() ==> {
                &&& (#[trigger] spec_decode_cell(s, pointers[i] as int)) is Ok
                &&& spec_table_name(
                    spec_decode_cell(s, pointers[i] as int).unwrap(),
                    text_encoding,
                ) == Ok::<Seq<char>, DbError>(
                    spec_names_from(s, text_encoding, pointers, from).unwrap()[i - from],
                )
            },
    decreases pointers.len() - from,
{
    if from < pointers.len() {
        lemma_names_follow_pointers(s, text_encoding, pointers, from + 1);
    }
}

/// A listing fails exactly when some cell fails to decode or holds no
/// readable name.
pub proof fn lemma_names_fail_iff(s: Seq<u8>, text_encoding: u32, pointers: Seq<u16>, from: int)
    requires
        0 <= from <= pointers.len(),
    ensures
        spec_names_from(s, text_encoding, pointers, from) is Err <==> exists|i: int|
            from <= i < pointers.len() && ((#[trigger] spec_decode_cell(
                s,
                pointers[i] as int,
            )) is Err || spec_table_name(
                spec_decode_cell(s, pointers[i] as int).unwrap(),
                text_encoding,
            ) is Err),
    decreases pointers.len() - from,
{
    if from < pointers.len() {
        lemma_names_fail_iff(s, text_encoding, pointers, from + 1);
        let here = spec_decode_cell(s, pointers[from] as int);
        if here is Err || spec_table_name(here.unwrap(), text_encoding) is Err {
            assert(from <= from < pointers.len());
        } else if spec_names_from(s, text_encoding, pointers, from + 1) is Err {
            let i = choose|i: int|
                from + 1 <= i < pointers.len() && ((#[trigger] spec_decode_cell(
                    s,
                    pointers[i] as int,
                )) is Err || spec_table_name(
                    spec_decode_cell(s, pointers[i] as int).unwrap(),
                    text_encoding,
                ) is Err);
            assert(from <= i < pointers.len());
        }
    }
}

/// Reads the table name from a schema row.
pub fn table_name(record: &Record, text_encoding: u32) -> (r: Result<String, DbError>)
    ensures
        match spec_table_name(record@, text_encoding) {
            Ok(name) => r matches Ok(text) && text@ == name,
            Err(e) => r matches Err(re) && re == e,
        },
{
    if record.column_types.len() <= TABLE_NAME_COLUMN || record.column_values.len()
        <= TABLE_NAME_COLUMN {
        return Err(DbError::InvalidSerialType);
    }
    match record.column_types[TABLE_NAME_COLUMN] {
        ColumnType::Text(_) => {},
        _ => {
            return Err(DbError::InvalidSerialType);
        },
    }
    if text_encoding != TEXT_ENCODING_UTF8 {
        return Err(DbError::Utf8DecodeFailure);
    }
    let bytes = record.column_values[TABLE_NAME_COLUMN].clone();
    match string_from_utf8(bytes) {
        Some(text) => Ok(text),
        None => Err(DbError::Utf8DecodeFailure),
    }
}

/// Decodes the cells that `pointers` name, in the order of the pointers.
pub fn read_rows(data: &[u8], pointers: &Vec<u16>) -> (r: Result<Vec<Record>, DbError>)
    ensures
        match spec_rows_from(data@, pointers@, 0) {
            Ok(rows) => r matches Ok(v) && spec_records(v@) == rows,
            Err(e) => r matches Err(re) && re == e,
        },
{
    let mut rows: Vec<Record> = Vec::new();
    let mut i: usize = 0;
    assert(spec_records(rows@) + spec_rows_from(data@, pointers@, 0).unwrap() =~= spec_rows_from(
        data@,
        pointers@,
        0,
    ).unwrap());
    while i < pointers.len()
        invariant
            i <= pointers@.len(),
            spec_after(spec_records(rows@), spec_rows_from(data@, pointers@, i as int))
                == spec_rows_from(data@, pointers@, 0),
        decreases pointers@.len() - i,
    {
        let record = match decode_cell(data, pointers[i] as usize) {
            Ok(rec) => rec,
            Err(e) => {
                return Err(e);
            },
        };
        proof {
            if let Ok(rest) = spec_rows_from(data@, pointers@, i + 1) {
                assert(spec_records(rows@) + (seq![record@] + rest) =~= spec_records(
                    rows@.push(record),
                ) + rest);
            }
        }
        rows.push(record);
        i += 1;
    }
    assert(spec_records(rows@) + Seq::<RecordView>::empty() =~= spec_records(rows@));
    Ok(rows)
}

/// Reads the table names from the cells that `pointers` name, in the order
/// of the pointers.
pub fn read_table_names(data: &[u8], text_encoding: u32, pointers: &Vec<u16>) -> (r: Result<
    Vec<String>,
    DbError,
>)
    ensures
        match spec_names_from(data@, text_encoding, pointers@, 0) {
            Ok(names) => r matches Ok(v) && spec_strings(v@) == names,
            Err(e) => r matches Err(re) && re == e,
        },
{
    let mut names: Vec<String> = Vec::new();
    let mut i: usize = 0;
    assert(spec_strings(names@) + spec_names_from(data@, text_encoding, pointers@, 0).unwrap()
        =~= spec_names_from(data@, text_encoding, pointers@, 0).unwrap());
    while i < pointers.len()
        invariant
            i <= pointers@.len(),
            spec_after(
                spec_strings(names@),
                spec_names_from(data@, text_encoding, pointers@, i as int),
            ) == spec_names_from(data@, text_encoding, pointers@, 0),
        decreases pointers@.len() - i,
    {
        let record = match decode_cell(data, pointers[i] as usize) {
            Ok(rec) => rec,
            Err(e) => {
                return Err(e);
            },
        };
        let name = match table_name(&record, text_encoding) {
            Ok(text) => text,
            Err(e) => {
                return Err(e);
            },
        };
        proof {
            if let Ok(rest) = spec_names_from(data@, text_encoding, pointers@, i + 1) {
                assert(spec_strings(names@) + (seq![name@] + rest) =~= spec_strings(
                    names@.push(name),
                ) + rest);
            }
        }
        names.push(name);
        i += 1;
    }
    assert(spec_strings(names@) + Seq::<Seq<char>>::empty() =~= spec_strings(names@));
    Ok(names)
}

impl Db {
    /// The bytes of the file, if the database has one.
    pub closed spec fn spec_file(&self) -> Option<Seq<u8>> {
        match self.disk_file {
            Some(data) => Some(data@),
            None => None,
        }
    }

    /// The pages located so far.
    pub closed spec fn spec_pages(&self) -> Seq<Page> {
        self.pages@
    }

    /// Pages, once located, are the pages of the file.
    #[verifier::type_invariant]
    spec fn pages_match_file(&self) -> bool {
        self.pages@.len() > 0 ==> spec_locate_pages(self.spec_file()) == Ok::<Seq<Page>, DbError>(
            self.pages@,
        )
    }

    /// A database without a file.
    pub fn new() -> (db: Self)
        ensures
            db.spec_file() is None,
            db.spec_pages().len() == 0,
    {
        Db { disk_file: None, pages: Vec::new() }
    }

    /// A database over the bytes of a file, with no page located yet.
    pub fn new_with_file(contents: Vec<u8>) -> (db: Self)
        ensures
            db.spec_file() == Some(contents@),
            db.spec_pages().len() == 0,
    {
        Db { disk_file: Some(contents), pages: Vec::new() }
    }

    /// The pages located so far: none, or all the pages of the file.
    pub fn pages(&self) -> (r: &Vec<Page>)
        ensures
            r@ == self.spec_pages(),
            r@.len() > 0 ==> spec_locate_pages(self.spec_file()) == Ok::<Seq<Page>, DbError>(r@),
    {
        proof {
            use_type_invariant(self);
        }
        &self.pages
    }

    /// Classifies every page that the header counts and keeps the result.
    /// Pages that were located before are kept as they are. The file is not
    /// changed, and on an error neither are the pages.
    pub fn locate_pages(&mut self) -> (r: Result<(), DbError>)
        ensures
            final(self).spec_file() == old(self).spec_file(),
            match spec_locate_pages(old(self).spec_file()) {
                Ok(pages) => r is Ok && final(self).spec_pages() == pages,
                Err(e) => r == Err::<(), DbError>(e) && final(self).spec_pages() == old(
                    self,
                ).spec_pages(),
            },
    {
        proof {
            use_type_invariant(&*self);
        }
        if self.pages.len() > 0 {
            return Ok(());
        }
        let data = match &self.disk_file {
            Some(contents) => contents.as_slice(),
            None => {
                return Err(DbError::IoFailure);
            },
        };
        let header = match DbFile::process_file(data) {
            Ok(h) => h,
            Err(e) => {
                return Err(e);
            },
        };
        let ghost file = self.spec_file();
        let mut pages: Vec<Page> = Vec::new();
        let mut i: u32 = 0;
        while i < header.db_size_in_pages
            invariant
                i <= header.db_size_in_pages,
                header.wf(),
                *self == *old(self),
                file == Some(data@),
                file == self.spec_file(),
                spec_parse_header(data@) == Ok::<DbFile, DbError>(header),
                pages@.len() == i,
                forall|j: int|
                    0 <= j < i ==> (#[trigger] spec_describe_page(data@, header, j)) == Ok::<
                        Page,
                        DbError,
                    >(pages@[j]),
            decreases header.db_size_in_pages - i,
        {
            match describe_page(data, &header, i) {
                Ok(page) => {
                    pages.push(page);
                },
                Err(e) => {
                    return Err(e);
                },
            }
            i += 1;
        }
        assert(pages@ =~= spec_locate_pages(file).unwrap());
        self.pages = pages;
        Ok(())
    }

    /// The rows of the schema table, in the order of the cell pointers of
    /// the schema page.
    pub fn get_table_schemas(&self) -> (r: Result<Vec<Record>, DbError>)
        ensures
            match spec_table_schemas(self.spec_file()) {
                Ok(rows) => r matches Ok(v) && spec_records(v@) == rows,
                Err(e) => r matches Err(re) && re == e,
            },
    {
        let data = match &self.disk_file {
            Some(contents) => contents.as_slice(),
            None => {
                return Err(DbError::IoFailure);
            },
        };
        let header = match DbFile::process_file(data) {
            Ok(h) => h,
            Err(e) => {
                return Err(e);
            },
        };
        let (_, pointers) = match read_schema_page(data, &header) {
            Ok(hp) => hp,
            Err(e) => {
                return Err(e);
            },
        };
        read_rows(data, &pointers)
    }

    /// Locates the pages and checks that the schema table can be read.
    pub fn discover_db(&mut self) -> (r: Result<(), DbError>)
        ensures
            final(self).spec_file() == old(self).spec_file(),
            match spec_locate_pages(old(self).spec_file()) {
                Ok(pages) => {
                    &&& final(self).spec_pages() == pages
                    &&& match spec_table_schemas(old(self).spec_file()) {
                        Ok(rows) => r is Ok,
                        Err(e) => r == Err::<(), DbError>(e),
                    }
                },
                Err(e) => r == Err::<(), DbError>(e) && final(self).spec_pages() == old(
                    self,
                ).spec_pages(),
            },
    {
        match self.locate_pages() {
            Ok(()) => {},
            Err(e) => {
                return Err(e);
            },
        }
        match self.get_table_schemas() {
            Ok(_) => Ok(()),
            Err(e) => Err(e),
        }
    }

    /// The page size and the number of tables, which is the number of cells
    /// on the schema page.
    pub fn cmd_get_db_info(&self) -> (r: Result<DbInfoResult, DbError>)
        ensures
            r == spec_db_info(self.spec_file()),
    {
        let data = match &self.disk_file {
            Some(contents) => contents.as_slice(),
            None => {
                return Err(DbError::IoFailure);
            },
        };
        let header = match DbFile::process_file(data) {
            Ok(h) => h,
            Err(e) => {
                return Err(e);
            },
        };
        let (page_header, _) = match read_schema_page(data, &header) {
            Ok(hp) => hp,
            Err(e) => {
                return Err(e);
            },
        };
        Ok(
            DbInfoResult {
                number_of_tables: page_header.cell_count,
                database_page_size: header.database_page_size,
            },
        )
    }

    /// The names of the tables, in the order of the cell pointers of the
    /// schema page. One cell that cannot be read fails the whole listing.
    pub fn cmd_get_tables_info(&self) -> (r: Result<TablesInfoResult, DbError>)
        ensures
            match spec_table_names(self.spec_file()) {
                Ok(names) => r matches Ok(info) && spec_strings(info.table_names@) == names,
                Err(e) => r matches Err(re) && re == e,
            },
    {
        let data = match &self.disk_file {
            Some(contents) => contents.as_slice(),
            None => {
                return Err(DbError::IoFailure);
            },
        };
        let header = match DbFile::process_file(data) {
            Ok(h) => h,
            Err(e) => {
                return Err(e);
            },
        };
        let (_, pointers) = match read_schema_page(data, &header) {
            Ok(hp) => hp,
            Err(e) => {
                return Err(e);
            },
        };
        match read_table_names(data, header.db_text_encoding, &pointers) {
            Ok(table_names) => Ok(TablesInfoResult { table_names }),
            Err(e) => Err(e),
        }
    }
}

} // verus!
