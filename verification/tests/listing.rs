use codecrafters_sqlite::db::{
    read_rows, read_table_names, table_name, Db, DbInfoResult, TablesInfoResult,
};
use codecrafters_sqlite::db_interface::DbInterface;
use codecrafters_sqlite::error::DbError;
use codecrafters_sqlite::record::{ColumnType, Record};

/// A schema row for a table: type, name, table name, root page, sql.
fn schema_cell(row_id: u8, name: &str, root_page: u8, sql: &str) -> Vec<u8> {
    let header = vec![
        6,
        13 + 2 * 5,
        13 + 2 * name.len() as u8,
        13 + 2 * name.len() as u8,
        1,
        13 + 2 * sql.len() as u8,
    ];
    let mut body = Vec::new();
    body.extend_from_slice(b"table");
    body.extend_from_slice(name.as_bytes());
    body.extend_from_slice(name.as_bytes());
    body.push(root_page);
    body.extend_from_slice(sql.as_bytes());
    let mut cell = vec![(header.len() + body.len()) as u8, row_id];
    cell.extend_from_slice(&header);
    cell.extend_from_slice(&body);
    cell
}

/// A one-page file of 4096 bytes whose schema page holds `cells` at `offsets`.
fn schema_file(offsets: &[u16], cells: &[Vec<u8>]) -> Vec<u8> {
    let mut data = vec![0u8; 4096];
    data[..16].copy_from_slice(b"SQLite format 3\0");
    data[16..18].copy_from_slice(&0x1000u16.to_be_bytes());
    data[28..32].copy_from_slice(&1u32.to_be_bytes());
    data[56..60].copy_from_slice(&1u32.to_be_bytes());
    data[100] = 0x0d;
    data[103..105].copy_from_slice(&(offsets.len() as u16).to_be_bytes());
    let content_start = offsets.iter().min().copied().unwrap_or(0);
    data[105..107].copy_from_slice(&content_start.to_be_bytes());
    for (i, offset) in offsets.iter().enumerate() {
        data[108 + 2 * i..110 + 2 * i].copy_from_slice(&offset.to_be_bytes());
        let at = *offset as usize;
        data[at..at + cells[i].len()].copy_from_slice(&cells[i]);
    }
    data
}

fn three_table_file() -> Vec<u8> {
    let cells = vec![
        schema_cell(1, "apples", 2, "CREATE TABLE apples (id integer)"),
        schema_cell(2, "oranges", 3, "sql"),
        schema_cell(3, "pears", 4, "CREATE TABLE pears (id)"),
    ];
    assert!(cells[1].len() <= 236 - 203);
    assert!(cells[2].len() <= 203 - 150);
    schema_file(&[236, 203, 150], &cells)
}

#[test]
fn three_tables_are_listed_in_cell_pointer_order() {
    let db = Db::new_with_file(three_table_file());
    let info = db.cmd_get_tables_info().unwrap();
    assert_eq!(
        info,
        TablesInfoResult {
            table_names: vec!["apples".to_string(), "oranges".to_string(), "pears".to_string()],
        }
    );
}

#[test]
fn the_listing_follows_the_pointers_whatever_their_order() {
    let cells = vec![
        schema_cell(3, "pears", 4, "c"),
        schema_cell(1, "apples", 2, "a"),
        schema_cell(2, "oranges", 3, "b"),
    ];
    let db = Db::new_with_file(schema_file(&[150, 236, 203], &cells));
    let info = db.cmd_get_tables_info().unwrap();
    assert_eq!(info.table_names, vec!["pears", "apples", "oranges"]);
}

#[test]
fn db_info_gives_page_size_and_table_count() {
    let db = Db::new_with_file(three_table_file());
    assert_eq!(
        db.cmd_get_db_info(),
        Ok(DbInfoResult { number_of_tables: 3, database_page_size: 4096 })
    );
}

#[test]
fn db_info_of_the_largest_page_size() {
    let mut data = schema_file(&[], &[]);
    data[16..18].copy_from_slice(&1u16.to_be_bytes());
    let db = Db::new_with_file(data);
    assert_eq!(
        db.cmd_get_db_info(),
        Ok(DbInfoResult { number_of_tables: 0, database_page_size: 65536 })
    );
}

#[test]
fn an_empty_schema_lists_no_tables() {
    let db = Db::new_with_file(schema_file(&[], &[]));
    assert_eq!(db.cmd_get_tables_info(), Ok(TablesInfoResult { table_names: vec![] }));
    assert_eq!(db.get_table_schemas(), Ok(vec![]));
}

#[test]
fn schema_rows_hold_every_column() {
    let db = Db::new_with_file(three_table_file());
    let rows = db.get_table_schemas().unwrap();
    assert_eq!(rows.len(), 3);
    assert_eq!(rows[1].row_id, 2);
    assert_eq!(
        rows[1].column_types,
        vec![
            ColumnType::Text(5),
            ColumnType::Text(7),
            ColumnType::Text(7),
            ColumnType::Int8,
            ColumnType::Text(3),
        ]
    );
    assert_eq!(rows[1].column_values[0], b"table".to_vec());
    assert_eq!(rows[1].column_values[1], b"oranges".to_vec());
    assert_eq!(rows[1].column_values[3], vec![3]);
    assert_eq!(rows[1].header_length, 6);
    assert_eq!(rows[1].payload_length, 6 + 5 + 7 + 7 + 1 + 3);
    assert_eq!(rows[2].column_values[2], b"pears".to_vec());
}

#[test]
fn queries_without_a_file_are_io_failures() {
    let mut db = Db::new();
    assert_eq!(db.cmd_get_db_info(), Err(DbError::IoFailure));
    assert_eq!(db.cmd_get_tables_info(), Err(DbError::IoFailure));
    assert_eq!(db.get_table_schemas(), Err(DbError::IoFailure));
    assert_eq!(db.discover_db(), Err(DbError::IoFailure));
    let mut interface = DbInterface::new();
    assert_eq!(interface.db.cmd_get_db_info(), Err(DbError::IoFailure));
    assert_eq!(interface.db.locate_pages(), Err(DbError::IoFailure));
}

#[test]
fn a_truncated_file_fails_every_query_with_truncated_header() {
    let data = three_table_file();
    let mut db = Db::new_with_file(data[..99].to_vec());
    assert_eq!(db.cmd_get_db_info(), Err(DbError::TruncatedHeader));
    assert_eq!(db.cmd_get_tables_info(), Err(DbError::TruncatedHeader));
    assert_eq!(db.discover_db(), Err(DbError::TruncatedHeader));
    assert!(DbInterface::open_db(data[..99].to_vec()).is_err());
}

#[test]
fn an_interior_schema_page_is_an_unexpected_page_type() {
    let mut data = three_table_file();
    data[100] = 0x05;
    let db = Db::new_with_file(data);
    assert_eq!(db.cmd_get_db_info(), Err(DbError::UnexpectedPageType));
    assert_eq!(db.cmd_get_tables_info(), Err(DbError::UnexpectedPageType));
}

#[test]
fn one_bad_cell_fails_the_whole_listing() {
    let mut data = three_table_file();
    // The second cell's header gets a reserved type code.
    data[203 + 3] = 10;
    let db = Db::new_with_file(data);
    assert_eq!(db.cmd_get_tables_info(), Err(DbError::InvalidSerialType));
    assert_eq!(db.get_table_schemas(), Err(DbError::InvalidSerialType));
    assert_eq!(db.cmd_get_db_info().unwrap().number_of_tables, 3);
}

#[test]
fn a_cell_pointer_past_the_file_fails_the_listing() {
    let mut data = three_table_file();
    data[110..112].copy_from_slice(&5000u16.to_be_bytes());
    let db = Db::new_with_file(data);
    assert_eq!(db.cmd_get_tables_info(), Err(DbError::IncompleteVarint));
}

#[test]
fn a_name_that_is_not_utf8_fails_the_listing() {
    let mut data = three_table_file();
    // First byte of the table name in the first cell.
    let at = 236 + 2 + 6 + 5 + 6;
    assert_eq!(data[at], b'a');
    data[at] = 0xFF;
    let db = Db::new_with_file(data);
    assert_eq!(db.cmd_get_tables_info(), Err(DbError::Utf8DecodeFailure));
    // The rows themselves are still readable as bytes.
    assert_eq!(db.get_table_schemas().unwrap().len(), 3);
}

#[test]
fn another_text_encoding_fails_the_listing() {
    for encoding in [0u32, 2, 3] {
        let mut data = three_table_file();
        data[56..60].copy_from_slice(&encoding.to_be_bytes());
        let db = Db::new_with_file(data);
        assert_eq!(db.cmd_get_tables_info(), Err(DbError::Utf8DecodeFailure));
    }
}

#[test]
fn names_may_hold_any_utf8() {
    let cells = vec![schema_cell(1, "pêches", 2, "x")];
    let db = Db::new_with_file(schema_file(&[300], &cells));
    assert_eq!(db.cmd_get_tables_info().unwrap().table_names, vec!["pêches"]);
}

#[test]
fn a_row_without_text_in_the_name_column_fails() {
    let record = Record {
        payload_length: 4,
        row_id: 1,
        header_length: 4,
        column_types: vec![ColumnType::Text(1), ColumnType::Text(1), ColumnType::Int8],
        column_values: vec![vec![b'a'], vec![b'b'], vec![7]],
    };
    assert_eq!(table_name(&record, 1), Err(DbError::InvalidSerialType));
    let short = Record {
        payload_length: 3,
        row_id: 1,
        header_length: 3,
        column_types: vec![ColumnType::Text(1), ColumnType::Text(1)],
        column_values: vec![vec![b'a'], vec![b'b']],
    };
    assert_eq!(table_name(&short, 1), Err(DbError::InvalidSerialType));
    let good = Record {
        payload_length: 7,
        row_id: 1,
        header_length: 4,
        column_types: vec![ColumnType::Text(1), ColumnType::Text(1), ColumnType::Text(1)],
        column_values: vec![vec![b'a'], vec![b'b'], vec![b'c']],
    };
    assert_eq!(table_name(&good, 1), Ok("c".to_string()));
    assert_eq!(table_name(&good, 2), Err(DbError::Utf8DecodeFailure));
}

#[test]
fn the_first_failing_cell_decides_the_error() {
    let mut data = three_table_file();
    // The first cell gets a name that is not UTF-8, the second a reserved code.
    data[236 + 2 + 6 + 5 + 6] = 0xFF;
    data[203 + 3] = 10;
    let pointers = vec![236u16, 203, 150];
    assert_eq!(read_table_names(&data, 1, &pointers), Err(DbError::Utf8DecodeFailure));
    assert_eq!(read_rows(&data, &pointers), Err(DbError::InvalidSerialType));
    let pointers = vec![203u16, 236, 150];
    assert_eq!(read_table_names(&data, 1, &pointers), Err(DbError::InvalidSerialType));
}

#[test]
fn open_db_locates_the_pages() {
    let interface = DbInterface::open_db(three_table_file()).unwrap();
    assert_eq!(interface.db.pages().len(), 1);
    assert_eq!(interface.db.pages()[0].page_hdr_idx, 100);
    assert_eq!(interface.db.pages()[0].page_end_idx, 4095);
    assert_eq!(interface.db.cmd_get_tables_info().unwrap().table_names.len(), 3);
}

#[test]
fn open_db_fails_where_the_schema_cannot_be_read() {
    let mut data = three_table_file();
    data[203 + 3] = 11;
    assert!(matches!(DbInterface::open_db(data), Err(DbError::InvalidSerialType)));
    let mut data = three_table_file();
    data[100] = 0x0a;
    assert!(matches!(DbInterface::open_db(data), Err(DbError::UnexpectedPageType)));
}

#[test]
fn discover_db_keeps_the_pages_when_the_schema_fails() {
    let mut data = three_table_file();
    data[203 + 3] = 11;
    let mut db = Db::new_with_file(data);
    assert_eq!(db.discover_db(), Err(DbError::InvalidSerialType));
    assert_eq!(db.pages().len(), 1);
}
