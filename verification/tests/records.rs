use codecrafters_sqlite::error::DbError;
use codecrafters_sqlite::record::{
    decode_cell, decode_record_header, float_bits, int_value, read_column_values, ColumnType,
    Record,
};
use codecrafters_sqlite::sqlite_varint_processing::encode_sqlite_varint;

/// payload length 11, row id 1, header (4, Int8, Text(6), Null), 42, "apples".
fn three_column_cell() -> Vec<u8> {
    let mut cell = vec![11, 1, 4, 1, 25, 0, 42];
    cell.extend_from_slice(b"apples");
    cell
}

#[test]
fn three_column_record_round_trip() {
    let cell = three_column_cell();
    let record = decode_cell(&cell, 0).unwrap();
    assert_eq!(
        record,
        Record {
            payload_length: 11,
            row_id: 1,
            header_length: 4,
            column_types: vec![ColumnType::Int8, ColumnType::Text(6), ColumnType::Null],
            column_values: vec![vec![42], b"apples".to_vec(), vec![]],
        }
    );
    assert_eq!(int_value(&record.column_types[0], &record.column_values[0]), Some(42));
    assert_eq!(String::from_utf8(record.column_values[1].clone()).unwrap(), "apples");
    let header = decode_record_header(&cell, 2).unwrap();
    assert_eq!(header.bytes_read as u64, header.header_length);
    assert_eq!(header.bytes_read, 4);
    assert_eq!(header.column_types, record.column_types);
}

#[test]
fn a_cell_is_decoded_where_the_pointer_says() {
    let mut data = vec![0xFF; 30];
    data.extend_from_slice(&three_column_cell());
    data.extend_from_slice(&[0xFF; 5]);
    let record = decode_cell(&data, 30).unwrap();
    assert_eq!(record.row_id, 1);
    assert_eq!(record.column_values[1], b"apples".to_vec());
}

#[test]
fn code_12_is_an_empty_blob_and_13_an_empty_text() {
    assert_eq!(ColumnType::from_code(12), Ok(ColumnType::Blob(0)));
    assert_eq!(ColumnType::from_code(13), Ok(ColumnType::Text(0)));
}

#[test]
fn codes_10_and_11_are_invalid() {
    assert_eq!(ColumnType::from_code(10), Err(DbError::InvalidSerialType));
    assert_eq!(ColumnType::from_code(11), Err(DbError::InvalidSerialType));
}

#[test]
fn negative_codes_are_invalid() {
    assert_eq!(ColumnType::from_code(-1), Err(DbError::InvalidSerialType));
    assert_eq!(ColumnType::from_code(i64::MIN), Err(DbError::InvalidSerialType));
}

#[test]
fn codes_0_to_9_are_the_fixed_types() {
    let expected = [
        ColumnType::Null,
        ColumnType::Int8,
        ColumnType::Int16,
        ColumnType::Int24,
        ColumnType::Int32,
        ColumnType::Int48,
        ColumnType::Int64,
        ColumnType::Float64,
        ColumnType::ZeroAsInt,
        ColumnType::OneAsInt,
    ];
    let widths = [0u64, 1, 2, 3, 4, 6, 8, 8, 0, 0];
    for code in 0..10 {
        let t = ColumnType::from_code(code as i64).unwrap();
        assert_eq!(t, expected[code]);
        assert_eq!(t.width(), widths[code]);
    }
}

#[test]
fn larger_codes_alternate_between_blob_and_text() {
    assert_eq!(ColumnType::from_code(14), Ok(ColumnType::Blob(1)));
    assert_eq!(ColumnType::from_code(15), Ok(ColumnType::Text(1)));
    assert_eq!(ColumnType::from_code(23), Ok(ColumnType::Text(5)));
    assert_eq!(ColumnType::from_code(25), Ok(ColumnType::Text(6)));
    assert_eq!(ColumnType::from_code(1000), Ok(ColumnType::Blob(494)));
    assert_eq!(ColumnType::from_code(i64::MAX), Ok(ColumnType::Text((i64::MAX as u64 - 13) / 2)));
    assert_eq!(ColumnType::Blob(494).width(), 494);
    assert_eq!(ColumnType::Text(6).width(), 6);
    assert_eq!(ColumnType::Reserved.width(), 0);
}

#[test]
fn a_reserved_code_in_a_header_fails_the_cell() {
    // header (3, Int8, code 10)
    let cell = vec![2, 1, 3, 1, 10, 42];
    assert_eq!(decode_cell(&cell, 0), Err(DbError::InvalidSerialType));
    let cell = vec![2, 1, 3, 11, 1, 42];
    assert_eq!(decode_cell(&cell, 0), Err(DbError::InvalidSerialType));
}

#[test]
fn a_cell_cut_short_in_its_integers_is_incomplete() {
    assert_eq!(decode_cell(&[], 0), Err(DbError::IncompleteVarint));
    assert_eq!(decode_cell(&[11], 0), Err(DbError::IncompleteVarint));
    assert_eq!(decode_cell(&[11, 1], 0), Err(DbError::IncompleteVarint));
    assert_eq!(decode_cell(&[11, 0x81], 0), Err(DbError::IncompleteVarint));
    assert_eq!(decode_cell(&[11, 1, 4, 1, 25], 0), Err(DbError::IncompleteVarint));
    assert_eq!(decode_cell(&three_column_cell(), 40), Err(DbError::IncompleteVarint));
}

#[test]
fn a_cell_cut_short_in_its_values_is_truncated() {
    let cell = three_column_cell();
    assert_eq!(decode_cell(&cell[..cell.len() - 1], 0), Err(DbError::TruncatedPage));
    assert_eq!(decode_cell(&cell[..6], 0), Err(DbError::TruncatedPage));
    assert!(decode_cell(&cell, 0).is_ok());
}

#[test]
fn a_type_code_that_runs_past_the_header_length_fails() {
    // The header says 3 bytes, but its second type code takes two bytes.
    let cell = vec![5, 1, 3, 1, 0x81, 0x00, 42];
    assert_eq!(decode_cell(&cell, 0), Err(DbError::IncompleteVarint));
    assert_eq!(decode_record_header(&cell, 2), Err(DbError::IncompleteVarint));
}

#[test]
fn a_header_length_shorter_than_its_own_field_fails() {
    assert_eq!(decode_record_header(&[0, 1, 1], 0), Err(DbError::IncompleteVarint));
    // Two bytes for the length 1.
    assert_eq!(decode_record_header(&[0x80, 0x01, 1], 0), Err(DbError::IncompleteVarint));
}

#[test]
fn a_header_of_its_length_field_alone_has_no_columns() {
    let header = decode_record_header(&[1, 9, 9], 0).unwrap();
    assert_eq!(header.header_length, 1);
    assert_eq!(header.bytes_read, 1);
    assert!(header.column_types.is_empty());
    let record = decode_cell(&[1, 7, 1], 0).unwrap();
    assert_eq!(record.row_id, 7);
    assert!(record.column_types.is_empty());
    assert!(record.column_values.is_empty());
}

#[test]
fn the_first_fault_in_a_header_decides() {
    // A reserved code comes before the code that overruns the header.
    let cell = vec![5, 1, 3, 10, 0x81, 0x00];
    assert_eq!(decode_cell(&cell, 0), Err(DbError::InvalidSerialType));
    // A code that is cut short comes before anything is said of its type.
    let cell = vec![5, 1, 4, 1, 0x8A];
    assert_eq!(decode_cell(&cell, 0), Err(DbError::IncompleteVarint));
}

#[test]
fn multi_byte_type_codes_count_toward_the_header_length() {
    // Text of 100 bytes has code 213 = 0x81 0x55.
    let mut cell = vec![103, 5, 3, 0x81, 0x55];
    cell.extend(std::iter::repeat(b'x').take(100));
    let record = decode_cell(&cell, 0).unwrap();
    assert_eq!(record.header_length, 3);
    assert_eq!(record.column_types, vec![ColumnType::Text(100)]);
    assert_eq!(record.column_values, vec![vec![b'x'; 100]]);
    cell.pop();
    assert_eq!(decode_cell(&cell, 0), Err(DbError::TruncatedPage));
}

#[test]
fn every_fixed_width_type_reads_its_width() {
    let types: Vec<ColumnType> = (0..10).map(|c| ColumnType::from_code(c).unwrap()).collect();
    let data: Vec<u8> = (0..40).collect();
    let values = read_column_values(&data, 3, &types).unwrap();
    let widths: Vec<usize> = values.iter().map(|v| v.len()).collect();
    assert_eq!(widths, vec![0, 1, 2, 3, 4, 6, 8, 8, 0, 0]);
    assert_eq!(values[1], vec![3]);
    assert_eq!(values[2], vec![4, 5]);
    assert_eq!(values[3], vec![6, 7, 8]);
    assert_eq!(values[4], vec![9, 10, 11, 12]);
    assert_eq!(values[5], vec![13, 14, 15, 16, 17, 18]);
    assert_eq!(values[6], vec![19, 20, 21, 22, 23, 24, 25, 26]);
    assert_eq!(values[7], vec![27, 28, 29, 30, 31, 32, 33, 34]);
    assert_eq!(read_column_values(&data[..34], 3, &types), Err(DbError::TruncatedPage));
    assert!(read_column_values(&data[..35], 3, &types).is_ok());
    assert_eq!(read_column_values(&data, 41, &vec![]), Err(DbError::TruncatedPage));
    assert_eq!(read_column_values(&data, 40, &vec![]), Ok(vec![]));
}

#[test]
fn a_blob_longer_than_any_file_is_truncated() {
    let types = vec![ColumnType::Blob(u64::MAX / 2)];
    assert_eq!(read_column_values(&[1, 2, 3], 0, &types), Err(DbError::TruncatedPage));
}

#[test]
fn integers_are_sign_extended_from_their_width() {
    assert_eq!(int_value(&ColumnType::Int8, &[0x2A]), Some(42));
    assert_eq!(int_value(&ColumnType::Int8, &[0xFF]), Some(-1));
    assert_eq!(int_value(&ColumnType::Int8, &[0x80]), Some(-128));
    assert_eq!(int_value(&ColumnType::Int16, &[0x01, 0x00]), Some(256));
    assert_eq!(int_value(&ColumnType::Int16, &[0xFF, 0xFE]), Some(-2));
    assert_eq!(int_value(&ColumnType::Int24, &[0x7F, 0xFF, 0xFF]), Some(8_388_607));
    assert_eq!(int_value(&ColumnType::Int24, &[0x80, 0x00, 0x00]), Some(-8_388_608));
    assert_eq!(int_value(&ColumnType::Int24, &[0xFF, 0xFF, 0xFF]), Some(-1));
    assert_eq!(int_value(&ColumnType::Int32, &[0x80, 0x00, 0x00, 0x00]), Some(i32::MIN as i64));
    assert_eq!(int_value(&ColumnType::Int32, &[0x00, 0x01, 0x00, 0x00]), Some(65536));
    assert_eq!(
        int_value(&ColumnType::Int48, &[0x80, 0x00, 0x00, 0x00, 0x00, 0x00]),
        Some(-(1i64 << 47))
    );
    assert_eq!(
        int_value(&ColumnType::Int48, &[0x7F, 0xFF, 0xFF, 0xFF, 0xFF, 0xFF]),
        Some((1i64 << 47) - 1)
    );
    assert_eq!(int_value(&ColumnType::Int64, &[0xFF; 8]), Some(-1));
    assert_eq!(int_value(&ColumnType::Int64, &[0x80, 0, 0, 0, 0, 0, 0, 0]), Some(i64::MIN));
    assert_eq!(
        int_value(&ColumnType::Int64, &[0x7F, 0xFF, 0xFF, 0xFF, 0xFF, 0xFF, 0xFF, 0xFF]),
        Some(i64::MAX)
    );
}

#[test]
fn the_constant_types_need_no_bytes() {
    assert_eq!(int_value(&ColumnType::ZeroAsInt, &[]), Some(0));
    assert_eq!(int_value(&ColumnType::OneAsInt, &[]), Some(1));
}

#[test]
fn other_types_and_wrong_widths_hold_no_integer() {
    assert_eq!(int_value(&ColumnType::Null, &[]), None);
    assert_eq!(int_value(&ColumnType::Text(1), &[0x31]), None);
    assert_eq!(int_value(&ColumnType::Blob(1), &[0x31]), None);
    assert_eq!(int_value(&ColumnType::Float64, &[0; 8]), None);
    assert_eq!(int_value(&ColumnType::Reserved, &[]), None);
    assert_eq!(int_value(&ColumnType::Int16, &[0x01]), None);
    assert_eq!(int_value(&ColumnType::Int8, &[]), None);
    assert_eq!(int_value(&ColumnType::Int24, &[1, 2, 3, 4]), None);
}

#[test]
fn float_bits_are_big_endian() {
    let bytes = 1.5f64.to_be_bytes();
    let bits = float_bits(&ColumnType::Float64, &bytes).unwrap();
    assert_eq!(f64::from_bits(bits), 1.5);
    let bytes = (-0.1f64).to_be_bytes();
    assert_eq!(float_bits(&ColumnType::Float64, &bytes), Some((-0.1f64).to_bits()));
    assert_eq!(float_bits(&ColumnType::Float64, &[0xFF; 8]), Some(u64::MAX));
    assert_eq!(float_bits(&ColumnType::Float64, &[0; 7]), None);
    assert_eq!(float_bits(&ColumnType::Int64, &[0; 8]), None);
}

/// A cell built from its parts with the encoder: header and values of the
/// columns `(Int8 = 42, Text("apples"), Null)`.
#[test]
fn an_encoded_record_decodes_to_what_was_encoded() {
    let codes = [1i64, 13 + 2 * 6, 0];
    let mut types = Vec::new();
    for code in codes {
        types.extend(encode_sqlite_varint(code));
    }
    let header_length = 1 + types.len();
    let mut values = vec![42u8];
    values.extend_from_slice(b"apples");
    let mut cell = encode_sqlite_varint((header_length + values.len()) as i64);
    cell.extend(encode_sqlite_varint(300));
    let header_start = cell.len();
    cell.extend(encode_sqlite_varint(header_length as i64));
    cell.extend(types);
    cell.extend(values);

    let record = decode_cell(&cell, 0).unwrap();
    assert_eq!(record.payload_length, 11);
    assert_eq!(record.row_id, 300);
    assert_eq!(record.header_length, 4);
    assert_eq!(
        record.column_types,
        vec![ColumnType::Int8, ColumnType::Text(6), ColumnType::Null]
    );
    assert_eq!(record.column_values, vec![vec![42], b"apples".to_vec(), vec![]]);
    assert_eq!(int_value(&record.column_types[0], &record.column_values[0]), Some(42));
    let header = decode_record_header(&cell, header_start).unwrap();
    assert_eq!(header.bytes_read as u64, record.header_length);
}

#[test]
fn nine_byte_row_id_is_kept_as_unsigned() {
    // row id 0xC0 0x80 x7 0x00 decodes to the bit pattern 1 << 63.
    let mut cell = vec![1];
    cell.extend_from_slice(&[0xC0, 0x80, 0x80, 0x80, 0x80, 0x80, 0x80, 0x80, 0x00]);
    cell.push(1);
    let record = decode_cell(&cell, 0).unwrap();
    assert_eq!(record.row_id, 1u64 << 63);
}
