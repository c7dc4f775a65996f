use winmd::database::{TYPEDEF_NAME_COL, TYPEDEF_NAMESPACE_COL};
use winmd::schema::{split_coded_index, table_index, NUM_TABLES};
use winmd::{ColumnSpec, Database, Error, Header, TableInfo, TableKind};

fn empty_header() -> Header {
    let mut tables = Vec::new();
    for _ in 0..NUM_TABLES {
        tables.push(TableInfo { base: 0, row_width: 0, row_count: 0, columns: Vec::new() });
    }
    Header { tables, strings_base: 0, strings_len: 0 }
}

/// Builds a buffer holding a string heap followed by a type-definition
/// table whose rows are (flags, name index, namespace index) triples of
/// two bytes each.
fn sample(rows: &[(u16, u16, u16)], heap: &[u8]) -> (Vec<u8>, Header) {
    let mut buf = heap.to_vec();
    let base = buf.len();
    for &(flags, name, namespace) in rows {
        buf.extend_from_slice(&flags.to_le_bytes());
        buf.extend_from_slice(&name.to_le_bytes());
        buf.extend_from_slice(&namespace.to_le_bytes());
    }
    let mut header = empty_header();
    header.tables[table_index(TableKind::TypeDef)] = TableInfo {
        base,
        row_width: 6,
        row_count: rows.len(),
        columns: vec![
            ColumnSpec { offset: 0, width: 2 },
            ColumnSpec { offset: 2, width: 2 },
            ColumnSpec { offset: 4, width: 2 },
        ],
    };
    header.strings_len = heap.len();
    (buf, header)
}

// heap offsets: 0 -> "", 1 -> "NS", 4 -> "T", 6 -> "U"
const HEAP: &[u8] = b"\0NS\0T\0U\0";

#[test]
fn from_data_rejects_bad_geometry() {
    let (buf, mut header) = sample(&[(7, 4, 1)], HEAP);
    header.tables[table_index(TableKind::TypeDef)].row_count = 1000;
    assert!(matches!(Database::from_data(&buf, header), Err(Error::Format)));
}

#[test]
fn from_data_rejects_bad_heap() {
    let (buf, mut header) = sample(&[(7, 4, 1)], HEAP);
    header.strings_len = buf.len() + 1;
    assert!(matches!(Database::from_data(&buf, header), Err(Error::Format)));
}

#[test]
fn from_data_accepts_valid_header() {
    let (buf, header) = sample(&[(7, 4, 1), (9, 6, 1)], HEAP);
    let db = Database::from_data(&buf, header).unwrap();
    assert_eq!(db.table(TableKind::TypeDef).size(), 2);
    assert_eq!(db.table(TableKind::Module).size(), 0);
}

#[test]
fn row_out_of_range_is_bounds_error() {
    let (buf, header) = sample(&[(7, 4, 1), (9, 6, 1)], HEAP);
    let db = Database::from_data(&buf, header).unwrap();
    let typedefs = db.table(TableKind::TypeDef);
    assert!(typedefs.row(1).is_ok());
    assert!(matches!(typedefs.row(2), Err(Error::Bounds)));
    // an empty table rejects every index, whatever the kind
    assert!(matches!(db.table(TableKind::MethodDef).row(0), Err(Error::Bounds)));
    assert!(matches!(db.table(TableKind::Assembly).row(7), Err(Error::Bounds)));
}

#[test]
fn iter_count_equals_size() {
    let (buf, header) = sample(&[(7, 4, 1), (9, 6, 1)], HEAP);
    let db = Database::from_data(&buf, header).unwrap();
    let typedefs = db.table(TableKind::TypeDef);
    assert_eq!(typedefs.iter().len(), typedefs.size());
    let modules = db.table(TableKind::Module);
    assert_eq!(modules.iter().len(), modules.size());
    for (i, row) in typedefs.iter().iter().enumerate() {
        assert_eq!(row.index, i);
        assert_eq!(row.kind, TableKind::TypeDef);
    }
}

#[test]
fn row_constructed_twice_decodes_identically() {
    let (buf, header) = sample(&[(7, 4, 1), (9, 6, 1)], HEAP);
    let db = Database::from_data(&buf, header).unwrap();
    let table = db.table(TableKind::TypeDef);
    let a = table.row(1).unwrap();
    let b = table.row(1).unwrap();
    assert_eq!(a.kind, b.kind);
    assert_eq!(a.index, b.index);
    assert_eq!(a.cell(0), b.cell(0));
    assert_eq!(a.str_cell(TYPEDEF_NAME_COL), b.str_cell(TYPEDEF_NAME_COL));
    assert_eq!(a.str_cell(TYPEDEF_NAMESPACE_COL), b.str_cell(TYPEDEF_NAMESPACE_COL));
}

#[test]
fn cells_decode_exact_values() {
    let (buf, header) = sample(&[(7, 4, 1), (9, 6, 1)], HEAP);
    let db = Database::from_data(&buf, header).unwrap();
    let table = db.table(TableKind::TypeDef);
    let row = table.row(0).unwrap();
    assert_eq!(row.cell(0), Ok(7));
    assert_eq!(row.cell(1), Ok(4));
    assert_eq!(row.cell(2), Ok(1));
    assert_eq!(row.str_cell(TYPEDEF_NAME_COL), Ok(b"T".to_vec()));
    assert_eq!(row.str_cell(TYPEDEF_NAMESPACE_COL), Ok(b"NS".to_vec()));
    let second = table.row(1).unwrap();
    assert_eq!(second.cell(0), Ok(9));
    assert_eq!(second.str_cell(TYPEDEF_NAME_COL), Ok(b"U".to_vec()));
}

#[test]
fn column_out_of_range_is_bounds_error() {
    let (buf, header) = sample(&[(7, 4, 1)], HEAP);
    let db = Database::from_data(&buf, header).unwrap();
    let row = db.table(TableKind::TypeDef).row(0).unwrap();
    assert_eq!(row.cell(3), Err(Error::Bounds));
    assert_eq!(row.str_cell(3), Err(Error::Bounds));
}

#[test]
fn heap_index_past_heap_is_decode_error() {
    // name column holds 200, far past the eight-byte heap
    let (buf, header) = sample(&[(7, 200, 1)], HEAP);
    let db = Database::from_data(&buf, header).unwrap();
    let row = db.table(TableKind::TypeDef).row(0).unwrap();
    assert_eq!(row.str_cell(TYPEDEF_NAME_COL), Err(Error::Decode));
    // the malformed column does not block reading other columns
    assert_eq!(row.str_cell(TYPEDEF_NAMESPACE_COL), Ok(b"NS".to_vec()));
    assert_eq!(row.cell(0), Ok(7));
}

#[test]
fn from_data_copy_outlives_callers_buffer() {
    let (buf, header) = sample(&[(7, 4, 1)], HEAP);
    let db = Database::from_data(&buf, header).unwrap();
    drop(buf);
    // construct and destroy unrelated databases
    for flags in 0u16..20 {
        let (other_buf, other_header) = sample(&[(flags, 6, 1)], HEAP);
        let other = Database::from_data(&other_buf, other_header).unwrap();
        assert_eq!(other.table(TableKind::TypeDef).row(0).unwrap().cell(0), Ok(flags as u32));
    }
    let row = db.table(TableKind::TypeDef).row(0).unwrap();
    assert_eq!(row.str_cell(TYPEDEF_NAME_COL), Ok(b"T".to_vec()));
    assert_eq!(row.str_cell(TYPEDEF_NAMESPACE_COL), Ok(b"NS".to_vec()));
    assert_eq!(row.cell(0), Ok(7));
}

#[test]
fn repeated_reads_are_identical() {
    let (buf, header) = sample(&[(0x0101, 4, 1), (9, 6, 1)], HEAP);
    let db = Database::from_data(&buf, header).unwrap();
    for _ in 0..100 {
        let row = db.table(TableKind::TypeDef).row(0).unwrap();
        assert_eq!(row.cell(0), Ok(0x0101));
        assert_eq!(row.str_cell(TYPEDEF_NAME_COL), Ok(b"T".to_vec()));
        assert_eq!(row.str_cell(TYPEDEF_NAMESPACE_COL), Ok(b"NS".to_vec()));
    }
}

#[test]
fn iteration_is_restartable() {
    let (buf, header) = sample(&[(7, 4, 1), (9, 6, 1)], HEAP);
    let db = Database::from_data(&buf, header).unwrap();
    let table = db.table(TableKind::TypeDef);
    let first = table.iter();
    let second = table.iter();
    assert_eq!(first.len(), second.len());
    for (a, b) in first.iter().zip(second.iter()) {
        assert_eq!(a.index, b.index);
        assert_eq!(a.kind, b.kind);
        assert_eq!(a.cell(0), b.cell(0));
    }
}

#[test]
fn coded_index_splits_tag_and_row() {
    // two tag bits: tag 2, row 5 encodes as 5 * 4 + 2
    assert_eq!(split_coded_index(22, 2, 3), Ok((2, 5)));
    // tag 0 of a one-bit kind
    assert_eq!(split_coded_index(8, 1, 2), Ok((0, 4)));
}

#[test]
fn coded_index_rejects_bad_tag() {
    // two tag bits, three targets: tag 3 names no table
    assert_eq!(split_coded_index(23, 2, 3), Err(Error::Decode));
}
