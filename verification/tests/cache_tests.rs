use winmd::database::TYPEDEF_NAME_COL;
use winmd::schema::{table_index, NUM_TABLES};
use winmd::{Cache, ColumnSpec, Database, Error, Header, TableInfo, TableKind};

fn empty_header() -> Header {
    let mut tables = Vec::new();
    for _ in 0..NUM_TABLES {
        tables.push(TableInfo { base: 0, row_width: 0, row_count: 0, columns: Vec::new() });
    }
    Header { tables, strings_base: 0, strings_len: 0 }
}

/// One type definition per entry: (flags, name bytes, namespace bytes).
fn build_db(rows: &[(u16, &[u8], &[u8])]) -> Database {
    // lay the heap out first: a leading zero byte, then each string
    let mut heap = vec![0u8];
    let mut offsets: Vec<(u16, u16)> = Vec::new();
    for &(_, name, namespace) in rows {
        let name_off = heap.len() as u16;
        heap.extend_from_slice(name);
        heap.push(0);
        let ns_off = if namespace.is_empty() {
            0
        } else {
            let o = heap.len() as u16;
            heap.extend_from_slice(namespace);
            heap.push(0);
            o
        };
        offsets.push((name_off, ns_off));
    }
    let mut buf = heap.clone();
    let base = buf.len();
    for (&(flags, _, _), &(name_off, ns_off)) in rows.iter().zip(offsets.iter()) {
        buf.extend_from_slice(&flags.to_le_bytes());
        buf.extend_from_slice(&name_off.to_le_bytes());
        buf.extend_from_slice(&ns_off.to_le_bytes());
    }
    let mut header = empty_header();
    header.tables[table_index(TableKind::TypeDef)] = TableInfo {
        base,
        row_width: 6,
        row_count: rows.len(),
        columns: vec![
            ColumnSpec { offset: 0, width: 2 },
            ColumnSpec { offset: 2, width: 2 },
            ColumnSpec { offset: 4, width: 2 },
        ],
    };
    header.strings_len = heap.len();
    Database::from_data(&buf, header).unwrap()
}

#[test]
fn insert_then_find_round_trip() {
    let mut cache = Cache::new();
    let db = build_db(&[(7, b"T", b"NS"), (9, b"U", b"NS")]);
    let idx = cache.insert(db).unwrap();
    assert_eq!(idx, 0);
    let row = cache.find(b"NS", b"T").unwrap();
    assert_eq!(row.kind, TableKind::TypeDef);
    assert_eq!(row.index, 0);
    assert_eq!(row.cell(0), Ok(7));
    assert_eq!(row.str_cell(TYPEDEF_NAME_COL), Ok(b"T".to_vec()));
    let other = cache.find(b"NS", b"U").unwrap();
    assert_eq!(other.index, 1);
    assert_eq!(other.cell(0), Ok(9));
}

#[test]
fn find_unknown_pair_is_none() {
    let mut cache = Cache::new();
    assert!(cache.find(b"NS", b"T").is_none());
    cache.insert(build_db(&[(7, b"T", b"NS")])).unwrap();
    assert!(cache.find(b"NS", b"V").is_none());
    assert!(cache.find(b"Other", b"T").is_none());
}

#[test]
fn first_registration_wins_across_databases() {
    let mut cache = Cache::new();
    let a = build_db(&[(7, b"T", b"NS")]);
    let b = build_db(&[(99, b"T", b"NS"), (5, b"V", b"NS")]);
    let ai = cache.insert(a).unwrap();
    let bi = cache.insert(b).unwrap();
    assert_eq!((ai, bi), (0, 1));
    // NS.T stays bound to database A's row
    let row = cache.find(b"NS", b"T").unwrap();
    assert_eq!(row.cell(0), Ok(7));
    // a pair only B defines is found in B
    let v = cache.find(b"NS", b"V").unwrap();
    assert_eq!(v.cell(0), Ok(5));
    assert_eq!(v.index, 1);
}

#[test]
fn first_row_wins_within_one_database() {
    let mut cache = Cache::new();
    let db = build_db(&[(1, b"T", b"NS"), (2, b"T", b"NS")]);
    cache.insert(db).unwrap();
    let row = cache.find(b"NS", b"T").unwrap();
    assert_eq!(row.index, 0);
    assert_eq!(row.cell(0), Ok(1));
}

#[test]
fn empty_namespace_is_a_key_of_its_own() {
    let mut cache = Cache::new();
    cache.insert(build_db(&[(3, b"Bare", b"")])).unwrap();
    let row = cache.find(b"", b"Bare").unwrap();
    assert_eq!(row.cell(0), Ok(3));
    assert!(cache.find(b"NS", b"Bare").is_none());
}

#[test]
fn insert_with_undecodable_name_fails_whole() {
    let mut cache = Cache::new();
    cache.insert(build_db(&[(7, b"T", b"NS")])).unwrap();
    // second database: one good row, then a name index past the heap
    let good = build_db(&[(1, b"Good", b"NS"), (2, b"Bad", b"NS")]);
    let mut buf = good.data.clone();
    let header = good.header.clone();
    let info = &header.tables[table_index(TableKind::TypeDef)];
    // overwrite the second row's name column with an out-of-heap index
    let name_col_at = info.base + info.row_width + 2;
    buf[name_col_at] = 0xFF;
    buf[name_col_at + 1] = 0xFF;
    let broken = Database::from_data(&buf, header).unwrap();
    assert_eq!(cache.insert(broken), Err(Error::Decode));
    // the failed insert left the cache unchanged: nothing of it is indexed
    assert_eq!(cache.len(), 1);
    assert!(cache.find(b"NS", b"Good").is_none());
    assert!(cache.find(b"NS", b"T").is_some());
}

#[test]
fn earlier_databases_stay_valid_under_growth() {
    let mut cache = Cache::new();
    let first = cache.insert(build_db(&[(10, b"A0", b"NS")])).unwrap();
    // read through the first database, then keep growing the cache
    for n in 1u16..8 {
        let name = format!("A{}", n).into_bytes();
        cache.insert(build_db(&[(10 + n, &name, b"NS")])).unwrap();
        let db = cache.database(first).unwrap();
        let row = db.table(TableKind::TypeDef).row(0).unwrap();
        assert_eq!(row.cell(0), Ok(10));
        assert_eq!(row.str_cell(TYPEDEF_NAME_COL), Ok(b"A0".to_vec()));
        let found = cache.find(b"NS", b"A0").unwrap();
        assert_eq!(found.index, 0);
        assert_eq!(found.cell(0), Ok(10));
    }
    assert_eq!(cache.len(), 8);
    assert!(cache.database(8).is_none());
}

#[test]
fn default_cache_is_empty() {
    let cache = Cache::default();
    assert_eq!(cache.len(), 0);
    assert!(cache.database(0).is_none());
    assert!(cache.find(b"", b"").is_none());
}
