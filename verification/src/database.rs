//! The database facade and the generic table/row access layer.
//!
//! A `Database` owns its byte buffer together with the decoded stream
//! header, so every handle derived from it stays valid for the handle's own
//! lifetime. A `Table` is a lightweight handle on one table kind; a `Row` is
//! a plain (database reference, table kind, row index) value whose columns
//! are decoded on demand, each access an independent O(1) read.

use vstd::prelude::*;
use vstd::slice::slice_to_vec;

use crate::bytes::{c_str_at, le16, le32, read_c_string_in, read_u16, read_u32};
use crate::error::Error;
use crate::schema::{
    check_header, column_wf, header_wf, table_index, table_index_spec, table_wf, Header,
    TableInfo, TableKind,
};

verus! {

/// The column of a type-definition row that holds the type's name.
pub const TYPEDEF_NAME_COL: usize = 1;

/// The column of a type-definition row that holds the type's namespace.
pub const TYPEDEF_NAMESPACE_COL: usize = 2;

/// A parsed view over exactly one buffer: the bytes together with the
/// decoded stream header needed to compute table and row offsets. Created
/// once per load call and immutable thereafter.
pub struct Database {
    pub data: Vec<u8>,
    pub header: Header,
}

impl Database {
    /// The header correctly describes the owned buffer.
    pub open spec fn wf(self) -> bool {
        header_wf(self.header, self.data@.len() as nat)
    }

    /// The geometry of the table of kind `k`.
    pub open spec fn info_of(self, k: TableKind) -> TableInfo {
        self.header.tables@[table_index_spec(k)]
    }

    /// The row count of the table of kind `k`.
    pub open spec fn row_count_of(self, k: TableKind) -> int {
        self.info_of(k).row_count as int
    }

    /// Parses a database from a caller-supplied buffer and the stream
    /// header decoded from it, validating the header's geometry against the
    /// buffer. The buffer bytes are copied into the database, so the result
    /// stays usable for its own lifetime, independent of the caller's
    /// buffer.
    pub fn from_data(data: &[u8], header: Header) -> (r: Result<Database, Error>)
        ensures
            header_wf(header, data@.len() as nat) ==> (r matches Ok(db) && db.data@ == data@
                && db.header == header && db.wf()),
            !header_wf(header, data@.len() as nat) ==> r == Err::<Database, Error>(Error::Format),
    {
        if check_header(&header, data.len()) {
            Ok(Database { data: slice_to_vec(data), header })
        } else {
            Err(Error::Format)
        }
    }

    /// Returns the table handle for the requested kind.
    pub fn table<'a>(&'a self, kind: TableKind) -> (t: Table<'a>)
        ensures
            t.db == self,
            t.kind == kind,
    {
        Table { db: self, kind }
    }
}

/// Table access as a capability: any source that can hand out table handles.
pub trait TableAccess {
    /// Yields the table handle of the given kind over this source.
    fn get_table<'a>(&'a self, kind: TableKind) -> Table<'a>;
}

impl TableAccess for Database {
    fn get_table<'a>(&'a self, kind: TableKind) -> Table<'a> {
        Table { db: self, kind }
    }
}

/// A handle on one table of one database: stateless beyond the kind and the
/// database reference, and valid exactly as long as its database.
#[derive(Clone, Copy)]
pub struct Table<'a> {
    pub db: &'a Database,
    pub kind: TableKind,
}

/// One row of one table: a plain (database, kind, index) triple. Rows are
/// cheap to copy and compare by identity; no column is decoded until asked
/// for.
#[derive(Clone, Copy)]
pub struct Row<'a> {
    pub db: &'a Database,
    pub kind: TableKind,
    pub index: usize,
}

/// The absolute byte offset of column `c` of row `i` of the table of kind
/// `k`: table base, plus `i` row widths, plus the column's own offset.
pub open spec fn cell_offset(db: Database, k: TableKind, i: int, c: int) -> int {
    db.info_of(k).base + i * db.info_of(k).row_width + db.info_of(k).columns@[c].offset
}

/// The decoded value of column `c` of row `i` of the table of kind `k`.
pub open spec fn cell_val(db: Database, k: TableKind, i: int, c: int) -> nat {
    if db.info_of(k).columns@[c].width == 2 {
        le16(db.data@, cell_offset(db, k, i, c))
    } else {
        le32(db.data@, cell_offset(db, k, i, c))
    }
}

/// Whether the string-heap index held in column `c` of row `i` lies within
/// the string heap.
pub open spec fn str_cell_ok(db: Database, k: TableKind, i: int, c: int) -> bool {
    cell_val(db, k, i, c) <= db.header.strings_len
}

/// The string that column `c` of row `i` refers to: the C string at the
/// held heap offset, bounded by the end of the string heap.
pub open spec fn str_cell_val(db: Database, k: TableKind, i: int, c: int) -> Seq<u8> {
    c_str_at(
        db.data@,
        db.header.strings_base + cell_val(db, k, i, c),
        db.header.strings_base + db.header.strings_len,
    )
}

/// A valid cell read lies entirely within the buffer.
proof fn lemma_cell_in_bounds(db: Database, k: TableKind, i: int, c: int)
    requires
        db.wf(),
        0 <= i < db.row_count_of(k),
        0 <= c < db.info_of(k).columns@.len(),
    ensures
        db.info_of(k).base >= 0,
        i * db.info_of(k).row_width >= 0,
        cell_offset(db, k, i, c) + db.info_of(k).columns@[c].width <= db.data@.len(),
{
    let t = db.info_of(k);
    assert(0 <= table_index_spec(k) < db.header.tables@.len());
    assert(table_wf(t, db.data@.len() as nat));
    assert(column_wf(t.columns@[c], t.row_width as nat));
    assert(i * t.row_width >= 0) by (nonlinear_arith)
        requires
            i >= 0,
            t.row_width >= 0,
    ;
    assert(i * t.row_width + t.row_width <= t.row_count * t.row_width) by (nonlinear_arith)
        requires
            i < t.row_count,
            t.row_width >= 0,
    ;
}

impl<'a> Table<'a> {
    /// The geometry of this table.
    pub open spec fn info(self) -> TableInfo {
        self.db.info_of(self.kind)
    }

    /// The row count, copied out of the stream header at load time.
    pub fn size(&self) -> (n: usize)
        requires
            self.db.wf(),
        ensures
            n == self.info().row_count,
    {
        let ti = table_index(self.kind);
        self.db.header.tables[ti].row_count
    }

    /// The row of index `i`, constructed without decoding any column. An
    /// index at or past the row count is a bounds error, for every table
    /// kind.
    pub fn row(&self, index: usize) -> (r: Result<Row<'a>, Error>)
        requires
            self.db.wf(),
        ensures
            index < self.info().row_count ==> (r matches Ok(row) && row.db == self.db && row.kind
                == self.kind && row.index == index),
            index >= self.info().row_count ==> r == Err::<Row<'a>, Error>(Error::Bounds),
    {
        let ti = table_index(self.kind);
        if index < self.db.header.tables[ti].row_count {
            Ok(Row { db: self.db, kind: self.kind, index })
        } else {
            Err(Error::Bounds)
        }
    }

    /// Every row of this table in table order, which is definition order in
    /// the source metadata: a finite, restartable walk whose length is
    /// exactly the table's size.
    pub fn iter(&self) -> (rows: Vec<Row<'a>>)
        requires
            self.db.wf(),
        ensures
            rows@.len() == self.info().row_count,
            forall|i: int|
                0 <= i < rows@.len() ==> (#[trigger] rows@[i]).db == self.db && rows@[i].kind
                    == self.kind && rows@[i].index == i,
    {
        let n = self.size();
        let mut rows: Vec<Row<'a>> = Vec::new();
        let mut i: usize = 0;
        while i < n
            invariant
                0 <= i <= n,
                n == self.info().row_count,
                rows@.len() == i,
                forall|j: int|
                    0 <= j < i ==> (#[trigger] rows@[j]).db == self.db && rows@[j].kind
                        == self.kind && rows@[j].index == j,
            decreases n - i,
        {
            rows.push(Row { db: self.db, kind: self.kind, index: i });
            i = i + 1;
        }
        rows
    }
}

impl<'a> Row<'a> {
    /// The row lies within its table of a well-formed database.
    pub open spec fn valid(self) -> bool {
        &&& self.db.wf()
        &&& (self.index as int) < self.db.row_count_of(self.kind)
    }

    /// Decodes column `col` of this row: a two- or four-byte little-endian
    /// value at the column's offset within the row. A column index past the
    /// table's column list is a bounds error; columns are decoded
    /// independently, so no other column of the row is touched.
    pub fn cell(&self, col: usize) -> (r: Result<u32, Error>)
        requires
            self.valid(),
        ensures
            col < self.db.info_of(self.kind).columns@.len() ==> (r matches Ok(v) && v as nat
                == cell_val(*self.db, self.kind, self.index as int, col as int)),
            col >= self.db.info_of(self.kind).columns@.len() ==> r == Err::<u32, Error>(
                Error::Bounds,
            ),
    {
        let ti = table_index(self.kind);
        let t = &self.db.header.tables[ti];
        if col >= t.columns.len() {
            return Err(Error::Bounds);
        }
        let cs = t.columns[col];
        proof {
            lemma_cell_in_bounds(*self.db, self.kind, self.index as int, col as int);
        }
        let dlen = self.db.data.len();
        let off = t.base + self.index * t.row_width + cs.offset;
        if cs.width == 2 {
            match read_u16(self.db.data.as_slice(), off) {
                Ok(v) => Ok(v as u32),
                Err(e) => Err(e),
            }
        } else {
            read_u32(self.db.data.as_slice(), off)
        }
    }

    /// Decodes column `col` as a string-heap reference: reads the heap
    /// offset held in the column, then the C string at that offset within
    /// the heap. A heap offset pointing past the heap is a decode error
    /// that leaves every other column readable.
    pub fn str_cell(&self, col: usize) -> (r: Result<Vec<u8>, Error>)
        requires
            self.valid(),
        ensures
            col < self.db.info_of(self.kind).columns@.len() && str_cell_ok(
                *self.db,
                self.kind,
                self.index as int,
                col as int,
            ) ==> (r matches Ok(v) && v@ == str_cell_val(
                *self.db,
                self.kind,
                self.index as int,
                col as int,
            )),
            col < self.db.info_of(self.kind).columns@.len() && !str_cell_ok(
                *self.db,
                self.kind,
                self.index as int,
                col as int,
            ) ==> r == Err::<Vec<u8>, Error>(Error::Decode),
            col >= self.db.info_of(self.kind).columns@.len() ==> r == Err::<Vec<u8>, Error>(
                Error::Bounds,
            ),
    {
        let v = match self.cell(col) {
            Ok(v) => v,
            Err(e) => {
                return Err(e);
            },
        };
        let sb = self.db.header.strings_base;
        let sl = self.db.header.strings_len;
        let dlen = self.db.data.len();
        proof {
            assert(sb + sl <= dlen);
        }
        if v as usize <= sl {
            Ok(read_c_string_in(self.db.data.as_slice(), sb + v as usize, sb + sl))
        } else {
            Err(Error::Decode)
        }
    }
}

/// Row decoding is deterministic: a row value is a pure function of its
/// database, table kind and row index, with no hidden cursor state, so two
/// row values that compare equal decode identical column values.
pub proof fn lemma_row_decode_deterministic(r1: Row, r2: Row, c: int)
    requires
        *r1.db == *r2.db,
        r1.kind == r2.kind,
        r1.index == r2.index,
    ensures
        cell_val(*r1.db, r1.kind, r1.index as int, c) == cell_val(
            *r2.db,
            r2.kind,
            r2.index as int,
            c,
        ),
        str_cell_ok(*r1.db, r1.kind, r1.index as int, c) == str_cell_ok(
            *r2.db,
            r2.kind,
            r2.index as int,
            c,
        ),
        str_cell_val(*r1.db, r1.kind, r1.index as int, c) == str_cell_val(
            *r2.db,
            r2.kind,
            r2.index as int,
            c,
        ),
{
}

} // verus!
