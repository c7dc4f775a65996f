//! The table descriptor data consumed by the access layer: the fixed set of
//! table kinds, per-table geometry (base offset, row width, row count,
//! column layout), heap location, and the stream header that bundles them.
//!
//! Decoding this data out of the raw stream bytes is the job of a separate
//! decoding subsystem; the reader core only validates the decoded geometry
//! against the buffer it is meant to describe.

use vstd::prelude::*;

use crate::error::Error;

verus! {

/// The number of logical table kinds the format defines.
pub const NUM_TABLES: usize = 38;

/// One of the fixed set of logical tables of the metadata format.
#[derive(Clone, Copy, Debug, PartialEq, Eq, Structural)]
pub enum TableKind {
    Module,
    TypeRef,
    TypeDef,
    Field,
    MethodDef,
    Param,
    InterfaceImpl,
    MemberRef,
    Constant,
    CustomAttribute,
    FieldMarshal,
    DeclSecurity,
    ClassLayout,
    FieldLayout,
    StandAloneSig,
    EventMap,
    Event,
    PropertyMap,
    Property,
    MethodSemantics,
    MethodImpl,
    ModuleRef,
    TypeSpec,
    ImplMap,
    FieldRVA,
    Assembly,
    AssemblyProcessor,
    AssemblyOS,
    AssemblyRef,
    AssemblyRefProcessor,
    AssemblyRefOS,
    File,
    ExportedType,
    ManifestResource,
    NestedClass,
    GenericParam,
    MethodSpec,
    GenericParamConstraint,
}

/// The position a table kind has in the stream header's table list: a total,
/// statically checked mapping from the logical kinds to physical tables.
pub open spec fn table_index_spec(k: TableKind) -> int {
    match k {
        TableKind::Module => 0,
        TableKind::TypeRef => 1,
        TableKind::TypeDef => 2,
        TableKind::Field => 3,
        TableKind::MethodDef => 4,
        TableKind::Param => 5,
        TableKind::InterfaceImpl => 6,
        TableKind::MemberRef => 7,
        TableKind::Constant => 8,
        TableKind::CustomAttribute => 9,
        TableKind::FieldMarshal => 10,
        TableKind::DeclSecurity => 11,
        TableKind::ClassLayout => 12,
        TableKind::FieldLayout => 13,
        TableKind::StandAloneSig => 14,
        TableKind::EventMap => 15,
        TableKind::Event => 16,
        TableKind::PropertyMap => 17,
        TableKind::Property => 18,
        TableKind::MethodSemantics => 19,
        TableKind::MethodImpl => 20,
        TableKind::ModuleRef => 21,
        TableKind::TypeSpec => 22,
        TableKind::ImplMap => 23,
        TableKind::FieldRVA => 24,
        TableKind::Assembly => 25,
        TableKind::AssemblyProcessor => 26,
        TableKind::AssemblyOS => 27,
        TableKind::AssemblyRef => 28,
        TableKind::AssemblyRefProcessor => 29,
        TableKind::AssemblyRefOS => 30,
        TableKind::File => 31,
        TableKind::ExportedType => 32,
        TableKind::ManifestResource => 33,
        TableKind::NestedClass => 34,
        TableKind::GenericParam => 35,
        TableKind::MethodSpec => 36,
        TableKind::GenericParamConstraint => 37,
    }
}

/// Computes the position of `k` in the stream header's table list.
pub fn table_index(k: TableKind) -> (i: usize)
    ensures
        i as int == table_index_spec(k),
        i < NUM_TABLES,
{
    match k {
        TableKind::Module => 0,
        TableKind::TypeRef => 1,
        TableKind::TypeDef => 2,
        TableKind::Field => 3,
        TableKind::MethodDef => 4,
        TableKind::Param => 5,
        TableKind::InterfaceImpl => 6,
        TableKind::MemberRef => 7,
        TableKind::Constant => 8,
        TableKind::CustomAttribute => 9,
        TableKind::FieldMarshal => 10,
        TableKind::DeclSecurity => 11,
        TableKind::ClassLayout => 12,
        TableKind::FieldLayout => 13,
        TableKind::StandAloneSig => 14,
        TableKind::EventMap => 15,
        TableKind::Event => 16,
        TableKind::PropertyMap => 17,
        TableKind::Property => 18,
        TableKind::MethodSemantics => 19,
        TableKind::MethodImpl => 20,
        TableKind::ModuleRef => 21,
        TableKind::TypeSpec => 22,
        TableKind::ImplMap => 23,
        TableKind::FieldRVA => 24,
        TableKind::Assembly => 25,
        TableKind::AssemblyProcessor => 26,
        TableKind::AssemblyOS => 27,
        TableKind::AssemblyRef => 28,
        TableKind::AssemblyRefProcessor => 29,
        TableKind::AssemblyRefOS => 30,
        TableKind::File => 31,
        TableKind::ExportedType => 32,
        TableKind::ManifestResource => 33,
        TableKind::NestedClass => 34,
        TableKind::GenericParam => 35,
        TableKind::MethodSpec => 36,
        TableKind::GenericParamConstraint => 37,
    }
}

/// The layout of one column within a row: its byte offset from the row start
/// and its encoded width, two or four bytes depending on the heap and coded
/// index sizes of the database at hand.
#[derive(Clone, Copy, Debug, PartialEq, Eq, Structural)]
pub struct ColumnSpec {
    pub offset: usize,
    pub width: usize,
}

/// The geometry of one physical table within the buffer: base offset of its
/// first row, row byte width, row count, and the layout of its columns.
#[derive(Clone, Debug)]
pub struct TableInfo {
    pub base: usize,
    pub row_width: usize,
    pub row_count: usize,
    pub columns: Vec<ColumnSpec>,
}

/// The decoded stream header: the geometry of every table, and the location
/// of the string heap within the buffer.
#[derive(Clone, Debug)]
pub struct Header {
    pub tables: Vec<TableInfo>,
    pub strings_base: usize,
    pub strings_len: usize,
}

/// A column layout is valid for a row width when the column is two or four
/// bytes wide and lies entirely within the row.
pub open spec fn column_wf(c: ColumnSpec, row_width: nat) -> bool {
    &&& (c.width == 2 || c.width == 4)
    &&& c.offset + c.width <= row_width
}

/// A table's geometry is valid for a buffer length when all its rows lie
/// within the buffer and every column lies within a row.
pub open spec fn table_wf(t: TableInfo, buf_len: nat) -> bool {
    &&& t.base + t.row_count * t.row_width <= buf_len
    &&& forall|c: int|
        0 <= c < t.columns@.len() ==> column_wf(#[trigger] t.columns@[c], t.row_width as nat)
}

/// A stream header is valid for a buffer length when it lists every table
/// kind, each with valid geometry, and its string heap lies in the buffer.
pub open spec fn header_wf(h: Header, buf_len: nat) -> bool {
    &&& h.tables@.len() == NUM_TABLES
    &&& forall|t: int| 0 <= t < h.tables@.len() ==> table_wf(#[trigger] h.tables@[t], buf_len)
    &&& h.strings_base + h.strings_len <= buf_len
}

/// Decides whether one table's geometry is valid for a buffer length.
pub fn check_table(t: &TableInfo, buf_len: usize) -> (r: bool)
    ensures
        r == table_wf(*t, buf_len as nat),
{
    let rows_size = match t.row_count.checked_mul(t.row_width) {
        Some(s) => s,
        None => {
            return false;
        },
    };
    match t.base.checked_add(rows_size) {
        Some(end) => {
            if end > buf_len {
                return false;
            }
        },
        None => {
            return false;
        },
    };
    let mut c: usize = 0;
    while c < t.columns.len()
        invariant
            0 <= c <= t.columns@.len(),
            forall|j: int| 0 <= j < c ==> column_wf(#[trigger] t.columns@[j], t.row_width as nat),
            t.base + t.row_count * t.row_width <= buf_len,
        decreases t.columns@.len() - c,
    {
        let col = t.columns[c];
        if !(col.width == 2 || col.width == 4) {
            return false;
        }
        if !(col.offset <= t.row_width && t.row_width - col.offset >= col.width) {
            return false;
        }
        c = c + 1;
    }
    true
}

/// Decides whether a stream header is valid for a buffer length.
pub fn check_header(h: &Header, buf_len: usize) -> (r: bool)
    ensures
        r == header_wf(*h, buf_len as nat),
{
    if h.tables.len() != NUM_TABLES {
        return false;
    }
    if !(h.strings_base <= buf_len && buf_len - h.strings_base >= h.strings_len) {
        return false;
    }
    let mut t: usize = 0;
    while t < h.tables.len()
        invariant
            0 <= t <= h.tables@.len(),
            forall|j: int| 0 <= j < t ==> table_wf(#[trigger] h.tables@[j], buf_len as nat),
        decreases h.tables@.len() - t,
    {
        if !check_table(&h.tables[t], buf_len) {
            return false;
        }
        t = t + 1;
    }
    true
}

/// Splits a coded index value into its target-table tag, held in the low
/// `tag_bits` bits, and the row index held in the remaining bits. A tag at
/// or above the number of target tables of the kind is a decode error,
/// never a guess at a table.
pub fn split_coded_index(value: u32, tag_bits: u32, num_targets: u32) -> (r: Result<
    (u32, u32),
    Error,
>)
    requires
        tag_bits <= 8,
    ensures
        value % (1u32 << tag_bits) < num_targets ==> r == Ok::<(u32, u32), Error>(
            (value % (1u32 << tag_bits), value / (1u32 << tag_bits)),
        ),
        value % (1u32 << tag_bits) >= num_targets ==> r == Err::<(u32, u32), Error>(Error::Decode),
{
    let m = 1u32 << tag_bits;
    proof {
        assert(1u32 << tag_bits >= 1u32) by (bit_vector)
            requires
                tag_bits <= 8,
        ;
    }
    let tag = value % m;
    if tag < num_targets {
        Ok((tag, value / m))
    } else {
        Err(Error::Decode)
    }
}

} // verus!
