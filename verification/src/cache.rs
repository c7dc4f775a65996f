//! The cross-database cache: an append-only collection of databases and a
//! namespace/name index over their type-definition rows.
//!
//! Registration is first-wins: once a (namespace, name) pair is bound to a
//! row, rows met later — in the same database or in one registered later —
//! are silently not indexed under that pair. The database collection only
//! ever grows at the back, so references to earlier entries stay valid
//! across further insertions.

use vstd::prelude::*;

use crate::bytes::bytes_eq;
use crate::database::{
    str_cell_ok, str_cell_val, Database, Row, TYPEDEF_NAME_COL, TYPEDEF_NAMESPACE_COL,
};
use crate::error::Error;
use crate::schema::{table_index, TableKind};

verus! {

/// The number of type-definition rows of a database.
pub open spec fn typedef_count(db: Database) -> int {
    db.row_count_of(TableKind::TypeDef)
}

/// Whether the namespace and name columns of type-definition row `i` can
/// both be decoded.
pub open spec fn row_names_ok(db: Database, i: int) -> bool {
    &&& TYPEDEF_NAMESPACE_COL < db.info_of(TableKind::TypeDef).columns@.len()
    &&& str_cell_ok(db, TableKind::TypeDef, i, TYPEDEF_NAME_COL as int)
    &&& str_cell_ok(db, TableKind::TypeDef, i, TYPEDEF_NAMESPACE_COL as int)
}

/// The namespace string of type-definition row `i`.
pub open spec fn row_ns(db: Database, i: int) -> Seq<u8> {
    str_cell_val(db, TableKind::TypeDef, i, TYPEDEF_NAMESPACE_COL as int)
}

/// The name string of type-definition row `i`.
pub open spec fn row_nm(db: Database, i: int) -> Seq<u8> {
    str_cell_val(db, TableKind::TypeDef, i, TYPEDEF_NAME_COL as int)
}

/// The mathematical content of one index entry: a (namespace, name) pair
/// bound to one type-definition row of one registered database.
pub ghost struct EntryModel {
    pub namespace: Seq<u8>,
    pub name: Seq<u8>,
    pub db_index: int,
    pub row_index: int,
}

impl EntryModel {
    /// Whether this entry is bound to the given (namespace, name) pair.
    pub open spec fn matches(self, ns: Seq<u8>, nm: Seq<u8>) -> bool {
        self.namespace == ns && self.name == nm
    }
}

/// One stored index entry.
pub struct CacheEntry {
    pub namespace: Vec<u8>,
    pub name: Vec<u8>,
    pub db_index: usize,
    pub row_index: usize,
}

impl View for CacheEntry {
    type V = EntryModel;

    open spec fn view(&self) -> EntryModel {
        EntryModel {
            namespace: self.namespace@,
            name: self.name@,
            db_index: self.db_index as int,
            row_index: self.row_index as int,
        }
    }
}

/// The models of a stored entry sequence.
pub open spec fn entry_models(s: Seq<CacheEntry>) -> Seq<EntryModel> {
    s.map_values(|e: CacheEntry| e@)
}

/// The first entry at or after position `i` bound to (ns, nm), if any.
pub open spec fn lookup_from(entries: Seq<EntryModel>, ns: Seq<u8>, nm: Seq<u8>, i: int) -> Option<
    EntryModel,
>
    decreases entries.len() - i,
{
    if i < 0 || i >= entries.len() {
        None
    } else if entries[i].matches(ns, nm) {
        Some(entries[i])
    } else {
        lookup_from(entries, ns, nm, i + 1)
    }
}

/// The entry the index binds to (ns, nm): the earliest registered one.
pub open spec fn lookup(entries: Seq<EntryModel>, ns: Seq<u8>, nm: Seq<u8>) -> Option<EntryModel> {
    lookup_from(entries, ns, nm, 0)
}

/// The index after registering the first `n` type-definition rows of `db`
/// as database number `dbi`, first registration winning: a row whose pair
/// is already bound — by an older entry or by an earlier row of `db` — is
/// skipped.
pub open spec fn register(entries: Seq<EntryModel>, db: Database, dbi: int, n: int) -> Seq<
    EntryModel,
>
    decreases n,
{
    if n <= 0 {
        entries
    } else {
        let prev = register(entries, db, dbi, n - 1);
        if lookup(prev, row_ns(db, n - 1), row_nm(db, n - 1)) is Some {
            prev
        } else {
            prev.push(
                EntryModel {
                    namespace: row_ns(db, n - 1),
                    name: row_nm(db, n - 1),
                    db_index: dbi,
                    row_index: n - 1,
                },
            )
        }
    }
}

/// The first row among the first `n` type-definition rows of `db` whose
/// decoded names are (ns, nm), if any.
pub open spec fn first_def(db: Database, n: int, ns: Seq<u8>, nm: Seq<u8>) -> Option<int>
    decreases n,
{
    if n <= 0 {
        None
    } else {
        match first_def(db, n - 1, ns, nm) {
            Some(i) => Some(i),
            None => if row_ns(db, n - 1) == ns && row_nm(db, n - 1) == nm {
                Some(n - 1)
            } else {
                None
            },
        }
    }
}

/// An entry is well formed against a database list when it points at a
/// valid type-definition row of a listed database and carries exactly that
/// row's decoded namespace and name.
pub open spec fn entry_wf(m: EntryModel, dbs: Seq<Database>) -> bool {
    &&& 0 <= m.db_index < dbs.len()
    &&& dbs[m.db_index].wf()
    &&& 0 <= m.row_index < typedef_count(dbs[m.db_index])
    &&& row_names_ok(dbs[m.db_index], m.row_index)
    &&& m.namespace == row_ns(dbs[m.db_index], m.row_index)
    &&& m.name == row_nm(dbs[m.db_index], m.row_index)
}

#[verifier::external_type_specification]
#[verifier::external_body]
#[verifier::reject_recursive_types(T)]
pub struct ExFrozenVec<T>(elsa::FrozenVec<T>);

/// The databases a frozen vector holds, in insertion order.
pub uninterp spec fn frozen_elems(v: elsa::FrozenVec<Box<Database>>) -> Seq<Database>;

/// Relies on elsa::FrozenVec::new: constructs an empty vector.
#[verifier::external_body]
fn frozen_new() -> (v: elsa::FrozenVec<Box<Database>>)
    ensures
        frozen_elems(v) == Seq::<Database>::empty(),
{
    elsa::FrozenVec::new()
}

/// Relies on elsa::FrozenVec::push: appends one element at the back and
/// moves no existing element.
#[verifier::external_body]
fn frozen_push(v: &mut elsa::FrozenVec<Box<Database>>, db: Database)
    ensures
        frozen_elems(*final(v)) == frozen_elems(*old(v)).push(db),
{
    v.push(Box::new(db));
}

/// Relies on elsa::FrozenVec::len: the number of elements held.
#[verifier::external_body]
fn frozen_len(v: &elsa::FrozenVec<Box<Database>>) -> (n: usize)
    ensures
        n == frozen_elems(*v).len(),
{
    v.len()
}

/// Relies on elsa::FrozenVec::get: a reference to the element at `i`,
/// which stays valid however the vector later grows.
#[verifier::external_body]
fn frozen_get<'a>(v: &'a elsa::FrozenVec<Box<Database>>, i: usize) -> (r: &'a Database)
    requires
        i < frozen_elems(*v).len(),
    ensures
        *r == frozen_elems(*v)[i as int],
{
    v.get(i).unwrap()
}

/// Owns a growing, append-only collection of databases and the
/// namespace/name index over their type definitions.
pub struct Cache {
    pub databases: elsa::FrozenVec<Box<Database>>,
    pub entries: Vec<CacheEntry>,
}

impl Cache {
    /// The registered databases, in insertion order.
    pub open spec fn dbs(self) -> Seq<Database> {
        frozen_elems(self.databases)
    }

    /// The index entries, in registration order.
    pub open spec fn index(self) -> Seq<EntryModel> {
        entry_models(self.entries@)
    }

    /// Every index entry points at a valid row of a registered database and
    /// carries that row's decoded names.
    pub open spec fn wf(self) -> bool {
        forall|j: int| 0 <= j < self.index().len() ==> entry_wf(#[trigger] self.index()[j], self.dbs())
    }

    /// An empty cache: no databases, no index entries.
    pub fn new() -> (c: Cache)
        ensures
            c.dbs() == Seq::<Database>::empty(),
            c.index() == Seq::<EntryModel>::empty(),
            c.wf(),
    {
        let c = Cache { databases: frozen_new(), entries: Vec::new() };
        proof {
            assert(c.index() =~= Seq::<EntryModel>::empty());
        }
        c
    }

    /// The number of registered databases.
    pub fn len(&self) -> (n: usize)
        ensures
            n == self.dbs().len(),
    {
        frozen_len(&self.databases)
    }

    /// A reference to the database registered as number `i`. The reference
    /// stays valid for the cache's whole lifetime: the collection is
    /// append-only and never moves an element.
    pub fn database<'a>(&'a self, i: usize) -> (r: Option<&'a Database>)
        ensures
            i < self.dbs().len() ==> (r matches Some(db) && *db == self.dbs()[i as int]),
            i >= self.dbs().len() ==> r is None,
    {
        if i < frozen_len(&self.databases) {
            Some(frozen_get(&self.databases, i))
        } else {
            None
        }
    }

    /// Looks up the type definition bound to (namespace, name): the row of
    /// the earliest registration, or nothing if no registered database
    /// defines the pair. Lookup never touches the databases themselves.
    pub fn find<'a>(&'a self, namespace: &[u8], name: &[u8]) -> (r: Option<Row<'a>>)
        requires
            self.wf(),
        ensures
            (match lookup(self.index(), namespace@, name@) {
                Some(e) => (r matches Some(row) && *row.db == self.dbs()[e.db_index] && row.kind
                    == TableKind::TypeDef && row.index as int == e.row_index && row.valid()
                    && row_ns(*row.db, row.index as int) == namespace@ && row_nm(
                    *row.db,
                    row.index as int,
                ) == name@),
                None => r is None,
            }),
    {
        let n = self.entries.len();
        let mut j: usize = 0;
        while j < n
            invariant
                self.wf(),
                n == self.entries@.len(),
                0 <= j <= n,
                lookup(self.index(), namespace@, name@) == lookup_from(
                    self.index(),
                    namespace@,
                    name@,
                    j as int,
                ),
            decreases n - j,
        {
            proof {
                assert(self.index()[j as int] == self.entries@[j as int]@);
            }
            let e = &self.entries[j];
            if bytes_eq(e.namespace.as_slice(), namespace) && bytes_eq(e.name.as_slice(), name) {
                proof {
                    assert(entry_wf(self.index()[j as int], self.dbs()));
                }
                let db = frozen_get(&self.databases, e.db_index);
                return Some(Row { db, kind: TableKind::TypeDef, index: e.row_index });
            }
            j = j + 1;
        }
        None
    }
}

impl Cache {
    /// Registers a database: appends it to the database collection, then
    /// scans its type-definition rows in table order and binds each row's
    /// (namespace, name) pair, first registration winning. A row whose
    /// namespace or name cannot be decoded fails the whole insert with a
    /// decode error and leaves the cache unchanged: a database is indexed
    /// completely or not at all. On success the result is the database's
    /// position, which `database` serves for the cache's whole lifetime.
    pub fn insert(&mut self, database: Database) -> (r: Result<usize, Error>)
        requires
            old(self).wf(),
            database.wf(),
        ensures
            final(self).wf(),
            r matches Ok(idx) ==> (idx == old(self).dbs().len() && final(self).dbs() == old(
                self,
            ).dbs().push(database) && final(self).index() == register(
                old(self).index(),
                database,
                idx as int,
                typedef_count(database),
            )),
            (r is Ok <==> (forall|i: int|
                0 <= i < typedef_count(database) ==> #[trigger] row_names_ok(database, i))),
            r is Err ==> (r == Err::<usize, Error>(Error::Decode) && *final(self) == *old(self)),
    {
        let count = database.table(TableKind::TypeDef).size();
        let idx = frozen_len(&self.databases);
        let mut names: Vec<CacheEntry> = Vec::new();
        let mut i: usize = 0;
        while i < count
            invariant
                *self == *old(self),
                self.wf(),
                database.wf(),
                count == typedef_count(database),
                idx == old(self).dbs().len(),
                0 <= i <= count,
                names@.len() == i,
                forall|j: int| 0 <= j < i ==> #[trigger] row_names_ok(database, j),
                forall|j: int|
                    0 <= j < i ==> ((#[trigger] names@[j])@.namespace == row_ns(database, j)
                        && names@[j]@.name == row_nm(database, j) && names@[j]@.db_index
                        == idx as int && names@[j]@.row_index == j),
            decreases count - i,
        {
            let row = Row { db: &database, kind: TableKind::TypeDef, index: i };
            let nsv = match row.str_cell(TYPEDEF_NAMESPACE_COL) {
                Ok(v) => v,
                Err(_) => {
                    proof {
                        assert(!row_names_ok(database, i as int));
                    }
                    return Err(Error::Decode);
                },
            };
            let nmv = match row.str_cell(TYPEDEF_NAME_COL) {
                Ok(v) => v,
                Err(_) => {
                    proof {
                        assert(!row_names_ok(database, i as int));
                    }
                    return Err(Error::Decode);
                },
            };
            names.push(CacheEntry { namespace: nsv, name: nmv, db_index: idx, row_index: i });
            i = i + 1;
        }
        let ghost old_dbs = old(self).dbs();
        let ghost old_index = old(self).index();
        let ghost all_names = names@;
        frozen_push(&mut self.databases, database);
        proof {
            assert forall|j: int| 0 <= j < old_index.len() implies entry_wf(
                #[trigger] old_index[j],
                frozen_elems(self.databases),
            ) by {
                assert(entry_wf(old_index[j], old_dbs));
                assert(frozen_elems(self.databases)[old_index[j].db_index] == old_dbs[old_index[j].db_index]);
            }
        }
        let mut k: usize = 0;
        while k < count
            invariant
                database.wf(),
                count == typedef_count(database),
                0 <= k <= count,
                idx == old_dbs.len(),
                frozen_elems(self.databases) == old_dbs.push(database),
                names@ == all_names.subrange(k as int, count as int),
                all_names.len() == count,
                forall|j: int| 0 <= j < count ==> #[trigger] row_names_ok(database, j),
                forall|j: int|
                    0 <= j < count ==> ((#[trigger] all_names[j])@.namespace == row_ns(database, j)
                        && all_names[j]@.name == row_nm(database, j) && all_names[j]@.db_index
                        == idx as int && all_names[j]@.row_index == j),
                entry_models(self.entries@) == register(old_index, database, idx as int, k as int),
                forall|j: int|
                    0 <= j < entry_models(self.entries@).len() ==> entry_wf(
                        #[trigger] entry_models(self.entries@)[j],
                        frozen_elems(self.databases),
                    ),
            decreases count - k,
        {
            let e = names.remove(0);
            proof {
                assert(e == all_names[k as int]);
                assert(names@ =~= all_names.subrange(k + 1, count as int));
            }
            if !index_has(&self.entries, e.namespace.as_slice(), e.name.as_slice()) {
                let ghost prev = entry_models(self.entries@);
                self.entries.push(e);
                proof {
                    assert(entry_models(self.entries@) =~= prev.push(e@));
                    assert(entry_models(self.entries@) == register(
                        old_index,
                        database,
                        idx as int,
                        k + 1,
                    ));
                    assert(frozen_elems(self.databases)[idx as int] == database);
                    assert(entry_wf(e@, frozen_elems(self.databases)));
                }
            } else {
                proof {
                    assert(entry_models(self.entries@) == register(
                        old_index,
                        database,
                        idx as int,
                        k + 1,
                    ));
                }
            }
            k = k + 1;
        }
        Ok(idx)
    }
}

impl Default for Cache {
    /// An empty cache, as `new` builds it.
    fn default() -> (c: Cache)
        ensures
            c.dbs() == Seq::<Database>::empty(),
            c.index() == Seq::<EntryModel>::empty(),
            c.wf(),
    {
        Cache::new()
    }
}

/// Appending an entry changes no earlier binding: a pair already bound
/// keeps its entry, and an unbound pair gains the new entry only if the
/// new entry carries it.
proof fn lemma_lookup_from_push(e: Seq<EntryModel>, x: EntryModel, ns: Seq<u8>, nm: Seq<u8>, i: int)
    requires
        0 <= i <= e.len(),
    ensures
        lookup_from(e.push(x), ns, nm, i) == (match lookup_from(e, ns, nm, i) {
            Some(y) => Some(y),
            None => if x.matches(ns, nm) {
                Some(x)
            } else {
                None
            },
        }),
    decreases e.len() - i,
{
    if i < e.len() {
        assert(e.push(x)[i] == e[i]);
        lemma_lookup_from_push(e, x, ns, nm, i + 1);
    } else {
        assert(e.push(x)[i] == x);
        assert(lookup_from(e, ns, nm, i) is None);
        assert(lookup_from(e.push(x), ns, nm, i + 1) is None);
    }
}

/// What lookup returns is bound to the pair that was asked for.
proof fn lemma_lookup_from_matches(e: Seq<EntryModel>, ns: Seq<u8>, nm: Seq<u8>, i: int)
    requires
        0 <= i,
    ensures
        (match lookup_from(e, ns, nm, i) {
            Some(y) => y.matches(ns, nm),
            None => true,
        }),
    decreases e.len() - i,
{
    if i < e.len() && !e[i].matches(ns, nm) {
        lemma_lookup_from_matches(e, ns, nm, i + 1);
    }
}

/// What registration does to any one lookup: a pair already bound keeps
/// its entry untouched, and an unbound pair becomes bound exactly when the
/// registered database defines it, to its first defining row.
pub proof fn lemma_register_lookup(
    e: Seq<EntryModel>,
    db: Database,
    dbi: int,
    n: int,
    ns: Seq<u8>,
    nm: Seq<u8>,
)
    requires
        n >= 0,
    ensures
        lookup(register(e, db, dbi, n), ns, nm) == (match lookup(e, ns, nm) {
            Some(y) => Some(y),
            None => match first_def(db, n, ns, nm) {
                Some(i) => Some(
                    EntryModel { namespace: ns, name: nm, db_index: dbi, row_index: i },
                ),
                None => None,
            },
        }),
    decreases n,
{
    if n > 0 {
        lemma_register_lookup(e, db, dbi, n - 1, ns, nm);
        let prev = register(e, db, dbi, n - 1);
        let rns = row_ns(db, n - 1);
        let rnm = row_nm(db, n - 1);
        lemma_register_lookup(e, db, dbi, n - 1, rns, rnm);
        if lookup(prev, rns, rnm) is None {
            let x = EntryModel { namespace: rns, name: rnm, db_index: dbi, row_index: n - 1 };
            lemma_lookup_from_push(prev, x, ns, nm, 0);
        }
    }
}

/// A row defines its own pair, so the first definition of that pair among
/// any longer prefix of rows exists.
proof fn lemma_first_def_exists(db: Database, n: int, i: int)
    requires
        0 <= i < n,
    ensures
        first_def(db, n, row_ns(db, i), row_nm(db, i)) is Some,
    decreases n,
{
    if i < n - 1 {
        lemma_first_def_exists(db, n - 1, i);
    }
}

/// Round trip: once a database's type definitions are registered, looking
/// up the namespace and name decoded from any of its rows finds an entry,
/// and that entry carries exactly the names asked for. If the pair was not
/// bound before and row `i` is its first definition in the database, the
/// entry is that very row of that very database.
pub proof fn lemma_insert_round_trip(
    e: Seq<EntryModel>,
    db: Database,
    dbi: int,
    n: int,
    i: int,
)
    requires
        0 <= i < n,
    ensures
        lookup(register(e, db, dbi, n), row_ns(db, i), row_nm(db, i)) is Some,
        (match lookup(register(e, db, dbi, n), row_ns(db, i), row_nm(db, i)) {
            Some(y) => y.namespace == row_ns(db, i) && y.name == row_nm(db, i),
            None => false,
        }),
        lookup(e, row_ns(db, i), row_nm(db, i)) is None && first_def(
            db,
            n,
            row_ns(db, i),
            row_nm(db, i),
        ) == Some(i) ==> lookup(register(e, db, dbi, n), row_ns(db, i), row_nm(db, i)) == Some(
            EntryModel {
                namespace: row_ns(db, i),
                name: row_nm(db, i),
                db_index: dbi,
                row_index: i,
            },
        ),
{
    let ns = row_ns(db, i);
    let nm = row_nm(db, i);
    lemma_register_lookup(e, db, dbi, n, ns, nm);
    lemma_first_def_exists(db, n, i);
    lemma_lookup_from_matches(e, ns, nm, 0);
}

/// First registration wins across databases: a pair not bound beforehand
/// and first defined by row `i` of database `a` stays bound to that row
/// after any second database is registered, even one that defines the
/// same pair.
pub proof fn lemma_first_registration_wins(
    e: Seq<EntryModel>,
    a: Database,
    ai: int,
    na: int,
    b: Database,
    bi: int,
    nb: int,
    ns: Seq<u8>,
    nm: Seq<u8>,
    i: int,
)
    requires
        na >= 0,
        nb >= 0,
        lookup(e, ns, nm) is None,
        first_def(a, na, ns, nm) == Some(i),
    ensures
        lookup(register(register(e, a, ai, na), b, bi, nb), ns, nm) == Some(
            EntryModel { namespace: ns, name: nm, db_index: ai, row_index: i },
        ),
{
    lemma_register_lookup(e, a, ai, na, ns, nm);
    lemma_register_lookup(register(e, a, ai, na), b, bi, nb, ns, nm);
}

/// The database collection is append-only: registering one more database
/// keeps every earlier database at its index, so nothing already handed
/// out is invalidated by growth.
pub proof fn lemma_append_only(dbs: Seq<Database>, db: Database, j: int)
    requires
        0 <= j < dbs.len(),
    ensures
        dbs.push(db).len() == dbs.len() + 1,
        dbs.push(db)[j] == dbs[j],
{
}

/// Whether the stored index already binds (namespace, name).
fn index_has(entries: &Vec<CacheEntry>, namespace: &[u8], name: &[u8]) -> (b: bool)
    ensures
        b == (lookup(entry_models(entries@), namespace@, name@) is Some),
{
    let n = entries.len();
    let mut j: usize = 0;
    while j < n
        invariant
            n == entries@.len(),
            0 <= j <= n,
            lookup(entry_models(entries@), namespace@, name@) == lookup_from(
                entry_models(entries@),
                namespace@,
                name@,
                j as int,
            ),
        decreases n - j,
    {
        proof {
            assert(entry_models(entries@)[j as int] == entries@[j as int]@);
        }
        let e = &entries[j];
        if bytes_eq(e.namespace.as_slice(), namespace) && bytes_eq(e.name.as_slice(), name) {
            return true;
        }
        j = j + 1;
    }
    false
}

} // verus!
