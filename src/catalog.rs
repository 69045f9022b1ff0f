//! Database and table metadata: a read-only system tier, a mutable user tier
//! persisted in the versioned store, and the facade that joins them.
use vstd::prelude::*;

use crate::error::{ErrorKind, MetaError};
use crate::store::{KeyView, StoreError, StoreKey, VersionedStore};

verus! {

/// First id of the system tier; the tier is `[SYSTEM_ID_BEGIN, USER_ID_BEGIN)`.
pub const SYSTEM_ID_BEGIN: u64 = 1;

/// First id of the user tier; the tier is `[USER_ID_BEGIN, u64::MAX)`.
pub const USER_ID_BEGIN: u64 = 4294967296;

/// Whether `id` belongs to the system tier.
pub open spec fn is_system_id(id: u64) -> bool {
    SYSTEM_ID_BEGIN <= id < USER_ID_BEGIN
}

/// Whether `id` belongs to the user tier.
pub open spec fn is_user_id(id: u64) -> bool {
    USER_ID_BEGIN <= id
}

#[derive(Debug)]
pub struct DatabaseMeta {
    pub id: u64,
    pub name: String,
    pub engine: String,
}

/// A database as plain values: id, name, engine.
pub type DbView = (u64, Seq<char>, Seq<char>);

impl View for DatabaseMeta {
    type V = DbView;

    open spec fn view(&self) -> DbView {
        (self.id, self.name@, self.engine@)
    }
}

impl DatabaseMeta {
    pub fn new(id: u64, name: &str, engine: &str) -> (r: DatabaseMeta)
        ensures
            r@ == (id, name@, engine@),
    {
        DatabaseMeta { id, name: name.to_owned(), engine: engine.to_owned() }
    }

    pub fn copy(&self) -> (r: DatabaseMeta)
        ensures
            r@ == self@,
    {
        DatabaseMeta { id: self.id, name: self.name.clone(), engine: self.engine.clone() }
    }
}

#[derive(Debug)]
pub struct TableMeta {
    pub id: u64,
    pub database_id: u64,
    pub name: String,
    pub engine: String,
}

/// A table as plain values: id, owning database id, name, engine.
pub type TableView = (u64, u64, Seq<char>, Seq<char>);

impl View for TableMeta {
    type V = TableView;

    open spec fn view(&self) -> TableView {
        (self.id, self.database_id, self.name@, self.engine@)
    }
}

impl TableMeta {
    pub fn new(id: u64, database_id: u64, name: &str, engine: &str) -> (r: TableMeta)
        ensures
            r@ == (id, database_id, name@, engine@),
    {
        TableMeta { id, database_id, name: name.to_owned(), engine: engine.to_owned() }
    }

    pub fn copy(&self) -> (r: TableMeta)
        ensures
            r@ == self@,
    {
        TableMeta {
            id: self.id,
            database_id: self.database_id,
            name: self.name.clone(),
            engine: self.engine.clone(),
        }
    }
}

/// Bound on compare-and-set attempts when advancing the id counter.
pub const ID_ALLOC_ATTEMPTS: u64 = 3;

/// The store key of the id counter.
pub open spec fn id_key() -> KeyView {
    (0, "object_id"@, Seq::<char>::empty())
}

/// The store key of the user database `name`.
pub open spec fn db_key(name: Seq<char>) -> KeyView {
    (0, name, Seq::<char>::empty())
}

/// The store key of table `name` in the database with id `db_id`.  Ids are
/// never reused, so the tables of a dropped database stay out of reach of
/// any later database of the same name.
pub open spec fn table_key(db_id: u64, name: Seq<char>) -> KeyView {
    (db_id, name, Seq::<char>::empty())
}

/// The outcome of `create_database(name, engine)` from `before` to `after`.
pub open spec fn created_database(
    before: MutableCatalog,
    after: MutableCatalog,
    name: Seq<char>,
    engine: Seq<char>,
    r: Result<DatabaseMeta, MetaError>,
) -> bool {
    let k = db_key(name);
    &&& after.next_object_id() >= before.next_object_id()
    &&& after.table_records() == before.table_records()
    &&& before.db_records().contains_key(k) ==> (r matches Err(e) && e.kind == ErrorKind::AlreadyExists)
    &&& r matches Ok(d) ==> {
        &&& !before.db_records().contains_key(k)
        &&& d@ == (before.next_object_id(), name, engine)
        &&& after.next_object_id() == d.id + 1
        &&& after.db_records().contains_key(k)
        &&& after.db_records()[k].0@ == d@
        &&& after.db_records().remove(k) == before.db_records()
    }
    &&& r matches Err(e) ==> {
        &&& after.db_records() == before.db_records()
        &&& (e.kind == ErrorKind::AlreadyExists) == before.db_records().contains_key(k)
        &&& (e.kind == ErrorKind::AllocationExhausted) == !before.db_records().contains_key(k)
    }
    &&& (!before.db_records().contains_key(k) && before.next_object_id() < u64::MAX
        && before.id_versions_left() && before.db_versions_left()) ==> r is Ok
}

/// The outcome of `drop_database(name, if_exists)` from `before` to `after`.
pub open spec fn dropped_database(
    before: MutableCatalog,
    after: MutableCatalog,
    name: Seq<char>,
    if_exists: bool,
    r: Result<(), MetaError>,
) -> bool {
    let k = db_key(name);
    &&& after.next_object_id() == before.next_object_id()
    &&& after.table_records() == before.table_records()
    &&& before.db_records().contains_key(k) ==> r is Ok && after.db_records() == before.db_records().remove(k)
    &&& !before.db_records().contains_key(k) ==> {
        &&& after.db_records() == before.db_records()
        &&& r is Ok <==> if_exists
        &&& r matches Err(e) ==> e.kind == ErrorKind::NotFound
    }
}

/// `v` lists each stored database once, as it is stored.
pub open spec fn lists_databases(m: Map<KeyView, (DatabaseMeta, u64)>, v: Seq<DatabaseMeta>) -> bool {
    &&& v.len() == m.len()
    &&& forall|i: int| 0 <= i < v.len() ==> #[trigger] m.contains_key(db_key(v[i].name@))
        && m[db_key(v[i].name@)].0@ == v[i]@
    &&& forall|a: int, b: int| 0 <= a < b < v.len() ==> v[a].name@ != v[b].name@
    &&& forall|k: KeyView| #[trigger] m.contains_key(k) ==> exists|i: int| 0 <= i < v.len() && k == db_key(v[i].name@)
}

/// Whether user database `db` exists and holds table `name`.
pub open spec fn has_table(c: MutableCatalog, db: Seq<char>, name: Seq<char>) -> bool {
    c.db_records().contains_key(db_key(db)) && c.table_records().contains_key(table_key_in(c, db, name))
}

/// The key of table `name` under the current database named `db`.
pub open spec fn table_key_in(c: MutableCatalog, db: Seq<char>, name: Seq<char>) -> KeyView {
    table_key(c.db_records()[db_key(db)].0.id, name)
}

/// The outcome of `create_table(db, name, engine)` from `before` to `after`.
pub open spec fn created_table(
    before: MutableCatalog,
    after: MutableCatalog,
    db: Seq<char>,
    name: Seq<char>,
    engine: Seq<char>,
    r: Result<TableMeta, MetaError>,
) -> bool {
    let k = table_key_in(before, db, name);
    &&& after.next_object_id() >= before.next_object_id()
    &&& after.db_records() == before.db_records()
    &&& !before.db_records().contains_key(db_key(db)) ==> (r matches Err(e) && e.kind == ErrorKind::NotFound)
    &&& has_table(before, db, name) ==> (r matches Err(e) && e.kind == ErrorKind::AlreadyExists)
    &&& r matches Ok(t) ==> {
        &&& before.db_records().contains_key(db_key(db))
        &&& !has_table(before, db, name)
        &&& t@ == (before.next_object_id(), before.db_records()[db_key(db)].0.id, name, engine)
        &&& after.next_object_id() == t.id + 1
        &&& after.table_records().contains_key(k)
        &&& after.table_records()[k].0@ == t@
        &&& after.table_records().remove(k) == before.table_records()
    }
    &&& r is Err ==> after.table_records() == before.table_records()
    &&& (before.db_records().contains_key(db_key(db)) && !has_table(before, db, name)
        && before.next_object_id() < u64::MAX && before.id_versions_left()
        && before.table_versions_left()) ==> r is Ok
}

/// The outcome of `rename_table(db, name, new_name)` from `before` to `after`.
pub open spec fn renamed_table(
    before: MutableCatalog,
    after: MutableCatalog,
    db: Seq<char>,
    name: Seq<char>,
    new_name: Seq<char>,
    r: Result<(), MetaError>,
) -> bool {
    let k = table_key_in(before, db, name);
    let nk = table_key_in(before, db, new_name);
    let t = before.table_records()[k].0@;
    &&& !has_table(before, db, name) ==> (r matches Err(e) && e.kind == ErrorKind::NotFound)
        && after.table_records() == before.table_records()
    &&& has_table(before, db, name) && has_table(before, db, new_name) ==>
        (r matches Err(e) && e.kind == ErrorKind::AlreadyExists) && after.table_records() == before.table_records()
    &&& r is Ok ==> {
        &&& has_table(before, db, name)
        &&& !has_table(before, db, new_name)
        &&& after.table_records().contains_key(nk)
        &&& after.table_records()[nk].0@ == (t.0, t.1, new_name, t.3)
        &&& after.table_records().remove(nk) == before.table_records().remove(k)
    }
    &&& (has_table(before, db, name) && !has_table(before, db, new_name)) ==> {
        ||| r is Ok
        ||| (r matches Err(e) && e.kind == ErrorKind::AllocationExhausted
            && after.table_records() == before.table_records().remove(k))
    }
    &&& (has_table(before, db, name) && !has_table(before, db, new_name)
        && before.table_versions_left()) ==> r is Ok
}

/// `v` lists the built-in databases in their fixed order, then each user
/// database of `user` once.
pub open spec fn lists_catalog(user: MutableCatalog, v: Seq<DatabaseMeta>) -> bool {
    &&& v.len() == system_databases().len() + user.db_records().len()
    &&& forall|i: int| 0 <= i < system_databases().len() ==> #[trigger] v[i]@ == system_databases()[i]
    &&& lists_databases(user.db_records(), v.subrange(system_databases().len() as int, v.len() as int))
}

/// The user tier: databases and tables persisted in versioned stores, with
/// ids drawn from a counter that only grows.
pub struct MutableCatalog {
    databases: VersionedStore<DatabaseMeta>,
    tables: VersionedStore<TableMeta>,
    ids: VersionedStore<u64>,
}

impl MutableCatalog {
    pub closed spec fn wf(&self) -> bool {
        &&& self.databases.wf()
        &&& self.tables.wf()
        &&& self.ids.wf()
        &&& forall|k: KeyView| #[trigger] self.ids@.contains_key(k) ==> k == id_key() && USER_ID_BEGIN <= self.ids@[k].0
        &&& forall|k: KeyView| #[trigger] self.databases@.contains_key(k) ==> {
            &&& k == db_key(self.databases@[k].0.name@)
            &&& USER_ID_BEGIN <= self.databases@[k].0.id < self.next_object_id()
        }
        &&& forall|k: KeyView| #[trigger] self.tables@.contains_key(k) ==> {
            &&& k == table_key(self.tables@[k].0.database_id, self.tables@[k].0.name@)
            &&& USER_ID_BEGIN <= self.tables@[k].0.id < self.next_object_id()
        }
    }

    /// The stored databases with their versions.
    pub closed spec fn db_records(&self) -> Map<KeyView, (DatabaseMeta, u64)> {
        self.databases@
    }

    /// The stored tables with their versions.
    pub closed spec fn table_records(&self) -> Map<KeyView, (TableMeta, u64)> {
        self.tables@
    }

    /// The id the next created object will receive: the counter's value,
    /// or the start of the user tier before the first allocation.
    pub closed spec fn next_object_id(&self) -> u64 {
        if self.ids@.contains_key(id_key()) {
            self.ids@[id_key()].0
        } else {
            USER_ID_BEGIN
        }
    }

    pub closed spec fn id_versions_left(&self) -> bool {
        self.ids.next_version() < u64::MAX
    }

    pub closed spec fn db_versions_left(&self) -> bool {
        self.databases.next_version() < u64::MAX
    }

    pub closed spec fn table_versions_left(&self) -> bool {
        self.tables.next_version() < u64::MAX
    }

    pub fn new() -> (r: MutableCatalog)
        ensures
            r.wf(),
            r.db_records() == Map::<KeyView, (DatabaseMeta, u64)>::empty(),
            r.table_records() == Map::<KeyView, (TableMeta, u64)>::empty(),
            r.next_object_id() == USER_ID_BEGIN,
            r.db_versions_left(),
            r.table_versions_left(),
            r.id_versions_left(),
    {
        MutableCatalog { databases: VersionedStore::new(), tables: VersionedStore::new(), ids: VersionedStore::new() }
    }

    fn id_store_key() -> (r: StoreKey)
        ensures
            r@ == id_key(),
    {
        proof {
            reveal_strlit("object_id");
            reveal_strlit("");
        }
        StoreKey::new(0, "object_id", "")
    }

    /// Takes the counter's value as a new id and advances the counter by
    /// compare-and-set, rereading and retrying on a lost race up to
    /// `ID_ALLOC_ATTEMPTS` times.
    fn allocate_id(&mut self, context: &str) -> (r: Result<u64, MetaError>)
        requires
            old(self).wf(),
        ensures
            final(self).wf(),
            final(self).databases == old(self).databases,
            final(self).tables == old(self).tables,
            r matches Ok(id) ==> id == old(self).next_object_id() && final(self).next_object_id() == id + 1,
            r matches Err(e) ==> e.kind == ErrorKind::AllocationExhausted && e.context@ == context@
                && final(self).next_object_id() == old(self).next_object_id(),
            (old(self).next_object_id() < u64::MAX && old(self).id_versions_left()) ==> r is Ok,
    {
        let ghost start = *self;
        let mut attempt: u64 = 0;
        while attempt < ID_ALLOC_ATTEMPTS
            invariant
                start == *old(self),
                self.wf(),
                self.databases == start.databases,
                self.tables == start.tables,
                self.next_object_id() == start.next_object_id(),
                self.ids.next_version() == start.ids.next_version(),
                attempt > 0 ==> !(start.next_object_id() < u64::MAX && start.id_versions_left()),
            decreases ID_ALLOC_ATTEMPTS - attempt,
        {
            let key = Self::id_store_key();
            let current = match self.ids.get(&key) {
                Some(e) => Some((e.data, e.seq)),
                None => None,
            };
            match current {
                None => {
                    match self.ids.put_new(key, USER_ID_BEGIN + 1) {
                        Ok(_) => { return Ok(USER_ID_BEGIN); },
                        Err(StoreError::SeqExhausted) => {
                            return Err(MetaError::new(ErrorKind::AllocationExhausted, context));
                        },
                        Err(StoreError::Conflict) => {},
                    }
                },
                Some((cur, seq)) => {
                    if cur == u64::MAX {
                        return Err(MetaError::new(ErrorKind::AllocationExhausted, context));
                    }
                    match self.ids.put_if_version(key, cur + 1, seq) {
                        Ok(_) => { return Ok(cur); },
                        Err(StoreError::SeqExhausted) => {
                            return Err(MetaError::new(ErrorKind::AllocationExhausted, context));
                        },
                        Err(StoreError::Conflict) => {},
                    }
                },
            }
            attempt = attempt + 1;
        }
        Err(MetaError::new(ErrorKind::AllocationExhausted, context))
    }

    fn db_store_key(name: &str) -> (r: StoreKey)
        ensures
            r@ == db_key(name@),
    {
        proof { reveal_strlit(""); }
        StoreKey::new(0, name, "")
    }

    fn table_store_key(db_id: u64, name: &str) -> (r: StoreKey)
        ensures
            r@ == table_key(db_id, name@),
    {
        proof { reveal_strlit(""); }
        StoreKey::new(db_id, name, "")
    }
    /// Creates a user database with the next id of the counter.
    pub fn create_database(&mut self, name: &str, engine: &str) -> (r: Result<DatabaseMeta, MetaError>)
        requires
            old(self).wf(),
        ensures
            final(self).wf(),
            final(self).table_records() == old(self).table_records(),
            final(self).next_object_id() >= old(self).next_object_id(),
            created_database(*old(self), *final(self), name@, engine@, r),
            r matches Err(e) ==> e.context@ == "(while create database)."@,
    {
        let key = Self::db_store_key(name);
        if self.databases.get(&key).is_some() {
            return Err(MetaError::new(ErrorKind::AlreadyExists, "(while create database)."));
        }
        let id = match self.allocate_id("(while create database).") {
            Ok(id) => id,
            Err(e) => { return Err(e); },
        };
        let meta = DatabaseMeta::new(id, name, engine);
        let out = meta.copy();
        match self.databases.put_new(key, meta) {
            Ok(_) => {
                assert(self.databases@.remove(db_key(name@)) =~= old(self).databases@);
                Ok(out)
            },
            Err(e) => Err(MetaError::new(ErrorKind::AllocationExhausted, "(while create database).")),
        }
    }

    /// Looks a user database up by name.
    pub fn get_database(&self, name: &str) -> (r: Result<DatabaseMeta, MetaError>)
        requires
            self.wf(),
        ensures
            r is Ok <==> self.db_records().contains_key(db_key(name@)),
            r matches Ok(d) ==> d@ == self.db_records()[db_key(name@)].0@,
            r matches Err(e) ==> e.kind == ErrorKind::NotFound,
            r matches Err(e) ==> e.context@ == "(while get database)."@,
    {
        let key = Self::db_store_key(name);
        match self.databases.get(&key) {
            Some(e) => Ok(e.data.copy()),
            None => Err(MetaError::new(ErrorKind::NotFound, "(while get database).")),
        }
    }

    /// Looks a user database up by id.
    pub fn get_database_by_id(&self, id: u64) -> (r: Result<DatabaseMeta, MetaError>)
        requires
            self.wf(),
        ensures
            r is Ok <==> exists|k: KeyView| #[trigger] self.db_records().contains_key(k) && self.db_records()[k].0.id == id,
            r matches Ok(d) ==> d.id == id && self.db_records().contains_key(db_key(d.name@))
                && self.db_records()[db_key(d.name@)].0@ == d@,
            r matches Err(e) ==> e.kind == ErrorKind::NotFound,
            r matches Err(e) ==> e.context@ == "(while get database by id)."@,
    {
        let n = self.databases.len();
        let mut i: usize = 0;
        while i < n
            invariant
                self.wf(),
                n == self.db_records().len(),
                i <= n,
                forall|j: int| 0 <= j < i ==> self.db_records()[#[trigger] self.databases.listed(j)].0.id != id,
            decreases n - i,
        {
            let e = self.databases.entry_at(i);
            if e.data.id == id {
                return Ok(e.data.copy());
            }
            i = i + 1;
        }
        assert forall|k: KeyView| #[trigger] self.db_records().contains_key(k) implies self.db_records()[k].0.id != id by {
            self.databases.lemma_listing_covers(k);
            let j = choose|j: int| 0 <= j < self.db_records().len() && self.databases.listed(j) == k;
            assert(self.db_records()[self.databases.listed(j)].0.id != id);
        }
        Err(MetaError::new(ErrorKind::NotFound, "(while get database by id)."))
    }

    /// Drops a user database; with `if_exists`, an absent one is no error.
    pub fn drop_database(&mut self, name: &str, if_exists: bool) -> (r: Result<(), MetaError>)
        requires
            old(self).wf(),
        ensures
            final(self).wf(),
            final(self).table_records() == old(self).table_records(),
            final(self).next_object_id() == old(self).next_object_id(),
            dropped_database(*old(self), *final(self), name@, if_exists, r),
            r matches Err(e) ==> e.context@ == "(while drop database)."@,
    {
        let key = Self::db_store_key(name);
        let seq = match self.databases.get(&key) {
            Some(e) => e.seq,
            None => {
                if if_exists {
                    return Ok(());
                }
                return Err(MetaError::new(ErrorKind::NotFound, "(while drop database)."));
            },
        };
        let deleted = self.databases.delete_if_version(&key, seq);
        // The version was read just above, so the delete cannot conflict.
        assert(deleted is Ok);
        Ok(())
    }

    /// All user databases, in store listing order.
    pub fn list_databases(&self) -> (r: Vec<DatabaseMeta>)
        requires
            self.wf(),
        ensures
            lists_databases(self.db_records(), r@),
    {
        let n = self.databases.len();
        let mut res: Vec<DatabaseMeta> = Vec::new();
        let mut i: usize = 0;
        while i < n
            invariant
                self.wf(),
                n == self.db_records().len(),
                i <= n,
                res@.len() == i,
                forall|j: int| 0 <= j < i ==> self.databases.listed(j) == db_key(#[trigger] res@[j].name@)
                    && self.db_records().contains_key(db_key(res@[j].name@))
                    && self.db_records()[db_key(res@[j].name@)].0@ == res@[j]@,
                forall|a: int, b: int| 0 <= a < b < i ==> res@[a].name@ != res@[b].name@,
            decreases n - i,
        {
            let e = self.databases.entry_at(i);
            let d = e.data.copy();
            assert(self.db_records().contains_key(e.key@));
            assert(e.key@ == db_key(d.name@));
            assert forall|j: int| 0 <= j < i implies res@[j].name@ != d.name@ by {
                assert(self.databases.listed(j) != e.key@);
            }
            let ghost prev = res@;
            res.push(d);
            assert(forall|j: int| 0 <= j < i ==> res@[j] == prev[j]);
            i = i + 1;
        }
        assert forall|k: KeyView| #[trigger] self.db_records().contains_key(k) implies
            exists|j: int| 0 <= j < res@.len() && k == db_key(res@[j].name@) by {
            self.databases.lemma_listing_covers(k);
            let j = choose|j: int| 0 <= j < self.db_records().len() && self.databases.listed(j) == k;
            assert(self.databases.listed(j) == db_key(res@[j].name@));
        }
        res
    }
    fn database_id(&self, db: &str, context: &str) -> (r: Result<u64, MetaError>)
        requires
            self.wf(),
        ensures
            r is Ok <==> self.db_records().contains_key(db_key(db@)),
            r matches Ok(id) ==> id == self.db_records()[db_key(db@)].0.id,
            r matches Err(e) ==> e.kind == ErrorKind::NotFound && e.context@ == context@,
    {
        let key = Self::db_store_key(db);
        match self.databases.get(&key) {
            Some(e) => Ok(e.data.id),
            None => Err(MetaError::new(ErrorKind::NotFound, context)),
        }
    }

    /// Creates table `name` in user database `db`.  The write is a
    /// create-if-absent, so of two racing creators exactly one wins and the
    /// other sees `AlreadyExists`.
    pub fn create_table(&mut self, db: &str, name: &str, engine: &str) -> (r: Result<TableMeta, MetaError>)
        requires
            old(self).wf(),
        ensures
            final(self).wf(),
            final(self).db_records() == old(self).db_records(),
            final(self).next_object_id() >= old(self).next_object_id(),
            created_table(*old(self), *final(self), db@, name@, engine@, r),
            r matches Err(e) ==> e.context@ == "(while create table)."@,
    {
        let db_id = match self.database_id(db, "(while create table).") {
            Ok(id) => id,
            Err(e) => { return Err(e); },
        };
        let key = Self::table_store_key(db_id, name);
        if self.tables.get(&key).is_some() {
            return Err(MetaError::new(ErrorKind::AlreadyExists, "(while create table)."));
        }
        let id = match self.allocate_id("(while create table).") {
            Ok(id) => id,
            Err(e) => { return Err(e); },
        };
        let meta = TableMeta::new(id, db_id, name, engine);
        let out = meta.copy();
        let ghost k = key@;
        match self.tables.put_new(key, meta) {
            Ok(_) => {
                assert(self.tables@.remove(k) =~= old(self).tables@);
                Ok(out)
            },
            Err(StoreError::Conflict) => Err(MetaError::new(ErrorKind::AlreadyExists, "(while create table).")),
            Err(StoreError::SeqExhausted) => Err(MetaError::new(ErrorKind::AllocationExhausted, "(while create table).")),
        }
    }

    /// Looks table `name` of user database `db` up.
    pub fn get_table(&self, db: &str, name: &str) -> (r: Result<TableMeta, MetaError>)
        requires
            self.wf(),
        ensures
            r is Ok <==> has_table(*self, db@, name@),
            r matches Ok(t) ==> t@ == self.table_records()[table_key_in(*self, db@, name@)].0@,
            r matches Err(e) ==> e.kind == ErrorKind::NotFound,
            r matches Err(e) ==> e.context@ == "(while get table)."@,
    {
        let db_id = match self.database_id(db, "(while get table).") {
            Ok(id) => id,
            Err(e) => { return Err(e); },
        };
        let key = Self::table_store_key(db_id, name);
        match self.tables.get(&key) {
            Some(e) => Ok(e.data.copy()),
            None => Err(MetaError::new(ErrorKind::NotFound, "(while get table).")),
        }
    }

    /// Drops table `name` of user database `db`; with `if_exists`, an absent
    /// table is no error.
    pub fn drop_table(&mut self, db: &str, name: &str, if_exists: bool) -> (r: Result<(), MetaError>)
        requires
            old(self).wf(),
        ensures
            final(self).wf(),
            final(self).db_records() == old(self).db_records(),
            final(self).next_object_id() == old(self).next_object_id(),
            has_table(*old(self), db@, name@) ==> r is Ok && final(self).table_records()
                == old(self).table_records().remove(table_key_in(*old(self), db@, name@)),
            !has_table(*old(self), db@, name@) ==> {
                &&& final(self).table_records() == old(self).table_records()
                &&& r is Ok <==> if_exists
                &&& r matches Err(e) ==> e.kind == ErrorKind::NotFound
            },
            r matches Err(e) ==> e.context@ == "(while drop table)."@,
    {
        let db_id = match self.database_id(db, "(while drop table).") {
            Ok(id) => id,
            Err(e) => {
                if if_exists {
                    return Ok(());
                }
                return Err(e);
            },
        };
        let key = Self::table_store_key(db_id, name);
        let seq = match self.tables.get(&key) {
            Some(e) => e.seq,
            None => {
                if if_exists {
                    return Ok(());
                }
                return Err(MetaError::new(ErrorKind::NotFound, "(while drop table)."));
            },
        };
        let deleted = self.tables.delete_if_version(&key, seq);
        // The version was read just above, so the delete cannot conflict.
        assert(deleted is Ok);
        Ok(())
    }

    /// Renames table `name` of user database `db` to `new_name`, keeping its id.
    ///
    /// The rename is two store writes: the old entry is deleted, then the new
    /// one is created.  They are not atomic together: a crash between them
    /// leaves the table under neither name, and if the second write fails the
    /// table is gone.
    pub fn rename_table(&mut self, db: &str, name: &str, new_name: &str) -> (r: Result<(), MetaError>)
        requires
            old(self).wf(),
        ensures
            final(self).wf(),
            final(self).db_records() == old(self).db_records(),
            final(self).next_object_id() == old(self).next_object_id(),
            renamed_table(*old(self), *final(self), db@, name@, new_name@, r),
            r matches Err(e) ==> e.context@ == "(while rename table)."@,
    {
        let db_id = match self.database_id(db, "(while rename table).") {
            Ok(id) => id,
            Err(e) => { return Err(e); },
        };
        let key = Self::table_store_key(db_id, name);
        let new_key = Self::table_store_key(db_id, new_name);
        let (meta, seq) = match self.tables.get(&key) {
            Some(e) => (e.data.copy(), e.seq),
            None => { return Err(MetaError::new(ErrorKind::NotFound, "(while rename table).")); },
        };
        if self.tables.get(&new_key).is_some() {
            return Err(MetaError::new(ErrorKind::AlreadyExists, "(while rename table)."));
        }
        let ghost k = key@;
        let ghost nk = new_key@;
        let deleted = self.tables.delete_if_version(&key, seq);
        // The version was read just above, so the delete cannot conflict.
        assert(deleted is Ok);
        let renamed = TableMeta::new(meta.id, meta.database_id, new_name, meta.engine.as_str());
        match self.tables.put_new(new_key, renamed) {
            Ok(_) => {
                assert(self.tables@.remove(nk) =~= old(self).tables@.remove(k));
                Ok(())
            },
            Err(_) => Err(MetaError::new(ErrorKind::AllocationExhausted, "(while rename table).")),
        }
    }
}


/// The built-in databases: id, name, engine.
pub open spec fn system_databases() -> Seq<DbView> {
    seq![(1u64, "system"@, "SYSTEM"@), (2u64, "information_schema"@, "SYSTEM"@)]
}

/// The built-in tables: id, database id, name, engine.
pub open spec fn system_tables() -> Seq<TableView> {
    seq![
        (3u64, 1u64, "databases"@, "SystemDatabases"@),
        (4u64, 1u64, "tables"@, "SystemTables"@),
        (5u64, 1u64, "users"@, "SystemUsers"@),
        (6u64, 2u64, "schemata"@, "SystemSchemata"@),
    ]
}

/// Whether `name` is the name of a built-in database.
pub open spec fn is_system_db_name(name: Seq<char>) -> bool {
    exists|i: int| 0 <= i < system_databases().len() && system_databases()[i].1 == name
}

/// The read-only system tier, built once from a fixed definition.
pub struct ImmutableCatalog {
    databases: Vec<DatabaseMeta>,
    tables: Vec<TableMeta>,
}

impl ImmutableCatalog {
    pub closed spec fn wf(&self) -> bool {
        &&& self.databases@.len() == system_databases().len()
        &&& forall|i: int| 0 <= i < self.databases@.len() ==> #[trigger] self.databases@[i]@ == system_databases()[i]
        &&& self.tables@.len() == system_tables().len()
        &&& forall|i: int| 0 <= i < self.tables@.len() ==> #[trigger] self.tables@[i]@ == system_tables()[i]
    }

    pub fn new() -> (r: ImmutableCatalog)
        ensures
            r.wf(),
    {
        let mut databases: Vec<DatabaseMeta> = Vec::new();
        databases.push(DatabaseMeta::new(1, "system", "SYSTEM"));
        databases.push(DatabaseMeta::new(2, "information_schema", "SYSTEM"));
        let mut tables: Vec<TableMeta> = Vec::new();
        tables.push(TableMeta::new(3, 1, "databases", "SystemDatabases"));
        tables.push(TableMeta::new(4, 1, "tables", "SystemTables"));
        tables.push(TableMeta::new(5, 1, "users", "SystemUsers"));
        tables.push(TableMeta::new(6, 2, "schemata", "SystemSchemata"));
        ImmutableCatalog { databases, tables }
    }

    /// Looks a built-in database up by name.
    pub fn get_database(&self, name: &str) -> (r: Option<DatabaseMeta>)
        requires
            self.wf(),
        ensures
            r is Some <==> is_system_db_name(name@),
            r matches Some(d) ==> exists|i: int| 0 <= i < system_databases().len() && system_databases()[i] == d@,
            r matches Some(d) ==> d.name@ == name@,
    {
        let n = name.to_owned();
        let mut i: usize = 0;
        while i < self.databases.len()
            invariant
                self.wf(),
                n@ == name@,
                i <= self.databases@.len(),
                forall|j: int| 0 <= j < i ==> system_databases()[j].1 != name@,
            decreases self.databases@.len() - i,
        {
            if self.databases[i].name == n {
                assert(self.databases@[i as int]@ == system_databases()[i as int]);
                return Some(self.databases[i].copy());
            }
            assert(self.databases@[i as int]@ == system_databases()[i as int]);
            i = i + 1;
        }
        None
    }

    /// Looks a built-in database up by id.
    pub fn get_database_by_id(&self, id: u64) -> (r: Option<DatabaseMeta>)
        requires
            self.wf(),
        ensures
            r is Some <==> exists|i: int| 0 <= i < system_databases().len() && system_databases()[i].0 == id,
            r matches Some(d) ==> exists|i: int| 0 <= i < system_databases().len() && system_databases()[i] == d@,
            r matches Some(d) ==> d.id == id,
    {
        let mut i: usize = 0;
        while i < self.databases.len()
            invariant
                self.wf(),
                i <= self.databases@.len(),
                forall|j: int| 0 <= j < i ==> system_databases()[j].0 != id,
            decreases self.databases@.len() - i,
        {
            assert(self.databases@[i as int]@ == system_databases()[i as int]);
            if self.databases[i].id == id {
                return Some(self.databases[i].copy());
            }
            i = i + 1;
        }
        None
    }

    /// Looks a built-in table up by its database id and name.
    pub fn get_table(&self, db_id: u64, name: &str) -> (r: Option<TableMeta>)
        requires
            self.wf(),
        ensures
            r is Some <==> exists|i: int| 0 <= i < system_tables().len()
                && system_tables()[i].1 == db_id && system_tables()[i].2 == name@,
            r matches Some(t) ==> exists|i: int| 0 <= i < system_tables().len() && system_tables()[i] == t@,
            r matches Some(t) ==> t.database_id == db_id && t.name@ == name@,
    {
        let n = name.to_owned();
        let mut i: usize = 0;
        while i < self.tables.len()
            invariant
                self.wf(),
                n@ == name@,
                i <= self.tables@.len(),
                forall|j: int| 0 <= j < i ==> !(system_tables()[j].1 == db_id && system_tables()[j].2 == name@),
            decreases self.tables@.len() - i,
        {
            assert(self.tables@[i as int]@ == system_tables()[i as int]);
            if self.tables[i].database_id == db_id && self.tables[i].name == n {
                return Some(self.tables[i].copy());
            }
            i = i + 1;
        }
        None
    }

    /// The built-in databases, in their fixed order.
    pub fn list_databases(&self) -> (r: Vec<DatabaseMeta>)
        requires
            self.wf(),
        ensures
            r@.len() == system_databases().len(),
            forall|i: int| 0 <= i < r@.len() ==> #[trigger] r@[i]@ == system_databases()[i],
    {
        let mut res: Vec<DatabaseMeta> = Vec::new();
        let mut i: usize = 0;
        while i < self.databases.len()
            invariant
                self.wf(),
                i <= self.databases@.len(),
                res@.len() == i,
                forall|j: int| 0 <= j < i ==> #[trigger] res@[j]@ == system_databases()[j],
            decreases self.databases@.len() - i,
        {
            assert(self.databases@[i as int]@ == system_databases()[i as int]);
            res.push(self.databases[i].copy());
            i = i + 1;
        }
        res
    }
}


/// The catalog every caller uses: built-in names first, user names next.
/// A user database can never take the name of a built-in one, and an id
/// tells by its range alone which tier owns it.
pub struct DatabaseCatalog {
    immutable: ImmutableCatalog,
    mutable: MutableCatalog,
}

impl DatabaseCatalog {
    pub closed spec fn wf(&self) -> bool {
        &&& self.immutable.wf()
        &&& self.mutable.wf()
        &&& forall|k: KeyView| #[trigger] self.mutable.db_records().contains_key(k) ==> !is_system_db_name(k.1)
    }

    /// The user tier.
    pub closed spec fn user_tier(&self) -> MutableCatalog {
        self.mutable
    }

    pub fn new() -> (r: DatabaseCatalog)
        ensures
            r.wf(),
            r.user_tier().db_records() == Map::<KeyView, (DatabaseMeta, u64)>::empty(),
            r.user_tier().table_records() == Map::<KeyView, (TableMeta, u64)>::empty(),
            r.user_tier().next_object_id() == USER_ID_BEGIN,
            r.user_tier().db_versions_left(),
            r.user_tier().table_versions_left(),
            r.user_tier().id_versions_left(),
    {
        DatabaseCatalog { immutable: ImmutableCatalog::new(), mutable: MutableCatalog::new() }
    }

    /// Creates a user database; a built-in name is taken already.
    pub fn create_database(&mut self, name: &str, engine: &str) -> (r: Result<DatabaseMeta, MetaError>)
        requires
            old(self).wf(),
        ensures
            final(self).wf(),
            is_system_db_name(name@) ==> (r matches Err(e) && e.kind == ErrorKind::AlreadyExists)
                && final(self).user_tier() == old(self).user_tier(),
            !is_system_db_name(name@) ==> created_database(old(self).user_tier(), final(self).user_tier(), name@, engine@, r),
            final(self).user_tier().table_records() == old(self).user_tier().table_records(),
            final(self).user_tier().next_object_id() >= old(self).user_tier().next_object_id(),
            r matches Err(e) ==> e.context@ == "(while create database)."@,
    {
        if self.immutable.get_database(name).is_some() {
            return Err(MetaError::new(ErrorKind::AlreadyExists, "(while create database)."));
        }
        self.mutable.create_database(name, engine)
    }

    /// Looks a database up by name, built-in names first.
    pub fn get_database(&self, name: &str) -> (r: Result<DatabaseMeta, MetaError>)
        requires
            self.wf(),
        ensures
            is_system_db_name(name@) ==> (r matches Ok(d) && d.name@ == name@
                && exists|i: int| 0 <= i < system_databases().len() && system_databases()[i] == d@),
            !is_system_db_name(name@) ==> {
                &&& r is Ok <==> self.user_tier().db_records().contains_key(db_key(name@))
                &&& r matches Ok(d) ==> d@ == self.user_tier().db_records()[db_key(name@)].0@
                &&& r matches Err(e) ==> e.kind == ErrorKind::NotFound
            },
            r matches Err(e) ==> e.context@ == "(while get database)."@,
    {
        match self.immutable.get_database(name) {
            Some(d) => Ok(d),
            None => self.mutable.get_database(name),
        }
    }

    /// Looks a database up by id; the id's range picks the tier.
    pub fn get_database_by_id(&self, id: u64) -> (r: Result<DatabaseMeta, MetaError>)
        requires
            self.wf(),
        ensures
            r matches Ok(d) ==> d.id == id,
            !is_user_id(id) ==> {
                &&& r is Ok <==> exists|i: int| 0 <= i < system_databases().len() && system_databases()[i].0 == id
                &&& r matches Ok(d) ==> exists|i: int| 0 <= i < system_databases().len() && system_databases()[i] == d@
            },
            is_user_id(id) ==> {
                &&& r is Ok <==> exists|k: KeyView| #[trigger] self.user_tier().db_records().contains_key(k)
                    && self.user_tier().db_records()[k].0.id == id
                &&& r matches Ok(d) ==> self.user_tier().db_records().contains_key(db_key(d.name@))
                    && self.user_tier().db_records()[db_key(d.name@)].0@ == d@
            },
            r matches Err(e) ==> e.kind == ErrorKind::NotFound,
            r matches Err(e) ==> e.context@ == "(while get database by id)."@,
    {
        if id < USER_ID_BEGIN {
            match self.immutable.get_database_by_id(id) {
                Some(d) => Ok(d),
                None => Err(MetaError::new(ErrorKind::NotFound, "(while get database by id).")),
            }
        } else {
            let r = self.mutable.get_database_by_id(id);
            assert(self.user_tier() == self.mutable);
            r
        }
    }

    /// Drops a user database; a built-in one cannot be dropped.
    pub fn drop_database(&mut self, name: &str, if_exists: bool) -> (r: Result<(), MetaError>)
        requires
            old(self).wf(),
        ensures
            final(self).wf(),
            is_system_db_name(name@) ==> (r matches Err(e) && e.kind == ErrorKind::ReadOnlyViolation)
                && final(self).user_tier() == old(self).user_tier(),
            !is_system_db_name(name@) ==> dropped_database(old(self).user_tier(), final(self).user_tier(), name@, if_exists, r),
            final(self).user_tier().table_records() == old(self).user_tier().table_records(),
            final(self).user_tier().next_object_id() == old(self).user_tier().next_object_id(),
            r matches Err(e) ==> e.context@ == "(while drop database)."@,
    {
        if self.immutable.get_database(name).is_some() {
            return Err(MetaError::new(ErrorKind::ReadOnlyViolation, "(while drop database)."));
        }
        self.mutable.drop_database(name, if_exists)
    }

    /// All databases: the built-in ones first, then the user ones.
    pub fn list_databases(&self) -> (r: Vec<DatabaseMeta>)
        requires
            self.wf(),
        ensures
            lists_catalog(self.user_tier(), r@),
    {
        let mut res = self.immutable.list_databases();
        let mut user = self.mutable.list_databases();
        let ghost sys = res@;
        let ghost us = user@;
        res.append(&mut user);
        assert(res@.subrange(system_databases().len() as int, res@.len() as int) =~= us);
        assert(forall|i: int| 0 <= i < system_databases().len() ==> res@[i] == sys[i]);
        res
    }
    /// Creates a table in a user database; built-in databases are read-only.
    pub fn create_table(&mut self, db: &str, name: &str, engine: &str) -> (r: Result<TableMeta, MetaError>)
        requires
            old(self).wf(),
        ensures
            final(self).wf(),
            final(self).user_tier().db_records() == old(self).user_tier().db_records(),
            final(self).user_tier().next_object_id() >= old(self).user_tier().next_object_id(),
            is_system_db_name(db@) ==> (r matches Err(e) && e.kind == ErrorKind::ReadOnlyViolation)
                && final(self).user_tier() == old(self).user_tier(),
            !is_system_db_name(db@) ==> created_table(old(self).user_tier(), final(self).user_tier(), db@, name@, engine@, r),
            r matches Err(e) ==> e.context@ == "(while create table)."@,
    {
        if self.immutable.get_database(db).is_some() {
            return Err(MetaError::new(ErrorKind::ReadOnlyViolation, "(while create table)."));
        }
        self.mutable.create_table(db, name, engine)
    }

    /// Looks a table up, in a built-in or a user database.
    pub fn get_table(&self, db: &str, name: &str) -> (r: Result<TableMeta, MetaError>)
        requires
            self.wf(),
        ensures
            is_system_db_name(db@) ==> {
                &&& r is Ok <==> exists|i: int, j: int| 0 <= i < system_databases().len()
                    && 0 <= j < system_tables().len() && system_databases()[i].1 == db@
                    && system_tables()[j].1 == system_databases()[i].0 && system_tables()[j].2 == name@
                &&& r matches Ok(t) ==> t.name@ == name@
                    && exists|j: int| 0 <= j < system_tables().len() && system_tables()[j] == t@
            },
            !is_system_db_name(db@) ==> {
                &&& r is Ok <==> has_table(self.user_tier(), db@, name@)
                &&& r matches Ok(t) ==> t@ == self.user_tier().table_records()[table_key_in(self.user_tier(), db@, name@)].0@
            },
            r matches Err(e) ==> e.kind == ErrorKind::NotFound,
            r matches Err(e) ==> e.context@ == "(while get table)."@,
    {
        match self.immutable.get_database(db) {
            Some(d) => {
                proof { lemma_system_ids_unique(); }
                match self.immutable.get_table(d.id, name) {
                    Some(t) => Ok(t),
                    None => Err(MetaError::new(ErrorKind::NotFound, "(while get table).")),
                }
            },
            None => self.mutable.get_table(db, name),
        }
    }

    /// Drops a table of a user database; built-in databases are read-only.
    pub fn drop_table(&mut self, db: &str, name: &str, if_exists: bool) -> (r: Result<(), MetaError>)
        requires
            old(self).wf(),
        ensures
            final(self).wf(),
            final(self).user_tier().db_records() == old(self).user_tier().db_records(),
            final(self).user_tier().next_object_id() == old(self).user_tier().next_object_id(),
            is_system_db_name(db@) ==> (r matches Err(e) && e.kind == ErrorKind::ReadOnlyViolation)
                && final(self).user_tier() == old(self).user_tier(),
            !is_system_db_name(db@) ==> {
                let before = old(self).user_tier();
                &&& has_table(before, db@, name@) ==> r is Ok && final(self).user_tier().table_records()
                    == before.table_records().remove(table_key_in(before, db@, name@))
                &&& !has_table(before, db@, name@) ==> {
                    &&& final(self).user_tier().table_records() == before.table_records()
                    &&& r is Ok <==> if_exists
                    &&& r matches Err(e) ==> e.kind == ErrorKind::NotFound
                }
            },
            r matches Err(e) ==> e.context@ == "(while drop table)."@,
    {
        if self.immutable.get_database(db).is_some() {
            return Err(MetaError::new(ErrorKind::ReadOnlyViolation, "(while drop table)."));
        }
        self.mutable.drop_table(db, name, if_exists)
    }

    /// Renames a table of a user database; see `MutableCatalog::rename_table`
    /// for the window in which the table is under neither name.
    pub fn rename_table(&mut self, db: &str, name: &str, new_name: &str) -> (r: Result<(), MetaError>)
        requires
            old(self).wf(),
        ensures
            final(self).wf(),
            final(self).user_tier().db_records() == old(self).user_tier().db_records(),
            final(self).user_tier().next_object_id() == old(self).user_tier().next_object_id(),
            is_system_db_name(db@) ==> (r matches Err(e) && e.kind == ErrorKind::ReadOnlyViolation)
                && final(self).user_tier() == old(self).user_tier(),
            !is_system_db_name(db@) ==> renamed_table(old(self).user_tier(), final(self).user_tier(), db@, name@, new_name@, r),
            r matches Err(e) ==> e.context@ == "(while rename table)."@,
    {
        if self.immutable.get_database(db).is_some() {
            return Err(MetaError::new(ErrorKind::ReadOnlyViolation, "(while rename table)."));
        }
        self.mutable.rename_table(db, name, new_name)
    }
}

/// Built-in databases have distinct ids and names.
pub proof fn lemma_system_ids_unique()
    ensures
        forall|i: int, j: int| 0 <= i < system_databases().len() && 0 <= j < system_databases().len()
            && system_databases()[i].0 == system_databases()[j].0 ==> i == j,
        forall|i: int, j: int| 0 <= i < system_databases().len() && 0 <= j < system_databases().len()
            && system_databases()[i].1 == system_databases()[j].1 ==> i == j,
{
    reveal_strlit("system");
    reveal_strlit("information_schema");
    assert("system"@.len() != "information_schema"@.len());
}


/// A database that was created can be looked up under its name with the
/// name and engine it was created with and an id of the user tier, and a
/// second creation under the same name fails with `AlreadyExists`.
pub proof fn lemma_create_then_lookup(
    before: MutableCatalog,
    mid: MutableCatalog,
    after: MutableCatalog,
    name: Seq<char>,
    engine: Seq<char>,
    engine2: Seq<char>,
    r: Result<DatabaseMeta, MetaError>,
    r2: Result<DatabaseMeta, MetaError>,
)
    requires
        before.wf(),
        created_database(before, mid, name, engine, r),
        r is Ok,
        created_database(mid, after, name, engine2, r2),
    ensures
        mid.db_records().contains_key(db_key(name)),
        mid.db_records()[db_key(name)].0@.1 == name,
        mid.db_records()[db_key(name)].0@.2 == engine,
        is_user_id(mid.db_records()[db_key(name)].0.id),
        r2 matches Err(e) && e.kind == ErrorKind::AlreadyExists,
{
}

/// Ids are never handed out twice: a database created after another one was
/// created and dropped gets a different id.
pub proof fn lemma_ids_never_reused(
    c0: MutableCatalog,
    c1: MutableCatalog,
    c2: MutableCatalog,
    c3: MutableCatalog,
    name_a: Seq<char>,
    engine_a: Seq<char>,
    if_exists: bool,
    name_b: Seq<char>,
    engine_b: Seq<char>,
    ra: Result<DatabaseMeta, MetaError>,
    rd: Result<(), MetaError>,
    rb: Result<DatabaseMeta, MetaError>,
)
    requires
        created_database(c0, c1, name_a, engine_a, ra),
        dropped_database(c1, c2, name_a, if_exists, rd),
        created_database(c2, c3, name_b, engine_b, rb),
        ra is Ok,
        rb is Ok,
    ensures
        ra->Ok_0.id != rb->Ok_0.id,
{
}

/// Of two creations of one table, one after the other as two racing callers
/// are serialized by the store, at most one succeeds; when the database exists
/// and the table does not, the first succeeds, the second fails with
/// `AlreadyExists`, and exactly the first one's table is stored.
pub proof fn lemma_racing_create_table(
    c0: MutableCatalog,
    c1: MutableCatalog,
    c2: MutableCatalog,
    db: Seq<char>,
    name: Seq<char>,
    engine1: Seq<char>,
    engine2: Seq<char>,
    r1: Result<TableMeta, MetaError>,
    r2: Result<TableMeta, MetaError>,
)
    requires
        created_table(c0, c1, db, name, engine1, r1),
        created_table(c1, c2, db, name, engine2, r2),
    ensures
        !(r1 is Ok && r2 is Ok),
        r1 is Ok ==> (r2 matches Err(e) && e.kind == ErrorKind::AlreadyExists),
        r1 is Ok ==> has_table(c2, db, name) && c2.table_records()[table_key_in(c2, db, name)].0@ == r1->Ok_0@
            && c2.table_records() == c1.table_records(),
        (c0.db_records().contains_key(db_key(db)) && !has_table(c0, db, name)
            && c0.next_object_id() < u64::MAX && c0.id_versions_left() && c0.table_versions_left()) ==> r1 is Ok,
{
}

/// Listing the catalog yields every built-in database and every user
/// database exactly once, and nothing else.
pub proof fn lemma_listing_round_trip(c: DatabaseCatalog, v: Seq<DatabaseMeta>)
    requires
        c.wf(),
        lists_catalog(c.user_tier(), v),
    ensures
        forall|a: int, b: int| 0 <= a < b < v.len() ==> v[a].name@ != v[b].name@,
        forall|n: Seq<char>| (is_system_db_name(n) || c.user_tier().db_records().contains_key(db_key(n)))
            <==> exists|i: int| 0 <= i < v.len() && #[trigger] v[i].name@ == n,
{
    lemma_system_ids_unique();
    let ns = system_databases().len() as int;
    let u = v.subrange(ns, v.len() as int);
    let m = c.user_tier().db_records();
    assert forall|a: int, b: int| 0 <= a < b < v.len() implies v[a].name@ != v[b].name@ by {
        if b < ns {
            assert(v[a]@ == system_databases()[a]);
            assert(v[b]@ == system_databases()[b]);
        } else if a < ns {
            assert(v[a]@ == system_databases()[a]);
            assert(u[b - ns] == v[b]);
            assert(m.contains_key(db_key(u[b - ns].name@)));
            assert(!is_system_db_name(db_key(u[b - ns].name@).1));
        } else {
            assert(u[a - ns] == v[a]);
            assert(u[b - ns] == v[b]);
        }
    }
    assert forall|n: Seq<char>| (is_system_db_name(n) || m.contains_key(db_key(n)))
        <==> exists|i: int| 0 <= i < v.len() && #[trigger] v[i].name@ == n by {
        if is_system_db_name(n) {
            let i = choose|i: int| 0 <= i < system_databases().len() && system_databases()[i].1 == n;
            assert(v[i]@ == system_databases()[i]);
            assert(v[i].name@ == n);
        } else if m.contains_key(db_key(n)) {
            let j = choose|j: int| 0 <= j < u.len() && db_key(n) == db_key(u[j].name@);
            assert(v[j + ns] == u[j]);
            assert(v[j + ns].name@ == n);
        }
        if exists|i: int| 0 <= i < v.len() && #[trigger] v[i].name@ == n {
            let i = choose|i: int| 0 <= i < v.len() && #[trigger] v[i].name@ == n;
            if i < ns {
                assert(v[i]@ == system_databases()[i]);
            } else {
                assert(u[i - ns] == v[i]);
                assert(m.contains_key(db_key(u[i - ns].name@)));
            }
        }
    }
}

} // verus!
