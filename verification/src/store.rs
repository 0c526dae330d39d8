//! Durable path-to-hash state, kept in a SQLite database with one table
//! `files (filename TEXT PRIMARY KEY, sha512 VARCHAR(128))`.
//!
//! The database connection is opaque to the verifier. Three uninterpreted
//! spec functions model it: `db_files` is the committed table contents
//! (a connection whose `files` table does not exist yet is read as the
//! empty map), `db_work` is the working contents visible inside an open
//! transaction, and `db_in_tx` says whether a transaction is open. The
//! trusted wrappers below state how each SQL statement moves this model;
//! everything above them is verified.
//!
//! Reading the table contents as a function of the connection value
//! assumes the run owns the database exclusively, as the concurrency
//! model prescribes: a second connection, or another process writing the
//! same database file, stands outside every contract here.

use vstd::prelude::*;
use crate::scan::Filehash;

verus! {

/// The committed contents of the `files` table of this connection's
/// database: a map from filename to stored hash.
pub uninterp spec fn db_files(db: rusqlite::Connection) -> Map<Seq<char>, Seq<char>>;

/// The working contents seen by statements inside an open transaction.
pub uninterp spec fn db_work(db: rusqlite::Connection) -> Map<Seq<char>, Seq<char>>;

/// Whether the connection has an open (explicit) transaction.
pub uninterp spec fn db_in_tx(db: rusqlite::Connection) -> bool;

#[verifier::external_type_specification]
#[verifier::external_body]
pub struct ExConnection(rusqlite::Connection);

#[verifier::external_type_specification]
#[verifier::external_body]
pub struct ExSqlError(rusqlite::Error);

/// A storage failure. Fatal for the run: the caller aborts rather than
/// working from a store in an unknown state.
#[derive(Debug)]
pub enum StoreError {
    Sqlite(rusqlite::Error),
}

/// Relies on `rusqlite::Connection::open`: opens (or creates) the database
/// file at `path`; a fresh connection has no open transaction.
#[verifier::external_body]
fn conn_open(path: &str) -> (r: Result<rusqlite::Connection, rusqlite::Error>)
    ensures
        r is Ok ==> !db_in_tx(r->Ok_0),
{
    rusqlite::Connection::open(path)
}

/// Relies on `rusqlite::Connection::execute`: `CREATE TABLE IF NOT EXISTS`
/// leaves an existing `files` table untouched and creates an absent one
/// empty; either way the committed contents (absent read as empty) stay
/// the same, and no transaction is opened.
#[verifier::external_body]
fn create_files_table(db: &mut rusqlite::Connection) -> (r: Result<(), rusqlite::Error>)
    requires
        !db_in_tx(*old(db)),
    ensures
        db_files(*final(db)) == db_files(*old(db)),
        !db_in_tx(*final(db)),
{
    db.execute(
        "CREATE TABLE IF NOT EXISTS files (filename TEXT PRIMARY KEY, sha512 VARCHAR(128));",
        [],
    ).map(|_| ())
}

/// Relies on `rusqlite::Connection::execute_batch` running `BEGIN`:
/// on success a transaction is open whose working contents start as the
/// committed contents; the committed contents never change.
#[verifier::external_body]
fn tx_begin(db: &mut rusqlite::Connection) -> (r: Result<(), rusqlite::Error>)
    requires
        !db_in_tx(*old(db)),
    ensures
        r is Ok ==> db_in_tx(*final(db)) && db_work(*final(db)) == db_files(*old(db)),
        db_files(*final(db)) == db_files(*old(db)),
{
    db.execute_batch("BEGIN DEFERRED;")
}

/// Relies on `rusqlite::Connection::execute` running an `INSERT`: on
/// success the working contents gain the new row and the transaction
/// stays open; a failed statement (such as a duplicate primary key) never
/// touches the committed contents.
#[verifier::external_body]
fn tx_insert(db: &mut rusqlite::Connection, file: &str, hash: &str) -> (r: Result<
    (),
    rusqlite::Error,
>)
    requires
        db_in_tx(*old(db)),
    ensures
        r is Ok ==> db_in_tx(*final(db)) && db_work(*final(db)) == db_work(*old(db)).insert(
            file@,
            hash@,
        ),
        db_files(*final(db)) == db_files(*old(db)),
{
    db.execute("INSERT INTO files (filename, sha512) VALUES (?1, ?2);", [file, hash]).map(|_| ())
}

/// Relies on `rusqlite::Connection::execute` running an `UPDATE` keyed on
/// the filename: on success an existing row's hash is replaced and a
/// missing row is left alone; the committed contents never change.
#[verifier::external_body]
fn tx_update(db: &mut rusqlite::Connection, file: &str, hash: &str) -> (r: Result<
    (),
    rusqlite::Error,
>)
    requires
        db_in_tx(*old(db)),
    ensures
        r is Ok ==> db_in_tx(*final(db)) && db_work(*final(db)) == (if db_work(
            *old(db),
        ).contains_key(file@) {
            db_work(*old(db)).insert(file@, hash@)
        } else {
            db_work(*old(db))
        }),
        db_files(*final(db)) == db_files(*old(db)),
{
    db.execute("UPDATE files SET sha512 = ?1 WHERE filename = ?2;", [hash, file]).map(|_| ())
}

/// Relies on `rusqlite::Connection::execute` running a `DELETE` keyed on
/// the filename: on success the row, if present, leaves the working
/// contents; the committed contents never change.
#[verifier::external_body]
fn tx_delete(db: &mut rusqlite::Connection, file: &str) -> (r: Result<(), rusqlite::Error>)
    requires
        db_in_tx(*old(db)),
    ensures
        r is Ok ==> db_in_tx(*final(db)) && db_work(*final(db)) == db_work(*old(db)).remove(file@),
        db_files(*final(db)) == db_files(*old(db)),
{
    db.execute("DELETE FROM files WHERE filename = ?1;", [file]).map(|_| ())
}

/// Relies on `rusqlite::Connection::execute_batch` running `COMMIT` and on
/// SQLite's atomic commit: on success the working contents become the
/// committed contents in one step; on failure nothing was committed.
#[verifier::external_body]
fn tx_commit(db: &mut rusqlite::Connection) -> (r: Result<(), rusqlite::Error>)
    requires
        db_in_tx(*old(db)),
    ensures
        r is Ok ==> !db_in_tx(*final(db)) && db_files(*final(db)) == db_work(*old(db)),
        r is Err ==> db_files(*final(db)) == db_files(*old(db)),
{
    db.execute_batch("COMMIT;")
}

/// Relies on `rusqlite::Connection::execute_batch` running `ROLLBACK`:
/// whether or not it succeeds (it fails when no transaction is open), the
/// committed contents stay as they were.
#[verifier::external_body]
fn tx_rollback(db: &mut rusqlite::Connection) -> (r: Result<(), rusqlite::Error>)
    ensures
        db_files(*final(db)) == db_files(*old(db)),
{
    db.execute_batch("ROLLBACK;")
}

/// Relies on `rusqlite::Connection::query_row` selecting by primary key:
/// outside a transaction it sees the committed contents, returning the
/// stored hash for the filename, or no rows when the filename is absent.
#[verifier::external_body]
fn query_hash(db: &rusqlite::Connection, file: &str) -> (r: Result<
    Option<String>,
    rusqlite::Error,
>)
    requires
        !db_in_tx(*db),
    ensures
        r is Ok ==> ((r->Ok_0 is Some) <==> db_files(*db).contains_key(file@)),
        r matches Ok(Some(h)) ==> h@ == db_files(*db)[file@],
{
    match db.query_row(
        "SELECT sha512 FROM files WHERE filename = ?1;",
        [file],
        |row| row.get::<_, String>(0),
    ) {
        Ok(h) => Ok(Some(h)),
        Err(rusqlite::Error::QueryReturnedNoRows) => Ok(None),
        Err(e) => Err(e),
    }
}

/// Holds when `v` lists every key of `m`, each exactly once.
pub open spec fn lists_the_paths_of(v: Seq<String>, m: Map<Seq<char>, Seq<char>>) -> bool {
    &&& forall|i: int| 0 <= i < v.len() ==> m.dom().contains(#[trigger] v[i]@)
    &&& forall|k: Seq<char>|
        m.dom().contains(k) ==> exists|i: int| 0 <= i < v.len() && #[trigger] v[i]@ == k
    &&& forall|i: int, j: int| 0 <= i < j < v.len() ==> v[i]@ != v[j]@
}

/// Relies on `rusqlite::Statement::query_map` over `SELECT filename FROM
/// files`: outside a transaction it yields every key of the committed
/// contents exactly once (filename is the primary key).
#[verifier::external_body]
fn query_all_filenames(db: &rusqlite::Connection) -> (r: Result<Vec<String>, rusqlite::Error>)
    requires
        !db_in_tx(*db),
    ensures
        r matches Ok(v) ==> lists_the_paths_of(v@, db_files(*db)),
{
    let mut stmt = db.prepare("SELECT filename FROM files;")?;
    let rows = stmt.query_map([], |row| row.get::<_, String>(0))?;
    rows.collect()
}

/// Opens (or creates) the store at `path` and makes sure its schema
/// exists. A fresh handle has no open transaction.
pub fn open(path: &str) -> (r: Result<rusqlite::Connection, StoreError>)
    ensures
        r is Ok ==> !db_in_tx(r->Ok_0),
{
    let mut db = match conn_open(path) {
        Ok(v) => v,
        Err(e) => return Err(StoreError::Sqlite(e)),
    };
    match create_files_table(&mut db) {
        Ok(()) => Ok(db),
        Err(e) => Err(StoreError::Sqlite(e)),
    }
}

/// The stored hash for `file`, or `None` when the store has no record of
/// it.
pub fn file_sha512_from_db(db: &rusqlite::Connection, file: &str) -> (r: Result<
    Option<String>,
    StoreError,
>)
    requires
        !db_in_tx(*db),
    ensures
        r is Ok ==> ((r->Ok_0 is Some) <==> db_files(*db).contains_key(file@)),
        r matches Ok(Some(h)) ==> h@ == db_files(*db)[file@],
{
    match query_hash(db, file) {
        Ok(v) => Ok(v),
        Err(e) => Err(StoreError::Sqlite(e)),
    }
}

/// Every path the store currently records, each exactly once.
pub fn get_all_files(db: &rusqlite::Connection) -> (r: Result<Vec<String>, StoreError>)
    requires
        !db_in_tx(*db),
    ensures
        r matches Ok(v) ==> lists_the_paths_of(v@, db_files(*db)),
{
    match query_all_filenames(db) {
        Ok(v) => Ok(v),
        Err(e) => Err(StoreError::Sqlite(e)),
    }
}

/// The committed contents after a sequence of row inserts, applied in
/// order.
pub open spec fn after_inserts(m: Map<Seq<char>, Seq<char>>, ins: Seq<Filehash>) -> Map<
    Seq<char>,
    Seq<char>,
>
    decreases ins.len(),
{
    if ins.len() == 0 {
        m
    } else {
        after_inserts(m, ins.drop_last()).insert(ins.last().file@, ins.last().hash@)
    }
}

/// The committed contents after a sequence of row updates, applied in
/// order; an update of an absent path changes nothing.
pub open spec fn after_updates(m: Map<Seq<char>, Seq<char>>, upd: Seq<Filehash>) -> Map<
    Seq<char>,
    Seq<char>,
>
    decreases upd.len(),
{
    if upd.len() == 0 {
        m
    } else {
        let prev = after_updates(m, upd.drop_last());
        if prev.contains_key(upd.last().file@) {
            prev.insert(upd.last().file@, upd.last().hash@)
        } else {
            prev
        }
    }
}

/// The committed contents after a sequence of row deletions, applied in
/// order.
pub open spec fn after_deletes(m: Map<Seq<char>, Seq<char>>, del: Seq<String>) -> Map<
    Seq<char>,
    Seq<char>,
>
    decreases del.len(),
{
    if del.len() == 0 {
        m
    } else {
        after_deletes(m, del.drop_last()).remove(del.last()@)
    }
}

/// What one atomic batch of mutations makes of the committed contents:
/// all inserts, then all updates, then all deletions.
pub open spec fn apply_mutations(
    m: Map<Seq<char>, Seq<char>>,
    ins: Seq<Filehash>,
    upd: Seq<Filehash>,
    del: Seq<String>,
) -> Map<Seq<char>, Seq<char>> {
    after_deletes(after_updates(after_inserts(m, ins), upd), del)
}

/// Applies all inserts, updates and deletions as one atomic unit: on
/// success the committed contents are exactly `apply_mutations` of the old
/// contents; on any failure the transaction is rolled back and the
/// committed contents are exactly what they were before the call.
#[verifier::loop_isolation(false)]
pub fn db_update(
    db: &mut rusqlite::Connection,
    ins: Vec<Filehash>,
    upd: Vec<Filehash>,
    del: Vec<String>,
) -> (r: Result<(), StoreError>)
    requires
        !db_in_tx(*old(db)),
    ensures
        r is Ok ==> db_files(*final(db)) == apply_mutations(
            db_files(*old(db)),
            ins@,
            upd@,
            del@,
        ) && !db_in_tx(*final(db)),
        r is Err ==> db_files(*final(db)) == db_files(*old(db)),
{
    let ghost m0 = db_files(*old(db));
    match tx_begin(db) {
        Ok(()) => {},
        Err(e) => return Err(StoreError::Sqlite(e)),
    }
    let mut i: usize = 0;
    while i < ins.len()
        invariant
            i <= ins@.len(),
            db_in_tx(*db),
            db_files(*db) == m0,
            db_work(*db) == after_inserts(m0, ins@.take(i as int)),
        decreases ins@.len() - i,
    {
        let step = tx_insert(db, ins[i].file.as_str(), ins[i].hash.as_str());
        proof {
            assert(ins@.take(i + 1 as int).drop_last() =~= ins@.take(i as int));
        }
        match step {
            Ok(()) => {},
            Err(e) => {
                let _ = tx_rollback(db);
                return Err(StoreError::Sqlite(e));
            },
        }
        i = i + 1;
    }
    proof {
        assert(ins@.take(ins@.len() as int) =~= ins@);
    }
    let mut j: usize = 0;
    while j < upd.len()
        invariant
            j <= upd@.len(),
            db_in_tx(*db),
            db_files(*db) == m0,
            db_work(*db) == after_updates(after_inserts(m0, ins@), upd@.take(j as int)),
        decreases upd@.len() - j,
    {
        let step = tx_update(db, upd[j].file.as_str(), upd[j].hash.as_str());
        proof {
            assert(upd@.take(j + 1 as int).drop_last() =~= upd@.take(j as int));
        }
        match step {
            Ok(()) => {},
            Err(e) => {
                let _ = tx_rollback(db);
                return Err(StoreError::Sqlite(e));
            },
        }
        j = j + 1;
    }
    proof {
        assert(upd@.take(upd@.len() as int) =~= upd@);
    }
    let mut k: usize = 0;
    while k < del.len()
        invariant
            k <= del@.len(),
            db_in_tx(*db),
            db_files(*db) == m0,
            db_work(*db) == after_deletes(
                after_updates(after_inserts(m0, ins@), upd@),
                del@.take(k as int),
            ),
        decreases del@.len() - k,
    {
        let step = tx_delete(db, del[k].as_str());
        proof {
            assert(del@.take(k + 1 as int).drop_last() =~= del@.take(k as int));
        }
        match step {
            Ok(()) => {},
            Err(e) => {
                let _ = tx_rollback(db);
                return Err(StoreError::Sqlite(e));
            },
        }
        k = k + 1;
    }
    proof {
        assert(del@.take(del@.len() as int) =~= del@);
    }
    match tx_commit(db) {
        Ok(()) => Ok(()),
        Err(e) => Err(StoreError::Sqlite(e)),
    }
}

} // verus!
