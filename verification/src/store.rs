//! The storage layer: a task table in a local SQLite database, reached
//! through `rusqlite`. Each database call sits in one trusted wrapper whose
//! contract states, over the abstract `TaskMap` named by `db_rows`, what the
//! statement does to the table; the public `Store` methods are verified
//! against those contracts. The connection is owned by one `Store` value and
//! by nothing else, so the table content is a function of that value.

use crate::tasks::{
    batch_fresh, batch_of, lemma_add_all_counts, lemma_add_all_domain, listing_matches, spec_add,
    spec_add_all, spec_complete, spec_delete, Task, TaskMap,
};
use vstd::prelude::*;

verus! {

/// The database connection type of the outside crate, declared so that it
/// can stand in a field; its values are opaque here.
#[verifier::external_type_specification]
#[verifier::external_body]
pub struct ExConnection(rusqlite::Connection);

/// The error type of the outside crate, declared so that the wrappers can
/// return it; its values are opaque here.
#[verifier::external_type_specification]
#[verifier::external_body]
pub struct ExRusqliteError(rusqlite::Error);

/// The content of the task table behind a connection: one record per id.
/// A connection whose database has no task table yet holds no tasks, and a
/// row whose description column is NULL holds the empty description.
pub uninterp spec fn db_rows(conn: rusqlite::Connection) -> TaskMap;

/// An error out of the storage layer, wrapping the database error that
/// caused it.
#[derive(Debug)]
pub struct StorageError {
    pub cause: rusqlite::Error,
}

/// Relies on rusqlite::Connection::open_in_memory: a fresh in-memory
/// database is empty, so it holds no tasks.
#[verifier::external_body]
fn open_in_memory_raw() -> (r: Result<rusqlite::Connection, rusqlite::Error>)
    ensures
        r matches Ok(conn) ==> db_rows(conn) == TaskMap::empty(),
{
    rusqlite::Connection::open_in_memory()
}

/// Relies on rusqlite::Connection::open: it opens the database file at the
/// given path, creating the file if it is missing; whatever the file holds,
/// a task table is a finite set of rows.
#[verifier::external_body]
fn open_path_raw(path: &str) -> (r: Result<rusqlite::Connection, rusqlite::Error>)
    ensures
        r matches Ok(conn) ==> db_rows(conn).dom().finite(),
{
    rusqlite::Connection::open(path)
}

/// Relies on rusqlite::Connection::execute with CREATE TABLE IF NOT EXISTS:
/// it creates the (empty) task table only where none exists and never
/// touches rows of an existing one, and a failed statement changes nothing.
#[verifier::external_body]
fn create_schema_raw(conn: &mut rusqlite::Connection) -> (r: Result<(), rusqlite::Error>)
    ensures
        db_rows(*final(conn)) == db_rows(*old(conn)),
{
    let sql = "CREATE TABLE IF NOT EXISTS todo (
        id INTEGER PRIMARY KEY,
        title TEXT NOT NULL,
        description TEXT,
        done INTEGER NOT NULL
    )";
    match conn.execute(sql, ()) {
        Ok(_) => Ok(()),
        Err(e) => Err(e),
    }
}

/// Relies on rusqlite::Connection::execute with INSERT: SQLite assigns the
/// new row an id not in use by any current row when none is given, id 1
/// when the table is empty, and a failed statement changes nothing; and on
/// rusqlite::Connection::last_insert_rowid: it returns the id of the row
/// this INSERT just added.
#[verifier::external_body]
fn insert_raw(conn: &mut rusqlite::Connection, title: &str, description: &str) -> (r: Result<
    i64,
    rusqlite::Error,
>)
    ensures
        match r {
            Ok(id) => !db_rows(*old(conn)).dom().contains(id as int) && db_rows(*final(conn))
                == db_rows(*old(conn)).insert(id as int, (title@, description@, false)) && (db_rows(
                *old(conn),
            ) == TaskMap::empty() ==> id == 1),
            Err(_) => db_rows(*final(conn)) == db_rows(*old(conn)),
        },
{
    let sql = "INSERT INTO todo (title, description, done) VALUES (?1, ?2, 0)";
    match conn.execute(sql, (title, description)) {
        Ok(_) => Ok(conn.last_insert_rowid()),
        Err(e) => Err(e),
    }
}

/// Relies on rusqlite::Connection::execute with UPDATE ... WHERE id = ?1:
/// it sets done on exactly the row with the given id, leaves the table as
/// it was when no row matches, and a failed statement changes nothing.
#[verifier::external_body]
fn update_done_raw(conn: &mut rusqlite::Connection, id: i64) -> (r: Result<(), rusqlite::Error>)
    ensures
        match r {
            Ok(_) => db_rows(*final(conn)) == (if db_rows(*old(conn)).dom().contains(id as int) {
                db_rows(*old(conn)).insert(
                    id as int,
                    (
                        db_rows(*old(conn))[id as int].0,
                        db_rows(*old(conn))[id as int].1,
                        true,
                    ),
                )
            } else {
                db_rows(*old(conn))
            }),
            Err(_) => db_rows(*final(conn)) == db_rows(*old(conn)),
        },
{
    match conn.execute("UPDATE todo SET done = 1 WHERE id = ?1", (id,)) {
        Ok(_) => Ok(()),
        Err(e) => Err(e),
    }
}

/// Relies on rusqlite::Connection::execute with DELETE ... WHERE id = ?1:
/// it removes exactly the row with the given id, leaves the table as it was
/// when no row matches, and a failed statement changes nothing.
#[verifier::external_body]
fn delete_raw(conn: &mut rusqlite::Connection, id: i64) -> (r: Result<(), rusqlite::Error>)
    ensures
        match r {
            Ok(_) => db_rows(*final(conn)) == db_rows(*old(conn)).remove(id as int),
            Err(_) => db_rows(*final(conn)) == db_rows(*old(conn)),
        },
{
    match conn.execute("DELETE FROM todo WHERE id = ?1", (id,)) {
        Ok(_) => Ok(()),
        Err(e) => Err(e),
    }
}

/// Relies on rusqlite::Connection::prepare and Statement::query_map with
/// SELECT over the whole task table: the rows handed back are exactly the
/// table's rows, one per id (id is the primary key), in some store-chosen
/// order, a NULL description read as the empty string; a table is finite.
#[verifier::external_body]
fn query_all_raw(conn: &rusqlite::Connection) -> (r: Result<Vec<Task>, rusqlite::Error>)
    ensures
        r matches Ok(v) ==> listing_matches(v@, db_rows(*conn)) && db_rows(*conn).dom().finite()
            && v@.len() == db_rows(*conn).dom().len(),
{
    let mut stmt = conn.prepare("SELECT id, title, description, done FROM todo")?;
    let rows = stmt.query_map(
        (),
        |row| {
            let description: Option<String> = row.get(2)?;
            Ok(Task {
                id: row.get(0)?,
                title: row.get(1)?,
                description: description.unwrap_or(String::new()),
                done: row.get(3)?,
            })
        },
    )?;
    rows.collect()
}

/// A handle on the task store: the sole owner of its database connection.
pub struct Store {
    conn: rusqlite::Connection,
}

impl View for Store {
    type V = TaskMap;

    closed spec fn view(&self) -> TaskMap {
        db_rows(self.conn)
    }
}

impl Store {
    /// Opens a store on a fresh in-memory database: it starts empty.
    pub fn open_in_memory() -> (r: Result<Store, StorageError>)
        ensures
            r matches Ok(s) ==> s@ == TaskMap::empty(),
    {
        match open_in_memory_raw() {
            Ok(conn) => {
                let mut store = Store { conn };
                match create_schema_raw(&mut store.conn) {
                    Ok(_) => Ok(store),
                    Err(e) => Err(StorageError { cause: e }),
                }
            },
            Err(e) => Err(StorageError { cause: e }),
        }
    }

    /// Opens a store on the database file at the given path, creating the
    /// file and the task table where they are missing and keeping every
    /// task already stored there. The contracts assume the store is the
    /// sole user of that database: open each file through one store at a
    /// time, with nothing else writing to it.
    pub fn open(path: &str) -> (r: Result<Store, StorageError>)
        ensures
            r matches Ok(s) ==> s@.dom().finite(),
    {
        match open_path_raw(path) {
            Ok(conn) => {
                let mut store = Store { conn };
                match create_schema_raw(&mut store.conn) {
                    Ok(_) => Ok(store),
                    Err(e) => Err(StorageError { cause: e }),
                }
            },
            Err(e) => Err(StorageError { cause: e }),
        }
    }

    /// Makes sure the task table exists; it never changes stored tasks and
    /// may be called again at any time.
    pub fn ensure_schema(&mut self) -> (r: Result<(), StorageError>)
        ensures
            final(self)@ == old(self)@,
    {
        match create_schema_raw(&mut self.conn) {
            Ok(_) => Ok(()),
            Err(e) => Err(StorageError { cause: e }),
        }
    }

    /// Adds a task with the given title and description, not yet done,
    /// under a store-chosen id no current task has — id 1 when the store
    /// is empty; on failure the store is unchanged.
    pub fn add_task(&mut self, title: &str, description: &str) -> (r: Result<i64, StorageError>)
        ensures
            match r {
                Ok(id) => !old(self)@.dom().contains(id as int) && final(self)@ == spec_add(
                    old(self)@,
                    id as int,
                    title@,
                    description@,
                ) && (old(self)@ == TaskMap::empty() ==> id == 1),
                Err(_) => final(self)@ == old(self)@,
            },
    {
        match insert_raw(&mut self.conn, title, description) {
            Ok(id) => Ok(id),
            Err(e) => Err(StorageError { cause: e }),
        }
    }

    /// Adds each given (title, description) pair in turn and returns the
    /// ids the store assigned, first pair first: a round of adds loses and
    /// duplicates nothing. The new state is exactly the old one with one
    /// row per pair, under pairwise distinct fresh ids — on a store of
    /// finite size, exactly one row more per pair — so a listing
    /// afterwards shows exactly the old tasks and the added ones. On
    /// failure the pairs before the failing one remain added.
    pub fn add_tasks(&mut self, items: &Vec<(String, String)>) -> (r: Result<Vec<i64>, StorageError>)
        ensures
            match r {
                Ok(ids) => ids@.len() == items@.len() && batch_fresh(
                    old(self)@,
                    batch_of(ids@, items@),
                ) && final(self)@ == spec_add_all(old(self)@, batch_of(ids@, items@)) && (old(
                    self,
                )@.dom().finite() ==> final(self)@.dom().finite() && final(self)@.dom().len() == old(
                    self,
                )@.dom().len() + items@.len()),
                Err(_) => old(self)@.dom().finite() ==> final(self)@.dom().finite() && old(
                    self,
                )@.dom().len() <= final(self)@.dom().len() <= old(self)@.dom().len()
                    + items@.len(),
            },
    {
        let mut ids: Vec<i64> = Vec::new();
        let mut k: usize = 0;
        while k < items.len()
            invariant
                k <= items.len(),
                ids@.len() == k,
                batch_fresh(old(self)@, batch_of(ids@, items@.take(k as int))),
                self@ == spec_add_all(old(self)@, batch_of(ids@, items@.take(k as int))),
            decreases items.len() - k,
        {
            let ghost before_batch = batch_of(ids@, items@.take(k as int));
            let pair = &items[k];
            match self.add_task(pair.0.as_str(), pair.1.as_str()) {
                Ok(id) => {
                    proof {
                        lemma_add_all_domain(old(self)@, before_batch);
                        assert forall|j: int| 0 <= j < before_batch.len() implies spec_add_all(
                            old(self)@,
                            before_batch,
                        ).dom().contains((#[trigger] before_batch[j]).0) by {
                            assert(0 <= j < before_batch.len() && before_batch[j].0
                                == before_batch[j].0);
                        }
                    }
                    ids.push(id);
                    k = k + 1;
                    proof {
                        let next_batch = batch_of(ids@, items@.take(k as int));
                        assert(next_batch.drop_last() =~= before_batch);
                        assert(forall|j: int|
                            0 <= j < before_batch.len() ==> #[trigger] next_batch[j]
                                == before_batch[j]);
                        assert(next_batch.last().0 == id as int);
                        assert(self@ == spec_add_all(old(self)@, next_batch));
                        assert(batch_fresh(old(self)@, next_batch));
                    }
                },
                Err(e) => {
                    proof {
                        if old(self)@.dom().finite() {
                            lemma_add_all_counts(old(self)@, before_batch);
                        }
                    }
                    return Err(e);
                },
            }
        }
        proof {
            assert(items@.take(items@.len() as int) =~= items@);
            if old(self)@.dom().finite() {
                lemma_add_all_counts(old(self)@, batch_of(ids@, items@));
            }
        }
        Ok(ids)
    }

    /// Sets done on the task with the given id; with no such task the store
    /// is left exactly as it was, and that is no error. On failure the
    /// store is unchanged.
    pub fn complete_task(&mut self, id: i64) -> (r: Result<(), StorageError>)
        ensures
            match r {
                Ok(_) => final(self)@ == spec_complete(old(self)@, id as int),
                Err(_) => final(self)@ == old(self)@,
            },
    {
        match update_done_raw(&mut self.conn, id) {
            Ok(_) => Ok(()),
            Err(e) => Err(StorageError { cause: e }),
        }
    }

    /// Removes the task with the given id; with no such task the store is
    /// left exactly as it was, and that is no error. On failure the store
    /// is unchanged.
    pub fn delete_task(&mut self, id: i64) -> (r: Result<(), StorageError>)
        ensures
            match r {
                Ok(_) => final(self)@ == spec_delete(old(self)@, id as int),
                Err(_) => final(self)@ == old(self)@,
            },
    {
        match delete_raw(&mut self.conn, id) {
            Ok(_) => Ok(()),
            Err(e) => Err(StorageError { cause: e }),
        }
    }

    /// Lists every stored task, each with exactly its stored record and
    /// each id once, in store-chosen order.
    pub fn list_tasks(&self) -> (r: Result<Vec<Task>, StorageError>)
        ensures
            r matches Ok(v) ==> listing_matches(v@, self@) && self@.dom().finite() && v@.len()
                == self@.dom().len(),
    {
        match query_all_raw(&self.conn) {
            Ok(v) => Ok(v),
            Err(e) => Err(StorageError { cause: e }),
        }
    }
}

} // verus!
