//! The SQL access layer: CRUD intents as SQL against the one `cats` table,
//! each mutation inside a single transaction.
//!
//! Dynamic SQL is confined by allow-lists: the only table a statement may
//! name is `cats` and the only column an update may target is `name`; the
//! new value and the id always travel as bound parameters, never spliced
//! into the SQL text.

use vstd::prelude::*;
use vstd::string::*;

use crate::cat_store::Cat;
use crate::cat_store::CatStorage;
use crate::cat_store::CatStorageError;
use crate::cat_store::cats_model;
use crate::digits::i64_to_dec;
use crate::digits::spec_dec_i64;
use crate::engine;

verus! {

/// What the SQL access layer can report instead of its payload.
#[derive(Debug)]
pub enum SqlStorageError {
    /// The engine failed (query, connection, transaction or conversion).
    Rusqlite(rusqlite::Error),
    /// A dynamically targeted table is outside the allow-list.
    ForbiddenTable,
    /// A dynamically targeted column is outside the allow-list.
    ForbiddenColumn,
    /// The engine handed back a row id outside the 32-bit range records use.
    IdOutOfRange,
}

/// The SQL-backed storage backend: a fresh connection to the database at
/// `db_path` is opened for each operation.
pub struct SqlStorage {
    pub db_path: &'static str,
}

/// The allow-list of tables that dynamically built SQL may name.
pub open spec fn table_allowed(t: Seq<char>) -> bool {
    t == "cats"@
}

/// The allow-list of columns that a dynamically built update may target.
pub open spec fn column_allowed(c: Seq<char>) -> bool {
    c == "name"@
}

/// An engine row id fits the 32-bit id a record holds.
pub open spec fn id_in_range(n: i64) -> bool {
    -2147483648 <= n <= 2147483647
}

/// The records that a list of raw (id, name) rows denotes.
pub open spec fn rows_model(rows: Seq<(i64, String)>) -> Seq<(i32, Seq<char>)> {
    rows.map_values(|p: (i64, String)| (p.0 as i32, p.1@))
}

/// Compares two strings by content.
fn str_eq(a: &str, b: &str) -> (r: bool)
    ensures
        r == (a@ == b@),
{
    let s = a.to_owned();
    let t = b.to_owned();
    s == t
}

/// Updates one allow-listed column of the row with the given id, inside one
/// transaction, and reports how many rows changed (0 where the id is absent,
/// 1 where it is present). A table or column outside the allow-lists is
/// rejected before any SQL runs; the new value and the id are bound as
/// parameters.
pub fn update_column_by_id(
    table: &str,
    id: &str,
    col_key: &str,
    col_value: &str,
    conn: &mut rusqlite::Connection,
) -> (r: Result<usize, SqlStorageError>)
    ensures
        !table_allowed(table@) <==> r == Err::<usize, SqlStorageError>(
            SqlStorageError::ForbiddenTable,
        ),
        (table_allowed(table@) && !column_allowed(col_key@)) <==> r == Err::<
            usize,
            SqlStorageError,
        >(SqlStorageError::ForbiddenColumn),
        r matches Err(e) ==> (e is ForbiddenTable || e is ForbiddenColumn || e is Rusqlite),
{
    if !str_eq(table, "cats") {
        return Err(SqlStorageError::ForbiddenTable);
    }
    if !str_eq(col_key, "name") {
        return Err(SqlStorageError::ForbiddenColumn);
    }
    let tx = match engine::begin_transaction(conn) {
        Ok(tx) => tx,
        Err(e) => {
            return Err(SqlStorageError::Rusqlite(e));
        },
    };
    let query = String::from_str("UPDATE ").concat(table).concat(" SET ").concat(col_key).concat(
        " = ?1 WHERE id = ?2",
    );
    let params: [&str; 2] = [col_value, id];
    let rows_updated = match engine::tx_execute(&tx, query.as_str(), &params) {
        Ok(count) => count,
        Err(e) => {
            return Err(SqlStorageError::Rusqlite(e));
        },
    };
    match engine::commit_transaction(tx) {
        Ok(()) => Ok(rows_updated),
        Err(e) => Err(SqlStorageError::Rusqlite(e)),
    }
}

/// Deletes the row with the given id from an allow-listed table, inside one
/// transaction; deleting an absent id succeeds. The id is bound as a
/// parameter.
pub fn delete_by_id(table: &str, id: &str, conn: &mut rusqlite::Connection) -> (r: Result<
    (),
    SqlStorageError,
>)
    ensures
        !table_allowed(table@) <==> r == Err::<(), SqlStorageError>(SqlStorageError::ForbiddenTable),
        r matches Err(e) ==> (e is ForbiddenTable || e is Rusqlite),
{
    if !str_eq(table, "cats") {
        return Err(SqlStorageError::ForbiddenTable);
    }
    let tx = match engine::begin_transaction(conn) {
        Ok(tx) => tx,
        Err(e) => {
            return Err(SqlStorageError::Rusqlite(e));
        },
    };
    let query = String::from_str("DELETE FROM ").concat(table).concat(" WHERE id = ?1");
    let params: [&str; 1] = [id];
    match engine::tx_execute(&tx, query.as_str(), &params) {
        Ok(_) => (),
        Err(e) => {
            return Err(SqlStorageError::Rusqlite(e));
        },
    }
    match engine::commit_transaction(tx) {
        Ok(()) => Ok(()),
        Err(e) => Err(SqlStorageError::Rusqlite(e)),
    }
}

/// Makes sure the `cats` table exists, inserts a row with the given name,
/// and returns the engine-assigned id rendered in decimal; the table check,
/// the insert and the commit stand or fall together in one transaction.
/// The table is created with AUTOINCREMENT so the engine never hands out an
/// id it assigned before, even after the record carrying it was deleted.
pub fn insert_cat(name: &str, conn: &mut rusqlite::Connection) -> (r: Result<
    String,
    SqlStorageError,
>)
    ensures
        r matches Ok(id) ==> {
            &&& exists|n: int| id@ == #[trigger] spec_dec_i64(n)
            &&& id@.len() >= 1
        },
        r matches Err(e) ==> e is Rusqlite,
{
    let tx = match engine::begin_transaction(conn) {
        Ok(tx) => tx,
        Err(e) => {
            return Err(SqlStorageError::Rusqlite(e));
        },
    };
    let no_params: [&str; 0] = [];
    match engine::tx_execute(
        &tx,
        "CREATE TABLE IF NOT EXISTS cats (id INTEGER PRIMARY KEY AUTOINCREMENT, name TEXT NOT NULL)",
        &no_params,
    ) {
        Ok(_) => (),
        Err(e) => {
            return Err(SqlStorageError::Rusqlite(e));
        },
    }
    let insert_params: [&str; 1] = [name];
    match engine::tx_execute(&tx, "INSERT INTO cats (name) VALUES (?1)", &insert_params) {
        Ok(_) => (),
        Err(e) => {
            return Err(SqlStorageError::Rusqlite(e));
        },
    }
    let last_id = engine::tx_last_insert_rowid(&tx);
    match engine::commit_transaction(tx) {
        Ok(()) => (),
        Err(e) => {
            return Err(SqlStorageError::Rusqlite(e));
        },
    }
    let rendered = i64_to_dec(last_id);
    proof {
        assert(rendered@ == spec_dec_i64(last_id as int));
    }
    Ok(rendered)
}

/// Turns the raw rows of a SELECT into records: succeeds exactly where every
/// row's integer fits the 32-bit id a record holds, and then denotes the same
/// records row for row.
pub fn rows_to_cats(rows: Vec<(i64, String)>) -> (r: Result<Vec<Cat>, SqlStorageError>)
    ensures
        (forall|i: int| 0 <= i < rows@.len() ==> id_in_range(#[trigger] rows@[i].0)) <==> r is Ok,
        r matches Ok(cats) ==> cats_model(cats@) == rows_model(rows@),
        r matches Err(e) ==> e is IdOutOfRange,
{
    let mut out: Vec<Cat> = Vec::new();
    let mut i: usize = 0;
    while i < rows.len()
        invariant
            i <= rows@.len(),
            out@.len() == i,
            forall|j: int| 0 <= j < i ==> id_in_range(#[trigger] rows@[j].0),
            forall|j: int|
                0 <= j < i ==> (#[trigger] out@[j]).id == rows@[j].0 as i32 && out@[j].name@
                    == rows@[j].1@,
        decreases rows@.len() - i,
    {
        let row = &rows[i];
        if row.0 < -2147483648 || row.0 > 2147483647 {
            return Err(SqlStorageError::IdOutOfRange);
        }
        let cat = Cat { id: row.0 as i32, name: row.1.clone() };
        out.push(cat);
        i += 1;
    }
    proof {
        assert(cats_model(out@) =~~= rows_model(rows@));
    }
    Ok(out)
}

/// The read-back decision shared by create and update: the first record of
/// the list the read-back returned, and `MissingCat` exactly where it
/// returned none (the post-write consistency failure).
pub fn first_or_missing(cats: Vec<Cat>) -> (r: Result<Cat, CatStorageError>)
    ensures
        cats@.len() == 0 <==> r == Err::<Cat, CatStorageError>(CatStorageError::MissingCat),
        cats@.len() > 0 ==> (r matches Ok(c) && c == cats@[0]),
{
    if cats.len() > 0 {
        Ok(cats[0].duplicate())
    } else {
        Err(CatStorageError::MissingCat)
    }
}

/// The changed-row-count decision of an update: success exactly where the
/// engine changed one row. Zero rows means the id does not exist; more than
/// one would break the primary-key invariant; both are `NotUpdated`, never a
/// silent success.
pub fn check_single_row_updated(rows_updated: usize) -> (r: Result<(), CatStorageError>)
    ensures
        rows_updated == 1 <==> r is Ok,
        rows_updated != 1 <==> r == Err::<(), CatStorageError>(CatStorageError::NotUpdated),
{
    if rows_updated == 1 {
        Ok(())
    } else {
        Err(CatStorageError::NotUpdated)
    }
}

/// A full scan of the `cats` table, in whatever order the engine returns
/// rows. Unlike insert this does not create the table, so the engine reports
/// a failure where it does not exist yet.
pub fn select_cats(conn: &mut rusqlite::Connection) -> (r: Result<Vec<Cat>, SqlStorageError>)
    ensures
        r matches Err(e) ==> (e is Rusqlite || e is IdOutOfRange),
{
    let no_params: [&str; 0] = [];
    match engine::query_id_name_rows(conn, "SELECT id, name FROM cats", &no_params) {
        Ok(rows) => rows_to_cats(rows),
        Err(e) => Err(SqlStorageError::Rusqlite(e)),
    }
}

/// The rows of the `cats` table whose id equals the given one: zero or one
/// row in practice, but the contract stays a list and a caller must handle
/// the empty case.
pub fn select_cats_by_id(id: &str, conn: &mut rusqlite::Connection) -> (r: Result<
    Vec<Cat>,
    SqlStorageError,
>)
    ensures
        r matches Err(e) ==> (e is Rusqlite || e is IdOutOfRange),
{
    let params: [&str; 1] = [id];
    match engine::query_id_name_rows(conn, "SELECT id, name FROM cats WHERE id = (?1)", &params) {
        Ok(rows) => rows_to_cats(rows),
        Err(e) => Err(SqlStorageError::Rusqlite(e)),
    }
}

impl CatStorage for SqlStorage {
    open spec fn inv(&self) -> bool {
        true
    }

    open spec fn can_create(&self) -> bool {
        true
    }

    fn new(db_path: &'static str) -> (s: Self)
        ensures
            s.db_path == db_path,
    {
        SqlStorage { db_path }
    }

    /// Inserts the new row, then reads it back by the returned id so the
    /// caller gets the record as the store holds it. What is returned for
    /// each read-back outcome is the contract of `first_or_missing`: the
    /// first record, or `MissingCat` exactly where the read-back found
    /// nothing.
    fn create(&mut self, name: String) -> (r: Result<Cat, CatStorageError>)
        ensures
            r matches Err(e) ==> {
                &&& !(e is NotUpdated)
                &&& !(e is Unsupported)
                &&& e matches CatStorageError::SqlStorage(se) ==> (se is Rusqlite
                    || se is IdOutOfRange)
            },
    {
        let mut conn = match engine::open_connection(self.db_path) {
            Ok(conn) => conn,
            Err(e) => {
                return Err(CatStorageError::Rusqlite(e));
            },
        };
        let id = match insert_cat(name.as_str(), &mut conn) {
            Ok(id) => id,
            Err(e) => {
                return Err(CatStorageError::SqlStorage(e));
            },
        };
        let cats = match self.read(Some(id)) {
            Ok(cats) => cats,
            Err(e) => {
                return Err(e);
            },
        };
        first_or_missing(cats)
    }

    /// With an id, the matching rows; without one, the whole table. An id
    /// that matches nothing yields an empty list, never an error.
    fn read(&mut self, id_opt: Option<String>) -> (r: Result<Vec<Cat>, CatStorageError>)
        ensures
            r matches Err(e) ==> {
                &&& !(e is MissingCat)
                &&& !(e is NotUpdated)
                &&& !(e is Unsupported)
                &&& e matches CatStorageError::SqlStorage(se) ==> (se is Rusqlite
                    || se is IdOutOfRange)
            },
    {
        let mut conn = match engine::open_connection(self.db_path) {
            Ok(conn) => conn,
            Err(e) => {
                return Err(CatStorageError::Rusqlite(e));
            },
        };
        let selected = match id_opt {
            Some(id) => select_cats_by_id(id.as_str(), &mut conn),
            None => select_cats(&mut conn),
        };
        match selected {
            Ok(cats) => Ok(cats),
            Err(e) => Err(CatStorageError::SqlStorage(e)),
        }
    }

    /// Rewrites the `name` column of the row with the given id (the id field
    /// of `new_cat` plays no part) and reads the row back. What is decided
    /// from each engine outcome is stated one call down:
    /// `check_single_row_updated` maps every changed-row count other than
    /// one to `NotUpdated`, and `first_or_missing` maps the read-back list
    /// to its first record or `MissingCat`. The targeted table and column
    /// are the allow-listed literals, so the allow-list rejections can never
    /// reach a caller.
    fn update(&mut self, id: String, new_cat: Cat) -> (r: Result<Cat, CatStorageError>)
        ensures
            r matches Err(e) ==> {
                &&& !(e is Unsupported)
                &&& e matches CatStorageError::SqlStorage(se) ==> (se is Rusqlite
                    || se is IdOutOfRange)
            },
    {
        let mut conn = match engine::open_connection(self.db_path) {
            Ok(conn) => conn,
            Err(e) => {
                return Err(CatStorageError::Rusqlite(e));
            },
        };
        let rows_updated = match update_column_by_id(
            "cats",
            id.as_str(),
            "name",
            new_cat.name.as_str(),
            &mut conn,
        ) {
            Ok(count) => count,
            Err(e) => {
                return Err(CatStorageError::SqlStorage(e));
            },
        };
        match check_single_row_updated(rows_updated) {
            Ok(()) => (),
            Err(e) => {
                return Err(e);
            },
        }
        let cats = match self.read(Some(id)) {
            Ok(cats) => cats,
            Err(e) => {
                return Err(e);
            },
        };
        first_or_missing(cats)
    }

    /// Removes the row with the given id; an id that matches nothing still
    /// succeeds, and the allow-list rejection can never reach a caller since
    /// the table is the allow-listed literal.
    fn delete(&mut self, id: String) -> (r: Result<(), CatStorageError>)
        ensures
            r matches Err(e) ==> {
                &&& !(e is MissingCat)
                &&& !(e is NotUpdated)
                &&& !(e is Unsupported)
                &&& e matches CatStorageError::SqlStorage(se) ==> se is Rusqlite
            },
    {
        let mut conn = match engine::open_connection(self.db_path) {
            Ok(conn) => conn,
            Err(e) => {
                return Err(CatStorageError::Rusqlite(e));
            },
        };
        match delete_by_id("cats", id.as_str(), &mut conn) {
            Ok(()) => Ok(()),
            Err(e) => Err(CatStorageError::SqlStorage(e)),
        }
    }
}

} // verus!
