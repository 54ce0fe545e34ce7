//! Trusted surface of the relational engine.
//!
//! Everything the library asks of rusqlite goes through the declarations and
//! wrappers in this module. What a call returns depends on the database the
//! engine holds, so the wrappers promise only what holds of every outcome;
//! the layers above state over their own inputs what they do with whatever
//! came back.

use vstd::prelude::*;

verus! {

#[verifier::external_type_specification]
#[verifier::external_body]
pub struct ExError(rusqlite::Error);

#[verifier::external_type_specification]
#[verifier::external_body]
pub struct ExConnection(rusqlite::Connection);

#[verifier::external_type_specification]
#[verifier::external_body]
pub struct ExTransaction<'conn>(rusqlite::Transaction<'conn>);

/// Relies on rusqlite's `Connection::open`: opens (creating it if absent) the
/// database at the given path. Whether this succeeds depends on the machine.
#[verifier::external_body]
pub(crate) fn open_connection(path: &str) -> (r: Result<rusqlite::Connection, rusqlite::Error>) {
    rusqlite::Connection::open(path)
}

/// Relies on rusqlite's `Connection::transaction`: begins a transaction that
/// rolls back when dropped and becomes durable only through `commit`.
#[verifier::external_body]
pub(crate) fn begin_transaction<'a>(conn: &'a mut rusqlite::Connection) -> (r: Result<
    rusqlite::Transaction<'a>,
    rusqlite::Error,
>) {
    conn.transaction()
}

/// Relies on rusqlite's `Connection::execute` (reached through the
/// transaction's `Deref`): runs one SQL statement with the given text values
/// bound to its `?N` parameters and reports how many rows it changed.
#[verifier::external_body]
pub(crate) fn tx_execute(tx: &rusqlite::Transaction<'_>, sql: &str, params: &[&str]) -> (r: Result<
    usize,
    rusqlite::Error,
>) {
    tx.execute(sql, rusqlite::params_from_iter(params.iter()))
}

/// Relies on rusqlite's `Transaction::commit`.
#[verifier::external_body]
pub(crate) fn commit_transaction(tx: rusqlite::Transaction<'_>) -> (r: Result<
    (),
    rusqlite::Error,
>) {
    tx.commit()
}

/// Relies on rusqlite's `Connection::last_insert_rowid` (reached through the
/// transaction's `Deref`), which wraps sqlite3_last_insert_rowid: the rowid
/// of the most recent successful INSERT on this connection, or 0 where it
/// has inserted nothing.
#[verifier::external_body]
pub(crate) fn tx_last_insert_rowid(tx: &rusqlite::Transaction<'_>) -> (r: i64) {
    tx.last_insert_rowid()
}

/// Relies on rusqlite's `Connection::prepare` and `Statement::query_map`: runs
/// the given two-column SELECT with the given text values bound to its `?N`
/// parameters and hands each row back as (integer, text). What comes back
/// depends on the database's contents.
#[verifier::external_body]
pub(crate) fn query_id_name_rows(conn: &rusqlite::Connection, sql: &str, params: &[&str]) -> (r:
    Result<Vec<(i64, String)>, rusqlite::Error>) {
    let mut statement = conn.prepare(sql)?;
    let rows = statement.query_map(
        rusqlite::params_from_iter(params.iter()),
        |row| Ok((row.get(0)?, row.get(1)?)),
    )?;
    rows.collect()
}

} // verus!
