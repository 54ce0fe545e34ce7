//! A small CRUD library for cat records, backed by a relational store.
//!
//! The storage abstraction (`CatStorage`) decouples callers from a concrete
//! backend; `SqlStorage` implements it against a SQLite table, and
//! `MemoryStorage` implements it over an in-process vector.

pub mod cat_sql_store;
pub mod cat_store;
pub mod digits;
mod engine;
pub mod laws;

pub use cat_store::Cat;
