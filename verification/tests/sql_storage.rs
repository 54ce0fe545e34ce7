use cats_crud::cat_sql_store::SqlStorage;
use cats_crud::cat_sql_store::SqlStorageError;
use cats_crud::cat_sql_store::check_single_row_updated;
use cats_crud::cat_sql_store::first_or_missing;
use cats_crud::cat_sql_store::delete_by_id;
use cats_crud::cat_sql_store::insert_cat;
use cats_crud::cat_sql_store::rows_to_cats;
use cats_crud::cat_sql_store::select_cats;
use cats_crud::cat_sql_store::select_cats_by_id;
use cats_crud::cat_sql_store::update_column_by_id;
use cats_crud::cat_store::Cat;
use cats_crud::cat_store::CatStorage;
use cats_crud::cat_store::CatStorageError;

// Each test keeps one guard connection open so its shared in-memory database
// outlives the per-operation connections the storage backend opens.

#[test]
fn sql_storage_round_trip() {
    let uri = "file:cats_round_trip?mode=memory&cache=shared";
    let guard = rusqlite::Connection::open(uri).unwrap();
    let mut s = SqlStorage::new(uri);
    let a = s.create("alice".to_string()).unwrap();
    assert_eq!(a.name, "alice");
    let b = s.create("bob".to_string()).unwrap();
    assert!(a.id != b.id);
    let got = s.read(Some(a.id.to_string())).unwrap();
    assert_eq!(got.len(), 1);
    assert_eq!(got[0].id, a.id);
    assert_eq!(got[0].name, "alice");
    let all = s.read(None).unwrap();
    assert_eq!(all.len(), 2);
    let u = s
        .update(a.id.to_string(), Cat { id: a.id, name: "alicia".to_string() })
        .unwrap();
    assert_eq!(u.id, a.id);
    assert_eq!(u.name, "alicia");
    let re_read = s.read(Some(a.id.to_string())).unwrap();
    assert_eq!(re_read[0].name, "alicia");
    s.delete(a.id.to_string()).unwrap();
    assert!(s.read(Some(a.id.to_string())).unwrap().is_empty());
    s.delete(a.id.to_string()).unwrap();
    let left = s.read(None).unwrap();
    assert_eq!(left.len(), 1);
    assert_eq!(left[0].name, "bob");
    drop(guard);
}

#[test]
fn sql_storage_update_missing_id() {
    let uri = "file:cats_update_missing?mode=memory&cache=shared";
    let guard = rusqlite::Connection::open(uri).unwrap();
    let mut s = SqlStorage::new(uri);
    s.create("alice".to_string()).unwrap();
    let before = s.read(None).unwrap().len();
    let r = s.update("9999".to_string(), Cat { id: 9999, name: "x".to_string() });
    assert!(matches!(r, Err(CatStorageError::NotUpdated)));
    assert_eq!(s.read(None).unwrap().len(), before);
    drop(guard);
}

#[test]
fn sql_storage_read_before_table_exists_fails() {
    let uri = "file:cats_no_table?mode=memory&cache=shared";
    let guard = rusqlite::Connection::open(uri).unwrap();
    let mut s = SqlStorage::new(uri);
    let r = s.read(None);
    assert!(matches!(
        r,
        Err(CatStorageError::SqlStorage(SqlStorageError::Rusqlite(_)))
    ));
    drop(guard);
}

#[test]
fn update_column_rejects_names_outside_allow_list() {
    let mut conn = rusqlite::Connection::open_in_memory().unwrap();
    let r = update_column_by_id("cats", "1", "color", "red", &mut conn);
    assert!(matches!(r, Err(SqlStorageError::ForbiddenColumn)));
    let r2 = update_column_by_id("dogs", "1", "name", "rex", &mut conn);
    assert!(matches!(r2, Err(SqlStorageError::ForbiddenTable)));
    let r3 = delete_by_id("dogs", "1", &mut conn);
    assert!(matches!(r3, Err(SqlStorageError::ForbiddenTable)));
}

#[test]
fn sql_layer_primitives_round_trip() {
    let mut conn = rusqlite::Connection::open_in_memory().unwrap();
    let first = insert_cat("tom", &mut conn).unwrap();
    assert_eq!(first, "1");
    let second = insert_cat("jerry", &mut conn).unwrap();
    assert_eq!(second, "2");
    let changed = update_column_by_id("cats", "1", "name", "tommy", &mut conn).unwrap();
    assert_eq!(changed, 1);
    let one = select_cats_by_id("1", &mut conn).unwrap();
    assert_eq!(one.len(), 1);
    assert_eq!(one[0].id, 1);
    assert_eq!(one[0].name, "tommy");
    let none_changed = update_column_by_id("cats", "555", "name", "x", &mut conn).unwrap();
    assert_eq!(none_changed, 0);
    delete_by_id("cats", "1", &mut conn).unwrap();
    let all = select_cats(&mut conn).unwrap();
    assert_eq!(all.len(), 1);
    assert_eq!(all[0].id, 2);
    assert_eq!(all[0].name, "jerry");
}

#[test]
fn rows_to_cats_checks_id_range() {
    let ok = rows_to_cats(vec![(1i64, "a".to_string()), (2i64, "b".to_string())]).unwrap();
    assert_eq!(ok.len(), 2);
    assert_eq!(ok[0].id, 1);
    assert_eq!(ok[0].name, "a");
    assert_eq!(ok[1].id, 2);
    assert_eq!(ok[1].name, "b");
    let bad = rows_to_cats(vec![(1i64, "a".to_string()), (3000000000i64, "big".to_string())]);
    assert!(matches!(bad, Err(SqlStorageError::IdOutOfRange)));
}

#[test]
fn first_or_missing_decides_on_the_list() {
    let empty: Vec<Cat> = vec![];
    assert!(matches!(first_or_missing(empty), Err(CatStorageError::MissingCat)));
    let two = vec![
        Cat { id: 4, name: "tom".to_string() },
        Cat { id: 5, name: "jerry".to_string() },
    ];
    let c = first_or_missing(two).unwrap();
    assert_eq!(c.id, 4);
    assert_eq!(c.name, "tom");
}

#[test]
fn check_single_row_updated_accepts_exactly_one() {
    assert!(check_single_row_updated(1).is_ok());
    assert!(matches!(check_single_row_updated(0), Err(CatStorageError::NotUpdated)));
    assert!(matches!(check_single_row_updated(2), Err(CatStorageError::NotUpdated)));
}

#[test]
fn deleted_ids_are_never_reused() {
    let mut conn = rusqlite::Connection::open_in_memory().unwrap();
    assert_eq!(insert_cat("tom", &mut conn).unwrap(), "1");
    assert_eq!(insert_cat("jerry", &mut conn).unwrap(), "2");
    delete_by_id("cats", "2", &mut conn).unwrap();
    assert_eq!(insert_cat("spot", &mut conn).unwrap(), "3");
    delete_by_id("cats", "3", &mut conn).unwrap();
    assert_eq!(insert_cat("felix", &mut conn).unwrap(), "4");
}
