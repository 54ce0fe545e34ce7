use cats_crud::cat_store::Cat;
use cats_crud::cat_store::CatStorage;
use cats_crud::cat_store::CatStorageError;
use cats_crud::cat_store::MemoryStorage;
use cats_crud::cat_store::MockStorage;
use cats_crud::cat_store::NoSqlStorage;

#[test]
fn create_assigns_fresh_ids_and_echoes_name() {
    let mut s = MemoryStorage::new("unused");
    let a = s.create("alice".to_string()).unwrap();
    let b = s.create("bob".to_string()).unwrap();
    let c = s.create("carol".to_string()).unwrap();
    assert_eq!(a.id, 1);
    assert_eq!(b.id, 2);
    assert_eq!(c.id, 3);
    assert_eq!(a.name, "alice");
    assert_eq!(b.name, "bob");
    assert_eq!(c.name, "carol");
    assert!(a.id != b.id && b.id != c.id && a.id != c.id);
}

#[test]
fn read_by_id_after_create() {
    let mut s = MemoryStorage::new("unused");
    s.create("alice".to_string()).unwrap();
    let r = s.create("bob".to_string()).unwrap();
    let got = s.read(Some(r.id.to_string())).unwrap();
    assert_eq!(got.len(), 1);
    assert_eq!(got[0].id, 2);
    assert_eq!(got[0].name, "bob");
}

#[test]
fn read_all_returns_every_record() {
    let mut s = MemoryStorage::new("unused");
    s.create("alice".to_string()).unwrap();
    s.create("bob".to_string()).unwrap();
    s.create("carol".to_string()).unwrap();
    let all = s.read(None).unwrap();
    assert_eq!(all.len(), 3);
    let mut ids: Vec<i32> = all.iter().map(|c| c.id).collect();
    ids.sort();
    assert_eq!(ids, vec![1, 2, 3]);
    assert!(all.iter().any(|c| c.id == 1 && c.name == "alice"));
    assert!(all.iter().any(|c| c.id == 2 && c.name == "bob"));
    assert!(all.iter().any(|c| c.id == 3 && c.name == "carol"));
}

#[test]
fn update_changes_only_name_and_is_idempotent() {
    let mut s = MemoryStorage::new("unused");
    s.create("alice".to_string()).unwrap();
    s.create("bob".to_string()).unwrap();
    let u1 = s
        .update("1".to_string(), Cat { id: 1, name: "alicia".to_string() })
        .unwrap();
    assert_eq!(u1.id, 1);
    assert_eq!(u1.name, "alicia");
    let got = s.read(Some("1".to_string())).unwrap();
    assert_eq!(got.len(), 1);
    assert_eq!(got[0].name, "alicia");
    let untouched = s.read(Some("2".to_string())).unwrap();
    assert_eq!(untouched[0].name, "bob");
    let u2 = s
        .update("1".to_string(), Cat { id: 1, name: "alicia".to_string() })
        .unwrap();
    assert_eq!(u2.id, 1);
    assert_eq!(u2.name, "alicia");
    let again = s.read(Some("1".to_string())).unwrap();
    assert_eq!(again.len(), 1);
    assert_eq!(again[0].name, "alicia");
}

#[test]
fn update_missing_id_fails_and_leaves_store() {
    let mut s = MemoryStorage::new("unused");
    s.create("alice".to_string()).unwrap();
    let before: Vec<(i32, String)> = s
        .read(None)
        .unwrap()
        .iter()
        .map(|c| (c.id, c.name.clone()))
        .collect();
    let r = s.update("9999".to_string(), Cat { id: 9999, name: "x".to_string() });
    assert!(matches!(r, Err(CatStorageError::NotUpdated)));
    let after: Vec<(i32, String)> = s
        .read(None)
        .unwrap()
        .iter()
        .map(|c| (c.id, c.name.clone()))
        .collect();
    assert_eq!(before, after);
}

#[test]
fn delete_then_read_is_empty_and_idempotent() {
    let mut s = MemoryStorage::new("unused");
    s.create("alice".to_string()).unwrap();
    s.create("bob".to_string()).unwrap();
    s.delete("1".to_string()).unwrap();
    let gone = s.read(Some("1".to_string())).unwrap();
    assert!(gone.is_empty());
    s.delete("1".to_string()).unwrap();
    let all = s.read(None).unwrap();
    assert_eq!(all.len(), 1);
    assert_eq!(all[0].id, 2);
    assert_eq!(all[0].name, "bob");
}

#[test]
fn unparseable_id_reads_empty_and_updates_nothing() {
    let mut s = MemoryStorage::new("unused");
    s.create("alice".to_string()).unwrap();
    assert!(s.read(Some("abc".to_string())).unwrap().is_empty());
    let r = s.update("abc".to_string(), Cat { id: 0, name: "n".to_string() });
    assert!(matches!(r, Err(CatStorageError::NotUpdated)));
    assert!(s.delete("abc".to_string()).is_ok());
    assert_eq!(s.read(None).unwrap().len(), 1);
}

#[test]
fn duplicate_returns_equal_record() {
    let c = Cat { id: 7, name: "tom".to_string() };
    let d = c.duplicate();
    assert_eq!(d.id, 7);
    assert_eq!(d.name, "tom");
}

#[test]
fn stub_backends_report_unsupported() {
    let mut n = NoSqlStorage::new("unused");
    assert!(matches!(n.create("a".to_string()), Err(CatStorageError::Unsupported)));
    assert!(matches!(n.read(None), Err(CatStorageError::Unsupported)));
    assert!(matches!(
        n.update("1".to_string(), Cat { id: 1, name: "a".to_string() }),
        Err(CatStorageError::Unsupported)
    ));
    assert!(matches!(n.delete("1".to_string()), Err(CatStorageError::Unsupported)));
    let mut m = MockStorage::new("unused");
    assert!(matches!(m.create("a".to_string()), Err(CatStorageError::Unsupported)));
    assert!(matches!(m.read(None), Err(CatStorageError::Unsupported)));
    assert!(matches!(
        m.update("1".to_string(), Cat { id: 1, name: "a".to_string() }),
        Err(CatStorageError::Unsupported)
    ));
    assert!(matches!(m.delete("1".to_string()), Err(CatStorageError::Unsupported)));
}
