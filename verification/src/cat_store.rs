//! The record model and the backend-agnostic storage contract.
//!
//! `CatStorage` is the polymorphic CRUD contract: callers depend on it, not on
//! a concrete backend. `MemoryStorage` implements it over an in-process
//! vector with exact contracts; the SQL-backed implementation lives in
//! `cat_sql_store`. Two further backends stand as explicit stubs.

use vstd::prelude::*;

use crate::cat_sql_store::SqlStorageError;
use crate::digits::parse_id;
use crate::digits::spec_parse_id;

verus! {

/// A persisted cat record: an engine-assigned identifier and a name.
#[derive(Debug)]
pub struct Cat {
    pub id: i32,
    pub name: String,
}

impl Cat {
    /// An independent copy of this record; mutating it never touches the store.
    pub fn duplicate(&self) -> (c: Cat)
        ensures
            c == *self,
    {
        Cat { id: self.id, name: self.name.clone() }
    }
}

/// What a storage operation can report instead of its payload.
#[derive(Debug)]
pub enum CatStorageError {
    /// A row written a moment ago could not be read back.
    MissingCat,
    /// An update addressed an id that no record has.
    NotUpdated,
    /// The backend does not support the operation.
    Unsupported,
    /// The engine failed while a connection was being opened.
    Rusqlite(rusqlite::Error),
    /// The engine failed inside the SQL access layer.
    SqlStorage(SqlStorageError),
}

/// The mathematical content of a store: each record as (id, name).
pub type StoreModel = Seq<(i32, Seq<char>)>;

/// The records of a vector of cats, as the model sees them.
pub open spec fn cats_model(cats: Seq<Cat>) -> StoreModel {
    cats.map_values(|c: Cat| (c.id, c.name@))
}

/// No two records share an id.
pub open spec fn ids_unique(m: StoreModel) -> bool {
    forall|i: int, j: int| 0 <= i < j < m.len() ==> m[i].0 != m[j].0
}

/// Every id is positive and below the given bound.
pub open spec fn ids_below(m: StoreModel, bound: int) -> bool {
    forall|i: int| 0 <= i < m.len() ==> 1 <= (#[trigger] m[i]).0 < bound
}

/// Some record has the given id.
pub open spec fn model_has(m: StoreModel, id: i32) -> bool {
    exists|i: int| 0 <= i < m.len() && (#[trigger] m[i]).0 == id
}

/// The records whose id is the given one, in store order.
pub open spec fn model_select(m: StoreModel, id: i32) -> StoreModel {
    m.filter(|p: (i32, Seq<char>)| p.0 == id)
}

/// What reading by an id string yields: the matching records where the string
/// denotes an id, and nothing where it denotes none.
pub open spec fn model_select_str(m: StoreModel, id: Seq<char>) -> StoreModel {
    match spec_parse_id(id) {
        Some(n) => model_select(m, n),
        None => Seq::empty(),
    }
}

/// The store after renaming the record with the given id; records with other
/// ids are untouched.
pub open spec fn model_update(m: StoreModel, id: i32, name: Seq<char>) -> StoreModel {
    m.map_values(|p: (i32, Seq<char>)| if p.0 == id { (id, name) } else { p })
}

/// The store after removing every record with the given id.
pub open spec fn model_delete(m: StoreModel, id: i32) -> StoreModel {
    m.filter(|p: (i32, Seq<char>)| p.0 != id)
}

/// The store after deleting by an id string: unchanged where the string
/// denotes no id (nothing can match it).
pub open spec fn model_delete_str(m: StoreModel, id: Seq<char>) -> StoreModel {
    match spec_parse_id(id) {
        Some(n) => model_delete(m, n),
        None => m,
    }
}

/// A common interface over different storage mediums, so that a caller can
/// swap backends without changing.
///
/// Each backend states its own well-formedness (`inv`) and when it can accept
/// one more record (`can_create`); the methods keep `inv`.
pub trait CatStorage: Sized {
    /// The backend's internal well-formedness condition.
    spec fn inv(&self) -> bool;

    /// Whether the backend can assign one more fresh id.
    spec fn can_create(&self) -> bool;

    /// A backend addressing the store at the given path.
    fn new(path: &'static str) -> (s: Self)
        ensures
            s.inv(),
    ;

    /// Stores a new record under a fresh id and returns a copy of it.
    fn create(&mut self, name: String) -> (r: Result<Cat, CatStorageError>)
        requires
            old(self).inv(),
            old(self).can_create(),
        ensures
            final(self).inv(),
    ;

    /// With an id: the records matching it (none is an empty list, not an
    /// error). Without one: every record in the store.
    fn read(&mut self, id_opt: Option<String>) -> (r: Result<Vec<Cat>, CatStorageError>)
        requires
            old(self).inv(),
        ensures
            final(self).inv(),
    ;

    /// Renames the record with the given id to the new record's name and
    /// returns the stored result; fails with `NotUpdated` where no record has
    /// the id.
    fn update(&mut self, id: String, new_cat: Cat) -> (r: Result<Cat, CatStorageError>)
        requires
            old(self).inv(),
        ensures
            final(self).inv(),
    ;

    /// Removes the record with the given id; deleting an absent id succeeds.
    fn delete(&mut self, id: String) -> (r: Result<(), CatStorageError>)
        requires
            old(self).inv(),
        ensures
            final(self).inv(),
    ;
}

/// An in-process backend: the store is a vector of records plus the next
/// fresh id. It is the model against which the CRUD laws are stated.
pub struct MemoryStorage {
    pub cats: Vec<Cat>,
    pub next_id: i32,
}

impl View for MemoryStorage {
    type V = StoreModel;

    open spec fn view(&self) -> StoreModel {
        cats_model(self.cats@)
    }
}

impl CatStorage for MemoryStorage {
    open spec fn inv(&self) -> bool {
        &&& 1 <= self.next_id
        &&& ids_unique(self@)
        &&& ids_below(self@, self.next_id as int)
    }

    open spec fn can_create(&self) -> bool {
        self.next_id < 2147483647
    }

    fn new(_path: &'static str) -> (s: Self)
        ensures
            s@ == Seq::<(i32, Seq<char>)>::empty(),
            s.next_id == 1,
    {
        let s = MemoryStorage { cats: Vec::new(), next_id: 1 };
        proof {
            assert(s@ =~~= Seq::<(i32, Seq<char>)>::empty());
        }
        s
    }

    fn create(&mut self, name: String) -> (r: Result<Cat, CatStorageError>)
        ensures
            final(self)@ == old(self)@.push((old(self).next_id, name@)),
            final(self).next_id == old(self).next_id + 1,
            r is Ok,
            r->Ok_0.id == old(self).next_id,
            r->Ok_0.name@ == name@,
    {
        let cat = Cat { id: self.next_id, name };
        self.cats.push(cat.duplicate());
        self.next_id = self.next_id + 1;
        proof {
            assert(self@ =~~= old(self)@.push((cat.id, cat.name@)));
        }
        Ok(cat)
    }

    fn read(&mut self, id_opt: Option<String>) -> (r: Result<Vec<Cat>, CatStorageError>)
        ensures
            *final(self) == *old(self),
            r is Ok,
            id_opt is None ==> cats_model(r->Ok_0@) == old(self)@,
            id_opt matches Some(id) ==> cats_model(r->Ok_0@) == model_select_str(
                old(self)@,
                id@,
            ),
    {
        let ghost m = self@;
        match id_opt {
            None => {
                let mut out: Vec<Cat> = Vec::new();
                let mut i: usize = 0;
                while i < self.cats.len()
                    invariant
                        *self == *old(self),
                        m == self@,
                        i <= self.cats@.len(),
                        cats_model(out@) == m.subrange(0, i as int),
                    decreases self.cats@.len() - i,
                {
                    let ghost out_pre = out@;
                    let c = self.cats[i].duplicate();
                    out.push(c);
                    proof {
                        assert(out@ == out_pre.push(c));
                        assert(c == self.cats@[i as int]);
                        assert(cats_model(out_pre).len() == out_pre.len());
                        assert(m.subrange(0, i as int).len() == i as int);
                        assert(out_pre.len() == i as int);
                        assert(out@.len() == i + 1);
                        assert forall|j: int| 0 <= j < i + 1 implies cats_model(out@)[j]
                            == m.subrange(0, i + 1)[j] by {
                            if j < i {
                                assert(out@[j] == out_pre[j]);
                                assert(cats_model(out_pre)[j] == m.subrange(0, i as int)[j]);
                            } else {
                                assert(out@[j] == c);
                            }
                        }
                        assert(cats_model(out@) =~~= m.subrange(0, i + 1));
                    }
                    i += 1;
                }
                proof {
                    assert(m.subrange(0, m.len() as int) =~~= m);
                }
                Ok(out)
            },
            Some(id) => {
                match parse_id(id.as_str()) {
                    None => {
                        proof {
                            assert(cats_model(Seq::<Cat>::empty()) =~~= Seq::<
                                (i32, Seq<char>),
                            >::empty());
                        }
                        let out: Vec<Cat> = Vec::new();
                        proof {
                            assert(out@ =~= Seq::<Cat>::empty());
                        }
                        Ok(out)
                    },
                    Some(nid) => {
                        let mut out: Vec<Cat> = Vec::new();
                        let mut i: usize = 0;
                        proof {
                            reveal(Seq::filter);
                            assert(cats_model(out@) =~~= model_select(m.subrange(0, 0), nid));
                        }
                        while i < self.cats.len()
                            invariant
                                *self == *old(self),
                                m == self@,
                                i <= self.cats@.len(),
                                cats_model(out@) == model_select(m.subrange(0, i as int), nid),
                            decreases self.cats@.len() - i,
                        {
                            let ghost out_pre = out@;
                            let c = &self.cats[i];
                            if c.id == nid {
                                out.push(c.duplicate());
                            }
                            proof {
                                reveal(Seq::filter);
                                assert(m.subrange(0, i + 1).drop_last() =~~= m.subrange(0, i as int));
                                assert(m.subrange(0, i + 1).last() == m[i as int]);
                                if c.id == nid {
                                    assert(cats_model(out@) =~~= cats_model(out_pre).push(
                                        (c.id, c.name@),
                                    ));
                                }
                                assert(cats_model(out@) =~~= model_select(
                                    m.subrange(0, i + 1),
                                    nid,
                                ));
                            }
                            i += 1;
                        }
                        proof {
                            assert(m.subrange(0, m.len() as int) =~~= m);
                        }
                        Ok(out)
                    },
                }
            },
        }
    }

    fn update(&mut self, id: String, new_cat: Cat) -> (r: Result<Cat, CatStorageError>)
        ensures
            final(self).next_id == old(self).next_id,
            spec_parse_id(id@) is None ==> *final(self) == *old(self) && r == Err::<
                Cat,
                CatStorageError,
            >(CatStorageError::NotUpdated),
            spec_parse_id(id@) matches Some(nid) ==> {
                &&& !model_has(old(self)@, nid) ==> *final(self) == *old(self) && r == Err::<
                    Cat,
                    CatStorageError,
                >(CatStorageError::NotUpdated)
                &&& model_has(old(self)@, nid) ==> {
                    &&& final(self)@ == model_update(old(self)@, nid, new_cat.name@)
                    &&& r is Ok
                    &&& r->Ok_0.id == nid
                    &&& r->Ok_0.name@ == new_cat.name@
                }
            },
    {
        let ghost m = self@;
        match parse_id(id.as_str()) {
            None => Err(CatStorageError::NotUpdated),
            Some(nid) => {
                let mut i: usize = 0;
                while i < self.cats.len()
                    invariant
                        *self == *old(self),
                        m == self@,
                        old(self).inv(),
                        spec_parse_id(id@) == Some(nid),
                        i <= self.cats@.len(),
                        forall|j: int| 0 <= j < i ==> (#[trigger] m[j]).0 != nid,
                    decreases self.cats@.len() - i,
                {
                    if self.cats[i].id == nid {
                        let stored = Cat { id: nid, name: new_cat.name.clone() };
                        self.cats[i] = stored;
                        proof {
                            assert(m[i as int].0 == nid);
                            assert(model_has(m, nid));
                            assert forall|j: int| 0 <= j < m.len() implies cats_model(
                                self.cats@,
                            )[j] == model_update(m, nid, new_cat.name@)[j] by {
                                if j == i {
                                    assert(self.cats@[j] == stored);
                                } else {
                                    assert(self.cats@[j] == old(self).cats@[j]);
                                    if j < i {
                                        assert(m[j].0 != nid);
                                    } else {
                                        assert(m[j].0 != m[i as int].0);
                                    }
                                }
                            }
                            assert(self@ =~~= model_update(m, nid, new_cat.name@));
                            assert(model_has(m, nid));
                        }
                        return Ok(Cat { id: nid, name: new_cat.name });
                    }
                    i += 1;
                }
                Err(CatStorageError::NotUpdated)
            },
        }
    }

    fn delete(&mut self, id: String) -> (r: Result<(), CatStorageError>)
        ensures
            r is Ok,
            final(self).next_id == old(self).next_id,
            final(self)@ == model_delete_str(old(self)@, id@),
    {
        let ghost m = self@;
        match parse_id(id.as_str()) {
            None => Ok(()),
            Some(nid) => {
                let mut i: usize = 0;
                while i < self.cats.len()
                    invariant
                        *self == *old(self),
                        m == self@,
                        old(self).inv(),
                        spec_parse_id(id@) == Some(nid),
                        i <= self.cats@.len(),
                        forall|j: int| 0 <= j < i ==> (#[trigger] m[j]).0 != nid,
                    decreases self.cats@.len() - i,
                {
                    if self.cats[i].id == nid {
                        self.cats.remove(i);
                        proof {
                            assert(self@ =~~= m.remove(i as int));
                            lemma_remove_match_is_filter(m, nid, i as int);
                        }
                        return Ok(());
                    }
                    i += 1;
                }
                proof {
                    lemma_filter_no_match_keeps_all(m, nid);
                }
                Ok(())
            },
        }
    }
}

/// Removing the one record that carries an id is the same as filtering that
/// id out, when ids are unique.
pub proof fn lemma_remove_match_is_filter(m: StoreModel, id: i32, i: int)
    requires
        ids_unique(m),
        0 <= i < m.len(),
        m[i].0 == id,
    ensures
        model_delete(m, id) == m.remove(i),
    decreases m.len(),
{
    reveal(Seq::filter);
    let t = m.drop_last();
    assert(ids_unique(t));
    if i == m.len() - 1 {
        assert(forall|j: int| 0 <= j < t.len() ==> (#[trigger] t[j]).0 != id);
        lemma_filter_no_match_keeps_all(t, id);
        assert(m.remove(i) =~~= t);
        assert(m.last().0 == id);
        assert(model_delete(m, id) == model_delete(t, id));
    } else {
        assert(m.last().0 != id) by {
            assert(m[i].0 == id);
            assert(m[m.len() - 1].0 != m[i].0);
        }
        lemma_remove_match_is_filter(t, id, i);
        assert(model_delete(m, id) == model_delete(t, id).push(m.last()));
        assert(m.remove(i) =~~= t.remove(i).push(m.last()));
    }
}

/// Filtering an id out of a store where no record carries it keeps the store.
pub proof fn lemma_filter_no_match_keeps_all(m: StoreModel, id: i32)
    requires
        forall|j: int| 0 <= j < m.len() ==> (#[trigger] m[j]).0 != id,
    ensures
        model_delete(m, id) == m,
    decreases m.len(),
{
    reveal(Seq::filter);
    if m.len() == 0 {
        assert(model_delete(m, id) =~~= m);
    } else {
        let t = m.drop_last();
        assert(forall|j: int| 0 <= j < t.len() ==> (#[trigger] t[j]).0 != id);
        lemma_filter_no_match_keeps_all(t, id);
        assert(m.last().0 != id);
        assert(model_delete(m, id) == model_delete(t, id).push(m.last()));
        assert(t.push(m.last()) =~~= m);
    }
}

/// A backend over a document store could be served through the same contract;
/// this one is an explicit stub and reports every operation as unsupported.
pub struct NoSqlStorage {}

impl CatStorage for NoSqlStorage {
    open spec fn inv(&self) -> bool {
        true
    }

    open spec fn can_create(&self) -> bool {
        true
    }

    fn new(_path: &'static str) -> (s: Self) {
        NoSqlStorage {  }
    }

    fn create(&mut self, _name: String) -> (r: Result<Cat, CatStorageError>)
        ensures
            r == Err::<Cat, CatStorageError>(CatStorageError::Unsupported),
    {
        Err(CatStorageError::Unsupported)
    }

    fn read(&mut self, _id_opt: Option<String>) -> (r: Result<Vec<Cat>, CatStorageError>)
        ensures
            r == Err::<Vec<Cat>, CatStorageError>(CatStorageError::Unsupported),
    {
        Err(CatStorageError::Unsupported)
    }

    fn update(&mut self, _id: String, _new_cat: Cat) -> (r: Result<Cat, CatStorageError>)
        ensures
            r == Err::<Cat, CatStorageError>(CatStorageError::Unsupported),
    {
        Err(CatStorageError::Unsupported)
    }

    fn delete(&mut self, _id: String) -> (r: Result<(), CatStorageError>)
        ensures
            r == Err::<(), CatStorageError>(CatStorageError::Unsupported),
    {
        Err(CatStorageError::Unsupported)
    }
}

/// The stand-in backend for unit tests that need the contract without a
/// store; it reports every operation as unsupported.
pub struct MockStorage {}

impl CatStorage for MockStorage {
    open spec fn inv(&self) -> bool {
        true
    }

    open spec fn can_create(&self) -> bool {
        true
    }

    fn new(_path: &'static str) -> (s: Self) {
        MockStorage {  }
    }

    fn create(&mut self, _name: String) -> (r: Result<Cat, CatStorageError>)
        ensures
            r == Err::<Cat, CatStorageError>(CatStorageError::Unsupported),
    {
        Err(CatStorageError::Unsupported)
    }

    fn read(&mut self, _id_opt: Option<String>) -> (r: Result<Vec<Cat>, CatStorageError>)
        ensures
            r == Err::<Vec<Cat>, CatStorageError>(CatStorageError::Unsupported),
    {
        Err(CatStorageError::Unsupported)
    }

    fn update(&mut self, _id: String, _new_cat: Cat) -> (r: Result<Cat, CatStorageError>)
        ensures
            r == Err::<Cat, CatStorageError>(CatStorageError::Unsupported),
    {
        Err(CatStorageError::Unsupported)
    }

    fn delete(&mut self, _id: String) -> (r: Result<(), CatStorageError>)
        ensures
            r == Err::<(), CatStorageError>(CatStorageError::Unsupported),
    {
        Err(CatStorageError::Unsupported)
    }
}

} // verus!
