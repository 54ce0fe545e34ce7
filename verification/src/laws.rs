//! The CRUD laws, proved over the store model.
//!
//! The storage operations' contracts state what each call does to the model;
//! the proof functions here state what the calls do in combination: a created
//! record can be read back, whole-store reads are complete, update touches
//! only its target and is idempotent, and a deleted id reads as empty.

use vstd::prelude::*;

use crate::cat_store::StoreModel;
use crate::cat_store::ids_below;
use crate::cat_store::ids_unique;
use crate::cat_store::lemma_filter_no_match_keeps_all;
use crate::cat_store::model_delete;
use crate::cat_store::model_delete_str;
use crate::cat_store::model_has;
use crate::cat_store::model_select;
use crate::cat_store::model_select_str;
use crate::cat_store::model_update;
use crate::digits::lemma_parse_dec_roundtrip;
use crate::digits::spec_dec_string;
use crate::digits::spec_parse_id;

verus! {

/// Selecting an id that no record carries yields nothing.
pub proof fn lemma_select_no_match_is_empty(m: StoreModel, id: i32)
    requires
        forall|j: int| 0 <= j < m.len() ==> (#[trigger] m[j]).0 != id,
    ensures
        model_select(m, id) == Seq::<(i32, Seq<char>)>::empty(),
    decreases m.len(),
{
    reveal(Seq::filter);
    if m.len() == 0 {
        assert(model_select(m, id) =~~= Seq::<(i32, Seq<char>)>::empty());
    } else {
        let t = m.drop_last();
        assert(forall|j: int| 0 <= j < t.len() ==> (#[trigger] t[j]).0 != id);
        lemma_select_no_match_is_empty(t, id);
        assert(m.last().0 != id);
        assert(model_select(m, id) == model_select(t, id));
    }
}

/// Selecting an id carried by exactly one record yields exactly that record.
pub proof fn lemma_select_single_match(m: StoreModel, id: i32, i: int)
    requires
        0 <= i < m.len(),
        m[i].0 == id,
        forall|j: int| 0 <= j < m.len() && j != i ==> (#[trigger] m[j]).0 != id,
    ensures
        model_select(m, id) == seq![m[i]],
    decreases m.len(),
{
    reveal(Seq::filter);
    let t = m.drop_last();
    if i == m.len() - 1 {
        assert(forall|j: int| 0 <= j < t.len() ==> (#[trigger] t[j]).0 != id);
        lemma_select_no_match_is_empty(t, id);
        assert(m.last().0 == id);
        assert(model_select(m, id) == model_select(t, id).push(m.last()));
        assert(Seq::<(i32, Seq<char>)>::empty().push(m.last()) =~~= seq![m.last()]);
    } else {
        assert(forall|j: int| 0 <= j < t.len() && j != i ==> (#[trigger] t[j]).0 != id);
        lemma_select_single_match(t, id, i);
        assert(m.last().0 != id);
        assert(model_select(m, id) == model_select(t, id));
    }
}

/// Law: a freshly created record's id differs from the id of every record
/// the store holds, because every id the store ever assigned is below the
/// fresh one.
pub proof fn lemma_create_fresh_id(m: StoreModel, next_id: i32)
    requires
        ids_below(m, next_id as int),
    ensures
        !model_has(m, next_id),
        forall|i: int| 0 <= i < m.len() ==> (#[trigger] m[i]).0 != next_id,
{
}

/// Law: after a create hands back a record with the fresh id, reading by
/// that id's decimal string returns exactly that record.
pub proof fn lemma_read_after_create(m: StoreModel, next_id: i32, name: Seq<char>)
    requires
        1 <= next_id,
        ids_below(m, next_id as int),
    ensures
        model_select_str(m.push((next_id, name)), spec_dec_string(next_id as nat)) == seq![
            (next_id, name),
        ],
{
    lemma_parse_dec_roundtrip(next_id as nat);
    let p = m.push((next_id, name));
    assert(p[m.len() as int] == (next_id, name));
    assert(forall|j: int| 0 <= j < m.len() ==> (#[trigger] p[j]) == m[j]);
    lemma_select_single_match(p, next_id, m.len() as int);
}

/// Law: creating loses nothing: the store after a create holds every old
/// record unchanged, in place, plus the new one at the end.
pub proof fn lemma_read_all_after_create(m: StoreModel, next_id: i32, name: Seq<char>)
    ensures
        m.push((next_id, name)).len() == m.len() + 1,
        forall|j: int| 0 <= j < m.len() ==> (#[trigger] m.push((next_id, name))[j]) == m[j],
        m.push((next_id, name))[m.len() as int] == (next_id, name),
{
}

/// Law: an update touches only its target: the store keeps its length, every
/// record keeps its id, and every record with another id is untouched.
pub proof fn lemma_update_touches_only_target(m: StoreModel, id: i32, name: Seq<char>)
    ensures
        model_update(m, id, name).len() == m.len(),
        forall|j: int|
            0 <= j < m.len() ==> (#[trigger] model_update(m, id, name)[j]).0 == m[j].0,
        forall|j: int|
            0 <= j < m.len() && m[j].0 != id ==> (#[trigger] model_update(m, id, name)[j])
                == m[j],
{
}

/// Law: update is idempotent: renaming a record twice to one name is the
/// same as renaming it once, and the repeated call still finds its target.
pub proof fn lemma_update_idempotent(m: StoreModel, id: i32, name: Seq<char>)
    ensures
        model_update(model_update(m, id, name), id, name) == model_update(m, id, name),
        model_has(model_update(m, id, name), id) <==> model_has(m, id),
{
    assert(model_update(model_update(m, id, name), id, name) =~~= model_update(m, id, name));
    if model_has(m, id) {
        let i = choose|i: int| 0 <= i < m.len() && (#[trigger] m[i]).0 == id;
        assert(model_update(m, id, name)[i].0 == id);
        assert(model_has(model_update(m, id, name), id));
    }
    if model_has(model_update(m, id, name), id) {
        let u = model_update(m, id, name);
        let i = choose|i: int| 0 <= i < u.len() && (#[trigger] u[i]).0 == id;
        assert(m[i].0 == id || u[i] == m[i]);
        assert(model_has(m, id));
    }
}

/// Law: after a successful update of an existing id, reading by that id
/// returns exactly one record, and it carries the new name.
pub proof fn lemma_read_after_update(m: StoreModel, id: i32, name: Seq<char>, id_str: Seq<char>)
    requires
        spec_parse_id(id_str) == Some(id),
        ids_unique(m),
        model_has(m, id),
    ensures
        model_select_str(model_update(m, id, name), id_str) == seq![(id, name)],
{
    let u = model_update(m, id, name);
    let i = choose|i: int| 0 <= i < m.len() && (#[trigger] m[i]).0 == id;
    assert(u[i] == (id, name));
    assert(forall|j: int| 0 <= j < u.len() && j != i ==> (#[trigger] u[j]).0 != id) by {
        assert(forall|j: int| 0 <= j < m.len() && j != i ==> (#[trigger] m[j]).0 != id);
    }
    lemma_select_single_match(u, id, i);
}

/// Law: after deleting an id, reading by it yields the empty list (not an
/// error), and deleting it again changes nothing.
pub proof fn lemma_delete_then_read(m: StoreModel, id: i32, id_str: Seq<char>)
    requires
        spec_parse_id(id_str) == Some(id),
    ensures
        model_select_str(model_delete(m, id), id_str) == Seq::<(i32, Seq<char>)>::empty(),
        model_delete_str(model_delete(m, id), id_str) == model_delete(m, id),
{
    broadcast use vstd::seq_lib::group_filter_ensures;

    let d = model_delete(m, id);
    assert(forall|j: int| 0 <= j < d.len() ==> (#[trigger] d[j]).0 != id);
    lemma_select_no_match_is_empty(d, id);
    lemma_filter_no_match_keeps_all(d, id);
}

} // verus!
