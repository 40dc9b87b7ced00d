//! Laws of the collection's operations, stated over the model that their
//! contracts use.
use vstd::prelude::*;
use crate::model::{
    contains_key, delete_text, index_of, lemma_index_of_unique, lookup_text, remove_doc,
    store_valid, stored_as, update_doc, update_text, with_fields,
};
use crate::object_id::{hex_text_of, is_id_text, lemma_id_text_round_trip, parsed_key, WorkoutId};
use vstd::set_lib::{lemma_int_range, lemma_len_subset, lemma_map_size, set_int_range};
use crate::workout::{same_fields, WorkoutView};

verus! {

/// After creating `workout` under a fresh id, looking it up by the text form
/// of that id finds a document with an id and with the same title, reps and
/// load.
pub proof fn law_create_then_get(docs: Seq<WorkoutView>, workout: WorkoutView, id: WorkoutId)
    requires
        store_valid(docs),
        !contains_key(docs, id@),
    ensures
        store_valid(docs.push(stored_as(workout, id@))),
        lookup_text(docs.push(stored_as(workout, id@)), hex_text_of(id@)) == Some(
            stored_as(workout, id@),
        ),
        stored_as(workout, id@).id == Some(id@),
        same_fields(stored_as(workout, id@), workout),
{
    let w = stored_as(workout, id@);
    let s = docs.push(w);
    let n = docs.len() as int;
    assert(s[n] == w);
    assert forall|i: int, j: int|
        0 <= i < s.len() && 0 <= j < s.len() && (#[trigger] s[i]).id == (#[trigger] s[j]).id
        implies i == j by {
        if i == n && j < n {
            assert(docs[j].id == Some(id@));
        } else if j == n && i < n {
            assert(docs[i].id == Some(id@));
        } else if i < n && j < n {
            assert(docs[i].id == docs[j].id);
        }
    }
    lemma_index_of_unique(s, n);
    lemma_id_text_round_trip(id);
}

/// Deleting by the same id text twice: the second delete finds nothing and
/// changes nothing.
pub proof fn law_delete_twice(docs: Seq<WorkoutView>, text: Seq<char>)
    requires
        store_valid(docs),
    ensures
        store_valid(delete_text(docs, text)),
        lookup_text(delete_text(docs, text), text) is None,
        delete_text(delete_text(docs, text), text) == delete_text(docs, text),
{
    if let Some(key) = crate::object_id::parsed_key(text) {
        lemma_remove_drops_key(docs, key);
    }
}

/// Removing a key from a valid collection keeps it valid and leaves no
/// document with that key.
proof fn lemma_remove_drops_key(docs: Seq<WorkoutView>, key: Seq<u8>)
    requires
        store_valid(docs),
    ensures
        store_valid(remove_doc(docs, key)),
        !contains_key(remove_doc(docs, key), key),
{
    if contains_key(docs, key) {
        let i = index_of(docs, key);
        let s = docs.remove(i);
        assert forall|a: int| 0 <= a < s.len() implies (#[trigger] s[a]).id is Some && s[a].id
            != Some(key) by {
            let a2 = if a < i { a } else { a + 1 };
            assert(s[a] == docs[a2]);
        }
        assert forall|a: int, b: int|
            0 <= a < s.len() && 0 <= b < s.len() && (#[trigger] s[a]).id == (#[trigger] s[b]).id
            implies a == b by {
            let a2 = if a < i { a } else { a + 1 };
            let b2 = if b < i { b } else { b + 1 };
            assert(s[a] == docs[a2]);
            assert(s[b] == docs[b2]);
        }
    }
}

/// An update never changes any document's id; the document it names then
/// holds the new title, reps and load under its old id.
pub proof fn law_update_keeps_id(docs: Seq<WorkoutView>, text: Seq<char>, update: WorkoutView)
    requires
        store_valid(docs),
    ensures
        store_valid(update_text(docs, text, update)),
        update_text(docs, text, update).len() == docs.len(),
        forall|i: int|
            0 <= i < docs.len() ==> (#[trigger] update_text(docs, text, update)[i]).id
                == docs[i].id,
        match lookup_text(docs, text) {
            Some(d) => lookup_text(update_text(docs, text, update), text) == Some(
                with_fields(d, update),
            ),
            None => lookup_text(update_text(docs, text, update), text) is None,
        },
{
    if let Some(key) = crate::object_id::parsed_key(text) {
        let s = update_doc(docs, key, update);
        assert forall|a: int| 0 <= a < docs.len() implies (#[trigger] s[a]).id == docs[a].id by {}
        assert forall|a: int, b: int|
            0 <= a < s.len() && 0 <= b < s.len() && (#[trigger] s[a]).id == (#[trigger] s[b]).id
            implies a == b by {
            assert(docs[a].id == docs[b].id);
        }
        if contains_key(docs, key) {
            lemma_index_of_unique(s, index_of(docs, key));
        } else {
            assert(!contains_key(s, key));
        }
    }
}

/// After a run of successful creations, each under an id not yet stored when
/// it was made, listing the collection gives at least as many entries as were
/// created, and each created document exactly once.
pub proof fn law_list_after_creates(before: Seq<WorkoutView>, created: Seq<WorkoutView>)
    requires
        store_valid(before),
        forall|k: int| 0 <= k < created.len() ==> (#[trigger] created[k]).id is Some,
        forall|k: int|
            0 <= k < created.len() ==> !contains_key(
                before + created.take(k),
                (#[trigger] created[k]).id->0,
            ),
    ensures
        store_valid(before + created),
        (before + created).len() >= created.len(),
        forall|k: int|
            0 <= k < created.len() ==> exists|i: int|
                0 <= i < (before + created).len() && (before + created)[i] == #[trigger] created[k]
                    && forall|j: int|
                    0 <= j < (before + created).len() && (before + created)[j].id == created[k].id
                        ==> j == i,
{
    let s = before + created;
    let n = before.len() as int;
    assert forall|a: int| 0 <= a < s.len() implies (#[trigger] s[a]).id is Some by {
        if a >= n {
            assert(s[a] == created[a - n]);
        }
    }
    assert forall|a: int, b: int|
        0 <= a < s.len() && 0 <= b < s.len() && (#[trigger] s[a]).id == (#[trigger] s[b]).id
        implies a == b by {
        if a < b && b >= n {
            let k = b - n;
            let p = before + created.take(k);
            assert(s[b] == created[k]);
            assert(p[a] == s[a]);
            assert(p[a].id == Some(created[k].id->0));
        } else if b < a && a >= n {
            let k = a - n;
            let p = before + created.take(k);
            assert(s[a] == created[k]);
            assert(p[b] == s[b]);
            assert(p[b].id == Some(created[k].id->0));
        }
    }
    assert forall|k: int| 0 <= k < created.len() implies exists|i: int|
        0 <= i < s.len() && s[i] == #[trigger] created[k] && forall|j: int|
            0 <= j < s.len() && s[j].id == created[k].id ==> j == i by {
        assert(s[n + k] == created[k]);
    }
}

/// A stored document stays stored through the creation of another document,
/// through any update, and through any delete that names another id.
pub proof fn law_stored_stays_stored(
    docs: Seq<WorkoutView>,
    key: Seq<u8>,
    created: WorkoutView,
    text: Seq<char>,
    update: WorkoutView,
)
    requires
        store_valid(docs),
        contains_key(docs, key),
    ensures
        contains_key(docs.push(created), key),
        contains_key(update_text(docs, text, update), key),
        parsed_key(text) != Some(key) ==> contains_key(delete_text(docs, text), key),
{
    let i = index_of(docs, key);
    assert(docs.push(created)[i] == docs[i]);
    if let Some(k) = parsed_key(text) {
        law_update_keeps_id(docs, text, update);
        assert(update_text(docs, text, update)[i].id == docs[i].id);
        if k != key && contains_key(docs, k) {
            let p = index_of(docs, k);
            let s = docs.remove(p);
            assert(p != i);
            let i2 = if i < p { i } else { i - 1 };
            assert(s[i2] == docs[i]);
        }
    }
}

/// Exactly one document has id `key`.
pub open spec fn listed_once(docs: Seq<WorkoutView>, key: Seq<u8>) -> bool {
    exists|i: int|
        0 <= i < docs.len() && (#[trigger] docs[i]).id == Some(key) && forall|j: int|
            0 <= j < docs.len() && (#[trigger] docs[j]).id == Some(key) ==> j == i
}

/// Documents stored under distinct ids are each listed exactly once by id, so
/// a listing holds at least as many entries as there are such ids. The ids of
/// successful creations not deleted since are such ids: each was not stored
/// when it was created, and the earlier ones were still stored then.
pub proof fn law_list_completeness(docs: Seq<WorkoutView>, keys: Seq<Seq<u8>>)
    requires
        store_valid(docs),
        keys.no_duplicates(),
        forall|k: int| 0 <= k < keys.len() ==> contains_key(docs, #[trigger] keys[k]),
    ensures
        docs.len() >= keys.len(),
        forall|k: int| 0 <= k < keys.len() ==> listed_once(docs, #[trigger] keys[k]),
{
    let x = keys.to_set();
    let f = |key: Seq<u8>| index_of(docs, key);
    let y = x.map(f);
    keys.unique_seq_to_set();
    assert(x.finite()) by {
        vstd::seq_lib::seq_to_set_is_finite(keys);
    }
    assert forall|a: Seq<u8>, b: Seq<u8>| x.contains(a) && x.contains(b) && #[trigger] f(a) == #[trigger] f(b)
        implies a == b by {
        assert(contains_key(docs, a));
        assert(contains_key(docs, b));
        assert(docs[f(a)].id == Some(a));
        assert(docs[f(b)].id == Some(b));
    }
    lemma_map_size(x, y, f);
    lemma_int_range(0, docs.len() as int);
    assert forall|i: int| y.contains(i) implies set_int_range(0, docs.len() as int).contains(i) by {
        let a = choose|a: Seq<u8>| x.contains(a) && f(a) == i;
        assert(contains_key(docs, a));
    }
    lemma_len_subset(y, set_int_range(0, docs.len() as int));
    assert forall|k: int| 0 <= k < keys.len() implies listed_once(docs, #[trigger] keys[k]) by {
        let i = index_of(docs, keys[k]);
        assert(contains_key(docs, keys[k]));
        assert forall|j: int| 0 <= j < docs.len() && (#[trigger] docs[j]).id == Some(keys[k]) implies j == i by {
            assert(docs[j].id == docs[i].id);
        }
        assert(docs[i].id == Some(keys[k]));
    }
}

/// A text that is not an id text finds nothing, and a delete or an update by
/// it changes nothing.
pub proof fn law_malformed_id_not_found(
    docs: Seq<WorkoutView>,
    text: Seq<char>,
    update: WorkoutView,
)
    requires
        !is_id_text(text),
    ensures
        lookup_text(docs, text) is None,
        delete_text(docs, text) == docs,
        update_text(docs, text, update) == docs,
{
}

} // verus!
