//! The collection as a sequence of documents, in the store's order, and the
//! effect of each operation on it.
use vstd::prelude::*;
use crate::object_id::parsed_key;
use crate::workout::WorkoutView;

verus! {

/// Every document has an id, and no two documents share one.
pub open spec fn store_valid(docs: Seq<WorkoutView>) -> bool {
    &&& forall|i: int| 0 <= i < docs.len() ==> (#[trigger] docs[i]).id is Some
    &&& forall|i: int, j: int|
        0 <= i < docs.len() && 0 <= j < docs.len() && (#[trigger] docs[i]).id == (#[trigger] docs[j]).id
            ==> i == j
}

/// Some document has id `key`.
pub open spec fn contains_key(docs: Seq<WorkoutView>, key: Seq<u8>) -> bool {
    exists|i: int| 0 <= i < docs.len() && (#[trigger] docs[i]).id == Some(key)
}

/// The position of the document with id `key`, where there is one.
pub open spec fn index_of(docs: Seq<WorkoutView>, key: Seq<u8>) -> int {
    choose|i: int| 0 <= i < docs.len() && (#[trigger] docs[i]).id == Some(key)
}

/// The document with id `key`, if any.
pub open spec fn find_doc(docs: Seq<WorkoutView>, key: Seq<u8>) -> Option<WorkoutView> {
    if contains_key(docs, key) {
        Some(docs[index_of(docs, key)])
    } else {
        None
    }
}

/// The collection without the document with id `key`.
pub open spec fn remove_doc(docs: Seq<WorkoutView>, key: Seq<u8>) -> Seq<WorkoutView> {
    if contains_key(docs, key) {
        docs.remove(index_of(docs, key))
    } else {
        docs
    }
}

/// `doc` with the title, reps and load of `update`; its id stays.
pub open spec fn with_fields(doc: WorkoutView, update: WorkoutView) -> WorkoutView {
    WorkoutView { id: doc.id, title: update.title, reps: update.reps, load: update.load }
}

/// The collection with the fields of the document with id `key` replaced.
pub open spec fn update_doc(docs: Seq<WorkoutView>, key: Seq<u8>, update: WorkoutView) -> Seq<
    WorkoutView,
> {
    if contains_key(docs, key) {
        let i = index_of(docs, key);
        docs.update(i, with_fields(docs[i], update))
    } else {
        docs
    }
}

/// `doc` stored under `key`.
pub open spec fn stored_as(doc: WorkoutView, key: Seq<u8>) -> WorkoutView {
    WorkoutView { id: Some(key), ..doc }
}

/// What a lookup by id text finds: nothing for a malformed text.
pub open spec fn lookup_text(docs: Seq<WorkoutView>, text: Seq<char>) -> Option<WorkoutView> {
    match parsed_key(text) {
        Some(key) => find_doc(docs, key),
        None => None,
    }
}

/// The collection after a delete by id text: unchanged for a malformed text.
pub open spec fn delete_text(docs: Seq<WorkoutView>, text: Seq<char>) -> Seq<WorkoutView> {
    match parsed_key(text) {
        Some(key) => remove_doc(docs, key),
        None => docs,
    }
}

/// The collection after an update by id text: unchanged for a malformed text.
pub open spec fn update_text(docs: Seq<WorkoutView>, text: Seq<char>, update: WorkoutView) -> Seq<
    WorkoutView,
> {
    match parsed_key(text) {
        Some(key) => update_doc(docs, key, update),
        None => docs,
    }
}

/// In a valid collection the document at `i` is the one found by its id.
pub proof fn lemma_index_of_unique(docs: Seq<WorkoutView>, i: int)
    requires
        store_valid(docs),
        0 <= i < docs.len(),
    ensures
        docs[i].id is Some,
        contains_key(docs, docs[i].id->0),
        index_of(docs, docs[i].id->0) == i,
{
    let key = docs[i].id->0;
    assert(docs[i].id == Some(key));
    let j = index_of(docs, key);
    assert(docs[j].id == docs[i].id);
}

} // verus!
