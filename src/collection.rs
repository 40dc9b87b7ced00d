//! An in-memory workout collection: the service's operations on a store that
//! keeps its documents in insertion order.
use vstd::prelude::*;
use crate::model::{
    contains_key, delete_text, find_doc, index_of, lemma_index_of_unique, lookup_text, remove_doc,
    store_valid, stored_as, update_doc, update_text,
};
use crate::object_id::WorkoutId;
use crate::workout::{opt_view, Workout, WorkoutView};

verus! {

/// Why a document could not be created.
#[derive(Debug, Clone, Copy, PartialEq, Eq, Structural)]
pub enum CreateError {
    /// A document with the same id is already stored.
    DuplicateId,
}

/// The `workouts` collection.
pub struct WorkoutStore {
    docs: Vec<Workout>,
}

impl View for WorkoutStore {
    type V = Seq<WorkoutView>;

    closed spec fn view(&self) -> Seq<WorkoutView> {
        self.docs@.map_values(|w: Workout| w@)
    }
}

impl WorkoutStore {
    /// The store's invariant: ids present and unique.
    pub open spec fn wf(&self) -> bool {
        store_valid(self@)
    }

    /// An empty collection.
    pub fn new() -> (r: WorkoutStore)
        ensures
            r.wf(),
            r@ == Seq::<WorkoutView>::empty(),
    {
        let r = WorkoutStore { docs: Vec::new() };
        assert(r@ =~= Seq::<WorkoutView>::empty());
        r
    }

    /// The number of documents.
    pub fn len(&self) -> (r: usize)
        ensures
            r == self@.len(),
    {
        self.docs.len()
    }

    /// Where the document with id `key` stands.
    fn position(&self, key: &WorkoutId) -> (r: Option<usize>)
        requires
            self.wf(),
        ensures
            match r {
                Some(i) => contains_key(self@, key@) && index_of(self@, key@) == i && i
                    < self@.len(),
                None => !contains_key(self@, key@),
            },
    {
        let mut i: usize = 0;
        while i < self.docs.len()
            invariant
                self.wf(),
                0 <= i <= self.docs@.len(),
                forall|j: int| 0 <= j < i ==> (#[trigger] self@[j]).id != Some(key@),
            decreases self.docs@.len() - i,
        {
            let found = match &self.docs[i].id {
                Some(k) => *k == *key,
                None => false,
            };
            if found {
                assert(self@[i as int] == self.docs@[i as int]@);
                proof {
                    lemma_index_of_unique(self@, i as int);
                }
                return Some(i);
            }
            assert(self@[i as int] == self.docs@[i as int]@);
            i = i + 1;
        }
        None
    }

    /// All documents, in the store's order.
    pub fn get_workouts(&self) -> (r: Vec<Workout>)
        ensures
            r@.map_values(|w: Workout| w@) == self@,
    {
        let mut out: Vec<Workout> = Vec::new();
        let mut i: usize = 0;
        while i < self.docs.len()
            invariant
                0 <= i <= self.docs@.len(),
                out@.len() == i,
                forall|j: int| 0 <= j < i ==> (#[trigger] out@[j])@ == self.docs@[j]@,
            decreases self.docs@.len() - i,
        {
            out.push(self.docs[i].clone());
            i = i + 1;
        }
        assert(out@.map_values(|w: Workout| w@) =~= self@);
        out
    }

    /// The document with id `key`, if any.
    pub fn find_one(&self, key: &WorkoutId) -> (r: Option<Workout>)
        requires
            self.wf(),
        ensures
            opt_view(r) == find_doc(self@, key@),
    {
        match self.position(key) {
            Some(i) => Some(self.docs[i].clone()),
            None => None,
        }
    }

    /// The document whose id is written `id`; `None` where `id` is not an id
    /// text or no document has it.
    pub fn get_one_workout(&self, id: &str) -> (r: Option<Workout>)
        requires
            self.wf(),
        ensures
            opt_view(r) == lookup_text(self@, id@),
    {
        match WorkoutId::parse(id) {
            Some(key) => self.find_one(&key),
            None => None,
        }
    }

    /// Stores `workout` under `key`, refusing a key already in use. Returns the
    /// stored document.
    pub fn insert_workout(&mut self, workout: Workout, key: WorkoutId) -> (r: Result<
        Workout,
        CreateError,
    >)
        requires
            old(self).wf(),
        ensures
            final(self).wf(),
            contains_key(old(self)@, key@) ==> r == Err::<Workout, CreateError>(
                CreateError::DuplicateId,
            ) && final(self)@ == old(self)@,
            !contains_key(old(self)@, key@) ==> match r {
                Ok(w) => w@ == stored_as(workout@, key@) && final(self)@ == old(self)@.push(w@),
                Err(_) => false,
            },
    {
        if self.position(&key).is_some() {
            return Err(CreateError::DuplicateId);
        }
        let doc = Workout { id: Some(key), title: workout.title, reps: workout.reps, load: workout.load };
        let stored = doc.clone();
        self.docs.push(doc);
        assert(self@ =~= old(self)@.push(stored@));
        proof {
            let s = self@;
            let n = old(self)@.len() as int;
            assert forall|i: int, j: int|
                0 <= i < s.len() && 0 <= j < s.len() && (#[trigger] s[i]).id == (#[trigger] s[j]).id
                implies i == j by {
                if i == n && j < n {
                    assert(old(self)@[j].id == Some(key@));
                } else if j == n && i < n {
                    assert(old(self)@[i].id == Some(key@));
                } else if i < n && j < n {
                    assert(old(self)@[i].id == old(self)@[j].id);
                }
            }
        }
        Ok(stored)
    }

    /// Creates a document: under its own id where it has one, else under a new
    /// id. Returns the stored document. It fails only where the id is already
    /// stored, which for a new id cannot happen on an empty store.
    pub fn create_workout(&mut self, workout: Workout) -> (r: Result<Workout, CreateError>)
        requires
            old(self).wf(),
        ensures
            final(self).wf(),
            match r {
                Ok(w) => {
                    &&& w@.id is Some
                    &&& !contains_key(old(self)@, w@.id->0)
                    &&& w@ == stored_as(workout@, w@.id->0)
                    &&& final(self)@ == old(self)@.push(w@)
                    &&& workout.id is Some ==> w@.id == workout@.id
                },
                Err(_) => final(self)@ == old(self)@,
            },
            workout.id is Some ==> (r is Ok <==> !contains_key(old(self)@, workout@.id->0)),
            r is Err ==> (workout.id is Some && contains_key(old(self)@, workout@.id->0)) || (
            workout.id is None && old(self)@.len() > 0),
    {
        let key = match workout.id {
            Some(k) => k,
            None => WorkoutId::generate(),
        };
        self.insert_workout(workout, key)
    }

    /// Removes the document with id `key`, returning it.
    pub fn delete_one(&mut self, key: &WorkoutId) -> (r: Option<Workout>)
        requires
            old(self).wf(),
        ensures
            final(self).wf(),
            opt_view(r) == find_doc(old(self)@, key@),
            final(self)@ == remove_doc(old(self)@, key@),
    {
        match self.position(key) {
            Some(i) => {
                let w = self.docs.remove(i);
                assert(self@ =~= old(self)@.remove(i as int));
                proof {
                    let s = self@;
                    let o = old(self)@;
                    assert forall|a: int, b: int|
                        0 <= a < s.len() && 0 <= b < s.len() && (#[trigger] s[a]).id == (
                        #[trigger] s[b]).id implies a == b by {
                        let a2 = if a < i { a } else { a + 1 };
                        let b2 = if b < i { b } else { b + 1 };
                        assert(s[a] == o[a2]);
                        assert(s[b] == o[b2]);
                    }
                    assert forall|a: int| 0 <= a < s.len() implies (#[trigger] s[a]).id is Some by {
                        let a2 = if a < i { a } else { a + 1 };
                        assert(s[a] == o[a2]);
                    }
                }
                Some(w)
            },
            None => None,
        }
    }

    /// Removes the document whose id is written `id`, returning it; `None`,
    /// and nothing removed, where `id` is not an id text or no document has it.
    pub fn delete_workout(&mut self, id: &str) -> (r: Option<Workout>)
        requires
            old(self).wf(),
        ensures
            final(self).wf(),
            opt_view(r) == lookup_text(old(self)@, id@),
            final(self)@ == delete_text(old(self)@, id@),
    {
        match WorkoutId::parse(id) {
            Some(key) => self.delete_one(&key),
            None => None,
        }
    }

    /// Replaces the title, reps and load of the document with id `key`,
    /// returning the document as it now stands.
    pub fn update_one(&mut self, key: &WorkoutId, update: Workout) -> (r: Option<Workout>)
        requires
            old(self).wf(),
        ensures
            final(self).wf(),
            final(self)@ == update_doc(old(self)@, key@, update@),
            opt_view(r) == find_doc(final(self)@, key@),
    {
        match self.position(key) {
            Some(i) => {
                let doc = Workout {
                    id: self.docs[i].id,
                    title: update.title,
                    reps: update.reps,
                    load: update.load,
                };
                let result = doc.clone();
                self.docs.set(i, doc);
                assert(self@ =~= update_doc(old(self)@, key@, update@));
                proof {
                    let s = self@;
                    let o = old(self)@;
                    assert forall|a: int| 0 <= a < s.len() implies (#[trigger] s[a]).id == o[a].id by {}
                    assert forall|a: int, b: int|
                        0 <= a < s.len() && 0 <= b < s.len() && (#[trigger] s[a]).id == (
                        #[trigger] s[b]).id implies a == b by {
                        assert(o[a].id == o[b].id);
                    }
                    lemma_index_of_unique(s, i as int);
                }
                Some(result)
            },
            None => None,
        }
    }

    /// Replaces the title, reps and load of the document whose id is written
    /// `id`, returning the document as it now stands; `None`, and nothing
    /// changed, where `id` is not an id text or no document has it.
    pub fn update_workout(&mut self, id: &str, update: Workout) -> (r: Option<Workout>)
        requires
            old(self).wf(),
        ensures
            final(self).wf(),
            final(self)@ == update_text(old(self)@, id@, update@),
            opt_view(r) == lookup_text(final(self)@, id@),
    {
        match WorkoutId::parse(id) {
            Some(key) => self.update_one(&key, update),
            None => None,
        }
    }
}

} // verus!
