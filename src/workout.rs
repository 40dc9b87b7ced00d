//! The workout document.
use vstd::prelude::*;
use crate::object_id::WorkoutId;

verus! {

/// A workout as stored: `id` is set by the store on creation.
#[derive(Debug)]
pub struct Workout {
    pub id: Option<WorkoutId>,
    pub title: String,
    pub reps: i32,
    pub load: i32,
}

/// What a workout holds, with the id as its twelve bytes.
pub ghost struct WorkoutView {
    pub id: Option<Seq<u8>>,
    pub title: Seq<char>,
    pub reps: i32,
    pub load: i32,
}

/// The id of an optional identifier, as bytes.
pub open spec fn key_view(id: Option<WorkoutId>) -> Option<Seq<u8>> {
    match id {
        Some(k) => Some(k@),
        None => None,
    }
}

impl View for Workout {
    type V = WorkoutView;

    open spec fn view(&self) -> WorkoutView {
        WorkoutView { id: key_view(self.id), title: self.title@, reps: self.reps, load: self.load }
    }
}

/// The view of an optional workout.
pub open spec fn opt_view(w: Option<Workout>) -> Option<WorkoutView> {
    match w {
        Some(d) => Some(d@),
        None => None,
    }
}

/// Same title, reps and load (the id aside).
pub open spec fn same_fields(a: WorkoutView, b: WorkoutView) -> bool {
    a.title == b.title && a.reps == b.reps && a.load == b.load
}

impl Clone for Workout {
    fn clone(&self) -> (r: Workout)
        ensures
            r@ == self@,
    {
        Workout { id: self.id, title: self.title.clone(), reps: self.reps, load: self.load }
    }
}

impl Workout {
    /// A workout not yet stored: it has no id.
    pub fn new(title: String, reps: i32, load: i32) -> (r: Workout)
        ensures
            r.id is None,
            r.title@ == title@,
            r.reps == reps,
            r.load == load,
    {
        Workout { id: None, title, reps, load }
    }
}

} // verus!
