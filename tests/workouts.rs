use workout_service::collection::{CreateError, WorkoutStore};
use workout_service::object_id::WorkoutId;
use workout_service::workout::Workout;

fn squat(reps: i32, load: i32) -> Workout {
    Workout::new("Squat".to_string(), reps, load)
}

fn fields(w: &Workout) -> (String, i32, i32) {
    (w.title.clone(), w.reps, w.load)
}

#[test]
fn create_then_get_by_returned_id() {
    let mut store = WorkoutStore::new();
    let created = store.create_workout(Workout::new("Bench".to_string(), 10, 60)).unwrap();
    let id = created.id.expect("created document has an id");
    let text = id.to_hex();
    assert_eq!(text.len(), 24);
    let got = store.get_one_workout(&text).expect("found by its id");
    assert_eq!(got.id, Some(id));
    assert_eq!(fields(&got), ("Bench".to_string(), 10, 60));
}

#[test]
fn delete_twice_second_is_not_found() {
    let mut store = WorkoutStore::new();
    let created = store.create_workout(squat(5, 100)).unwrap();
    let text = created.id.unwrap().to_hex();
    let first = store.delete_workout(&text).expect("first delete returns the document");
    assert_eq!(first.id, created.id);
    assert_eq!(fields(&first), ("Squat".to_string(), 5, 100));
    assert!(store.delete_workout(&text).is_none());
    assert!(store.get_one_workout(&text).is_none());
    assert_eq!(store.len(), 0);
}

#[test]
fn update_keeps_the_id() {
    let mut store = WorkoutStore::new();
    let created = store.create_workout(squat(5, 100)).unwrap();
    let other = store.create_workout(Workout::new("Row".to_string(), 12, 40)).unwrap();
    let text = created.id.unwrap().to_hex();
    let updated = store
        .update_workout(&text, Workout::new("Deadlift".to_string(), 3, 180))
        .expect("update finds the document");
    assert_eq!(updated.id, created.id);
    assert_eq!(fields(&updated), ("Deadlift".to_string(), 3, 180));
    let all = store.get_workouts();
    assert_eq!(all.len(), 2);
    assert_eq!(all[0].id, created.id);
    assert_eq!(all[1].id, other.id);
    assert_eq!(fields(&all[1]), ("Row".to_string(), 12, 40));
}

#[test]
fn update_ignores_the_id_in_the_body() {
    let mut store = WorkoutStore::new();
    let created = store.create_workout(squat(5, 100)).unwrap();
    let mut body = squat(6, 110);
    body.id = Some(WorkoutId { bytes: [7; 12] });
    let updated = store.update_workout(&created.id.unwrap().to_hex(), body).unwrap();
    assert_eq!(updated.id, created.id);
}

#[test]
fn list_after_creates_holds_each_once() {
    let mut store = WorkoutStore::new();
    let mut ids = Vec::new();
    for n in 0..5 {
        let w = store.create_workout(Workout::new(format!("w{}", n), n, 10 * n)).unwrap();
        ids.push(w.id.unwrap());
    }
    let all = store.get_workouts();
    assert!(all.len() >= 5);
    for (n, id) in ids.iter().enumerate() {
        let hits: Vec<&Workout> = all.iter().filter(|w| w.id == Some(*id)).collect();
        assert_eq!(hits.len(), 1);
        assert_eq!(fields(hits[0]), (format!("w{}", n), n as i32, 10 * n as i32));
    }
}

#[test]
fn list_of_empty_store_is_empty() {
    let store = WorkoutStore::new();
    assert!(store.get_workouts().is_empty());
}

#[test]
fn malformed_ids_are_not_found() {
    let mut store = WorkoutStore::new();
    store.create_workout(squat(5, 100)).unwrap();
    for bad in ["", "abc", "not-an-id", "0123456789abcdef0123456g", "0123456789abcdef012345678", "é123456789abcdef0123456"] {
        assert!(store.get_one_workout(bad).is_none(), "get {:?}", bad);
        assert!(store.update_workout(bad, squat(1, 1)).is_none(), "update {:?}", bad);
        assert!(store.delete_workout(bad).is_none(), "delete {:?}", bad);
    }
    assert_eq!(store.len(), 1);
    assert_eq!(fields(&store.get_workouts()[0]), ("Squat".to_string(), 5, 100));
}

#[test]
fn well_formed_unknown_id_is_not_found() {
    let mut store = WorkoutStore::new();
    store.create_workout(squat(5, 100)).unwrap();
    let unknown = "000000000000000000000000";
    assert!(store.get_one_workout(unknown).is_none());
    assert!(store.update_workout(unknown, squat(1, 1)).is_none());
    assert!(store.delete_workout(unknown).is_none());
    assert_eq!(store.len(), 1);
}

#[test]
fn squat_scenario() {
    let mut store = WorkoutStore::new();
    let created = store.create_workout(squat(5, 100)).unwrap();
    let id = created.id.expect("assigned id");
    assert_eq!(fields(&created), ("Squat".to_string(), 5, 100));
    let text = id.to_hex();
    let got = store.get_one_workout(&text).unwrap();
    assert_eq!(got.id, Some(id));
    assert_eq!(fields(&got), fields(&created));
    let updated = store.update_workout(&text, squat(8, 120)).unwrap();
    assert_eq!(updated.id, Some(id));
    assert_eq!(fields(&updated), ("Squat".to_string(), 8, 120));
    let deleted = store.delete_workout(&text).unwrap();
    assert_eq!(deleted.id, Some(id));
    assert_eq!(fields(&deleted), ("Squat".to_string(), 8, 120));
    assert!(store.delete_workout(&text).is_none());
}

#[test]
fn create_with_given_id_and_duplicate() {
    let mut store = WorkoutStore::new();
    let key = WorkoutId { bytes: [0x65, 0x0a, 0xbc, 0, 1, 2, 3, 4, 5, 6, 7, 0xff] };
    let mut w = squat(5, 100);
    w.id = Some(key);
    let created = store.create_workout(w).unwrap();
    assert_eq!(created.id, Some(key));
    let got = store.get_one_workout("650abc0001020304050607ff").unwrap();
    assert_eq!(got.id, Some(key));
    let mut again = squat(1, 2);
    again.id = Some(key);
    assert_eq!(store.create_workout(again).unwrap_err(), CreateError::DuplicateId);
    assert_eq!(store.len(), 1);
    assert_eq!(fields(&store.get_workouts()[0]), ("Squat".to_string(), 5, 100));
}

#[test]
fn insert_under_chosen_key() {
    let mut store = WorkoutStore::new();
    let key = WorkoutId { bytes: [1; 12] };
    let stored = store.insert_workout(squat(5, 100), key).unwrap();
    assert_eq!(stored.id, Some(key));
    assert_eq!(store.insert_workout(squat(6, 100), key).unwrap_err(), CreateError::DuplicateId);
    let found = store.find_one(&key).unwrap();
    assert_eq!(found.reps, 5);
    let gone = store.delete_one(&key).unwrap();
    assert_eq!(gone.reps, 5);
    assert!(store.find_one(&key).is_none());
    assert!(store.update_one(&key, squat(1, 1)).is_none());
}

#[test]
fn generated_ids_differ() {
    let a = WorkoutId::generate();
    let b = WorkoutId::generate();
    assert_ne!(a, b);
}

#[test]
fn id_to_hex_exact() {
    let id = WorkoutId { bytes: [0x00, 0x01, 0x0f, 0x10, 0xab, 0xcd, 0xef, 0x7f, 0x80, 0x99, 0xfe, 0xff] };
    assert_eq!(id.to_hex(), "00010f10abcdef7f8099feff");
}

#[test]
fn id_parse_exact_either_case() {
    let expected = [0x63, 0xce, 0xed, 0x18, 0xf7, 0x1d, 0xda, 0x7d, 0x8c, 0xf2, 0x1e, 0x8e];
    assert_eq!(WorkoutId::parse("63ceed18f71dda7d8cf21e8e").unwrap().bytes, expected);
    assert_eq!(WorkoutId::parse("63CEED18F71DDA7D8CF21E8E").unwrap().bytes, expected);
    assert!(WorkoutId::parse("63ceed18f71dda7d8cf21e8").is_none());
    assert!(WorkoutId::parse("63ceed18f71dda7d8cf21e8e00").is_none());
    assert!(WorkoutId::parse("63ceed18f71dda7d8cf21e8z").is_none());
}

#[test]
fn id_hex_round_trip() {
    let id = WorkoutId { bytes: [9, 8, 7, 6, 5, 4, 3, 2, 1, 0, 0xaa, 0x55] };
    assert_eq!(WorkoutId::parse(&id.to_hex()), Some(id));
}

#[test]
fn clone_keeps_every_field() {
    let mut w = squat(5, 100);
    w.id = Some(WorkoutId { bytes: [3; 12] });
    let c = w.clone();
    assert_eq!(c.id, w.id);
    assert_eq!(fields(&c), fields(&w));
}

#[test]
fn list_after_interleaved_writes_holds_each_live_document_once() {
    let mut store = WorkoutStore::new();
    let first = store.create_workout(squat(1, 10)).unwrap().id.unwrap();
    let doomed = store.create_workout(squat(2, 20)).unwrap().id.unwrap();
    store.update_workout(&first.to_hex(), squat(3, 30)).unwrap();
    let third = store.create_workout(squat(4, 40)).unwrap().id.unwrap();
    store.delete_workout(&doomed.to_hex()).unwrap();
    let fourth = store.create_workout(squat(5, 50)).unwrap().id.unwrap();
    let all = store.get_workouts();
    assert_eq!(all.len(), 3);
    for id in [first, third, fourth] {
        assert_eq!(all.iter().filter(|w| w.id == Some(id)).count(), 1);
    }
    assert_eq!(all.iter().filter(|w| w.id == Some(doomed)).count(), 0);
}

#[test]
fn create_without_id_on_empty_store_succeeds() {
    let mut store = WorkoutStore::new();
    let created = store.create_workout(squat(5, 100)).unwrap();
    assert!(created.id.is_some());
    assert_eq!(fields(&created), ("Squat".to_string(), 5, 100));
    assert_eq!(store.len(), 1);
}
