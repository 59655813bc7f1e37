use hci_bildung::sheets::{create_sheet, delete_sheet, list_updated, update_sheet, DeleteOutcome, Error};
use hci_bildung::solutions::{
    delete_solution, get_latest_solution, get_my_solution, get_sheet_solutions_student,
    get_for_teacher, get_sheet_solutions_teacher, get_solution_for_teacher, get_solutions_student,
    get_solutions_teacher, get_trash, restore_solution, start_solve, update_solution,
};
use hci_bildung::store::{Role, Store, UserRecord};

const TEACHER: i32 = 1;
const ANNA: i32 = 2;
const BEN: i32 = 3;

fn classroom() -> Store {
    let mut store = Store::new();
    for (id, name, role) in [
        (TEACHER, "teacher", Role::Teacher),
        (ANNA, "anna", Role::Student),
        (BEN, "ben", Role::Student),
    ] {
        store
            .add_user(UserRecord {
                id,
                username: name.to_string(),
                password_hash: "h".to_string(),
                roles: vec![role],
            })
            .unwrap();
    }
    store
}

#[test]
fn start_solve_is_idempotent_without_an_edit() {
    let mut store = classroom();
    let sheet = create_sheet(&mut store, TEACHER, "Algebra".to_string(), "c".to_string(), 100);
    start_solve(&mut store, sheet, ANNA, 200).unwrap();
    start_solve(&mut store, sheet, ANNA, 300).unwrap();
    assert_eq!(store.solutions.len(), 1);
    let sol = get_latest_solution(&store, sheet, ANNA).unwrap();
    assert_eq!(sol.metadata.sheet_version, 100);
    assert_eq!(sol.metadata.title, "Algebra");
    assert_eq!(sol.content, "c");
    assert_eq!(sol.metadata.created, 200);
}

#[test]
fn editing_the_sheet_makes_start_solve_snapshot_again() {
    let mut store = classroom();
    let sheet = create_sheet(&mut store, TEACHER, "Algebra".to_string(), "v1".to_string(), 100);
    start_solve(&mut store, sheet, ANNA, 200).unwrap();
    update_sheet(&mut store, TEACHER, sheet, "Algebra".to_string(), "v2".to_string(), 300)
        .unwrap();
    start_solve(&mut store, sheet, ANNA, 400).unwrap();
    assert_eq!(store.solutions.len(), 2);
    let latest = get_latest_solution(&store, sheet, ANNA).unwrap();
    assert_eq!(latest.metadata.sheet_version, 300);
    assert_eq!(latest.content, "v2");
}

#[test]
fn start_solve_on_a_missing_sheet_is_not_found() {
    let mut store = classroom();
    assert_eq!(start_solve(&mut store, 9, ANNA, 100).unwrap_err(), Error::NotFound);
}

#[test]
fn list_updated_tracks_stale_solutions() {
    // the end-to-end flow: create, solve, edit, see it listed, resync
    let mut store = classroom();
    let sheet = create_sheet(
        &mut store,
        TEACHER,
        "Algebra".to_string(),
        "{\"type\":\"doc\", \"content\":[]}".to_string(),
        100,
    );
    start_solve(&mut store, sheet, ANNA, 200).unwrap();
    let v1 = get_latest_solution(&store, sheet, ANNA).unwrap();
    assert_eq!(v1.metadata.sheet_version, 100);
    assert!(list_updated(&store, ANNA).is_empty());

    update_sheet(
        &mut store,
        TEACHER,
        sheet,
        "Algebra".to_string(),
        "{\"type\":\"doc\", \"content\":[1]}".to_string(),
        300,
    )
    .unwrap();
    let updated = list_updated(&store, ANNA);
    assert_eq!(updated.len(), 1);
    assert_eq!(updated[0].title, "Algebra");

    start_solve(&mut store, sheet, ANNA, 400).unwrap();
    assert!(list_updated(&store, ANNA).is_empty());
    let v2 = get_latest_solution(&store, sheet, ANNA).unwrap();
    assert_eq!(v2.metadata.sheet_version, 300);
    assert_ne!(v2.metadata.id, v1.metadata.id);
    // the first snapshot stays retrievable by id, but is no longer latest
    let old = get_my_solution(&store, ANNA, sheet, v1.metadata.id).unwrap();
    assert_eq!(old.metadata.sheet_version, 100);
}

#[test]
fn a_trashed_solution_does_not_count_for_list_updated() {
    let mut store = classroom();
    let sheet = create_sheet(&mut store, TEACHER, "A".to_string(), "c".to_string(), 100);
    start_solve(&mut store, sheet, ANNA, 200).unwrap();
    let sol = get_latest_solution(&store, sheet, ANNA).unwrap();
    update_sheet(&mut store, TEACHER, sheet, "A".to_string(), "c2".to_string(), 300).unwrap();
    assert_eq!(list_updated(&store, ANNA).len(), 1);
    delete_solution(&mut store, ANNA, sheet, sol.metadata.id, 350).unwrap();
    assert!(list_updated(&store, ANNA).is_empty());
}

#[test]
fn my_solution_is_ownership_and_coherence_checked() {
    let mut store = classroom();
    let sheet = create_sheet(&mut store, TEACHER, "A".to_string(), "c".to_string(), 100);
    let other = create_sheet(&mut store, TEACHER, "B".to_string(), "c".to_string(), 100);
    start_solve(&mut store, sheet, ANNA, 200).unwrap();
    let sol = get_latest_solution(&store, sheet, ANNA).unwrap();
    assert!(get_my_solution(&store, ANNA, sheet, sol.metadata.id).is_ok());
    assert_eq!(
        get_my_solution(&store, BEN, sheet, sol.metadata.id).unwrap_err(),
        Error::Forbidden
    );
    assert_eq!(
        get_my_solution(&store, ANNA, other, sol.metadata.id).unwrap_err(),
        Error::NotFound
    );
    assert_eq!(get_my_solution(&store, ANNA, sheet, 999).unwrap_err(), Error::NotFound);
}

#[test]
fn updating_a_solution_does_not_repin_it() {
    let mut store = classroom();
    let sheet = create_sheet(&mut store, TEACHER, "A".to_string(), "c".to_string(), 100);
    start_solve(&mut store, sheet, ANNA, 200).unwrap();
    let sol = get_latest_solution(&store, sheet, ANNA).unwrap();
    update_solution(&mut store, ANNA, sheet, sol.metadata.id, "my work".to_string(), 250)
        .unwrap();
    let after = get_my_solution(&store, ANNA, sheet, sol.metadata.id).unwrap();
    assert_eq!(after.content, "my work");
    assert_eq!(after.metadata.changed, 250);
    assert_eq!(after.metadata.sheet_version, 100);
    assert_eq!(after.metadata.created, 200);
}

#[test]
fn solution_delete_is_two_phase_and_restorable() {
    let mut store = classroom();
    let sheet = create_sheet(&mut store, TEACHER, "A".to_string(), "c".to_string(), 100);
    start_solve(&mut store, sheet, ANNA, 200).unwrap();
    let sol = get_latest_solution(&store, sheet, ANNA).unwrap().metadata.id;
    let first = delete_solution(&mut store, ANNA, sheet, sol, 300).unwrap();
    assert_eq!(first, DeleteOutcome::Trashed);
    let trash = get_trash(&store, ANNA);
    assert_eq!(trash.len(), 1);
    assert_eq!(trash[0].trashed, Some(300));
    restore_solution(&mut store, ANNA, sheet, sol).unwrap();
    assert!(get_trash(&store, ANNA).is_empty());
    delete_solution(&mut store, ANNA, sheet, sol, 400).unwrap();
    let second = delete_solution(&mut store, ANNA, sheet, sol, 500).unwrap();
    assert_eq!(second, DeleteOutcome::Deleted);
    assert_eq!(
        get_my_solution(&store, ANNA, sheet, sol).unwrap_err(),
        Error::NotFound
    );
}

#[test]
fn teacher_reads_but_never_writes_student_solutions() {
    let mut store = classroom();
    let sheet = create_sheet(&mut store, TEACHER, "A".to_string(), "c".to_string(), 100);
    start_solve(&mut store, sheet, ANNA, 200).unwrap();
    let seen = get_solution_for_teacher(&store, sheet, TEACHER, ANNA).unwrap();
    assert_eq!(seen.metadata.owner.id, ANNA);
    // another teacher does not own the sheet
    assert_eq!(
        get_solution_for_teacher(&store, sheet, ANNA, ANNA).unwrap_err(),
        Error::Forbidden
    );
    let sol = seen.metadata.id;
    assert_eq!(
        update_solution(&mut store, TEACHER, sheet, sol, "x".to_string(), 300).unwrap_err(),
        Error::Forbidden
    );
}

#[test]
fn teacher_listing_orders_by_change_then_username() {
    let mut store = classroom();
    let sheet = create_sheet(&mut store, TEACHER, "A".to_string(), "c".to_string(), 100);
    start_solve(&mut store, sheet, BEN, 200).unwrap();
    start_solve(&mut store, sheet, ANNA, 200).unwrap();
    let anna_sol = get_latest_solution(&store, sheet, ANNA).unwrap().metadata.id;
    let listing = get_solutions_teacher(&store, TEACHER);
    assert_eq!(listing.len(), 2);
    // equal change time: anna before ben
    assert_eq!(listing[0].owner.username, "anna");
    assert_eq!(listing[1].owner.username, "ben");
    update_solution(&mut store, ANNA, sheet, anna_sol, "w".to_string(), 900).unwrap();
    let listing = get_solutions_teacher(&store, TEACHER);
    assert_eq!(listing[0].owner.username, "anna");
    assert_eq!(listing[0].changed, 900);
}

#[test]
fn per_sheet_listings_are_scoped() {
    let mut store = classroom();
    let sheet = create_sheet(&mut store, TEACHER, "A".to_string(), "v1".to_string(), 100);
    start_solve(&mut store, sheet, ANNA, 200).unwrap();
    update_sheet(&mut store, TEACHER, sheet, "A".to_string(), "v2".to_string(), 300).unwrap();
    start_solve(&mut store, sheet, ANNA, 400).unwrap();
    start_solve(&mut store, sheet, BEN, 500).unwrap();
    let all = get_sheet_solutions_teacher(&store, TEACHER, sheet).unwrap();
    assert_eq!(all.len(), 3);
    assert_eq!(all[0].owner.username, "anna");
    assert_eq!(all[0].sheet_version, 300);
    assert_eq!(all[1].owner.username, "anna");
    assert_eq!(all[1].sheet_version, 100);
    assert_eq!(all[2].owner.username, "ben");
    assert_eq!(
        get_sheet_solutions_teacher(&store, ANNA, sheet).unwrap_err(),
        Error::Forbidden
    );
    let mine = get_sheet_solutions_student(&store, ANNA, sheet);
    assert_eq!(mine.len(), 2);
    assert_eq!(mine[0].sheet_version, 300);
    let student_view = get_solutions_student(&store, ANNA);
    assert_eq!(student_view.len(), 2);
}

#[test]
fn hard_deleting_a_sheet_detaches_its_solutions() {
    let mut store = classroom();
    let sheet = create_sheet(&mut store, TEACHER, "A".to_string(), "c".to_string(), 100);
    start_solve(&mut store, sheet, ANNA, 200).unwrap();
    delete_sheet(&mut store, TEACHER, sheet, 300).unwrap();
    delete_sheet(&mut store, TEACHER, sheet, 400).unwrap();
    assert_eq!(store.solutions.len(), 1);
    assert!(store.solutions[0].sheet_id.is_none());
    // the dangling record no longer answers for the sheet id
    assert!(get_latest_solution(&store, sheet, ANNA).is_err());
}

#[test]
fn teacher_resolves_a_named_solution_with_coherence_checks() {
    let mut store = classroom();
    let sheet = create_sheet(&mut store, TEACHER, "A".to_string(), "c".to_string(), 100);
    let other = create_sheet(&mut store, TEACHER, "B".to_string(), "c".to_string(), 100);
    start_solve(&mut store, sheet, ANNA, 200).unwrap();
    let sol = get_latest_solution(&store, sheet, ANNA).unwrap().metadata.id;
    assert!(get_for_teacher(&store, TEACHER, sheet, ANNA, sol).is_ok());
    assert_eq!(
        get_for_teacher(&store, ANNA, sheet, ANNA, sol).unwrap_err(),
        Error::Forbidden
    );
    assert_eq!(
        get_for_teacher(&store, TEACHER, other, ANNA, sol).unwrap_err(),
        Error::NotFound
    );
    assert_eq!(
        get_for_teacher(&store, TEACHER, sheet, BEN, sol).unwrap_err(),
        Error::NotFound
    );
}
