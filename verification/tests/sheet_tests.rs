use hci_bildung::sheets::{
    create_empty_sheet, create_sheet, delete_sheet, get_all_sheets, get_recent, get_sheet,
    get_sheet_for_edit, get_trash, restore_sheet, update_sheet, DeleteOutcome, Error,
};
use hci_bildung::status::ToStatus;
use hci_bildung::store::{Role, Store, UserRecord};
use hci_bildung::transport::{SheetTransport, SheetTransportValidationError};
use hci_bildung::validation::Validate;

fn teacher_store() -> Store {
    let mut store = Store::new();
    store
        .add_user(UserRecord {
            id: 1,
            username: "teacher".to_string(),
            password_hash: "h".to_string(),
            roles: vec![Role::Teacher],
        })
        .unwrap();
    store
        .add_user(UserRecord {
            id: 2,
            username: "student".to_string(),
            password_hash: "h".to_string(),
            roles: vec![Role::Student],
        })
        .unwrap();
    store
}

#[test]
fn create_then_get_round_trip() {
    let mut store = teacher_store();
    let id = create_sheet(
        &mut store,
        1,
        "Algebra".to_string(),
        "{\"type\":\"doc\"}".to_string(),
        500,
    );
    let sheet = get_sheet(&store, id).unwrap();
    assert_eq!(sheet.metadata.title, "Algebra");
    assert_eq!(sheet.content, "{\"type\":\"doc\"}");
    assert_eq!(sheet.metadata.created, sheet.metadata.changed);
    assert_eq!(sheet.metadata.created, 500);
    assert!(sheet.metadata.trashed.is_none());
    assert_eq!(sheet.metadata.owner.id, 1);
    assert_eq!(sheet.metadata.owner.username, "teacher");
}

#[test]
fn get_absent_sheet_is_not_found() {
    let store = teacher_store();
    assert_eq!(get_sheet(&store, 77).unwrap_err(), Error::NotFound);
}

#[test]
fn empty_sheet_has_the_initial_document() {
    let mut store = teacher_store();
    let id = create_empty_sheet(&mut store, 1, "Neu".to_string(), 500);
    let sheet = get_sheet(&store, id).unwrap();
    assert_eq!(
        sheet.content,
        "{\"type\": \"doc\", \"content\": [{\"type\": \"paragraph\"}]}"
    );
}

#[test]
fn update_bumps_changed_and_keeps_created() {
    let mut store = teacher_store();
    let id = create_sheet(&mut store, 1, "A".to_string(), "c1".to_string(), 500);
    update_sheet(&mut store, 1, id, "B".to_string(), "c2".to_string(), 900).unwrap();
    let sheet = get_sheet(&store, id).unwrap();
    assert_eq!(sheet.metadata.title, "B");
    assert_eq!(sheet.content, "c2");
    assert_eq!(sheet.metadata.created, 500);
    assert_eq!(sheet.metadata.changed, 900);
}

#[test]
fn update_by_non_owner_is_forbidden_and_changes_nothing() {
    let mut store = teacher_store();
    let id = create_sheet(&mut store, 1, "A".to_string(), "c1".to_string(), 500);
    let r = update_sheet(&mut store, 2, id, "B".to_string(), "c2".to_string(), 900);
    assert_eq!(r.unwrap_err(), Error::Forbidden);
    let sheet = get_sheet(&store, id).unwrap();
    assert_eq!(sheet.metadata.title, "A");
    assert_eq!(sheet.content, "c1");
    assert_eq!(sheet.metadata.changed, 500);
}

#[test]
fn delete_is_two_phase() {
    let mut store = teacher_store();
    let id = create_sheet(&mut store, 1, "A".to_string(), "c".to_string(), 500);
    let first = delete_sheet(&mut store, 1, id, 600).unwrap();
    assert_eq!(first, DeleteOutcome::Trashed);
    let sheet = get_sheet(&store, id).unwrap();
    assert_eq!(sheet.metadata.trashed, Some(600));
    let second = delete_sheet(&mut store, 1, id, 700).unwrap();
    assert_eq!(second, DeleteOutcome::Deleted);
    assert_eq!(get_sheet(&store, id).unwrap_err(), Error::NotFound);
}

#[test]
fn delete_by_non_owner_is_forbidden() {
    let mut store = teacher_store();
    let id = create_sheet(&mut store, 1, "A".to_string(), "c".to_string(), 500);
    assert_eq!(delete_sheet(&mut store, 2, id, 600).unwrap_err(), Error::Forbidden);
    assert!(get_sheet(&store, id).is_ok());
}

#[test]
fn restore_clears_the_trash_mark() {
    let mut store = teacher_store();
    let id = create_sheet(&mut store, 1, "A".to_string(), "c".to_string(), 500);
    delete_sheet(&mut store, 1, id, 600).unwrap();
    restore_sheet(&mut store, 1, id).unwrap();
    let sheet = get_sheet(&store, id).unwrap();
    assert!(sheet.metadata.trashed.is_none());
}

#[test]
fn get_for_edit_checks_ownership() {
    let mut store = teacher_store();
    let id = create_sheet(&mut store, 1, "A".to_string(), "c".to_string(), 500);
    assert!(get_sheet_for_edit(&store, 1, id).is_ok());
    assert_eq!(get_sheet_for_edit(&store, 2, id).unwrap_err(), Error::Forbidden);
    assert_eq!(get_sheet_for_edit(&store, 1, 99).unwrap_err(), Error::NotFound);
}

#[test]
fn all_sheets_come_alphabetically_and_without_trash() {
    let mut store = teacher_store();
    let b = create_sheet(&mut store, 1, "Bruchrechnung".to_string(), "c".to_string(), 1);
    let a = create_sheet(&mut store, 1, "Algebra".to_string(), "c".to_string(), 2);
    let c = create_sheet(&mut store, 1, "Chemie".to_string(), "c".to_string(), 3);
    let _other = create_sheet(&mut store, 2, "Anders".to_string(), "c".to_string(), 4);
    delete_sheet(&mut store, 1, c, 5).unwrap();
    let listing = get_all_sheets(&store, 1);
    let titles: Vec<&str> = listing.iter().map(|m| m.title.as_str()).collect();
    assert_eq!(titles, vec!["Algebra", "Bruchrechnung"]);
    assert_eq!(listing[0].id, a);
    assert_eq!(listing[1].id, b);
}

#[test]
fn trash_comes_most_recently_trashed_first() {
    let mut store = teacher_store();
    let a = create_sheet(&mut store, 1, "A".to_string(), "c".to_string(), 1);
    let b = create_sheet(&mut store, 1, "B".to_string(), "c".to_string(), 2);
    delete_sheet(&mut store, 1, a, 10).unwrap();
    delete_sheet(&mut store, 1, b, 20).unwrap();
    let listing = get_trash(&store, 1);
    assert_eq!(listing.len(), 2);
    assert_eq!(listing[0].id, b);
    assert_eq!(listing[1].id, a);
}

#[test]
fn recent_comes_most_recently_changed_first() {
    let mut store = teacher_store();
    let a = create_sheet(&mut store, 1, "A".to_string(), "c".to_string(), 1);
    let b = create_sheet(&mut store, 1, "B".to_string(), "c".to_string(), 2);
    update_sheet(&mut store, 1, a, "A".to_string(), "c2".to_string(), 30).unwrap();
    let listing = get_recent(&store, 1);
    assert_eq!(listing.len(), 2);
    assert_eq!(listing[0].id, a);
    assert_eq!(listing[1].id, b);
}

#[test]
fn sheet_validation_requires_a_title() {
    let empty = SheetTransport { title: "".to_string(), content: "c".to_string() };
    assert_eq!(empty.validate().unwrap_err(), SheetTransportValidationError::TitleEmpty);
    let ok = SheetTransport { title: "T".to_string(), content: "c".to_string() };
    assert!(ok.validate().is_ok());
}

#[test]
fn errors_map_to_status_codes() {
    assert_eq!(Error::NotFound.to_status(), 404);
    assert_eq!(Error::Forbidden.to_status(), 403);
    assert_eq!(hci_bildung::auth::Error::Conflict.to_status(), 500);
    assert_eq!(SheetTransportValidationError::TitleEmpty.to_status(), 400);
}
