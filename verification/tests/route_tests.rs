use hci_bildung::flash::{FlashContext, FlashRedirect};
use hci_bildung::guards::{AuthenticatedUser, Student, Teacher};
use hci_bildung::routes::{
    already_logged_in, handle_insufficient_permissions, login_my_solution,
    login_solution_overview, redirect_to_login, sheets_login_req, sheets_uri,
};
use hci_bildung::store::Role;
use hci_bildung::transport::UserInfo;

fn principal(roles: Vec<Role>) -> AuthenticatedUser {
    AuthenticatedUser {
        user_info: UserInfo { id: 7, username: "someone".to_string() },
        roles,
    }
}

#[test]
fn teacher_guard_admits_only_teachers() {
    let t = Teacher::from_user(principal(vec![Role::Teacher])).unwrap_or_else(|_| panic!());
    assert_eq!(t.into_inner().user_info.id, 7);
    assert!(Teacher::from_user(principal(vec![Role::Student])).is_err());
    assert!(Teacher::from_user(principal(vec![])).is_err());
    let both = principal(vec![Role::Student, Role::Teacher]);
    assert!(Teacher::from_user(both).is_ok());
}

#[test]
fn student_guard_admits_only_students() {
    let s = Student::from_user(principal(vec![Role::Student])).unwrap_or_else(|_| panic!());
    assert_eq!(s.into_inner().user_info.username, "someone");
    assert!(Student::from_user(principal(vec![Role::Teacher])).is_err());
}

#[test]
fn sheets_uri_prefixes_the_mount_point() {
    assert_eq!(sheets_uri("/"), "/sheets/");
    assert_eq!(sheets_uri("/7/edit"), "/sheets/7/edit");
    assert_eq!(already_logged_in(&principal(vec![Role::Teacher])), "/sheets/");
}

#[test]
fn anonymous_callers_are_sent_to_the_login_page() {
    match sheets_login_req() {
        FlashRedirect::Flash(uri, kind, message) => {
            assert_eq!(uri, "/login");
            assert_eq!(kind, "danger");
            assert_eq!(message, "Anmeldung erforderlich");
        },
        FlashRedirect::Redirect(_) => panic!("expected a flash redirect"),
    }
    match redirect_to_login() {
        FlashRedirect::Flash(uri, _, _) => assert_eq!(uri, "/login"),
        FlashRedirect::Redirect(_) => panic!("expected a flash redirect"),
    }
}

#[test]
fn insufficient_permissions_distinguishes_known_callers() {
    let user = principal(vec![Role::Student]);
    assert_eq!(handle_insufficient_permissions(Some(&user)).unwrap_err(), 403);
    assert!(handle_insufficient_permissions(None).is_ok());
    assert_eq!(login_solution_overview(Some(&user)).unwrap_err(), 403);
    assert!(login_my_solution(None, 1, 2).is_ok());
}

#[test]
fn flash_constructors_keep_their_parts() {
    let f = FlashRedirect::with_flash(
        "/x".to_string(),
        "info".to_string(),
        "hello".to_string(),
    );
    match f {
        FlashRedirect::Flash(u, k, m) => {
            assert_eq!((u.as_str(), k.as_str(), m.as_str()), ("/x", "info", "hello"));
        },
        FlashRedirect::Redirect(_) => panic!("expected a flash redirect"),
    }
    match FlashRedirect::no_flash("/y".to_string()) {
        FlashRedirect::Redirect(u) => assert_eq!(u, "/y"),
        FlashRedirect::Flash(_, _, _) => panic!("expected a plain redirect"),
    }
    let ctx = FlashContext::from_parts("danger".to_string(), "nope".to_string());
    assert_eq!(ctx.kind, "danger");
    assert_eq!(ctx.message, "nope");
}
