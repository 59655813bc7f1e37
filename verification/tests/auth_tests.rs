use hci_bildung::auth::{get_user_by_name, login, logout, register, validate_session, RegisterError};
use hci_bildung::crypt::{check_password, hash_password};
use hci_bildung::store::{Role, Store, UserRecord};
use hci_bildung::SESSION_EXPIRY_SECONDS;

/// A stored scrypt hash of the password "pw", prepared for these
/// tests. The hash format is self-describing, and this one embeds
/// deliberately small cost parameters so that password verification
/// inside the tests stays quick; `hash_password` itself uses the
/// production parameters and runs at most once per test to stay
/// within the test time budget.
const HASH_OF_PW: &str =
    "$rscrypt$0$CggB$AAECAwQFBgcICQoLDA0ODw==$Z00UYSKKcxfXL+wtJ82+yLQ0HRbN115ky9cDXLD/g2c=$";

fn store_with_user(name: &str, password_hash: String) -> Store {
    let mut store = Store::new();
    store
        .add_user(UserRecord {
            id: 1,
            username: name.to_string(),
            password_hash,
            roles: vec![Role::Teacher, Role::Student],
        })
        .unwrap();
    store
}

#[test]
fn stored_hash_verifies_only_its_password() {
    assert!(check_password("pw", HASH_OF_PW));
    assert!(!check_password("falsch", HASH_OF_PW));
}

#[test]
fn fresh_hash_is_self_describing() {
    let hash = hash_password("geheim").unwrap();
    assert!(hash.starts_with("$rscrypt$"));
    assert_ne!(hash, "geheim");
    // format 0: five fields between six separators
    assert_eq!(hash.matches('$').count(), 6);
}

#[test]
fn malformed_hash_never_matches() {
    assert!(!check_password("anything", "not a scrypt hash"));
    assert!(!check_password("anything", ""));
    // well-shaped but with a zero cost exponent: rejected, not computed
    assert!(!check_password("anything", "$rscrypt$0$AAEB$c2FsdA==$aGFzaA==$"));
    // an empty digest field is likewise no match
    assert!(!check_password("anything", "$rscrypt$0$CggB$c2FsdA==$$"));
    // an absurd memory demand is refused outright
    assert!(!check_password("anything", "$rscrypt$0$UBAB$c2FsdA==$aGFzaA==$"));
}

#[test]
fn login_unknown_user_is_none() {
    let mut store = store_with_user("lehrkraft", "irrelevant".to_string());
    let r = login(&mut store, "niemand", "pw", 1_000).unwrap();
    assert!(r.is_none());
    assert_eq!(store.sessions.len(), 0);
}

#[test]
fn login_wrong_password_creates_no_session() {
    // the stored hash belongs to another password, so verification fails
    let mut store = store_with_user("lehrkraft", HASH_OF_PW.to_string());
    let r = login(&mut store, "lehrkraft", "falsch", 1_000).unwrap();
    assert!(r.is_none());
    assert_eq!(store.sessions.len(), 0);
}

#[test]
fn login_then_validate_resolves_user() {
    let mut store = store_with_user("lehrkraft", HASH_OF_PW.to_string());
    let now = 1_000;
    let token = login(&mut store, "lehrkraft", "pw", now).unwrap().unwrap();
    assert_eq!(token.chars().count(), 128);
    let user = validate_session(&mut store, &token, now + 10).unwrap();
    assert_eq!(user.username, "lehrkraft");
    assert_eq!(user.id, 1);
    assert_eq!(user.roles, vec![Role::Teacher, Role::Student]);
    let session = user.session.unwrap();
    assert_eq!(session.id, token);
    assert_eq!(session.expires, now + SESSION_EXPIRY_SECONDS);
}

#[test]
fn second_login_renews_the_same_session() {
    let mut store = store_with_user("lehrkraft", HASH_OF_PW.to_string());
    let t1 = login(&mut store, "lehrkraft", "pw", 1_000).unwrap().unwrap();
    let t2 = login(&mut store, "lehrkraft", "pw", 2_000).unwrap().unwrap();
    assert_eq!(t1, t2);
    assert_eq!(store.sessions.len(), 1);
    assert_eq!(store.sessions[0].expires, 2_000 + SESSION_EXPIRY_SECONDS);
}

#[test]
fn expired_session_is_deleted_on_validation() {
    let mut store = store_with_user("lehrkraft", HASH_OF_PW.to_string());
    let now = 1_000;
    let token = login(&mut store, "lehrkraft", "pw", now).unwrap().unwrap();
    // at the expiry instant the session no longer counts as valid
    let r = validate_session(&mut store, &token, now + SESSION_EXPIRY_SECONDS);
    assert!(r.is_none());
    assert!(store.find_session_by_token(&token).is_none());
    // a second validation still resolves to nothing
    assert!(validate_session(&mut store, &token, now).is_none());
}

#[test]
fn logout_removes_the_session_and_is_idempotent() {
    let mut store = store_with_user("lehrkraft", HASH_OF_PW.to_string());
    let token = login(&mut store, "lehrkraft", "pw", 1_000).unwrap().unwrap();
    logout(&mut store, 1);
    assert!(store.find_session_by_token(&token).is_none());
    assert!(validate_session(&mut store, &token, 1_001).is_none());
    logout(&mut store, 1);
    assert_eq!(store.sessions.len(), 0);
}

#[test]
fn get_user_by_name_is_exact_match() {
    let mut store = store_with_user("lehrkraft", "hash".to_string());
    store
        .add_user(UserRecord {
            id: 2,
            username: "Lehrkraft".to_string(),
            password_hash: "other".to_string(),
            roles: vec![Role::Student],
        })
        .unwrap();
    let u = get_user_by_name(&store, "Lehrkraft").unwrap();
    assert_eq!(u.id, 2);
    assert!(get_user_by_name(&store, "lehr").is_none());
}

#[test]
fn duplicate_users_are_rejected() {
    let mut store = store_with_user("lehrkraft", "h".to_string());
    let same_id = UserRecord {
        id: 1,
        username: "other".to_string(),
        password_hash: "h".to_string(),
        roles: vec![],
    };
    assert!(store.add_user(same_id).is_err());
    let same_name = UserRecord {
        id: 2,
        username: "lehrkraft".to_string(),
        password_hash: "h".to_string(),
        roles: vec![],
    };
    assert!(store.add_user(same_name).is_err());
}

#[test]
fn register_hashes_and_stores_the_account() {
    let mut store = Store::new();
    register(&mut store, 5, "neu".to_string(), "geheim", vec![Role::Student]).unwrap();
    let user = get_user_by_name(&store, "neu").unwrap();
    assert_eq!(user.id, 5);
    assert_eq!(user.roles, vec![Role::Student]);
    assert!(user.password_hash.starts_with("$rscrypt$"));
    assert_ne!(user.password_hash, "geheim");
    // a taken username is refused before any hashing work
    assert_eq!(
        register(&mut store, 6, "neu".to_string(), "pw", vec![]).unwrap_err(),
        RegisterError::Taken
    );
}
