use cauth::bootstrap::init_defaults;
use cauth::cli::{ActionType, CauthCli};
use cauth::listing::{name_less, Order};
use cauth::events::{EventError, EventPayload, EventStatus, EventType};
use cauth::groups::{GroupDeleteError, GroupGrantError, GroupInsertError, GroupRevokeError};
use cauth::matcher::permission_matches;
use cauth::password::{hash_password, verify_password};
use cauth::permissions::{PermissionDeleteError, PermissionInsertError, PermissionRetrieveError};
use cauth::routes::{get_groups, http_status, post_group};
use cauth::user_delete::{controller, QueryData};
use cauth::sessions::{SessionCreateError, SessionError};
use cauth::store::{Database, Group, LoginSessionStatus, Permission, User};
use cauth::users::{UserGrantError, UserInsertError, UserLoginError, UserRetrieveError, UserRevokeError};

const NOW: u64 = 1_000;
const TTL: u64 = 3_600;

fn s(x: &str) -> String {
    x.to_string()
}

/// A database with user `login` (unusable hash) in a group holding `perms`,
/// and an active session `token` for it.
fn with_session(db: &mut Database, login: &str, group: &str, perms: &[&str], token: u128) {
    for p in perms {
        let _ = Permission::insert(db, &s(p), &s(""));
    }
    let names: Vec<String> = perms.iter().map(|p| s(p)).collect();
    Group::insert(db, &s(group), &s(""), &names).unwrap();
    User::insert_hashed(db, &s(login), &s("x"), &s("{}")).unwrap();
    User::grant_group(db, &s(login), &s(group)).unwrap();
    db.create_session(token, &s(login), LoginSessionStatus::Active, NOW + TTL).unwrap();
}

#[test]
fn matcher_laws() {
    assert!(permission_matches("a:b", "a:b"));
    assert!(permission_matches("a:b", "a:b:x"));
    assert!(permission_matches("users:delete", "users:delete:alice"));
    assert!(!permission_matches("a:b:x", "a:b"));
    assert!(!permission_matches("a:b", "a:c:x"));
    assert!(!permission_matches("a:b", "a:b:"));
    assert!(!permission_matches("a:b", "a:b:x:y"));
    assert!(!permission_matches("a:b", "a:bc"));
    assert!(!permission_matches("A:b", "a:b"));
    assert!(permission_matches("", ""));
}

#[test]
fn password_round_trip() {
    let h = hash_password("hunter2").unwrap();
    assert_ne!(h, "hunter2");
    assert!(h.starts_with("$argon2"));
    assert!(verify_password("hunter2", &h));
    assert!(!verify_password("hunter3", &h));
    assert!(!verify_password("hunter2", "not a hash"));
}

#[test]
fn register_then_commit() {
    let mut db = Database::new();
    with_session(&mut db, "admin", "admins", &["events:commit", "users:post"], 7);
    let id = User::event().register(&mut db, &s("alice"), &s("hunter2"), &s("{}"), NOW).unwrap();
    assert_eq!(id, 1);
    match &db.events[0].payload {
        EventPayload::UserRegister { login, password_hash, .. } => {
            assert_eq!(login, "alice");
            assert_ne!(password_hash, "hunter2");
            assert!(verify_password("hunter2", password_hash));
        }
        _ => panic!("wrong payload"),
    }
    assert_eq!(User::retrieve(&db, &s("alice")).err(), Some(UserRetrieveError::NotFound));
    db.commit_event(7, 1, NOW).unwrap();
    assert!(User::retrieve(&db, &s("alice")).is_ok());
    assert_eq!(db.events[0].status, EventStatus::Committed);
    let rows = db.users.len();
    db.commit_event(7, 1, NOW).unwrap();
    assert_eq!(db.users.len(), rows);
}

#[test]
fn login_two_phase() {
    let mut db = Database::new();
    with_session(&mut db, "admin", "admins", &["events:commit", "users:post"], 7);
    User::event().register(&mut db, &s("alice"), &s("hunter2"), &s("{}"), NOW).unwrap();
    db.commit_event(7, 1, NOW).unwrap();
    Permission::insert(&mut db, &s("permissions:get"), &s("")).unwrap();
    Group::insert(&mut db, &s("readers"), &s(""), &vec![s("permissions:get")]).unwrap();
    User::grant_group(&mut db, &s("alice"), &s("readers")).unwrap();
    let (id, t) = User::event().login(&mut db, &s("alice"), &s("hunter2"), TTL, NOW).unwrap();
    assert_eq!(id, 2);
    assert!(!db.session_has_permission(t, "permissions:get", NOW));
    db.commit_event(7, 2, NOW).unwrap();
    assert!(db.session_has_permission(t, "permissions:get", NOW));
    assert!(!db.session_has_permission(t, "permissions:get", NOW + TTL));
}

#[test]
fn wrong_password_like_unknown_user() {
    let mut db = Database::new();
    User::insert(&mut db, &s("alice"), &s("hunter2"), &s("{}")).unwrap();
    let wrong = User::event().login(&mut db, &s("alice"), &s("wrong"), TTL, NOW).unwrap_err();
    let nobody = User::event().login(&mut db, &s("nobody"), &s("wrong"), TTL, NOW).unwrap_err();
    assert_eq!(wrong, EventError::InvalidCredentials);
    assert_eq!(wrong, nobody);
    assert_eq!(http_status(&wrong), 400);
    assert_eq!(http_status(&wrong), http_status(&nobody));
    assert!(db.login_sessions.is_empty());
    assert!(db.events.is_empty());
    assert_eq!(db.authenticate(&s("alice"), &s("wrong")), Err(UserLoginError::InvalidCredentials));
    assert_eq!(db.authenticate(&s("nobody"), &s("wrong")), Err(UserLoginError::NotFound));
    assert_eq!(db.authenticate(&s("alice"), &s("hunter2")), Ok(0));
}

#[test]
fn instance_scoped_delete() {
    let mut db = Database::new();
    with_session(&mut db, "root", "root", &["users:delete"], 1);
    with_session(&mut db, "bob", "bobs", &["users:delete:bob"], 2);
    User::insert_hashed(&mut db, &s("alice"), &s("x"), &s("{}")).unwrap();
    let denied = controller(&mut db, &QueryData { session_token: 2, auto_commit: true }, &s("alice"), NOW).unwrap_err();
    assert_eq!(denied, EventError::Unauthorized);
    assert_eq!(http_status(&denied), 401);
    assert!(User::retrieve(&db, &s("alice")).is_ok());
    assert_eq!(controller(&mut db, &QueryData { session_token: 1, auto_commit: true }, &s("alice"), NOW), Ok(None));
    assert!(User::retrieve(&db, &s("alice")).is_err());
    assert_eq!(controller(&mut db, &QueryData { session_token: 2, auto_commit: false }, &s("bob"), NOW), Ok(Some(1)));
    assert!(User::retrieve(&db, &s("bob")).is_ok());
}

#[test]
fn cascade_scenario() {
    let mut db = Database::new();
    Permission::insert(&mut db, &s("x"), &s("")).unwrap();
    Group::insert(&mut db, &s("g"), &s(""), &vec![s("x")]).unwrap();
    User::insert_hashed(&mut db, &s("u"), &s("h"), &s("{}")).unwrap();
    User::grant_group(&mut db, &s("u"), &s("g")).unwrap();
    assert!(db.user_has_permission(&s("u"), "x"));
    Permission::delete(&mut db, &s("x")).unwrap();
    assert!(Group::retrieve(&db, &s("g")).is_ok());
    assert!(!db.user_has_permission(&s("u"), "x"));
    Group::delete(&mut db, &s("g")).unwrap();
    assert!(User::retrieve(&db, &s("u")).is_ok());
    assert!(db.users_groups.iter().all(|m| m.user_login != "u"));
}

#[test]
fn cancelled_login_cleans_up() {
    let mut db = Database::new();
    User::insert(&mut db, &s("alice"), &s("hunter2"), &s("{}")).unwrap();
    let (id, t) = User::event().login(&mut db, &s("alice"), &s("hunter2"), TTL, NOW).unwrap();
    assert_eq!(db.login_sessions[0].status, LoginSessionStatus::OnHold);
    db.cancel_event(t, id, NOW).unwrap();
    assert_eq!(db.login_sessions[0].status, LoginSessionStatus::Revoked);
    assert!(!db.session_has_permission(t, "anything", NOW));
    assert_eq!(db.commit_event(t, id, NOW), Err(EventError::Unauthorized));
    assert_eq!(db.activate_session(t), Err(SessionError::NotFound));
}

#[test]
fn event_ids_increase() {
    let mut db = Database::new();
    with_session(&mut db, "admin", "admins", &["permissions:post"], 3);
    let a = db.create_event(3, EventPayload::PermissionInsert { name: s("p"), description: s("") }, NOW).unwrap();
    let b = db.create_event(3, EventPayload::PermissionInsert { name: s("q"), description: s("") }, NOW).unwrap();
    assert!(a < b);
    assert_eq!(db.events[1].payload.kind(), EventType::PermissionInsert);
    assert_eq!(db.events[1].creator, Some(3));
}

#[test]
fn terminal_events_idempotent() {
    let mut db = Database::new();
    with_session(
        &mut db,
        "admin",
        "admins",
        &["permissions:post", "events:commit", "events:cancel"],
        3,
    );
    let a = db.create_event(3, EventPayload::PermissionInsert { name: s("p"), description: s("") }, NOW).unwrap();
    db.commit_event(3, a, NOW).unwrap();
    let rows = db.permissions.len();
    db.commit_event(3, a, NOW).unwrap();
    assert_eq!(db.permissions.len(), rows);
    assert_eq!(db.cancel_event(3, a, NOW), Err(EventError::InvalidState));
    let b = db.create_event(3, EventPayload::PermissionInsert { name: s("q"), description: s("") }, NOW).unwrap();
    db.cancel_event(3, b, NOW).unwrap();
    db.cancel_event(3, b, NOW).unwrap();
    assert_eq!(db.commit_event(3, b, NOW), Err(EventError::InvalidState));
    assert!(Permission::retrieve(&db, &s("q")).is_err());
    assert_eq!(db.commit_event(3, 99, NOW), Err(EventError::NotFound));
}

#[test]
fn failed_commit_leaves_event_pending() {
    let mut db = Database::new();
    with_session(&mut db, "admin", "admins", &["groups:post", "events:commit"], 3);
    let id = db
        .create_event(
            3,
            EventPayload::GroupInsert { name: s("g"), description: s(""), permissions: vec![s("missing")] },
            NOW,
        )
        .unwrap();
    assert_eq!(db.commit_event(3, id, NOW), Err(EventError::NameError));
    assert_eq!(db.events[0].status, EventStatus::Pending);
    assert!(Group::retrieve(&db, &s("g")).is_err());
}

#[test]
fn commit_needs_both_permissions() {
    let mut db = Database::new();
    with_session(&mut db, "a", "ga", &["permissions:post"], 3);
    with_session(&mut db, "b", "gb", &["events:commit"], 4);
    let id = db.create_event(3, EventPayload::PermissionInsert { name: s("p"), description: s("") }, NOW).unwrap();
    assert_eq!(db.commit_event(3, id, NOW), Err(EventError::Unauthorized));
    assert_eq!(db.commit_event(4, id, NOW), Err(EventError::Unauthorized));
    assert_eq!(db.cancel_event(4, id, NOW), Err(EventError::Unauthorized));
    db.cancel_event(3, id, NOW).unwrap();
    assert_eq!(
        db.create_event(4, EventPayload::PermissionDelete { name: s("p") }, NOW),
        Err(EventError::Unauthorized)
    );
    assert_eq!(
        db.create_event(3, EventPayload::UserLogin { session_token: 3 }, NOW),
        Err(EventError::Unauthorized)
    );
}

#[test]
fn on_hold_conveys_nothing() {
    let mut db = Database::new();
    with_session(&mut db, "a", "ga", &["p"], 3);
    db.create_session(9, &s("a"), LoginSessionStatus::OnHold, NOW + TTL).unwrap();
    assert!(db.session_has_permission(3, "p", NOW));
    assert!(!db.session_has_permission(9, "p", NOW));
    db.activate_session(9).unwrap();
    assert!(db.session_has_permission(9, "p", NOW));
    db.revoke_session(9).unwrap();
    assert!(!db.session_has_permission(9, "p", NOW));
    assert!(!db.session_has_permission(10, "p", NOW));
}

#[test]
fn delete_user_cascades() {
    let mut db = Database::new();
    with_session(&mut db, "u", "g", &["p"], 3);
    User::delete(&mut db, &s("u"));
    assert!(db.users.is_empty());
    assert!(db.users_groups.is_empty());
    assert!(db.login_sessions.is_empty());
    assert!(Group::retrieve(&db, &s("g")).is_ok());
    Group::delete(&mut db, &s("g")).unwrap();
    assert!(db.groups_permissions.is_empty());
    assert!(Permission::retrieve(&db, &s("p")).is_ok());
}

#[test]
fn bootstrap_idempotent() {
    let mut db = Database::new();
    init_defaults(&mut db);
    assert_eq!(db.permissions.len(), 9);
    assert_eq!(db.groups.len(), 1);
    assert_eq!(db.groups[0].name, "root");
    assert_eq!(db.groups_permissions.len(), 9);
    assert!(Permission::retrieve(&db, &s("cauth:users:delete")).is_ok());
    let names: Vec<String> = db.permissions.iter().map(|p| p.name.clone()).collect();
    init_defaults(&mut db);
    assert_eq!(db.permissions.len(), 9);
    assert_eq!(db.groups.len(), 1);
    assert_eq!(db.groups_permissions.len(), 9);
    let again: Vec<String> = db.permissions.iter().map(|p| p.name.clone()).collect();
    assert_eq!(names, again);
}

#[test]
fn permission_errors() {
    let mut db = Database::new();
    Permission::insert(&mut db, &s("p"), &s("d")).unwrap();
    assert_eq!(Permission::insert(&mut db, &s("p"), &s("e")), Err(PermissionInsertError::NameError));
    assert_eq!(Permission::insert(&mut db, &"n".repeat(256), &s("")), Err(PermissionInsertError::NameError));
    assert_eq!(Permission::insert(&mut db, &s("q"), &"d".repeat(3001)), Err(PermissionInsertError::NameError));
    Permission::insert(&mut db, &"n".repeat(255), &"d".repeat(3000)).unwrap();
    assert_eq!(Permission::retrieve(&db, &s("p")).unwrap().description, "d");
    assert_eq!(Permission::retrieve(&db, &s("z")).err(), Some(PermissionRetrieveError::NotFound));
    assert_eq!(Permission::delete(&mut db, &s("z")), Err(PermissionDeleteError::NotFound));
    Permission::delete(&mut db, &s("p")).unwrap();
    assert_eq!(Permission::delete(&mut db, &s("p")), Err(PermissionDeleteError::NotFound));
}

#[test]
fn group_errors() {
    let mut db = Database::new();
    Permission::insert(&mut db, &s("p"), &s("")).unwrap();
    Group::insert(&mut db, &s("g"), &s(""), &vec![]).unwrap();
    assert_eq!(Group::insert(&mut db, &s("g"), &s(""), &vec![]), Err(GroupInsertError::NameConflict));
    assert_eq!(Group::insert(&mut db, &s("h"), &s(""), &vec![s("p"), s("nope")]), Err(GroupInsertError::NameError));
    assert!(Group::retrieve(&db, &s("h")).is_err());
    Group::grant_permission(&mut db, &s("g"), &s("p")).unwrap();
    assert_eq!(Group::grant_permission(&mut db, &s("g"), &s("p")), Err(GroupGrantError::NameError));
    assert_eq!(Group::grant_permission(&mut db, &s("x"), &s("p")), Err(GroupGrantError::NameError));
    Group::revoke_permission(&mut db, &s("g"), &s("p")).unwrap();
    assert_eq!(Group::revoke_permission(&mut db, &s("g"), &s("p")), Err(GroupRevokeError::NameError));
    assert_eq!(Group::delete(&mut db, &s("x")), Err(GroupDeleteError::NotFound));
}

#[test]
fn user_errors() {
    let mut db = Database::new();
    User::insert_hashed(&mut db, &s("u"), &s("h"), &s("{}")).unwrap();
    assert!(matches!(User::insert_hashed(&mut db, &s("u"), &s("h"), &s("{}")), Err(UserInsertError::NameError)));
    assert!(matches!(User::insert(&mut db, &"u".repeat(256), &s("pw"), &s("{}")), Err(UserInsertError::NameError)));
    assert_eq!(User::grant_group(&mut db, &s("u"), &s("g")), Err(UserGrantError::NameError));
    Group::insert(&mut db, &s("g"), &s(""), &vec![]).unwrap();
    User::grant_group(&mut db, &s("u"), &s("g")).unwrap();
    assert_eq!(User::grant_group(&mut db, &s("u"), &s("g")), Err(UserGrantError::NameError));
    User::revoke_group(&mut db, &s("u"), &s("g")).unwrap();
    assert_eq!(User::revoke_group(&mut db, &s("u"), &s("g")), Err(UserRevokeError::NameError));
    assert_eq!(
        db.create_session(1, &s("nobody"), LoginSessionStatus::Active, NOW),
        Err(SessionCreateError::UserNotFound)
    );
    db.create_session(1, &s("u"), LoginSessionStatus::Active, NOW).unwrap();
    assert_eq!(
        db.create_session(1, &s("u"), LoginSessionStatus::Active, NOW),
        Err(SessionCreateError::TokenTaken)
    );
    assert_eq!(db.revoke_session(2), Err(SessionError::NotFound));
}

#[test]
fn login_with_given_token() {
    let mut db = Database::new();
    User::insert(&mut db, &s("u"), &s("pw"), &s("{}")).unwrap();
    assert_eq!(User::login_with_token(&mut db, &s("u"), &s("pw"), LoginSessionStatus::Active, 5, TTL, NOW), Ok(5));
    assert_eq!(db.login_sessions[0].expires_at, NOW + TTL);
    assert_eq!(
        User::login_with_token(&mut db, &s("u"), &s("pw"), LoginSessionStatus::Active, 5, TTL, NOW),
        Err(UserLoginError::SessionUnavailable)
    );
    assert_eq!(User::login_with_token(&mut db, &s("u"), &s("pw"), LoginSessionStatus::Active, 6, u64::MAX, NOW), Ok(6));
    assert_eq!(db.login_sessions[1].expires_at, u64::MAX);
}

#[test]
fn post_group_staged_and_direct() {
    let mut db = Database::new();
    with_session(&mut db, "a", "ga", &["groups:post", "events:commit"], 3);
    assert_eq!(post_group(&mut db, 3, &s("g"), &s(""), &vec![s("groups:post")], true, NOW), Ok(None));
    assert!(Group::retrieve(&db, &s("g")).is_ok());
    assert_eq!(post_group(&mut db, 3, &s("g"), &s(""), &vec![], true, NOW), Err(EventError::NameConflict));
    assert_eq!(post_group(&mut db, 3, &s("h"), &s(""), &vec![], false, NOW), Ok(Some(1)));
    assert!(Group::retrieve(&db, &s("h")).is_err());
    db.commit_event(3, 1, NOW).unwrap();
    assert!(Group::retrieve(&db, &s("h")).is_ok());
    assert_eq!(post_group(&mut db, 99, &s("k"), &s(""), &vec![], true, NOW), Err(EventError::Unauthorized));
}

#[test]
fn list_orders_and_pages() {
    let mut db = Database::new();
    for n in ["delta", "alpha", "charlie", "bravo", "echo"] {
        Permission::insert(&mut db, &s(n), &s("")).unwrap();
    }
    let names = |v: Vec<Permission>| v.into_iter().map(|p| p.name).collect::<Vec<_>>();
    assert_eq!(
        names(Permission::list(&db, None, None, None).unwrap()),
        vec!["alpha", "bravo", "charlie", "delta", "echo"]
    );
    assert_eq!(
        names(Permission::list(&db, Some(Order::Descending), Some(1), Some(2)).unwrap()),
        vec!["delta", "charlie"]
    );
    assert_eq!(names(Permission::list(&db, None, Some(3), Some(10)).unwrap()), vec!["delta", "echo"]);
    assert!(Permission::list(&db, None, Some(5), None).unwrap().is_empty());
    assert!(Permission::list(&db, None, None, Some(0)).unwrap().is_empty());
    for i in 0..120 {
        Permission::insert(&mut db, &format!("p{:03}", i), &s("")).unwrap();
    }
    assert_eq!(Permission::list(&db, None, None, None).unwrap().len(), 10);
    assert_eq!(Permission::list(&db, None, None, Some(1000)).unwrap().len(), 100);
}

#[test]
fn list_orders_by_characters() {
    assert!(name_less("ab", "abc"));
    assert!(!name_less("abc", "ab"));
    assert!(name_less("Zed", "abc"));
    assert!(!name_less("abc", "abc"));
    assert!(name_less("", "a"));
    assert!(!name_less("b", "a"));
}

#[test]
fn list_users_and_groups() {
    let mut db = Database::new();
    with_session(&mut db, "zoe", "viewers", &["groups:get"], 4);
    User::insert_hashed(&mut db, &s("adam"), &s("h"), &s("{}")).unwrap();
    let users: Vec<String> = User::list(&db, None, None, None).unwrap().into_iter().map(|u| u.login).collect();
    assert_eq!(users, vec!["adam", "zoe"]);
    for g in ["g1", "g2"] {
        Group::insert(&mut db, &s(g), &s(""), &vec![]).unwrap();
    }
    let groups: Vec<String> =
        get_groups(&db, 4, Some(Order::Descending), None, NOW).unwrap().into_iter().map(|g| g.name).collect();
    assert_eq!(groups, vec!["viewers", "g2", "g1"]);
    assert!(get_groups(&db, 4, None, Some(1), NOW).unwrap().is_empty());
    assert_eq!(get_groups(&db, 5, None, None, NOW).err(), Some(EventError::Unauthorized));
}

#[test]
fn cli_decides_configuration() {
    assert!(CauthCli { action: ActionType::Run }.run().needs_config);
    assert!(CauthCli { action: ActionType::Admin }.run().needs_config);
    assert!(!CauthCli { action: ActionType::Config }.run().needs_config);
    assert_eq!(CauthCli { action: ActionType::Daemon }.run().action, ActionType::Daemon);
}

#[test]
fn self_commit_policy() {
    let mut db = Database::new();
    with_session(&mut db, "a", "ga", &["permissions:post", "events:commit"], 3);
    with_session(&mut db, "b", "gb", &["permissions:post", "events:commit"], 4);
    db.self_commit_allowed = false;
    let id = db.create_event(3, EventPayload::PermissionInsert { name: s("p"), description: s("") }, NOW).unwrap();
    assert_eq!(db.commit_event(3, id, NOW), Err(EventError::Unauthorized));
    db.commit_event(4, id, NOW).unwrap();
    assert!(Permission::retrieve(&db, &s("p")).is_ok());
}

#[test]
fn staged_user_delete() {
    let mut db = Database::new();
    with_session(&mut db, "root", "root", &["users:delete", "events:commit"], 1);
    User::insert_hashed(&mut db, &s("alice"), &s("x"), &s("{}")).unwrap();
    let root = User::retrieve(&db, &s("root")).unwrap();
    assert!(root.has_permissions(&db, "users:delete:alice"));
    assert!(!root.has_permissions(&db, "users:post"));
    assert_eq!(User::event().delete(&mut db, &s("alice"), 2, NOW), Err(EventError::Unauthorized));
    let id = User::event().delete(&mut db, &s("alice"), 1, NOW).unwrap();
    assert!(User::retrieve(&db, &s("alice")).is_ok());
    db.commit_event(1, id, NOW).unwrap();
    assert_eq!(User::retrieve(&db, &s("alice")).err(), Some(UserRetrieveError::NotFound));
}

#[test]
fn bootstrap_completes_existing_root() {
    let mut db = Database::new();
    Permission::insert(&mut db, &s("cauth:groups:get"), &s("kept")).unwrap();
    Group::insert(&mut db, &s("root"), &s("mine"), &vec![s("cauth:groups:get")]).unwrap();
    User::insert_hashed(&mut db, &s("u"), &s("h"), &s("{}")).unwrap();
    init_defaults(&mut db);
    assert_eq!(db.permissions.len(), 9);
    assert_eq!(db.permissions[0].description, "kept");
    assert_eq!(db.groups.len(), 1);
    assert_eq!(db.groups[0].description, "mine");
    assert_eq!(db.groups_permissions.len(), 9);
    assert!(db.groups_permissions.iter().all(|gp| gp.group_name == "root"));
    assert_eq!(db.users.len(), 1);
    let grants = db.groups_permissions.len();
    init_defaults(&mut db);
    assert_eq!(db.groups_permissions.len(), grants);
}

#[test]
fn stored_hash_is_phc_not_plaintext() {
    let mut db = Database::new();
    User::insert(&mut db, &s("alice"), &s("hunter2"), &s("{}")).unwrap();
    let u = User::retrieve(&db, &s("alice")).unwrap();
    assert!(u.password_hash.starts_with("$argon2id$"));
    assert_ne!(u.password_hash, "hunter2");
    assert!(verify_password("hunter2", &u.password_hash));
    User::insert(&mut db, &s("empty"), &s(""), &s("{}")).unwrap();
    let h1 = hash_password("same").unwrap();
    let h2 = hash_password("same").unwrap();
    assert_ne!(h1, h2);
}
