use crate::groups::{
    delete_group_post, grant_permission_post, insert_group_post, revoke_permission_post,
    GroupDeleteError, GroupGrantError, GroupInsertError, GroupRevokeError,
};
use crate::permissions::{
    delete_permission_post, insert_permission_post, PermissionDeleteError,
    PermissionInsertError,
};
use crate::sessions::{activate_session_post, session_may};
use crate::store::Database;
use crate::users::{
    delete_user_post, grant_group_post, insert_user_post, revoke_group_post, UserGrantError,
    UserInsertError, UserRevokeError,
};
use vstd::prelude::*;

verus! {

/// The kind of mutation an event stages.
#[derive(Clone, Copy, Debug, PartialEq, Eq, Structural)]
pub enum EventType {
    UserRegister,
    UserLogin,
    UserDelete,
    GroupInsert,
    GroupDelete,
    GroupGrantPermission,
    GroupRevokePermission,
    UserGrantGroup,
    UserRevokeGroup,
    PermissionInsert,
    PermissionDelete,
}

/// Where an event is in its lifecycle.
#[derive(Clone, Copy, Debug, PartialEq, Eq, Structural)]
pub enum EventStatus {
    Pending,
    Committed,
    Cancelled,
}

/// The staged mutation, typed by its kind; a registration carries the
/// password hash, never the password.
pub enum EventPayload {
    UserRegister { login: String, password_hash: String, details: String },
    UserLogin { session_token: u128 },
    UserDelete { login: String },
    GroupInsert { name: String, description: String, permissions: Vec<String> },
    GroupDelete { name: String },
    GroupGrantPermission { group: String, permission: String },
    GroupRevokePermission { group: String, permission: String },
    UserGrantGroup { login: String, group: String },
    UserRevokeGroup { login: String, group: String },
    PermissionInsert { name: String, description: String },
    PermissionDelete { name: String },
}

/// A persisted staged mutation. `creator` is the session that staged it,
/// if any.
pub struct Event {
    pub id: u64,
    pub payload: EventPayload,
    pub status: EventStatus,
    pub created_at: u64,
    pub creator: Option<u128>,
}

#[derive(Debug, PartialEq, Eq)]
pub enum EventError {
    /// The event, or the entity that its commit touches, does not exist.
    NotFound,
    /// The session lacks a permission that the step requires.
    Unauthorized,
    /// The event is no longer pending.
    InvalidState,
    /// A name is taken or too long.
    NameConflict,
    /// A referenced entity does not exist, or an association already does.
    NameError,
    /// The login or the password is wrong; both are reported alike.
    InvalidCredentials,
    /// The password could not be hashed; the message says why.
    HashError(String),
    /// The event identifiers are exhausted, or no session could be opened.
    StorageError,
}

/// The kind of a payload.
pub open spec fn kind_of(p: EventPayload) -> EventType {
    match p {
        EventPayload::UserRegister { .. } => EventType::UserRegister,
        EventPayload::UserLogin { .. } => EventType::UserLogin,
        EventPayload::UserDelete { .. } => EventType::UserDelete,
        EventPayload::GroupInsert { .. } => EventType::GroupInsert,
        EventPayload::GroupDelete { .. } => EventType::GroupDelete,
        EventPayload::GroupGrantPermission { .. } => EventType::GroupGrantPermission,
        EventPayload::GroupRevokePermission { .. } => EventType::GroupRevokePermission,
        EventPayload::UserGrantGroup { .. } => EventType::UserGrantGroup,
        EventPayload::UserRevokeGroup { .. } => EventType::UserRevokeGroup,
        EventPayload::PermissionInsert { .. } => EventType::PermissionInsert,
        EventPayload::PermissionDelete { .. } => EventType::PermissionDelete,
    }
}

/// The permission that performing the staged action directly requires;
/// confirming a login needs none of its own.
pub open spec fn action_permission(p: EventPayload) -> Option<Seq<char>> {
    match p {
        EventPayload::UserRegister { .. } => Some("users:post"@),
        EventPayload::UserLogin { .. } => None,
        EventPayload::UserDelete { login } => Some("users:delete:"@ + login@),
        EventPayload::GroupInsert { .. } => Some("groups:post"@),
        EventPayload::GroupDelete { .. } => Some("groups:delete"@),
        EventPayload::GroupGrantPermission { .. } => Some("groups:update"@),
        EventPayload::GroupRevokePermission { .. } => Some("groups:update"@),
        EventPayload::UserGrantGroup { .. } => Some("users:update"@),
        EventPayload::UserRevokeGroup { .. } => Some("users:update"@),
        EventPayload::PermissionInsert { .. } => Some("permissions:post"@),
        EventPayload::PermissionDelete { .. } => Some("permissions:delete"@),
    }
}

/// Session `session` carries the action's own permission at `now`.
pub open spec fn action_allowed(d: Database, session: u128, p: EventPayload, now: u64) -> bool {
    match action_permission(p) {
        None => true,
        Some(required) => session_may(d, session, required, now),
    }
}

/// Registrations and logins are staged only through their own entry
/// points; any other event needs the action's permission.
pub open spec fn creation_allowed(d: Database, session: u128, p: EventPayload, now: u64) -> bool {
    match p {
        EventPayload::UserRegister { .. } => false,
        EventPayload::UserLogin { .. } => false,
        _ => action_allowed(d, session, p, now),
    }
}

/// Some event has identifier `id`.
pub open spec fn event_exists(d: Database, id: u64) -> bool {
    exists|i: int| 0 <= i < d.events@.len() && (#[trigger] d.events@[i]).id == id
}

/// `b` is `a` with one pending event appended under the next identifier.
pub open spec fn event_created(
    a: Database,
    b: Database,
    id: u64,
    kind: EventType,
    creator: Option<u128>,
    now: u64,
) -> bool {
    &&& id == a.next_event_id
    &&& b.next_event_id == id + 1
    &&& b.self_commit_allowed == a.self_commit_allowed
    &&& b.permissions@ == a.permissions@
    &&& b.groups@ == a.groups@
    &&& b.groups_permissions@ == a.groups_permissions@
    &&& b.users@ == a.users@
    &&& b.users_groups@ == a.users_groups@
    &&& b.login_sessions@ == a.login_sessions@
    &&& b.events@.len() == a.events@.len() + 1
    &&& b.events@.drop_last() == a.events@
    &&& b.events@.last().id == id
    &&& b.events@.last().status == EventStatus::Pending
    &&& b.events@.last().created_at == now
    &&& b.events@.last().creator == creator
    &&& kind_of(b.events@.last().payload) == kind
}

/// What performing a staged action does to the tables, with the action's
/// own error mapped to an event error.
pub open spec fn applied(a: Database, p: EventPayload, b: Database, r: Result<(), EventError>) -> bool {
    match p {
        EventPayload::UserRegister { login, password_hash, details } => exists|
            rr: Result<(), UserInsertError>,
        |
            insert_user_post(a, login@, password_hash@, details@, b, rr) && (r is Ok <==> rr is Ok)
                && (r is Err ==> r matches Err(EventError::NameConflict)),
        EventPayload::UserLogin { session_token } => exists|rr: Result<(), crate::sessions::SessionError>|
            activate_session_post(a, session_token, b, rr) && (r is Ok <==> rr is Ok) && (r is Err
                ==> r matches Err(EventError::NotFound)),
        EventPayload::UserDelete { login } => delete_user_post(a, login@, b) && r is Ok,
        EventPayload::GroupInsert { name, description, permissions } => exists|
            rr: Result<(), GroupInsertError>,
        |
            insert_group_post(a, name@, description@, permissions@, b, rr) && (r is Ok
                <==> rr is Ok) && (rr == Err::<(), _>(GroupInsertError::NameConflict) ==> r matches Err(
                EventError::NameConflict,
            )) && (rr == Err::<(), _>(GroupInsertError::NameError) ==> r matches Err(
                EventError::NameError,
            )),
        EventPayload::GroupDelete { name } => exists|rr: Result<(), GroupDeleteError>|
            delete_group_post(a, name@, b, rr) && (r is Ok <==> rr is Ok) && (r is Err
                ==> r matches Err(EventError::NotFound)),
        EventPayload::GroupGrantPermission { group, permission } => exists|
            rr: Result<(), GroupGrantError>,
        |
            grant_permission_post(a, group@, permission@, b, rr) && (r is Ok <==> rr is Ok) && (r is Err
                ==> r matches Err(EventError::NameError)),
        EventPayload::GroupRevokePermission { group, permission } => exists|
            rr: Result<(), GroupRevokeError>,
        |
            revoke_permission_post(a, group@, permission@, b, rr) && (r is Ok <==> rr is Ok) && (r is Err
                ==> r matches Err(EventError::NameError)),
        EventPayload::UserGrantGroup { login, group } => exists|rr: Result<(), UserGrantError>|
            grant_group_post(a, login@, group@, b, rr) && (r is Ok <==> rr is Ok) && (r is Err
                ==> r matches Err(EventError::NameError)),
        EventPayload::UserRevokeGroup { login, group } => exists|rr: Result<(), UserRevokeError>|
            revoke_group_post(a, login@, group@, b, rr) && (r is Ok <==> rr is Ok) && (r is Err
                ==> r matches Err(EventError::NameError)),
        EventPayload::PermissionInsert { name, description } => exists|
            rr: Result<(), PermissionInsertError>,
        |
            insert_permission_post(a, name@, description@, b, rr) && (r is Ok <==> rr is Ok) && (r is Err
                ==> r matches Err(EventError::NameConflict)),
        EventPayload::PermissionDelete { name } => exists|rr: Result<(), PermissionDeleteError>|
            delete_permission_post(a, name@, b, rr) && (r is Ok <==> rr is Ok) && (r is Err
                ==> r matches Err(EventError::NotFound)),
    }
}

/// Copies a list of names.
pub fn copy_names(v: &Vec<String>) -> (r: Vec<String>)
    ensures
        r@ == v@,
{
    let mut r: Vec<String> = Vec::new();
    let mut i: usize = 0;
    while i < v.len()
        invariant
            i <= v@.len(),
            r@ == v@.subrange(0, i as int),
        decreases v@.len() - i,
    {
        r.push(v[i].clone());
        proof {
            assert(v@.subrange(0, i + 1) =~= v@.subrange(0, i as int).push(v@[i as int]));
        }
        i = i + 1;
    }
    assert(v@.subrange(0, v@.len() as int) =~= v@);
    r
}

/// Two payloads of one kind with equal fields.
pub open spec fn same_payload(a: EventPayload, b: EventPayload) -> bool {
    match (a, b) {
        (
            EventPayload::GroupInsert { name: n1, description: d1, permissions: perms_a },
            EventPayload::GroupInsert { name: n2, description: d2, permissions: perms_b },
        ) => n1 == n2 && d1 == d2 && perms_a@ == perms_b@,
        _ => a == b,
    }
}

impl EventPayload {
    /// A copy of this payload.
    pub fn duplicate(&self) -> (r: Self)
        ensures
            same_payload(r, *self),
    {
        match self {
            EventPayload::UserRegister { login, password_hash, details } => EventPayload::UserRegister {
                login: login.clone(),
                password_hash: password_hash.clone(),
                details: details.clone(),
            },
            EventPayload::UserLogin { session_token } => EventPayload::UserLogin {
                session_token: *session_token,
            },
            EventPayload::UserDelete { login } => EventPayload::UserDelete { login: login.clone() },
            EventPayload::GroupInsert { name, description, permissions } => EventPayload::GroupInsert {
                name: name.clone(),
                description: description.clone(),
                permissions: copy_names(permissions),
            },
            EventPayload::GroupDelete { name } => EventPayload::GroupDelete { name: name.clone() },
            EventPayload::GroupGrantPermission { group, permission } =>
                EventPayload::GroupGrantPermission {
                group: group.clone(),
                permission: permission.clone(),
            },
            EventPayload::GroupRevokePermission { group, permission } =>
                EventPayload::GroupRevokePermission {
                group: group.clone(),
                permission: permission.clone(),
            },
            EventPayload::UserGrantGroup { login, group } => EventPayload::UserGrantGroup {
                login: login.clone(),
                group: group.clone(),
            },
            EventPayload::UserRevokeGroup { login, group } => EventPayload::UserRevokeGroup {
                login: login.clone(),
                group: group.clone(),
            },
            EventPayload::PermissionInsert { name, description } => EventPayload::PermissionInsert {
                name: name.clone(),
                description: description.clone(),
            },
            EventPayload::PermissionDelete { name } => EventPayload::PermissionDelete {
                name: name.clone(),
            },
        }
    }

    /// The kind of this payload.
    pub fn kind(&self) -> (r: EventType)
        ensures
            r == kind_of(*self),
    {
        match self {
            EventPayload::UserRegister { .. } => EventType::UserRegister,
            EventPayload::UserLogin { .. } => EventType::UserLogin,
            EventPayload::UserDelete { .. } => EventType::UserDelete,
            EventPayload::GroupInsert { .. } => EventType::GroupInsert,
            EventPayload::GroupDelete { .. } => EventType::GroupDelete,
            EventPayload::GroupGrantPermission { .. } => EventType::GroupGrantPermission,
            EventPayload::GroupRevokePermission { .. } => EventType::GroupRevokePermission,
            EventPayload::UserGrantGroup { .. } => EventType::UserGrantGroup,
            EventPayload::UserRevokeGroup { .. } => EventType::UserRevokeGroup,
            EventPayload::PermissionInsert { .. } => EventType::PermissionInsert,
            EventPayload::PermissionDelete { .. } => EventType::PermissionDelete,
        }
    }
}

} // verus!
