use crate::events::Event;
use crate::seqs::{has_key, unique_by};
use vstd::prelude::*;

verus! {

/// The longest permission, group or user name that is stored.
pub const MAX_NAME_LEN: usize = 255;

/// The longest description that is stored.
pub const MAX_DESCRIPTION_LEN: usize = 3000;

/// A named capability, possibly scoped to one resource instance.
pub struct Permission {
    pub name: String,
    pub description: String,
}

/// A named bundle of permissions.
pub struct Group {
    pub name: String,
    pub description: String,
}

/// One grant of a permission to a group.
pub struct GroupPermission {
    pub group_name: String,
    pub permission_name: String,
}

/// A user account; `details` holds the account's JSON document as text.
pub struct User {
    pub login: String,
    pub password_hash: String,
    pub details: String,
}

/// One membership of a user in a group.
pub struct UserGroup {
    pub user_login: String,
    pub group_name: String,
}

/// The lifecycle state of a login session.
#[derive(Clone, Copy, Debug, PartialEq, Eq, Structural)]
pub enum LoginSessionStatus {
    OnHold,
    Active,
    Revoked,
}

/// A session token bound to a user, with its status and expiry instant.
pub struct LoginSession {
    pub token: u128,
    pub user_login: String,
    pub status: LoginSessionStatus,
    pub expires_at: u64,
}

/// The relational state: every table of the service.
pub struct Database {
    pub permissions: Vec<Permission>,
    pub groups: Vec<Group>,
    pub groups_permissions: Vec<GroupPermission>,
    pub users: Vec<User>,
    pub users_groups: Vec<UserGroup>,
    pub login_sessions: Vec<LoginSession>,
    pub events: Vec<Event>,
    pub next_event_id: u64,
    /// Whether the session that staged an event may also commit it.
    pub self_commit_allowed: bool,
}

pub open spec fn permission_key(p: Permission) -> Seq<char> {
    p.name@
}

pub open spec fn group_key(g: Group) -> Seq<char> {
    g.name@
}

pub open spec fn user_key(u: User) -> Seq<char> {
    u.login@
}

pub open spec fn session_key(s: LoginSession) -> u128 {
    s.token
}

impl Permission {
    pub fn duplicate(&self) -> (r: Self)
        ensures
            r == *self,
    {
        Permission { name: self.name.clone(), description: self.description.clone() }
    }
}

impl Group {
    pub fn duplicate(&self) -> (r: Self)
        ensures
            r == *self,
    {
        Group { name: self.name.clone(), description: self.description.clone() }
    }
}

impl GroupPermission {
    pub fn duplicate(&self) -> (r: Self)
        ensures
            r == *self,
    {
        GroupPermission {
            group_name: self.group_name.clone(),
            permission_name: self.permission_name.clone(),
        }
    }
}

impl User {
    pub fn duplicate(&self) -> (r: Self)
        ensures
            r == *self,
    {
        User {
            login: self.login.clone(),
            password_hash: self.password_hash.clone(),
            details: self.details.clone(),
        }
    }
}

impl UserGroup {
    pub fn duplicate(&self) -> (r: Self)
        ensures
            r == *self,
    {
        UserGroup { user_login: self.user_login.clone(), group_name: self.group_name.clone() }
    }
}

impl LoginSession {
    pub fn duplicate(&self) -> (r: Self)
        ensures
            r == *self,
    {
        LoginSession {
            token: self.token,
            user_login: self.user_login.clone(),
            status: self.status,
            expires_at: self.expires_at,
        }
    }
}

impl Database {
    pub open spec fn permission_exists(self, name: Seq<char>) -> bool {
        has_key(self.permissions@, |p: Permission| permission_key(p), name)
    }

    pub open spec fn group_exists(self, name: Seq<char>) -> bool {
        has_key(self.groups@, |g: Group| group_key(g), name)
    }

    pub open spec fn user_exists(self, login: Seq<char>) -> bool {
        has_key(self.users@, |u: User| user_key(u), login)
    }

    pub open spec fn session_exists(self, token: u128) -> bool {
        has_key(self.login_sessions@, |s: LoginSession| session_key(s), token)
    }

    /// Group `g` holds a grant of permission `p`.
    pub open spec fn group_holds(self, g: Seq<char>, p: Seq<char>) -> bool {
        exists|i: int|
            0 <= i < self.groups_permissions@.len() && (#[trigger] self.groups_permissions@[i]).group_name@
                == g && self.groups_permissions@[i].permission_name@ == p
    }

    /// User `u` is a member of group `g`.
    pub open spec fn user_in_group(self, u: Seq<char>, g: Seq<char>) -> bool {
        exists|i: int|
            0 <= i < self.users_groups@.len() && (#[trigger] self.users_groups@[i]).user_login@ == u
                && self.users_groups@[i].group_name@ == g
    }

    /// Keys are unique and every association references existing rows.
    pub open spec fn wf(self) -> bool {
        &&& unique_by(self.permissions@, |p: Permission| permission_key(p))
        &&& unique_by(self.groups@, |g: Group| group_key(g))
        &&& unique_by(self.users@, |u: User| user_key(u))
        &&& unique_by(self.login_sessions@, |s: LoginSession| session_key(s))
        &&& forall|i: int|
            0 <= i < self.groups_permissions@.len() ==> self.group_exists(
                (#[trigger] self.groups_permissions@[i]).group_name@,
            ) && self.permission_exists(self.groups_permissions@[i].permission_name@)
        &&& forall|i: int|
            0 <= i < self.users_groups@.len() ==> self.user_exists(
                (#[trigger] self.users_groups@[i]).user_login@,
            ) && self.group_exists(self.users_groups@[i].group_name@)
        &&& forall|i: int|
            0 <= i < self.login_sessions@.len() ==> self.user_exists(
                (#[trigger] self.login_sessions@[i]).user_login@,
            )
        &&& forall|i: int|
            0 <= i < self.events@.len() ==> (#[trigger] self.events@[i]).id < self.next_event_id
        &&& forall|i: int, j: int|
            0 <= i < j < self.events@.len() ==> (#[trigger] self.events@[i]).id
                < (#[trigger] self.events@[j]).id
    }

    /// An empty database.
    pub fn new() -> (r: Self)
        ensures
            r.wf(),
            r.permissions@.len() == 0,
            r.groups@.len() == 0,
            r.groups_permissions@.len() == 0,
            r.users@.len() == 0,
            r.users_groups@.len() == 0,
            r.login_sessions@.len() == 0,
            r.events@.len() == 0,
            r.next_event_id == 1,
            r.self_commit_allowed,
    {
        Database {
            permissions: Vec::new(),
            groups: Vec::new(),
            groups_permissions: Vec::new(),
            users: Vec::new(),
            users_groups: Vec::new(),
            login_sessions: Vec::new(),
            events: Vec::new(),
            next_event_id: 1,
            self_commit_allowed: true,
        }
    }
}

} // verus!
