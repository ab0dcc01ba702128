use crate::events::{
    action_allowed, applied, creation_allowed, event_created, event_exists, kind_of, same_payload,
    Event, EventError, EventPayload, EventStatus, EventType,
};
use crate::groups::{
    delete_group_post, grant_permission_post, insert_group_post, revoke_permission_post,
    GroupInsertError,
};
use crate::password::{
    argon2_accepts, hash_password, is_argon2id_phc, random_token, MAX_PASSWORD_LEN,
};
use crate::permissions::{delete_permission_post, insert_permission_post};
use crate::sessions::{
    activate_session_post, create_session_post, expiry, revoke_session_post, session_may,
};
use crate::store::{Database, Group, LoginSessionStatus, Permission, User};
use crate::users::{
    credentials_valid, grant_group_post, insert_user_post, revoke_group_post, UserLoginError,
};
use vstd::prelude::*;

verus! {

/// `b` is `a` with the status of event `i` set to `status`.
pub open spec fn event_status_set(a: Database, i: int, status: EventStatus, b: Database) -> bool {
    &&& b.permissions@ == a.permissions@
    &&& b.groups@ == a.groups@
    &&& b.groups_permissions@ == a.groups_permissions@
    &&& b.users@ == a.users@
    &&& b.users_groups@ == a.users_groups@
    &&& b.login_sessions@ == a.login_sessions@
    &&& b.next_event_id == a.next_event_id
    &&& b.self_commit_allowed == a.self_commit_allowed
    &&& 0 <= i < a.events@.len()
    &&& b.events@ == a.events@.update(i, Event { status, ..a.events@[i] })
}

/// The cancellation of pending event `i`: it is marked cancelled, and a
/// staged login also revokes its on-hold session.
pub open spec fn cancelled(a: Database, i: int, b: Database) -> bool {
    match a.events@[i].payload {
        EventPayload::UserLogin { session_token } => exists|m: Database|
            #![auto]
            event_status_set(a, i, EventStatus::Cancelled, m) && (if m.session_exists(session_token) {
                revoke_session_post(m, session_token, b, Ok(()))
            } else {
                b == m
            }),
        _ => event_status_set(a, i, EventStatus::Cancelled, b),
    }
}

/// The index of the event with identifier `id`, when one exists.
pub open spec fn event_index(d: Database, id: u64) -> int {
    choose|i: int| 0 <= i < d.events@.len() && (#[trigger] d.events@[i]).id == id
}

/// What committing event `id` on behalf of `session` does. The session
/// must carry `events:commit` and the action's own permission, and may be
/// the one that staged the event only where the database allows it. A
/// committed event commits again without effect; the action applies only
/// to a pending one, and if it fails nothing changes.
pub open spec fn commit_post(
    a: Database,
    session: u128,
    id: u64,
    now: u64,
    b: Database,
    r: Result<(), EventError>,
) -> bool {
    if !event_exists(a, id) {
        (r matches Err(EventError::NotFound)) && b == a
    } else {
        let i = event_index(a, id);
        let e = a.events@[i];
        if !(session_may(a, session, "events:commit"@, now) && action_allowed(
            a,
            session,
            e.payload,
            now,
        ) && (a.self_commit_allowed || e.creator != Some(session))) {
            (r matches Err(EventError::Unauthorized)) && b == a
        } else if e.status == EventStatus::Committed {
            r is Ok && b == a
        } else if e.status == EventStatus::Cancelled {
            (r matches Err(EventError::InvalidState)) && b == a
        } else {
            exists|m: Database|
                #[trigger] applied(a, e.payload, m, r) && (r is Ok ==> event_status_set(
                    m,
                    i,
                    EventStatus::Committed,
                    b,
                )) && (r is Err ==> b == m)
        }
    }
}

/// What cancelling event `id` on behalf of `session` does. The creator's
/// session, or one holding `events:cancel`, may cancel; a cancelled event
/// cancels again without effect.
pub open spec fn cancel_post(
    a: Database,
    session: u128,
    id: u64,
    now: u64,
    b: Database,
    r: Result<(), EventError>,
) -> bool {
    if !event_exists(a, id) {
        (r matches Err(EventError::NotFound)) && b == a
    } else {
        let i = event_index(a, id);
        let e = a.events@[i];
        if !(e.creator == Some(session) || session_may(a, session, "events:cancel"@, now)) {
            (r matches Err(EventError::Unauthorized)) && b == a
        } else if e.status == EventStatus::Cancelled {
            r is Ok && b == a
        } else if e.status == EventStatus::Committed {
            (r matches Err(EventError::InvalidState)) && b == a
        } else {
            r is Ok && cancelled(a, i, b)
        }
    }
}

/// Payloads with equal fields have equal effects.
pub proof fn lemma_applied_same_payload(
    a: Database,
    p: EventPayload,
    q: EventPayload,
    b: Database,
    r: Result<(), EventError>,
)
    requires
        same_payload(p, q),
    ensures
        applied(a, p, b, r) == applied(a, q, b, r),
{
}

impl Database {
    /// Sets the status of event `i`.
    fn set_event_status(&mut self, i: usize, status: EventStatus)
        requires
            old(self).wf(),
            i < old(self).events@.len(),
        ensures
            final(self).wf(),
            event_status_set(*old(self), i as int, status, *final(self)),
    {
        let ghost a = *self;
        let mut e = self.events.remove(i);
        e.status = status;
        self.events.insert(i, e);
        proof {
            assert(self.events@ =~= a.events@.update(i as int, Event { status, ..a.events@[i as int] }));
            assert forall|x: int, y: int| 0 <= x < y < self.events@.len() implies (
            #[trigger] self.events@[x]).id < (#[trigger] self.events@[y]).id by {
                assert(a.events@[x].id < a.events@[y].id);
            }
            assert forall|x: int| 0 <= x < self.events@.len() implies (
            #[trigger] self.events@[x]).id < self.next_event_id by {
                assert(a.events@[x].id < a.next_event_id);
            }
        }
    }

    /// Performs a staged action on the tables.
    fn apply_payload(&mut self, p: &EventPayload) -> (r: Result<(), EventError>)
        requires
            old(self).wf(),
        ensures
            final(self).wf(),
            applied(*old(self), *p, *final(self), r),
    {
        match p {
            EventPayload::UserRegister { login, password_hash, details } => {
                let rr = User::insert_hashed(self, login, password_hash, details);
                assert(insert_user_post(*old(self), login@, password_hash@, details@, *self, rr));
                match rr {
                    Ok(()) => Ok(()),
                    Err(_) => Err(EventError::NameConflict),
                }
            },
            EventPayload::UserLogin { session_token } => {
                let rr = self.activate_session(*session_token);
                assert(activate_session_post(*old(self), *session_token, *self, rr));
                match rr {
                    Ok(()) => Ok(()),
                    Err(_) => Err(EventError::NotFound),
                }
            },
            EventPayload::UserDelete { login } => {
                User::delete(self, login);
                Ok(())
            },
            EventPayload::GroupInsert { name, description, permissions } => {
                let rr = Group::insert(self, name, description, permissions);
                assert(insert_group_post(
                    *old(self),
                    name@,
                    description@,
                    permissions@,
                    *self,
                    rr,
                ));
                match rr {
                    Ok(()) => Ok(()),
                    Err(GroupInsertError::NameConflict) => Err(EventError::NameConflict),
                    Err(GroupInsertError::NameError) => Err(EventError::NameError),
                }
            },
            EventPayload::GroupDelete { name } => {
                let rr = Group::delete(self, name);
                assert(delete_group_post(*old(self), name@, *self, rr));
                match rr {
                    Ok(()) => Ok(()),
                    Err(_) => Err(EventError::NotFound),
                }
            },
            EventPayload::GroupGrantPermission { group, permission } => {
                let rr = Group::grant_permission(self, group, permission);
                assert(grant_permission_post(*old(self), group@, permission@, *self, rr));
                match rr {
                    Ok(()) => Ok(()),
                    Err(_) => Err(EventError::NameError),
                }
            },
            EventPayload::GroupRevokePermission { group, permission } => {
                let rr = Group::revoke_permission(self, group, permission);
                assert(revoke_permission_post(*old(self), group@, permission@, *self, rr));
                match rr {
                    Ok(()) => Ok(()),
                    Err(_) => Err(EventError::NameError),
                }
            },
            EventPayload::UserGrantGroup { login, group } => {
                let rr = User::grant_group(self, login, group);
                assert(grant_group_post(*old(self), login@, group@, *self, rr));
                match rr {
                    Ok(()) => Ok(()),
                    Err(_) => Err(EventError::NameError),
                }
            },
            EventPayload::UserRevokeGroup { login, group } => {
                let rr = User::revoke_group(self, login, group);
                assert(revoke_group_post(*old(self), login@, group@, *self, rr));
                match rr {
                    Ok(()) => Ok(()),
                    Err(_) => Err(EventError::NameError),
                }
            },
            EventPayload::PermissionInsert { name, description } => {
                let rr = Permission::insert(self, name, description);
                assert(insert_permission_post(*old(self), name@, description@, *self, rr));
                match rr {
                    Ok(()) => Ok(()),
                    Err(_) => Err(EventError::NameConflict),
                }
            },
            EventPayload::PermissionDelete { name } => {
                let rr = Permission::delete(self, name);
                assert(delete_permission_post(*old(self), name@, *self, rr));
                match rr {
                    Ok(()) => Ok(()),
                    Err(_) => Err(EventError::NotFound),
                }
            },
        }
    }

    /// Commits event `id` on behalf of `session`, which must carry
    /// `events:commit` and the action's own permission.
    pub fn commit_event(&mut self, session: u128, id: u64, now: u64) -> (r: Result<(), EventError>)
        requires
            old(self).wf(),
        ensures
            final(self).wf(),
            commit_post(*old(self), session, id, now, *final(self), r),
    {
        let i = match self.find_event(id) {
            None => {
                return Err(EventError::NotFound);
            },
            Some(i) => i,
        };
        proof {
            let k = event_index(*self, id);
            assert(0 <= i < self.events@.len() && self.events@[i as int].id == id);
            assert(k == i);
        }
        let by_creator = match self.events[i].creator {
            Some(c) => c == session,
            None => false,
        };
        if !(self.session_has_permission(session, "events:commit", now) && self.action_authorized(
            session,
            &self.events[i].payload,
            now,
        ) && (self.self_commit_allowed || !by_creator)) {
            return Err(EventError::Unauthorized);
        }
        let status = self.events[i].status;
        if status == EventStatus::Committed {
            return Ok(());
        }
        if status == EventStatus::Cancelled {
            return Err(EventError::InvalidState);
        }
        let ghost a = *self;
        let p = self.events[i].payload.duplicate();
        let r = self.apply_payload(&p);
        proof {
            lemma_applied_same_payload(a, p, a.events@[i as int].payload, *self, r);
        }
        if r.is_ok() {
            self.set_event_status(i, EventStatus::Committed);
        }
        r
    }

    /// Cancels event `id` on behalf of `session`; cancelling a staged login
    /// also revokes its on-hold session.
    pub fn cancel_event(&mut self, session: u128, id: u64, now: u64) -> (r: Result<(), EventError>)
        requires
            old(self).wf(),
        ensures
            final(self).wf(),
            cancel_post(*old(self), session, id, now, *final(self), r),
    {
        let i = match self.find_event(id) {
            None => {
                return Err(EventError::NotFound);
            },
            Some(i) => i,
        };
        proof {
            let k = event_index(*self, id);
            assert(0 <= i < self.events@.len() && self.events@[i as int].id == id);
            assert(k == i);
        }
        let is_creator = match self.events[i].creator {
            Some(c) => c == session,
            None => false,
        };
        if !(is_creator || self.session_has_permission(session, "events:cancel", now)) {
            return Err(EventError::Unauthorized);
        }
        let status = self.events[i].status;
        if status == EventStatus::Cancelled {
            return Ok(());
        }
        if status == EventStatus::Committed {
            return Err(EventError::InvalidState);
        }
        let login_token = match &self.events[i].payload {
            EventPayload::UserLogin { session_token } => Some(*session_token),
            _ => None,
        };
        self.set_event_status(i, EventStatus::Cancelled);
        if let Some(t) = login_token {
            if self.find_session(t).is_some() {
                let _ = self.revoke_session(t);
            }
        }
        Ok(())
    }

    /// The index of the event with identifier `id`, if there is one.
    pub fn find_event(&self, id: u64) -> (r: Option<usize>)
        requires
            self.wf(),
        ensures
            r is None <==> !event_exists(*self, id),
            r matches Some(i) ==> i < self.events@.len() && self.events@[i as int].id == id
                && forall|k: int|
                0 <= k < self.events@.len() && #[trigger] self.events@[k].id == id ==> k == i,
    {
        let mut i: usize = 0;
        while i < self.events.len()
            invariant
                i <= self.events@.len(),
                self.wf(),
                forall|k: int| 0 <= k < i ==> self.events@[k].id != id,
            decreases self.events@.len() - i,
        {
            if self.events[i].id == id {
                return Some(i);
            }
            i = i + 1;
        }
        None
    }

    /// Appends a pending event under the next identifier.
    fn append_event(&mut self, payload: EventPayload, creator: Option<u128>, now: u64) -> (r:
        Result<u64, EventError>)
        requires
            old(self).wf(),
        ensures
            final(self).wf(),
            r is Err <==> old(self).next_event_id == u64::MAX,
            r is Err ==> (r matches Err(EventError::StorageError)) && *final(self) == *old(self),
            r matches Ok(id) ==> (event_created(
                *old(self),
                *final(self),
                id,
                kind_of(payload),
                creator,
                now,
            ) && final(self).events@.last().payload == payload),
    {
        if self.next_event_id == u64::MAX {
            return Err(EventError::StorageError);
        }
        let ghost a = *self;
        let id = self.next_event_id;
        self.events.push(Event { id, payload, status: EventStatus::Pending, created_at: now, creator });
        self.next_event_id = id + 1;
        proof {
            assert(self.events@.drop_last() =~= a.events@);
            assert forall|i: int, j: int| 0 <= i < j < self.events@.len() implies (
            #[trigger] self.events@[i]).id < (#[trigger] self.events@[j]).id by {
                assert(self.events@[i] == a.events@[i]);
                if j < a.events@.len() {
                    assert(self.events@[j] == a.events@[j]);
                }
            }
            assert forall|i: int| 0 <= i < self.events@.len() implies (
            #[trigger] self.events@[i]).id < self.next_event_id by {
                if i < a.events@.len() {
                    assert(self.events@[i] == a.events@[i]);
                }
            }
        }
        Ok(id)
    }

    /// Stages a mutation on behalf of session `session`, which must carry
    /// the permission that performing it directly requires.
    pub fn create_event(&mut self, session: u128, payload: EventPayload, now: u64) -> (r: Result<
        u64,
        EventError,
    >)
        requires
            old(self).wf(),
        ensures
            final(self).wf(),
            r matches Err(EventError::Unauthorized) <==> !creation_allowed(
                *old(self),
                session,
                payload,
                now,
            ),
            r matches Err(EventError::StorageError) <==> creation_allowed(
                *old(self),
                session,
                payload,
                now,
            ) && old(self).next_event_id == u64::MAX,
            r is Err ==> (r matches Err(EventError::Unauthorized)) || (r matches Err(
                EventError::StorageError,
            )),
            r is Err ==> *final(self) == *old(self),
            r matches Ok(id) ==> (event_created(
                *old(self),
                *final(self),
                id,
                kind_of(payload),
                Some(session),
                now,
            ) && final(self).events@.last().payload == payload),
    {
        match payload {
            EventPayload::UserRegister { .. } | EventPayload::UserLogin { .. } => {
                return Err(EventError::Unauthorized);
            },
            _ => {},
        }
        if !self.action_authorized(session, &payload, now) {
            return Err(EventError::Unauthorized);
        }
        self.append_event(payload, Some(session), now)
    }




    /// Whether session `session` carries the staged action's own permission.
    pub fn action_authorized(&self, session: u128, payload: &EventPayload, now: u64) -> (r: bool)
        requires
            self.wf(),
        ensures
            r == action_allowed(*self, session, *payload, now),
    {
        match payload {
            EventPayload::UserDelete { login } => {
                let required = "users:delete:".to_owned().concat(login.as_str());
                self.session_has_permission(session, required.as_str(), now)
            },
            EventPayload::UserRegister { .. } => self.session_has_permission(session, "users:post", now),
            EventPayload::UserLogin { .. } => true,
            EventPayload::GroupInsert { .. } => self.session_has_permission(session, "groups:post", now),
            EventPayload::GroupDelete { .. } => self.session_has_permission(
                session,
                "groups:delete",
                now,
            ),
            EventPayload::GroupGrantPermission { .. } | EventPayload::GroupRevokePermission {
                ..
            } => self.session_has_permission(session, "groups:update", now),
            EventPayload::UserGrantGroup { .. } | EventPayload::UserRevokeGroup { .. } =>
                self.session_has_permission(session, "users:update", now),
            EventPayload::PermissionInsert { .. } => self.session_has_permission(
                session,
                "permissions:post",
                now,
            ),
            EventPayload::PermissionDelete { .. } => self.session_has_permission(
                session,
                "permissions:delete",
                now,
            ),
        }
    }
}

/// The entry points that stage user events.
pub struct UserEvent;

impl User {
    /// The entry points that stage user events.
    pub fn event() -> (r: UserEvent) {
        UserEvent
    }
}

impl UserEvent {
    /// Stages a registration; the password is hashed now so that the
    /// pending row never holds it.
    pub fn register(
        &self,
        db: &mut Database,
        login: &String,
        password: &String,
        details: &String,
        now: u64,
    ) -> (r: Result<u64, EventError>)
        requires
            old(db).wf(),
        ensures
            final(db).wf(),
            old(db).next_event_id == u64::MAX ==> r matches Err(EventError::StorageError),
            r is Err ==> *final(db) == *old(db),
            r is Err ==> (r matches Err(EventError::StorageError)) || (r matches Err(
                EventError::HashError(_),
            )),
            (r matches Err(EventError::HashError(_))) ==> password@.len() > MAX_PASSWORD_LEN,
            old(db).next_event_id < u64::MAX && password@.len() <= MAX_PASSWORD_LEN ==> r is Ok,
            r matches Ok(id) ==> (event_created(
                *old(db),
                *final(db),
                id,
                EventType::UserRegister,
                None,
                now,
            )) && (final(db).events@.last().payload matches EventPayload::UserRegister {
                login: l,
                password_hash: h,
                details: d,
            } && l@ == login@ && d@ == details@ && argon2_accepts(password@, h@)
                && is_argon2id_phc(h@) && (!is_argon2id_phc(password@) ==> h@ != password@)),
    {
        if db.next_event_id == u64::MAX {
            return Err(EventError::StorageError);
        }
        match hash_password(password.as_str()) {
            Err(e) => Err(EventError::HashError(e.message())),
            Ok(h) => db.append_event(
                EventPayload::UserRegister {
                    login: login.clone(),
                    password_hash: h,
                    details: details.clone(),
                },
                None,
                now,
            ),
        }
    }

    /// Stages a login under the given token: the credentials are checked
    /// now and an on-hold session is opened, which the commit activates.
    /// A wrong login and a wrong password give the same error.
    pub fn login_with_token(
        &self,
        db: &mut Database,
        login: &String,
        password: &String,
        token: u128,
        ttl: u64,
        now: u64,
    ) -> (r: Result<(u64, u128), EventError>)
        requires
            old(db).wf(),
        ensures
            final(db).wf(),
            r matches Err(EventError::StorageError) <==> old(db).next_event_id == u64::MAX || (
            credentials_valid(*old(db), login@, password@) && old(db).session_exists(token)),
            r matches Err(EventError::InvalidCredentials) <==> old(db).next_event_id != u64::MAX
                && !credentials_valid(*old(db), login@, password@),
            r is Err ==> *final(db) == *old(db),
            r matches Ok((id, t)) ==> (t == token && exists|m: Database|
                #[trigger] create_session_post(
                    *old(db),
                    token,
                    login@,
                    LoginSessionStatus::OnHold,
                    expiry(now, ttl),
                    m,
                    Ok(()),
                ) && event_created(m, *final(db), id, EventType::UserLogin, Some(token), now)
                    && final(db).events@.last().payload == (EventPayload::UserLogin {
                    session_token: token,
                })),
    {
        if db.next_event_id == u64::MAX {
            return Err(EventError::StorageError);
        }
        match User::login_with_token(db, login, password, LoginSessionStatus::OnHold, token, ttl, now) {
            Err(UserLoginError::SessionUnavailable) => Err(EventError::StorageError),
            Err(_) => Err(EventError::InvalidCredentials),
            Ok(t) => {
                let ghost m = *db;
                match db.append_event(EventPayload::UserLogin { session_token: t }, Some(t), now) {
                    Ok(id) => {
                        assert(create_session_post(
                            *old(db),
                            token,
                            login@,
                            LoginSessionStatus::OnHold,
                            expiry(now, ttl),
                            m,
                            Ok(()),
                        ));
                        assert(event_created(m, *db, id, EventType::UserLogin, Some(token), now));
                        Ok((id, t))
                    },
                    Err(e) => Err(e),
                }
            },
        }
    }

    /// Stages a login under a fresh random token.
    pub fn login(&self, db: &mut Database, login: &String, password: &String, ttl: u64, now: u64) -> (r:
        Result<(u64, u128), EventError>)
        requires
            old(db).wf(),
        ensures
            final(db).wf(),
            r matches Err(EventError::InvalidCredentials) <==> old(db).next_event_id != u64::MAX
                && !credentials_valid(*old(db), login@, password@),
            old(db).next_event_id == u64::MAX ==> r matches Err(EventError::StorageError),
            r is Err ==> *final(db) == *old(db),
            r matches Ok((id, t)) ==> exists|m: Database|
                #[trigger] create_session_post(
                    *old(db),
                    t,
                    login@,
                    LoginSessionStatus::OnHold,
                    expiry(now, ttl),
                    m,
                    Ok(()),
                ) && event_created(m, *final(db), id, EventType::UserLogin, Some(t), now)
                    && final(db).events@.last().payload == (EventPayload::UserLogin {
                    session_token: t,
                }),
    {
        let token = random_token();
        self.login_with_token(db, login, password, token, ttl, now)
    }

    /// Stages the deletion of user `login` on behalf of `session`, which
    /// must carry `users:delete:{login}`.
    pub fn delete(&self, db: &mut Database, login: &String, session: u128, now: u64) -> (r: Result<
        u64,
        EventError,
    >)
        requires
            old(db).wf(),
        ensures
            final(db).wf(),
            (r matches Err(EventError::Unauthorized)) <==> !session_may(
                *old(db),
                session,
                "users:delete:"@ + login@,
                now,
            ),
            (r matches Err(EventError::StorageError)) <==> session_may(
                *old(db),
                session,
                "users:delete:"@ + login@,
                now,
            ) && old(db).next_event_id == u64::MAX,
            r is Err ==> (r matches Err(EventError::Unauthorized)) || (r matches Err(
                EventError::StorageError,
            )),
            r is Err ==> *final(db) == *old(db),
            r matches Ok(id) ==> (event_created(
                *old(db),
                *final(db),
                id,
                EventType::UserDelete,
                Some(session),
                now,
            ) && final(db).events@.last().payload == (EventPayload::UserDelete { login: *login })),
    {
        db.create_event(session, EventPayload::UserDelete { login: login.clone() }, now)
    }
}

} // verus!
