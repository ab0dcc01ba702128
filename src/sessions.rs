use crate::password::random_token;
use crate::permissions::unchanged_except;
use crate::seqs::{lemma_push_keys, unique_by};
use crate::store::{session_key, user_key, Database, LoginSession, LoginSessionStatus, User};
use crate::users::{credentials_valid, user_may, UserLoginError};
use vstd::prelude::*;

verus! {

#[derive(Debug, PartialEq, Eq, Structural)]
pub enum SessionCreateError {
    /// The session's user does not exist.
    UserNotFound,
    /// A session with this token already exists.
    TokenTaken,
}

#[derive(Debug, PartialEq, Eq, Structural)]
pub enum SessionError {
    /// No session that can take this transition has the token.
    NotFound,
}

/// Session `token` is active, unexpired at `now`, and its user may `required`.
pub open spec fn session_may(d: Database, token: u128, required: Seq<char>, now: u64) -> bool {
    exists|i: int|
        0 <= i < d.login_sessions@.len() && (#[trigger] d.login_sessions@[i]).token == token
            && d.login_sessions@[i].status == LoginSessionStatus::Active && now
            < d.login_sessions@[i].expires_at && user_may(
            d,
            d.login_sessions@[i].user_login@,
            required,
        )
}

/// Session `token` exists with the given status.
pub open spec fn session_in(d: Database, token: u128, status: LoginSessionStatus) -> bool {
    exists|i: int|
        0 <= i < d.login_sessions@.len() && (#[trigger] d.login_sessions@[i]).token == token
            && d.login_sessions@[i].status == status
}

/// `b` is `a` with the status of session `i` set to `status`.
pub open spec fn session_status_set(a: Database, i: int, status: LoginSessionStatus, b: Database) -> bool {
    &&& unchanged_except(a, b, false, false, false, false, false, true)
    &&& 0 <= i < a.login_sessions@.len()
    &&& b.login_sessions@ == a.login_sessions@.update(
        i,
        LoginSession { status, ..a.login_sessions@[i] },
    )
}

/// What opening a session does.
pub open spec fn create_session_post(
    a: Database,
    token: u128,
    login: Seq<char>,
    status: LoginSessionStatus,
    expires_at: u64,
    b: Database,
    r: Result<(), SessionCreateError>,
) -> bool {
    &&& r == Err::<(), _>(SessionCreateError::UserNotFound) <==> !a.user_exists(login)
    &&& r == Err::<(), _>(SessionCreateError::TokenTaken) <==> a.user_exists(login)
        && a.session_exists(token)
    &&& r is Err ==> b == a
    &&& r is Ok ==> {
        &&& unchanged_except(a, b, false, false, false, false, false, true)
        &&& b.login_sessions@.len() == a.login_sessions@.len() + 1
        &&& b.login_sessions@.drop_last() == a.login_sessions@
        &&& b.login_sessions@.last().token == token
        &&& b.login_sessions@.last().user_login@ == login
        &&& b.login_sessions@.last().status == status
        &&& b.login_sessions@.last().expires_at == expires_at
    }
}

/// What activating a session does: an on-hold session becomes active, an
/// active one stays; anything else is not found.
pub open spec fn activate_session_post(
    a: Database,
    token: u128,
    b: Database,
    r: Result<(), SessionError>,
) -> bool {
    &&& r is Ok <==> (session_in(a, token, LoginSessionStatus::OnHold) || session_in(
        a,
        token,
        LoginSessionStatus::Active,
    ))
    &&& session_in(a, token, LoginSessionStatus::OnHold) ==> exists|i: int|
        a.login_sessions@[i].token == token && session_status_set(
            a,
            i,
            LoginSessionStatus::Active,
            b,
        )
    &&& !session_in(a, token, LoginSessionStatus::OnHold) ==> b == a
}

/// What revoking a session does.
pub open spec fn revoke_session_post(
    a: Database,
    token: u128,
    b: Database,
    r: Result<(), SessionError>,
) -> bool {
    &&& r is Ok <==> a.session_exists(token)
    &&& r is Err ==> b == a
    &&& r is Ok ==> exists|i: int|
        a.login_sessions@[i].token == token && session_status_set(
            a,
            i,
            LoginSessionStatus::Revoked,
            b,
        )
}

/// The instant `ttl` after `now`, or the last representable one.
pub open spec fn expiry(now: u64, ttl: u64) -> u64 {
    if now + ttl > u64::MAX {
        u64::MAX
    } else {
        (now + ttl) as u64
    }
}

impl Database {
    /// The index of the session with token `token`, if there is one.
    pub fn find_session(&self, token: u128) -> (r: Option<usize>)
        requires
            self.wf(),
        ensures
            r is None <==> !self.session_exists(token),
            r matches Some(i) ==> i < self.login_sessions@.len()
                && self.login_sessions@[i as int].token == token && forall|k: int|
                0 <= k < self.login_sessions@.len() && #[trigger] self.login_sessions@[k].token
                    == token ==> k == i,
    {
        let mut i: usize = 0;
        while i < self.login_sessions.len()
            invariant
                i <= self.login_sessions@.len(),
                self.wf(),
                forall|k: int| 0 <= k < i ==> self.login_sessions@[k].token != token,
            decreases self.login_sessions@.len() - i,
        {
            if self.login_sessions[i].token == token {
                proof {
                    assert forall|k: int|
                        0 <= k < self.login_sessions@.len() && #[trigger] self.login_sessions@[k].token
                            == token implies k == i by {
                        if k > i {
                            assert(session_key(self.login_sessions@[i as int]) != session_key(
                                self.login_sessions@[k],
                            ));
                        }
                    }
                }
                return Some(i);
            }
            i = i + 1;
        }
        None
    }

    /// Sets the status of session `i`.
    fn set_session_status(&mut self, i: usize, status: LoginSessionStatus)
        requires
            old(self).wf(),
            i < old(self).login_sessions@.len(),
        ensures
            final(self).wf(),
            session_status_set(*old(self), i as int, status, *final(self)),
    {
        let ghost a = *self;
        let mut s = self.login_sessions.remove(i);
        s.status = status;
        self.login_sessions.insert(i, s);
        proof {
            assert(self.login_sessions@ =~= a.login_sessions@.update(
                i as int,
                LoginSession { status, ..a.login_sessions@[i as int] },
            ));
            assert(unique_by(self.login_sessions@, |s: LoginSession| session_key(s))) by {
                assert forall|x: int, y: int| 0 <= x < y < self.login_sessions@.len() implies session_key(
                    #[trigger] self.login_sessions@[x],
                ) != session_key(#[trigger] self.login_sessions@[y]) by {
                    assert(session_key(a.login_sessions@[x]) != session_key(a.login_sessions@[y]));
                }
            }
            assert forall|k: int| 0 <= k < self.login_sessions@.len() implies self.user_exists(
                (#[trigger] self.login_sessions@[k]).user_login@,
            ) by {
                assert(a.user_exists(a.login_sessions@[k].user_login@));
            }
        }
    }

    /// Opens a session for an existing user under a token that is not in use.
    pub fn create_session(
        &mut self,
        token: u128,
        login: &String,
        status: LoginSessionStatus,
        expires_at: u64,
    ) -> (r: Result<(), SessionCreateError>)
        requires
            old(self).wf(),
        ensures
            final(self).wf(),
            create_session_post(*old(self), token, login@, status, expires_at, *final(self), r),
    {
        if self.find_user(login).is_none() {
            return Err(SessionCreateError::UserNotFound);
        }
        if self.find_session(token).is_some() {
            return Err(SessionCreateError::TokenTaken);
        }
        let ghost a = *self;
        let row = LoginSession { token, user_login: login.clone(), status, expires_at };
        self.login_sessions.push(row);
        proof {
            lemma_push_keys(a.login_sessions@, row, |s: LoginSession| session_key(s));
            assert(self.login_sessions@.drop_last() =~= a.login_sessions@);
            assert forall|k: int| 0 <= k < self.login_sessions@.len() implies self.user_exists(
                (#[trigger] self.login_sessions@[k]).user_login@,
            ) by {
                if k < a.login_sessions@.len() {
                    assert(self.login_sessions@[k] == a.login_sessions@[k]);
                }
            }
        }
        Ok(())
    }

    /// Turns an on-hold session active; an active one is left as it is.
    pub fn activate_session(&mut self, token: u128) -> (r: Result<(), SessionError>)
        requires
            old(self).wf(),
        ensures
            final(self).wf(),
            activate_session_post(*old(self), token, *final(self), r),
    {
        match self.find_session(token) {
            None => Err(SessionError::NotFound),
            Some(i) => {
                let status = self.login_sessions[i].status;
                if status == LoginSessionStatus::OnHold {
                    self.set_session_status(i, LoginSessionStatus::Active);
                    Ok(())
                } else if status == LoginSessionStatus::Active {
                    Ok(())
                } else {
                    Err(SessionError::NotFound)
                }
            },
        }
    }

    /// Marks a session revoked.
    pub fn revoke_session(&mut self, token: u128) -> (r: Result<(), SessionError>)
        requires
            old(self).wf(),
        ensures
            final(self).wf(),
            revoke_session_post(*old(self), token, *final(self), r),
    {
        match self.find_session(token) {
            None => Err(SessionError::NotFound),
            Some(i) => {
                self.set_session_status(i, LoginSessionStatus::Revoked);
                Ok(())
            },
        }
    }

    /// Whether session `token` authorizes `required` at instant `now`: it
    /// must exist, be active and unexpired, and its user must hold a
    /// matching permission.
    pub fn session_has_permission(&self, token: u128, required: &str, now: u64) -> (r: bool)
        requires
            self.wf(),
        ensures
            r == session_may(*self, token, required@, now),
    {
        match self.find_session(token) {
            None => false,
            Some(i) => {
                let s = &self.login_sessions[i];
                if s.status == LoginSessionStatus::Active && now < s.expires_at {
                    self.user_has_permission(&s.user_login, required)
                } else {
                    false
                }
            },
        }
    }


}

/// An on-hold session authorizes nothing.
pub proof fn lemma_on_hold_conveys_nothing(d: Database, token: u128, required: Seq<char>, now: u64)
    requires
        d.wf(),
        session_in(d, token, LoginSessionStatus::OnHold),
    ensures
        !session_may(d, token, required, now),
{
    let i = choose|i: int|
        0 <= i < d.login_sessions@.len() && (#[trigger] d.login_sessions@[i]).token == token
            && d.login_sessions@[i].status == LoginSessionStatus::OnHold;
    if session_may(d, token, required, now) {
        let k = choose|k: int|
            0 <= k < d.login_sessions@.len() && (#[trigger] d.login_sessions@[k]).token == token
                && d.login_sessions@[k].status == LoginSessionStatus::Active && now
                < d.login_sessions@[k].expires_at && user_may(
                d,
                d.login_sessions@[k].user_login@,
                required,
            );
        if i < k {
            assert(session_key(d.login_sessions@[i]) != session_key(d.login_sessions@[k]));
        } else if k < i {
            assert(session_key(d.login_sessions@[k]) != session_key(d.login_sessions@[i]));
        }
    }
}

impl User {
    /// Checks the credentials and opens a session with the given token,
    /// status and lifetime.
    pub fn login_with_token(
        db: &mut Database,
        login: &String,
        password: &String,
        status: LoginSessionStatus,
        token: u128,
        ttl: u64,
        now: u64,
    ) -> (r: Result<u128, UserLoginError>)
        requires
            old(db).wf(),
        ensures
            final(db).wf(),
            r == Err::<u128, _>(UserLoginError::NotFound) <==> !old(db).user_exists(login@),
            r == Err::<u128, _>(UserLoginError::InvalidCredentials) <==> old(db).user_exists(
                login@,
            ) && !credentials_valid(*old(db), login@, password@),
            r == Err::<u128, _>(UserLoginError::SessionUnavailable) <==> credentials_valid(
                *old(db),
                login@,
                password@,
            ) && old(db).session_exists(token),
            r is Err ==> *final(db) == *old(db),
            r is Ok ==> r == Ok::<u128, UserLoginError>(token) && create_session_post(
                *old(db),
                token,
                login@,
                status,
                expiry(now, ttl),
                *final(db),
                Ok(()),
            ),
    {
        match db.authenticate(login, password) {
            Err(e) => {
                assert(e != UserLoginError::SessionUnavailable);
                Err(e)
            },
            Ok(i) => {
                proof {
                    assert(user_key(db.users@[i as int]) == login@);
                    assert(db.user_exists(login@));
                }
                let expires_at = if now > u64::MAX - ttl {
                    u64::MAX
                } else {
                    now + ttl
                };
                match db.create_session(token, login, status, expires_at) {
                    Ok(()) => Ok(token),
                    Err(e) => {
                        assert(e == SessionCreateError::TokenTaken);
                        Err(UserLoginError::SessionUnavailable)
                    },
                }
            },
        }
    }

    /// Checks the credentials and opens a session under a fresh random token.
    pub fn login(
        db: &mut Database,
        login: &String,
        password: &String,
        status: LoginSessionStatus,
        ttl: u64,
        now: u64,
    ) -> (r: Result<u128, UserLoginError>)
        requires
            old(db).wf(),
        ensures
            final(db).wf(),
            r == Err::<u128, _>(UserLoginError::NotFound) <==> !old(db).user_exists(login@),
            r == Err::<u128, _>(UserLoginError::InvalidCredentials) <==> old(db).user_exists(
                login@,
            ) && !credentials_valid(*old(db), login@, password@),
            r is Err ==> *final(db) == *old(db),
            r matches Ok(t) ==> create_session_post(
                *old(db),
                t,
                login@,
                status,
                expiry(now, ttl),
                *final(db),
                Ok(()),
            ),
    {
        let token = random_token();
        User::login_with_token(db, login, password, status, token, ttl, now)
    }
}

} // verus!
