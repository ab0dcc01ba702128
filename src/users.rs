use crate::matcher::{grants, permission_matches};
use crate::password::{
    argon2_accepts, hash_password, is_argon2id_phc, verify_password, MAX_PASSWORD_LEN,
};
use crate::permissions::unchanged_except;
use crate::seqs::{
    lemma_filter_keeps_key, lemma_filter_members, lemma_filter_unique, lemma_push_keys,
};
use crate::store::{user_key, Database, User, UserGroup, MAX_NAME_LEN};
use crate::tables::{
    keeps_membership_other_than, keeps_membership_without_user, keeps_session_without_user,
    keeps_user_other_than, retain_membership_other_than, retain_membership_without_user,
    retain_session_without_user, retain_user_other_than,
};
use crate::listing::{listed, page_of, page_parameters, sort_indices, sorts, Order};
use vstd::prelude::*;

verus! {

/// A login and a plaintext password, as submitted by a client.
pub struct UserCredentials {
    pub login: String,
    pub password: String,
}

/// Listing users cannot fail: the listing function always returns `Ok`.
#[derive(Debug)]
pub struct UserListError;

#[derive(Debug, PartialEq, Eq, Structural)]
pub enum UserRetrieveError {
    /// No user has the requested login.
    NotFound,
}

#[derive(Debug, PartialEq, Eq)]
pub enum UserInsertError {
    /// The login is too long or already taken.
    NameError,
    /// The password could not be hashed; the message says why.
    CannotHash(String),
}

#[derive(Debug, PartialEq, Eq, Structural)]
pub enum UserHasPermissionError {
    /// The user does not hold the queried permission.
    Unauthorized,
}

#[derive(Debug, PartialEq, Eq, Structural)]
pub enum UserLoginError {
    /// No user has the given login.
    NotFound,
    /// The password does not verify.
    InvalidCredentials,
    /// No session could be opened under the drawn token.
    SessionUnavailable,
}

#[derive(Debug, PartialEq, Eq, Structural)]
pub enum UserGrantError {
    /// The user or the group does not exist, or the membership already does.
    NameError,
}

#[derive(Debug, PartialEq, Eq, Structural)]
pub enum UserRevokeError {
    /// The user is not a member of the group.
    NameError,
}

/// Some group of user `login` holds a permission that authorizes `required`.
pub open spec fn user_may(d: Database, login: Seq<char>, required: Seq<char>) -> bool {
    exists|i: int, j: int|
        0 <= i < d.users_groups@.len() && 0 <= j < d.groups_permissions@.len() && (
        #[trigger] d.users_groups@[i]).user_login@ == login && (
        #[trigger] d.groups_permissions@[j]).group_name@ == d.users_groups@[i].group_name@ && grants(
            d.groups_permissions@[j].permission_name@,
            required,
        )
}

/// A user with this login exists and its stored hash accepts `password`.
pub open spec fn credentials_valid(d: Database, login: Seq<char>, password: Seq<char>) -> bool {
    exists|i: int|
        0 <= i < d.users@.len() && (#[trigger] d.users@[i]).login@ == login && argon2_accepts(
            password,
            d.users@[i].password_hash@,
        )
}

/// What inserting a user row with an already computed hash does.
pub open spec fn insert_user_post(
    a: Database,
    login: Seq<char>,
    password_hash: Seq<char>,
    details: Seq<char>,
    b: Database,
    r: Result<(), UserInsertError>,
) -> bool {
    &&& r is Err <==> (login.len() > MAX_NAME_LEN || a.user_exists(login))
    &&& r is Err ==> b == a
    &&& r is Ok ==> {
        &&& unchanged_except(a, b, false, false, false, true, false, false)
        &&& b.users@.len() == a.users@.len() + 1
        &&& b.users@.drop_last() == a.users@
        &&& b.users@.last().login@ == login
        &&& b.users@.last().password_hash@ == password_hash
        &&& b.users@.last().details@ == details
    }
}

/// What deleting a user does: the row, its memberships and its sessions go.
pub open spec fn delete_user_post(a: Database, login: Seq<char>, b: Database) -> bool {
    &&& unchanged_except(a, b, false, false, false, true, true, true)
    &&& b.users@ == a.users@.filter(keeps_user_other_than(login))
    &&& b.users_groups@ == a.users_groups@.filter(keeps_membership_without_user(login))
    &&& b.login_sessions@ == a.login_sessions@.filter(keeps_session_without_user(login))
}

/// What adding a user to a group does.
pub open spec fn grant_group_post(
    a: Database,
    login: Seq<char>,
    group: Seq<char>,
    b: Database,
    r: Result<(), UserGrantError>,
) -> bool {
    &&& r is Err <==> (!a.user_exists(login) || !a.group_exists(group) || a.user_in_group(
        login,
        group,
    ))
    &&& r is Err ==> b == a
    &&& r is Ok ==> {
        &&& unchanged_except(a, b, false, false, false, false, true, false)
        &&& b.users_groups@.len() == a.users_groups@.len() + 1
        &&& b.users_groups@.drop_last() == a.users_groups@
        &&& b.users_groups@.last().user_login@ == login
        &&& b.users_groups@.last().group_name@ == group
    }
}

/// What removing a user from a group does.
pub open spec fn revoke_group_post(
    a: Database,
    login: Seq<char>,
    group: Seq<char>,
    b: Database,
    r: Result<(), UserRevokeError>,
) -> bool {
    &&& r is Err <==> !a.user_in_group(login, group)
    &&& r is Err ==> b == a
    &&& r is Ok ==> {
        &&& unchanged_except(a, b, false, false, false, false, true, false)
        &&& b.users_groups@ == a.users_groups@.filter(keeps_membership_other_than(login, group))
    }
}

impl Database {
    /// The index of the user with login `login`, if there is one.
    pub fn find_user(&self, login: &String) -> (r: Option<usize>)
        ensures
            r is None <==> !self.user_exists(login@),
            r matches Some(i) ==> i < self.users@.len() && self.users@[i as int].login@ == login@,
    {
        let mut i: usize = 0;
        while i < self.users.len()
            invariant
                i <= self.users@.len(),
                forall|k: int| 0 <= k < i ==> self.users@[k].login@ != login@,
            decreases self.users@.len() - i,
        {
            if self.users[i].login == *login {
                return Some(i);
            }
            i = i + 1;
        }
        None
    }

    /// Whether user `login` is a member of group `group`.
    pub fn find_membership(&self, login: &String, group: &String) -> (r: bool)
        ensures
            r == self.user_in_group(login@, group@),
    {
        let mut i: usize = 0;
        while i < self.users_groups.len()
            invariant
                i <= self.users_groups@.len(),
                forall|k: int|
                    0 <= k < i ==> !(self.users_groups@[k].user_login@ == login@
                        && self.users_groups@[k].group_name@ == group@),
            decreases self.users_groups@.len() - i,
        {
            if self.users_groups[i].user_login == *login && self.users_groups[i].group_name
                == *group {
                return true;
            }
            i = i + 1;
        }
        false
    }







    /// Whether some group of user `login` holds a permission that
    /// authorizes `required`.
    pub fn user_has_permission(&self, login: &String, required: &str) -> (r: bool)
        ensures
            r == user_may(*self, login@, required@),
    {
        let mut i: usize = 0;
        while i < self.users_groups.len()
            invariant
                i <= self.users_groups@.len(),
                forall|a: int, b: int|
                    0 <= a < i && 0 <= b < self.groups_permissions@.len() ==> !((
                    #[trigger] self.users_groups@[a]).user_login@ == login@ && (
                    #[trigger] self.groups_permissions@[b]).group_name@
                        == self.users_groups@[a].group_name@ && grants(
                        self.groups_permissions@[b].permission_name@,
                        required@,
                    )),
            decreases self.users_groups@.len() - i,
        {
            if self.users_groups[i].user_login == *login {
                let mut j: usize = 0;
                while j < self.groups_permissions.len()
                    invariant
                        i < self.users_groups@.len(),
                        j <= self.groups_permissions@.len(),
                        self.users_groups@[i as int].user_login@ == login@,
                        forall|b: int|
                            0 <= b < j ==> !((#[trigger] self.groups_permissions@[b]).group_name@
                                == self.users_groups@[i as int].group_name@ && grants(
                                self.groups_permissions@[b].permission_name@,
                                required@,
                            )),
                    decreases self.groups_permissions@.len() - j,
                {
                    if self.groups_permissions[j].group_name == self.users_groups[i].group_name
                        && permission_matches(
                        self.groups_permissions[j].permission_name.as_str(),
                        required,
                    ) {
                        assert(user_may(*self, login@, required@)) by {
                            assert(self.users_groups@[i as int].user_login@ == login@);
                            assert(self.groups_permissions@[j as int].group_name@
                                == self.users_groups@[i as int].group_name@);
                        }
                        return true;
                    }
                    j = j + 1;
                }
            }
            i = i + 1;
        }
        false
    }

    /// Checks a login and password against the stored hash; both failure
    /// kinds must be reported to clients alike.
    pub fn authenticate(&self, login: &String, password: &String) -> (r: Result<
        usize,
        UserLoginError,
    >)
        requires
            self.wf(),
        ensures
            r is Err ==> r == Err::<usize, _>(UserLoginError::NotFound) || r == Err::<usize, _>(
                UserLoginError::InvalidCredentials,
            ),
            r == Err::<usize, _>(UserLoginError::NotFound) <==> !self.user_exists(login@),
            r is Ok <==> credentials_valid(*self, login@, password@),
            r matches Ok(i) ==> i < self.users@.len() && self.users@[i as int].login@ == login@,
    {
        match self.find_user(login) {
            None => Err(UserLoginError::NotFound),
            Some(i) => {
                proof {
                    assert forall|k: int|
                        0 <= k < self.users@.len() && (#[trigger] self.users@[k]).login@
                            == login@ implies k == i by {
                        if k < i {
                            assert(user_key(self.users@[k]) != user_key(self.users@[i as int]));
                        }
                        if k > i {
                            assert(user_key(self.users@[i as int]) != user_key(self.users@[k]));
                        }
                    }
                }
                if verify_password(password.as_str(), self.users[i].password_hash.as_str()) {
                    Ok(i)
                } else {
                    Err(UserLoginError::InvalidCredentials)
                }
            },
        }
    }

}

impl User {
    /// Whether some group of this user holds a permission that authorizes
    /// `permission_name`.
    pub fn has_permissions(&self, db: &Database, permission_name: &str) -> (r: bool)
        ensures
            r == user_may(*db, self.login@, permission_name@),
    {
        db.user_has_permission(&self.login, permission_name)
    }

    /// Retrieves the user with login `login`.
    pub fn retrieve(db: &Database, login: &String) -> (r: Result<User, UserRetrieveError>)
        ensures
            r is Err <==> !db.user_exists(login@),
            r matches Ok(u) ==> u.login@ == login@ && db.users@.contains(u),
    {
        match db.find_user(login) {
            Some(i) => Ok(db.users[i].duplicate()),
            None => Err(UserRetrieveError::NotFound),
        }
    }

    /// Stores a user row whose password was hashed beforehand.
    pub fn insert_hashed(
        db: &mut Database,
        login: &String,
        password_hash: &String,
        details: &String,
    ) -> (r: Result<(), UserInsertError>)
        requires
            old(db).wf(),
        ensures
            final(db).wf(),
            insert_user_post(*old(db), login@, password_hash@, details@, *final(db), r),
    {
        if login.as_str().unicode_len() > MAX_NAME_LEN || db.find_user(login).is_some() {
            return Err(UserInsertError::NameError);
        }
        let ghost a = *db;
        let row = User {
            login: login.clone(),
            password_hash: password_hash.clone(),
            details: details.clone(),
        };
        db.users.push(row);
        proof {
            lemma_push_keys(a.users@, row, |u: User| user_key(u));
            assert(db.users@.drop_last() =~= a.users@);
            assert forall|i: int| 0 <= i < db.users_groups@.len() implies db.user_exists(
                (#[trigger] db.users_groups@[i]).user_login@,
            ) by {
                assert(a.user_exists(a.users_groups@[i].user_login@));
            }
            assert forall|i: int| 0 <= i < db.login_sessions@.len() implies db.user_exists(
                (#[trigger] db.login_sessions@[i]).user_login@,
            ) by {
                assert(a.user_exists(a.login_sessions@[i].user_login@));
            }
        }
        Ok(())
    }

    /// Hashes the password and stores the user; the stored value is an
    /// Argon2id PHC string that verifies against the given password, never
    /// the password itself. Hashing fails only for a password over
    /// `MAX_PASSWORD_LEN` characters.
    pub fn insert(db: &mut Database, login: &String, password: &String, details: &String) -> (r:
        Result<(), UserInsertError>)
        requires
            old(db).wf(),
        ensures
            final(db).wf(),
            (r matches Err(UserInsertError::NameError)) <==> (login@.len() > MAX_NAME_LEN
                || old(db).user_exists(login@)),
            (r matches Err(UserInsertError::CannotHash(_))) ==> login@.len() <= MAX_NAME_LEN
                && !old(db).user_exists(login@) && password@.len() > MAX_PASSWORD_LEN,
            login@.len() <= MAX_NAME_LEN && !old(db).user_exists(login@) && password@.len()
                <= MAX_PASSWORD_LEN ==> r is Ok,
            r is Err ==> *final(db) == *old(db),
            r is Ok ==> exists|h: Seq<char>|
                #[trigger] insert_user_post(*old(db), login@, h, details@, *final(db), r)
                    && argon2_accepts(password@, h) && is_argon2id_phc(h) && (!is_argon2id_phc(
                    password@,
                ) ==> h != password@),
    {
        if login.as_str().unicode_len() > MAX_NAME_LEN || db.find_user(login).is_some() {
            return Err(UserInsertError::NameError);
        }
        match hash_password(password.as_str()) {
            Ok(h) => {
                let r = User::insert_hashed(db, login, &h, details);
                assert(insert_user_post(*old(db), login@, h@, details@, *db, r));
                r
            },
            Err(e) => Err(UserInsertError::CannotHash(e.message())),
        }
    }

    /// Deletes a user with its memberships and sessions.
    pub fn delete(db: &mut Database, login: &String)
        requires
            old(db).wf(),
        ensures
            final(db).wf(),
            delete_user_post(*old(db), login@, *final(db)),
    {
        let ghost a = *db;
        let ghost keep_u = keeps_user_other_than(login@);
        let ghost keep_ug = keeps_membership_without_user(login@);
        let ghost keep_s = keeps_session_without_user(login@);
        let users = retain_user_other_than(&db.users, login);
        let members = retain_membership_without_user(&db.users_groups, login);
        let sessions = retain_session_without_user(&db.login_sessions, login);
        db.users = users;
        db.users_groups = members;
        db.login_sessions = sessions;
        proof {
            let key = |u: User| user_key(u);
            lemma_filter_unique(a.users@, keep_u, key);
            lemma_filter_unique(
                a.login_sessions@,
                keep_s,
                |s: crate::store::LoginSession| crate::store::session_key(s),
            );
            lemma_filter_members(a.users_groups@, keep_ug);
            lemma_filter_members(a.login_sessions@, keep_s);
            assert forall|i: int| 0 <= i < db.users_groups@.len() implies db.user_exists(
                (#[trigger] db.users_groups@[i]).user_login@,
            ) && db.group_exists(db.users_groups@[i].group_name@) by {
                let row = db.users_groups@[i];
                assert(a.users_groups@.contains(row));
                assert(keep_ug(row));
                lemma_filter_keeps_key(a.users@, keep_u, key, row.user_login@);
            }
            assert forall|i: int| 0 <= i < db.login_sessions@.len() implies db.user_exists(
                (#[trigger] db.login_sessions@[i]).user_login@,
            ) by {
                let row = db.login_sessions@[i];
                assert(a.login_sessions@.contains(row));
                assert(keep_s(row));
                lemma_filter_keeps_key(a.users@, keep_u, key, row.user_login@);
            }
        }
    }

    /// Makes an existing user a member of an existing group.
    pub fn grant_group(db: &mut Database, login: &String, group: &String) -> (r: Result<(), UserGrantError>)
        requires
            old(db).wf(),
        ensures
            final(db).wf(),
            grant_group_post(*old(db), login@, group@, *final(db), r),
    {
        if db.find_user(login).is_none() || db.find_group(group).is_none()
            || db.find_membership(login, group) {
            return Err(UserGrantError::NameError);
        }
        let ghost a = *db;
        db.users_groups.push(UserGroup { user_login: login.clone(), group_name: group.clone() });
        proof {
            assert(db.users_groups@.drop_last() =~= a.users_groups@);
            assert forall|i: int| 0 <= i < db.users_groups@.len() implies db.user_exists(
                (#[trigger] db.users_groups@[i]).user_login@,
            ) && db.group_exists(db.users_groups@[i].group_name@) by {
                if i < a.users_groups@.len() {
                    assert(db.users_groups@[i] == a.users_groups@[i]);
                }
            }
        }
        Ok(())
    }

    /// Removes a user from a group it is a member of.
    pub fn revoke_group(db: &mut Database, login: &String, group: &String) -> (r: Result<(), UserRevokeError>)
        requires
            old(db).wf(),
        ensures
            final(db).wf(),
            revoke_group_post(*old(db), login@, group@, *final(db), r),
    {
        if !db.find_membership(login, group) {
            return Err(UserRevokeError::NameError);
        }
        let ghost a = *db;
        let ghost keep = keeps_membership_other_than(login@, group@);
        let members = retain_membership_other_than(&db.users_groups, login, group);
        db.users_groups = members;
        proof {
            lemma_filter_members(a.users_groups@, keep);
            assert forall|i: int| 0 <= i < db.users_groups@.len() implies db.user_exists(
                (#[trigger] db.users_groups@[i]).user_login@,
            ) && db.group_exists(db.users_groups@[i].group_name@) by {
                assert(a.users_groups@.contains(db.users_groups@[i]));
            }
        }
        Ok(())
    }

    /// Lists a page of users sorted by login.
    pub fn list(db: &Database, order: Option<Order>, offset: Option<usize>, limit: Option<usize>) -> (r:
        Result<Vec<User>, UserListError>)
        ensures
            r matches Ok(v) && listed(
                db.users@,
                db.users@.map_values(|x: User| x.login@),
                order,
                offset,
                limit,
                v@,
            ),
    {
        let mut names: Vec<String> = Vec::new();
        let mut i: usize = 0;
        while i < db.users.len()
            invariant
                i <= db.users@.len(),
                names@.len() == i,
                forall|j: int| 0 <= j < i ==> (#[trigger] names@[j]) == db.users@[j].login,
            decreases db.users@.len() - i,
        {
            names.push(db.users[i].login.clone());
            i = i + 1;
        }
        let ghost keys = db.users@.map_values(|x: User| x.login@);
        assert(names@.map_values(|k: String| k@) =~= keys);
        let sorted = sort_indices(&names);
        let (o, off, lim) = page_parameters(order, offset, limit);
        let pg = page_of(&sorted, o, off, lim);
        let mut out: Vec<User> = Vec::new();
        let mut j: usize = 0;
        while j < pg.len()
            invariant
                j <= pg@.len(),
                sorts(keys, sorted@),
                keys.len() == db.users@.len(),
                forall|t: int| 0 <= t < pg@.len() ==> sorted@.contains(#[trigger] pg@[t]),
                out@ == pg@.subrange(0, j as int).map_values(|x: usize| db.users@[x as int]),
            decreases pg@.len() - j,
        {
            proof {
                assert(sorted@.contains(pg@[j as int]));
                let k = choose|k: int| 0 <= k < sorted@.len() && sorted@[k] == pg@[j as int];
                assert(sorted@[k] < keys.len());
            }
            out.push(db.users[pg[j]].duplicate());
            proof {
                assert(pg@.subrange(0, j + 1).map_values(|x: usize| db.users@[x as int])
                    =~= pg@.subrange(0, j as int).map_values(|x: usize| db.users@[x as int]).push(
                    db.users@[pg@[j as int] as int],
                ));
            }
            j = j + 1;
        }
        assert(pg@.subrange(0, pg@.len() as int) =~= pg@);
        Ok(out)
    }
}

} // verus!
