use crate::store::{Group, GroupPermission, LoginSession, Permission, User, UserGroup};
use crate::seqs::lemma_filter_step;
use vstd::prelude::*;

verus! {

/// The permission rows other than the one named `name`.
pub open spec fn keeps_permission_other_than(name: Seq<char>) -> spec_fn(Permission) -> bool {
    |r: Permission| r.name@ != name
}

/// The group rows other than the one named `name`.
pub open spec fn keeps_group_other_than(name: Seq<char>) -> spec_fn(Group) -> bool {
    |r: Group| r.name@ != name
}

/// The user rows other than the one with login `login`.
pub open spec fn keeps_user_other_than(login: Seq<char>) -> spec_fn(User) -> bool {
    |r: User| r.login@ != login
}

/// The grant rows that do not name permission `name`.
pub open spec fn keeps_grant_without_permission(name: Seq<char>) -> spec_fn(GroupPermission) -> bool {
    |r: GroupPermission| r.permission_name@ != name
}

/// The grant rows that do not name group `name`.
pub open spec fn keeps_grant_without_group(name: Seq<char>) -> spec_fn(GroupPermission) -> bool {
    |r: GroupPermission| r.group_name@ != name
}

/// The grant rows other than the grant of `permission` to `group`.
pub open spec fn keeps_grant_other_than(group: Seq<char>, permission: Seq<char>) -> spec_fn(GroupPermission) -> bool {
    |r: GroupPermission| !(r.group_name@ == group && r.permission_name@ == permission)
}

/// The membership rows that do not name group `name`.
pub open spec fn keeps_membership_without_group(name: Seq<char>) -> spec_fn(UserGroup) -> bool {
    |r: UserGroup| r.group_name@ != name
}

/// The membership rows that do not name user `login`.
pub open spec fn keeps_membership_without_user(login: Seq<char>) -> spec_fn(UserGroup) -> bool {
    |r: UserGroup| r.user_login@ != login
}

/// The membership rows other than `login` in `group`.
pub open spec fn keeps_membership_other_than(login: Seq<char>, group: Seq<char>) -> spec_fn(UserGroup) -> bool {
    |r: UserGroup| !(r.user_login@ == login && r.group_name@ == group)
}

/// The sessions that do not belong to user `login`.
pub open spec fn keeps_session_without_user(login: Seq<char>) -> spec_fn(LoginSession) -> bool {
    |r: LoginSession| r.user_login@ != login
}

/// Copies the rows of `rows` that `keeps_permission_other_than` keeps, in order.
pub fn retain_permission_other_than(rows: &Vec<Permission>, name: &String) -> (r: Vec<Permission>)
    ensures
        r@ == rows@.filter(keeps_permission_other_than(name@)),
{
    let ghost keep = keeps_permission_other_than(name@);
    let mut kept: Vec<Permission> = Vec::new();
    let mut i: usize = 0;
    while i < rows.len()
        invariant
            i <= rows@.len(),
            keep == keeps_permission_other_than(name@),
            kept@ == rows@.subrange(0, i as int).filter(keep),
        decreases rows@.len() - i,
    {
        proof {
            lemma_filter_step(rows@, keep, i as int);
        }
        if !(rows[i].name == *name) {
            kept.push(rows[i].duplicate());
        }
        i = i + 1;
    }
    assert(rows@.subrange(0, rows@.len() as int) =~= rows@);
    kept
}

/// Copies the rows of `rows` that `keeps_group_other_than` keeps, in order.
pub fn retain_group_other_than(rows: &Vec<Group>, name: &String) -> (r: Vec<Group>)
    ensures
        r@ == rows@.filter(keeps_group_other_than(name@)),
{
    let ghost keep = keeps_group_other_than(name@);
    let mut kept: Vec<Group> = Vec::new();
    let mut i: usize = 0;
    while i < rows.len()
        invariant
            i <= rows@.len(),
            keep == keeps_group_other_than(name@),
            kept@ == rows@.subrange(0, i as int).filter(keep),
        decreases rows@.len() - i,
    {
        proof {
            lemma_filter_step(rows@, keep, i as int);
        }
        if !(rows[i].name == *name) {
            kept.push(rows[i].duplicate());
        }
        i = i + 1;
    }
    assert(rows@.subrange(0, rows@.len() as int) =~= rows@);
    kept
}

/// Copies the rows of `rows` that `keeps_user_other_than` keeps, in order.
pub fn retain_user_other_than(rows: &Vec<User>, login: &String) -> (r: Vec<User>)
    ensures
        r@ == rows@.filter(keeps_user_other_than(login@)),
{
    let ghost keep = keeps_user_other_than(login@);
    let mut kept: Vec<User> = Vec::new();
    let mut i: usize = 0;
    while i < rows.len()
        invariant
            i <= rows@.len(),
            keep == keeps_user_other_than(login@),
            kept@ == rows@.subrange(0, i as int).filter(keep),
        decreases rows@.len() - i,
    {
        proof {
            lemma_filter_step(rows@, keep, i as int);
        }
        if !(rows[i].login == *login) {
            kept.push(rows[i].duplicate());
        }
        i = i + 1;
    }
    assert(rows@.subrange(0, rows@.len() as int) =~= rows@);
    kept
}

/// Copies the rows of `rows` that `keeps_grant_without_permission` keeps, in order.
pub fn retain_grant_without_permission(rows: &Vec<GroupPermission>, name: &String) -> (r: Vec<GroupPermission>)
    ensures
        r@ == rows@.filter(keeps_grant_without_permission(name@)),
{
    let ghost keep = keeps_grant_without_permission(name@);
    let mut kept: Vec<GroupPermission> = Vec::new();
    let mut i: usize = 0;
    while i < rows.len()
        invariant
            i <= rows@.len(),
            keep == keeps_grant_without_permission(name@),
            kept@ == rows@.subrange(0, i as int).filter(keep),
        decreases rows@.len() - i,
    {
        proof {
            lemma_filter_step(rows@, keep, i as int);
        }
        if !(rows[i].permission_name == *name) {
            kept.push(rows[i].duplicate());
        }
        i = i + 1;
    }
    assert(rows@.subrange(0, rows@.len() as int) =~= rows@);
    kept
}

/// Copies the rows of `rows` that `keeps_grant_without_group` keeps, in order.
pub fn retain_grant_without_group(rows: &Vec<GroupPermission>, name: &String) -> (r: Vec<GroupPermission>)
    ensures
        r@ == rows@.filter(keeps_grant_without_group(name@)),
{
    let ghost keep = keeps_grant_without_group(name@);
    let mut kept: Vec<GroupPermission> = Vec::new();
    let mut i: usize = 0;
    while i < rows.len()
        invariant
            i <= rows@.len(),
            keep == keeps_grant_without_group(name@),
            kept@ == rows@.subrange(0, i as int).filter(keep),
        decreases rows@.len() - i,
    {
        proof {
            lemma_filter_step(rows@, keep, i as int);
        }
        if !(rows[i].group_name == *name) {
            kept.push(rows[i].duplicate());
        }
        i = i + 1;
    }
    assert(rows@.subrange(0, rows@.len() as int) =~= rows@);
    kept
}

/// Copies the rows of `rows` that `keeps_grant_other_than` keeps, in order.
pub fn retain_grant_other_than(rows: &Vec<GroupPermission>, group: &String, permission: &String) -> (r: Vec<GroupPermission>)
    ensures
        r@ == rows@.filter(keeps_grant_other_than(group@, permission@)),
{
    let ghost keep = keeps_grant_other_than(group@, permission@);
    let mut kept: Vec<GroupPermission> = Vec::new();
    let mut i: usize = 0;
    while i < rows.len()
        invariant
            i <= rows@.len(),
            keep == keeps_grant_other_than(group@, permission@),
            kept@ == rows@.subrange(0, i as int).filter(keep),
        decreases rows@.len() - i,
    {
        proof {
            lemma_filter_step(rows@, keep, i as int);
        }
        if !(rows[i].group_name == *group && rows[i].permission_name == *permission) {
            kept.push(rows[i].duplicate());
        }
        i = i + 1;
    }
    assert(rows@.subrange(0, rows@.len() as int) =~= rows@);
    kept
}

/// Copies the rows of `rows` that `keeps_membership_without_group` keeps, in order.
pub fn retain_membership_without_group(rows: &Vec<UserGroup>, name: &String) -> (r: Vec<UserGroup>)
    ensures
        r@ == rows@.filter(keeps_membership_without_group(name@)),
{
    let ghost keep = keeps_membership_without_group(name@);
    let mut kept: Vec<UserGroup> = Vec::new();
    let mut i: usize = 0;
    while i < rows.len()
        invariant
            i <= rows@.len(),
            keep == keeps_membership_without_group(name@),
            kept@ == rows@.subrange(0, i as int).filter(keep),
        decreases rows@.len() - i,
    {
        proof {
            lemma_filter_step(rows@, keep, i as int);
        }
        if !(rows[i].group_name == *name) {
            kept.push(rows[i].duplicate());
        }
        i = i + 1;
    }
    assert(rows@.subrange(0, rows@.len() as int) =~= rows@);
    kept
}

/// Copies the rows of `rows` that `keeps_membership_without_user` keeps, in order.
pub fn retain_membership_without_user(rows: &Vec<UserGroup>, login: &String) -> (r: Vec<UserGroup>)
    ensures
        r@ == rows@.filter(keeps_membership_without_user(login@)),
{
    let ghost keep = keeps_membership_without_user(login@);
    let mut kept: Vec<UserGroup> = Vec::new();
    let mut i: usize = 0;
    while i < rows.len()
        invariant
            i <= rows@.len(),
            keep == keeps_membership_without_user(login@),
            kept@ == rows@.subrange(0, i as int).filter(keep),
        decreases rows@.len() - i,
    {
        proof {
            lemma_filter_step(rows@, keep, i as int);
        }
        if !(rows[i].user_login == *login) {
            kept.push(rows[i].duplicate());
        }
        i = i + 1;
    }
    assert(rows@.subrange(0, rows@.len() as int) =~= rows@);
    kept
}

/// Copies the rows of `rows` that `keeps_membership_other_than` keeps, in order.
pub fn retain_membership_other_than(rows: &Vec<UserGroup>, login: &String, group: &String) -> (r: Vec<UserGroup>)
    ensures
        r@ == rows@.filter(keeps_membership_other_than(login@, group@)),
{
    let ghost keep = keeps_membership_other_than(login@, group@);
    let mut kept: Vec<UserGroup> = Vec::new();
    let mut i: usize = 0;
    while i < rows.len()
        invariant
            i <= rows@.len(),
            keep == keeps_membership_other_than(login@, group@),
            kept@ == rows@.subrange(0, i as int).filter(keep),
        decreases rows@.len() - i,
    {
        proof {
            lemma_filter_step(rows@, keep, i as int);
        }
        if !(rows[i].user_login == *login && rows[i].group_name == *group) {
            kept.push(rows[i].duplicate());
        }
        i = i + 1;
    }
    assert(rows@.subrange(0, rows@.len() as int) =~= rows@);
    kept
}

/// Copies the rows of `rows` that `keeps_session_without_user` keeps, in order.
pub fn retain_session_without_user(rows: &Vec<LoginSession>, login: &String) -> (r: Vec<LoginSession>)
    ensures
        r@ == rows@.filter(keeps_session_without_user(login@)),
{
    let ghost keep = keeps_session_without_user(login@);
    let mut kept: Vec<LoginSession> = Vec::new();
    let mut i: usize = 0;
    while i < rows.len()
        invariant
            i <= rows@.len(),
            keep == keeps_session_without_user(login@),
            kept@ == rows@.subrange(0, i as int).filter(keep),
        decreases rows@.len() - i,
    {
        proof {
            lemma_filter_step(rows@, keep, i as int);
        }
        if !(rows[i].user_login == *login) {
            kept.push(rows[i].duplicate());
        }
        i = i + 1;
    }
    assert(rows@.subrange(0, rows@.len() as int) =~= rows@);
    kept
}

} // verus!
