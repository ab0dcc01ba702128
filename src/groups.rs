use crate::permissions::unchanged_except;
use crate::seqs::{
    lemma_filter_keeps_key, lemma_filter_members, lemma_filter_unique, lemma_push_keys,
};
use crate::store::{
    group_key, Database, Group, GroupPermission, MAX_DESCRIPTION_LEN, MAX_NAME_LEN,
};
use crate::tables::{
    keeps_grant_other_than, keeps_grant_without_group, keeps_group_other_than,
    keeps_membership_without_group, retain_grant_other_than, retain_grant_without_group,
    retain_group_other_than, retain_membership_without_group,
};
use crate::listing::{listed, page_of, page_parameters, sort_indices, sorts, Order};
use vstd::prelude::*;

verus! {

/// Listing groups cannot fail: the listing function always returns `Ok`.
#[derive(Debug)]
pub struct GroupListError;

#[derive(Debug, PartialEq, Eq, Structural)]
pub enum GroupRetrieveError {
    /// No group has the requested name.
    NotFound,
}

#[derive(Debug, PartialEq, Eq, Structural)]
pub enum GroupInsertError {
    /// The name or description is too long, or the name is taken.
    NameConflict,
    /// One of the initial permissions does not exist.
    NameError,
}

#[derive(Debug, PartialEq, Eq, Structural)]
pub enum GroupDeleteError {
    /// No group has the requested name.
    NotFound,
}

#[derive(Debug, PartialEq, Eq, Structural)]
pub enum GroupGrantError {
    /// The group or the permission does not exist, or the grant already does.
    NameError,
}

#[derive(Debug, PartialEq, Eq, Structural)]
pub enum GroupRevokeError {
    /// The group does not hold the permission.
    NameError,
}

/// Every name in `names` is an existing permission.
pub open spec fn all_permissions_exist(d: Database, names: Seq<String>) -> bool {
    forall|j: int| 0 <= j < names.len() ==> d.permission_exists((#[trigger] names[j])@)
}

/// What inserting a group with its initial permissions does.
pub open spec fn insert_group_post(
    a: Database,
    name: Seq<char>,
    description: Seq<char>,
    permissions: Seq<String>,
    b: Database,
    r: Result<(), GroupInsertError>,
) -> bool {
    let conflict = name.len() > MAX_NAME_LEN || description.len() > MAX_DESCRIPTION_LEN
        || a.group_exists(name);
    &&& r == Err::<(), _>(GroupInsertError::NameConflict) <==> conflict
    &&& r == Err::<(), _>(GroupInsertError::NameError) <==> !conflict && !all_permissions_exist(
        a,
        permissions,
    )
    &&& r is Err ==> b == a
    &&& r is Ok ==> {
        &&& unchanged_except(a, b, false, true, true, false, false, false)
        &&& b.groups@.len() == a.groups@.len() + 1
        &&& b.groups@.drop_last() == a.groups@
        &&& b.groups@.last().name@ == name
        &&& b.groups@.last().description@ == description
        &&& b.groups_permissions@.len() == a.groups_permissions@.len() + permissions.len()
        &&& b.groups_permissions@.subrange(0, a.groups_permissions@.len() as int)
            == a.groups_permissions@
        &&& forall|j: int|
            0 <= j < permissions.len() ==> (#[trigger] b.groups_permissions@[a.groups_permissions@.len()
                + j]).group_name@ == name && b.groups_permissions@[a.groups_permissions@.len()
                + j].permission_name@ == permissions[j]@
    }
}

/// What deleting a group does: the row, its grants and its memberships go.
pub open spec fn delete_group_post(
    a: Database,
    name: Seq<char>,
    b: Database,
    r: Result<(), GroupDeleteError>,
) -> bool {
    &&& r is Err <==> !a.group_exists(name)
    &&& r is Err ==> b == a
    &&& r is Ok ==> {
        &&& unchanged_except(a, b, false, true, true, false, true, false)
        &&& b.groups@ == a.groups@.filter(keeps_group_other_than(name))
        &&& b.groups_permissions@ == a.groups_permissions@.filter(keeps_grant_without_group(name))
        &&& b.users_groups@ == a.users_groups@.filter(keeps_membership_without_group(name))
    }
}

/// What granting a permission to a group does.
pub open spec fn grant_permission_post(
    a: Database,
    group: Seq<char>,
    permission: Seq<char>,
    b: Database,
    r: Result<(), GroupGrantError>,
) -> bool {
    &&& r is Err <==> (!a.group_exists(group) || !a.permission_exists(permission) || a.group_holds(
        group,
        permission,
    ))
    &&& r is Err ==> b == a
    &&& r is Ok ==> {
        &&& unchanged_except(a, b, false, false, true, false, false, false)
        &&& b.groups_permissions@.drop_last() == a.groups_permissions@
        &&& b.groups_permissions@.len() == a.groups_permissions@.len() + 1
        &&& b.groups_permissions@.last().group_name@ == group
        &&& b.groups_permissions@.last().permission_name@ == permission
    }
}

/// What revoking a permission from a group does.
pub open spec fn revoke_permission_post(
    a: Database,
    group: Seq<char>,
    permission: Seq<char>,
    b: Database,
    r: Result<(), GroupRevokeError>,
) -> bool {
    &&& r is Err <==> !a.group_holds(group, permission)
    &&& r is Err ==> b == a
    &&& r is Ok ==> {
        &&& unchanged_except(a, b, false, false, true, false, false, false)
        &&& b.groups_permissions@ == a.groups_permissions@.filter(
            keeps_grant_other_than(group, permission),
        )
    }
}

impl Database {
    /// The index of the group named `name`, if there is one.
    pub fn find_group(&self, name: &String) -> (r: Option<usize>)
        ensures
            r is None <==> !self.group_exists(name@),
            r matches Some(i) ==> i < self.groups@.len() && self.groups@[i as int].name@ == name@,
    {
        let mut i: usize = 0;
        while i < self.groups.len()
            invariant
                i <= self.groups@.len(),
                forall|k: int| 0 <= k < i ==> self.groups@[k].name@ != name@,
            decreases self.groups@.len() - i,
        {
            if self.groups[i].name == *name {
                return Some(i);
            }
            i = i + 1;
        }
        None
    }

    /// Whether group `group` holds a grant of `permission`.
    pub fn find_grant(&self, group: &String, permission: &String) -> (r: bool)
        ensures
            r == self.group_holds(group@, permission@),
    {
        let mut i: usize = 0;
        while i < self.groups_permissions.len()
            invariant
                i <= self.groups_permissions@.len(),
                forall|k: int|
                    0 <= k < i ==> !(self.groups_permissions@[k].group_name@ == group@
                        && self.groups_permissions@[k].permission_name@ == permission@),
            decreases self.groups_permissions@.len() - i,
        {
            if self.groups_permissions[i].group_name == *group
                && self.groups_permissions[i].permission_name == *permission {
                return true;
            }
            i = i + 1;
        }
        false
    }

    /// Whether every name in `names` is an existing permission.
    pub fn permissions_all_exist(&self, names: &Vec<String>) -> (r: bool)
        ensures
            r == all_permissions_exist(*self, names@),
    {
        let mut k: usize = 0;
        while k < names.len()
            invariant
                k <= names@.len(),
                forall|j: int| 0 <= j < k ==> self.permission_exists((#[trigger] names@[j])@),
            decreases names@.len() - k,
        {
            if self.find_permission(&names[k]).is_none() {
                return false;
            }
            k = k + 1;
        }
        true
    }






}

impl Group {
    /// Retrieves the group named `name`.
    pub fn retrieve(db: &Database, name: &String) -> (r: Result<Group, GroupRetrieveError>)
        ensures
            r is Err <==> !db.group_exists(name@),
            r matches Ok(g) ==> g.name@ == name@ && db.groups@.contains(g),
    {
        match db.find_group(name) {
            Some(i) => Ok(db.groups[i].duplicate()),
            None => Err(GroupRetrieveError::NotFound),
        }
    }

    /// Inserts a group together with grants of its initial permissions; if
    /// any of them does not exist nothing is inserted.
    pub fn insert(
        db: &mut Database,
        name: &String,
        description: &String,
        permissions: &Vec<String>,
    ) -> (r: Result<(), GroupInsertError>)
        requires
            old(db).wf(),
        ensures
            final(db).wf(),
            insert_group_post(*old(db), name@, description@, permissions@, *final(db), r),
    {
        if name.as_str().unicode_len() > MAX_NAME_LEN || description.as_str().unicode_len()
            > MAX_DESCRIPTION_LEN || db.find_group(name).is_some() {
            return Err(GroupInsertError::NameConflict);
        }
        if !db.permissions_all_exist(permissions) {
            return Err(GroupInsertError::NameError);
        }
        let ghost a = *db;
        let row = Group { name: name.clone(), description: description.clone() };
        db.groups.push(row);
        proof {
            lemma_push_keys(a.groups@, row, |g: Group| group_key(g));
            assert(db.groups@.drop_last() =~= a.groups@);
            assert(db.group_exists(name@));
            assert forall|i: int| 0 <= i < db.groups_permissions@.len() implies db.group_exists(
                (#[trigger] db.groups_permissions@[i]).group_name@,
            ) by {
                assert(a.group_exists(a.groups_permissions@[i].group_name@));
            }
            assert forall|i: int| 0 <= i < db.users_groups@.len() implies db.group_exists(
                (#[trigger] db.users_groups@[i]).group_name@,
            ) by {
                assert(a.group_exists(a.users_groups@[i].group_name@));
            }
        }
        let ghost b = *db;
        let mut j: usize = 0;
        while j < permissions.len()
            invariant
                j <= permissions@.len(),
                db.wf(),
                db.group_exists(name@),
                all_permissions_exist(a, permissions@),
                db.permissions@ == a.permissions@,
                unchanged_except(b, *db, false, false, true, false, false, false),
                db.groups_permissions@.len() == a.groups_permissions@.len() + j,
                db.groups_permissions@.subrange(0, a.groups_permissions@.len() as int)
                    == a.groups_permissions@,
                forall|i: int|
                    0 <= i < j ==> (#[trigger] db.groups_permissions@[a.groups_permissions@.len()
                        + i]).group_name@ == name@ && db.groups_permissions@[a.groups_permissions@.len()
                        + i].permission_name@ == permissions@[i]@,
            decreases permissions@.len() - j,
        {
            let ghost before = db.groups_permissions@;
            db.groups_permissions.push(
                GroupPermission { group_name: name.clone(), permission_name: permissions[j].clone() },
            );
            proof {
                assert(db.groups_permissions@.subrange(0, a.groups_permissions@.len() as int)
                    =~= before.subrange(0, a.groups_permissions@.len() as int));
                assert(db.permission_exists(permissions@[j as int]@));
                assert forall|i: int| 0 <= i < db.groups_permissions@.len() implies db.group_exists(
                    (#[trigger] db.groups_permissions@[i]).group_name@,
                ) && db.permission_exists(db.groups_permissions@[i].permission_name@) by {
                    if i < before.len() {
                        assert(db.groups_permissions@[i] == before[i]);
                    }
                }
                assert forall|i: int| 0 <= i < j + 1 implies (#[trigger] db.groups_permissions@[
                    a.groups_permissions@.len() + i]).group_name@ == name@
                    && db.groups_permissions@[a.groups_permissions@.len() + i].permission_name@
                    == permissions@[i]@ by {
                    if i < j {
                        assert(db.groups_permissions@[a.groups_permissions@.len() + i]
                            == before[a.groups_permissions@.len() + i]);
                    }
                }
            }
            j = j + 1;
        }
        Ok(())
    }

    /// Deletes a group, its grants and its memberships; users stay.
    pub fn delete(db: &mut Database, name: &String) -> (r: Result<(), GroupDeleteError>)
        requires
            old(db).wf(),
        ensures
            final(db).wf(),
            delete_group_post(*old(db), name@, *final(db), r),
    {
        if db.find_group(name).is_none() {
            return Err(GroupDeleteError::NotFound);
        }
        let ghost a = *db;
        let ghost keep_g = keeps_group_other_than(name@);
        let ghost keep_gp = keeps_grant_without_group(name@);
        let ghost keep_ug = keeps_membership_without_group(name@);
        let groups = retain_group_other_than(&db.groups, name);
        let grants = retain_grant_without_group(&db.groups_permissions, name);
        let members = retain_membership_without_group(&db.users_groups, name);
        db.groups = groups;
        db.groups_permissions = grants;
        db.users_groups = members;
        proof {
            let key = |g: Group| group_key(g);
            lemma_filter_unique(a.groups@, keep_g, key);
            lemma_filter_members(a.groups_permissions@, keep_gp);
            lemma_filter_members(a.users_groups@, keep_ug);
            assert forall|i: int| 0 <= i < db.groups_permissions@.len() implies db.group_exists(
                (#[trigger] db.groups_permissions@[i]).group_name@,
            ) && db.permission_exists(db.groups_permissions@[i].permission_name@) by {
                let row = db.groups_permissions@[i];
                assert(a.groups_permissions@.contains(row));
                assert(keep_gp(row));
                lemma_filter_keeps_key(a.groups@, keep_g, key, row.group_name@);
            }
            assert forall|i: int| 0 <= i < db.users_groups@.len() implies db.user_exists(
                (#[trigger] db.users_groups@[i]).user_login@,
            ) && db.group_exists(db.users_groups@[i].group_name@) by {
                let row = db.users_groups@[i];
                assert(a.users_groups@.contains(row));
                assert(keep_ug(row));
                lemma_filter_keeps_key(a.groups@, keep_g, key, row.group_name@);
            }
        }
        Ok(())
    }

    /// Grants an existing permission to an existing group.
    pub fn grant_permission(db: &mut Database, group: &String, permission: &String) -> (r: Result<
        (),
        GroupGrantError,
    >)
        requires
            old(db).wf(),
        ensures
            final(db).wf(),
            grant_permission_post(*old(db), group@, permission@, *final(db), r),
    {
        if db.find_group(group).is_none() || db.find_permission(permission).is_none()
            || db.find_grant(group, permission) {
            return Err(GroupGrantError::NameError);
        }
        let ghost a = *db;
        db.groups_permissions.push(
            GroupPermission { group_name: group.clone(), permission_name: permission.clone() },
        );
        proof {
            assert(db.groups_permissions@.drop_last() =~= a.groups_permissions@);
            assert forall|i: int| 0 <= i < db.groups_permissions@.len() implies db.group_exists(
                (#[trigger] db.groups_permissions@[i]).group_name@,
            ) && db.permission_exists(db.groups_permissions@[i].permission_name@) by {
                if i < a.groups_permissions@.len() {
                    assert(db.groups_permissions@[i] == a.groups_permissions@[i]);
                }
            }
        }
        Ok(())
    }

    /// Revokes a grant that the group holds.
    pub fn revoke_permission(db: &mut Database, group: &String, permission: &String) -> (r: Result<
        (),
        GroupRevokeError,
    >)
        requires
            old(db).wf(),
        ensures
            final(db).wf(),
            revoke_permission_post(*old(db), group@, permission@, *final(db), r),
    {
        if !db.find_grant(group, permission) {
            return Err(GroupRevokeError::NameError);
        }
        let ghost a = *db;
        let ghost keep = keeps_grant_other_than(group@, permission@);
        let grants = retain_grant_other_than(&db.groups_permissions, group, permission);
        db.groups_permissions = grants;
        proof {
            lemma_filter_members(a.groups_permissions@, keep);
            assert forall|i: int| 0 <= i < db.groups_permissions@.len() implies db.group_exists(
                (#[trigger] db.groups_permissions@[i]).group_name@,
            ) && db.permission_exists(db.groups_permissions@[i].permission_name@) by {
                assert(a.groups_permissions@.contains(db.groups_permissions@[i]));
            }
        }
        Ok(())
    }

    /// Lists a page of groups sorted by name.
    pub fn list(db: &Database, order: Option<Order>, offset: Option<usize>, limit: Option<usize>) -> (r:
        Result<Vec<Group>, GroupListError>)
        ensures
            r matches Ok(v) && listed(
                db.groups@,
                db.groups@.map_values(|x: Group| x.name@),
                order,
                offset,
                limit,
                v@,
            ),
    {
        let mut names: Vec<String> = Vec::new();
        let mut i: usize = 0;
        while i < db.groups.len()
            invariant
                i <= db.groups@.len(),
                names@.len() == i,
                forall|j: int| 0 <= j < i ==> (#[trigger] names@[j]) == db.groups@[j].name,
            decreases db.groups@.len() - i,
        {
            names.push(db.groups[i].name.clone());
            i = i + 1;
        }
        let ghost keys = db.groups@.map_values(|x: Group| x.name@);
        assert(names@.map_values(|k: String| k@) =~= keys);
        let sorted = sort_indices(&names);
        let (o, off, lim) = page_parameters(order, offset, limit);
        let pg = page_of(&sorted, o, off, lim);
        let mut out: Vec<Group> = Vec::new();
        let mut j: usize = 0;
        while j < pg.len()
            invariant
                j <= pg@.len(),
                sorts(keys, sorted@),
                keys.len() == db.groups@.len(),
                forall|t: int| 0 <= t < pg@.len() ==> sorted@.contains(#[trigger] pg@[t]),
                out@ == pg@.subrange(0, j as int).map_values(|x: usize| db.groups@[x as int]),
            decreases pg@.len() - j,
        {
            proof {
                assert(sorted@.contains(pg@[j as int]));
                let k = choose|k: int| 0 <= k < sorted@.len() && sorted@[k] == pg@[j as int];
                assert(sorted@[k] < keys.len());
            }
            out.push(db.groups[pg[j]].duplicate());
            proof {
                assert(pg@.subrange(0, j + 1).map_values(|x: usize| db.groups@[x as int])
                    =~= pg@.subrange(0, j as int).map_values(|x: usize| db.groups@[x as int]).push(
                    db.groups@[pg@[j as int] as int],
                ));
            }
            j = j + 1;
        }
        assert(pg@.subrange(0, pg@.len() as int) =~= pg@);
        Ok(out)
    }
}

} // verus!
