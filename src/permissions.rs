use crate::listing::{listed, page_of, page_parameters, sort_indices, sorts, Order};
use crate::seqs::{lemma_filter_keeps_key, lemma_filter_members, lemma_filter_unique, lemma_push_keys};
use crate::store::{permission_key, Database, Permission, MAX_DESCRIPTION_LEN, MAX_NAME_LEN};
use crate::tables::{
    keeps_grant_without_permission, keeps_permission_other_than, retain_grant_without_permission,
    retain_permission_other_than,
};
use vstd::prelude::*;

verus! {

/// Listing permissions cannot fail: the listing function always returns `Ok`.
#[derive(Debug)]
pub struct PermissionListError;

#[derive(Debug, PartialEq, Eq, Structural)]
pub enum PermissionRetrieveError {
    /// No permission has the requested name.
    NotFound,
}

#[derive(Debug, PartialEq, Eq, Structural)]
pub enum PermissionInsertError {
    /// The name or description is too long, or the name is taken.
    NameError,
}

#[derive(Debug, PartialEq, Eq, Structural)]
pub enum PermissionDeleteError {
    /// No permission has the requested name.
    NotFound,
}

/// `b` equals `a` except in the tables that are flagged.
pub open spec fn unchanged_except(
    a: Database,
    b: Database,
    permissions: bool,
    groups: bool,
    groups_permissions: bool,
    users: bool,
    users_groups: bool,
    sessions: bool,
) -> bool {
    &&& !permissions ==> b.permissions@ == a.permissions@
    &&& !groups ==> b.groups@ == a.groups@
    &&& !groups_permissions ==> b.groups_permissions@ == a.groups_permissions@
    &&& !users ==> b.users@ == a.users@
    &&& !users_groups ==> b.users_groups@ == a.users_groups@
    &&& !sessions ==> b.login_sessions@ == a.login_sessions@
    &&& b.events@ == a.events@
    &&& b.next_event_id == a.next_event_id
    &&& b.self_commit_allowed == a.self_commit_allowed
}

/// What inserting a permission does.
pub open spec fn insert_permission_post(
    a: Database,
    name: Seq<char>,
    description: Seq<char>,
    b: Database,
    r: Result<(), PermissionInsertError>,
) -> bool {
    &&& r is Err <==> (name.len() > MAX_NAME_LEN || description.len() > MAX_DESCRIPTION_LEN
        || a.permission_exists(name))
    &&& r is Err ==> b == a
    &&& r is Ok ==> {
        &&& unchanged_except(a, b, true, false, false, false, false, false)
        &&& b.permissions@.len() == a.permissions@.len() + 1
        &&& b.permissions@.drop_last() == a.permissions@
        &&& b.permissions@.last().name@ == name
        &&& b.permissions@.last().description@ == description
    }
}

/// What deleting a permission does: the row and every grant of it go.
pub open spec fn delete_permission_post(
    a: Database,
    name: Seq<char>,
    b: Database,
    r: Result<(), PermissionDeleteError>,
) -> bool {
    &&& r is Err <==> !a.permission_exists(name)
    &&& r is Err ==> b == a
    &&& r is Ok ==> {
        &&& unchanged_except(a, b, true, false, true, false, false, false)
        &&& b.permissions@ == a.permissions@.filter(keeps_permission_other_than(name))
        &&& b.groups_permissions@ == a.groups_permissions@.filter(
            keeps_grant_without_permission(name),
        )
    }
}

impl Database {
    /// The index of the permission named `name`, if there is one.
    pub fn find_permission(&self, name: &String) -> (r: Option<usize>)
        ensures
            r is None <==> !self.permission_exists(name@),
            r matches Some(i) ==> i < self.permissions@.len() && self.permissions@[i as int].name@
                == name@,
    {
        let mut i: usize = 0;
        while i < self.permissions.len()
            invariant
                i <= self.permissions@.len(),
                forall|k: int| 0 <= k < i ==> self.permissions@[k].name@ != name@,
            decreases self.permissions@.len() - i,
        {
            if self.permissions[i].name == *name {
                return Some(i);
            }
            i = i + 1;
        }
        None
    }




}

impl Permission {
    /// Retrieves the permission named `name`.
    pub fn retrieve(db: &Database, name: &String) -> (r: Result<Permission, PermissionRetrieveError>)
        ensures
            r is Err <==> !db.permission_exists(name@),
            r matches Ok(p) ==> p.name@ == name@ && db.permissions@.contains(p),
    {
        match db.find_permission(name) {
            Some(i) => Ok(db.permissions[i].duplicate()),
            None => Err(PermissionRetrieveError::NotFound),
        }
    }

    /// Inserts a permission; fails when a length limit is exceeded or the
    /// name is taken.
    pub fn insert(db: &mut Database, name: &String, description: &String) -> (r: Result<
        (),
        PermissionInsertError,
    >)
        requires
            old(db).wf(),
        ensures
            final(db).wf(),
            insert_permission_post(*old(db), name@, description@, *final(db), r),
    {
        if name.as_str().unicode_len() > MAX_NAME_LEN || description.as_str().unicode_len()
            > MAX_DESCRIPTION_LEN {
            return Err(PermissionInsertError::NameError);
        }
        if db.find_permission(name).is_some() {
            return Err(PermissionInsertError::NameError);
        }
        let ghost a = *db;
        let row = Permission { name: name.clone(), description: description.clone() };
        db.permissions.push(row);
        proof {
            lemma_push_keys(a.permissions@, row, |p: Permission| permission_key(p));
            assert(db.permissions@.drop_last() =~= a.permissions@);
            assert forall|i: int| 0 <= i < db.groups_permissions@.len() implies db.permission_exists(
                (#[trigger] db.groups_permissions@[i]).permission_name@,
            ) by {
                assert(a.permission_exists(a.groups_permissions@[i].permission_name@));
            }
        }
        Ok(())
    }

    /// Deletes the permission named `name` and every grant of it to a
    /// group; groups themselves stay.
    pub fn delete(db: &mut Database, name: &String) -> (r: Result<(), PermissionDeleteError>)
        requires
            old(db).wf(),
        ensures
            final(db).wf(),
            delete_permission_post(*old(db), name@, *final(db), r),
    {
        if db.find_permission(name).is_none() {
            return Err(PermissionDeleteError::NotFound);
        }
        let ghost a = *db;
        let ghost keep_p = keeps_permission_other_than(name@);
        let ghost keep_gp = keeps_grant_without_permission(name@);
        let kept = retain_permission_other_than(&db.permissions, name);
        let kept_gp = retain_grant_without_permission(&db.groups_permissions, name);
        db.permissions = kept;
        db.groups_permissions = kept_gp;
        proof {
            let key = |p: Permission| permission_key(p);
            lemma_filter_unique(a.permissions@, keep_p, key);
            lemma_filter_members(a.groups_permissions@, keep_gp);
            assert forall|i: int| 0 <= i < db.groups_permissions@.len() implies db.permission_exists(
                (#[trigger] db.groups_permissions@[i]).permission_name@,
            ) && db.group_exists(db.groups_permissions@[i].group_name@) by {
                let row = db.groups_permissions@[i];
                assert(a.groups_permissions@.contains(row));
                let k = choose|k: int| 0 <= k < a.groups_permissions@.len() && a.groups_permissions@[k] == row;
                assert(a.permission_exists(row.permission_name@));
                assert(keep_gp(row));
                lemma_filter_keeps_key(a.permissions@, keep_p, key, row.permission_name@);
            }
            assert forall|i: int| 0 <= i < db.users_groups@.len() implies db.user_exists(
                (#[trigger] db.users_groups@[i]).user_login@,
            ) && db.group_exists(db.users_groups@[i].group_name@) by {
                assert(a.user_exists(a.users_groups@[i].user_login@));
            }
        }
        Ok(())
    }

    /// Lists a page of permissions sorted by name.
    pub fn list(db: &Database, order: Option<Order>, offset: Option<usize>, limit: Option<usize>) -> (r:
        Result<Vec<Permission>, PermissionListError>)
        ensures
            r matches Ok(v) && listed(
                db.permissions@,
                db.permissions@.map_values(|x: Permission| x.name@),
                order,
                offset,
                limit,
                v@,
            ),
    {
        let mut names: Vec<String> = Vec::new();
        let mut i: usize = 0;
        while i < db.permissions.len()
            invariant
                i <= db.permissions@.len(),
                names@.len() == i,
                forall|j: int| 0 <= j < i ==> (#[trigger] names@[j]) == db.permissions@[j].name,
            decreases db.permissions@.len() - i,
        {
            names.push(db.permissions[i].name.clone());
            i = i + 1;
        }
        let ghost keys = db.permissions@.map_values(|x: Permission| x.name@);
        assert(names@.map_values(|k: String| k@) =~= keys);
        let sorted = sort_indices(&names);
        let (o, off, lim) = page_parameters(order, offset, limit);
        let pg = page_of(&sorted, o, off, lim);
        let mut out: Vec<Permission> = Vec::new();
        let mut j: usize = 0;
        while j < pg.len()
            invariant
                j <= pg@.len(),
                sorts(keys, sorted@),
                keys.len() == db.permissions@.len(),
                forall|t: int| 0 <= t < pg@.len() ==> sorted@.contains(#[trigger] pg@[t]),
                out@ == pg@.subrange(0, j as int).map_values(|x: usize| db.permissions@[x as int]),
            decreases pg@.len() - j,
        {
            proof {
                assert(sorted@.contains(pg@[j as int]));
                let k = choose|k: int| 0 <= k < sorted@.len() && sorted@[k] == pg@[j as int];
                assert(sorted@[k] < keys.len());
            }
            out.push(db.permissions[pg[j]].duplicate());
            proof {
                assert(pg@.subrange(0, j + 1).map_values(|x: usize| db.permissions@[x as int])
                    =~= pg@.subrange(0, j as int).map_values(|x: usize| db.permissions@[x as int]).push(
                    db.permissions@[pg@[j as int] as int],
                ));
            }
            j = j + 1;
        }
        assert(pg@.subrange(0, pg@.len() as int) =~= pg@);
        Ok(out)
    }
}

} // verus!
