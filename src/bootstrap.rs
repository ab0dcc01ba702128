use crate::groups::{grant_permission_post, insert_group_post};
use crate::permissions::insert_permission_post;
use crate::store::{Database, Group, Permission};
use vstd::prelude::*;

verus! {

/// The name of the group that holds every baseline permission.
pub open spec fn root_name() -> Seq<char> {
    "root"@
}

/// The permissions that every installation starts with.
pub open spec fn baseline_names() -> Seq<Seq<char>> {
    seq![
        "cauth:permissions:get"@,
        "cauth:permissions:post"@,
        "cauth:permissions:delete"@,
        "cauth:groups:get"@,
        "cauth:groups:post"@,
        "cauth:groups:delete"@,
        "cauth:groups:update"@,
        "cauth:users:update"@,
        "cauth:users:delete"@,
    ]
}

/// Every baseline permission exists, and the `root` group exists and holds
/// all of them.
pub open spec fn bootstrapped(d: Database) -> bool {
    &&& forall|j: int| 0 <= j < baseline_names().len() ==> d.permission_exists(
        #[trigger] baseline_names()[j],
    )
    &&& d.group_exists(root_name())
    &&& forall|j: int| 0 <= j < baseline_names().len() ==> d.group_holds(
        root_name(),
        #[trigger] baseline_names()[j],
    )
}

/// `b` keeps every row of `a`, in place, and only adds permissions, groups
/// and grants; users, memberships, sessions and events are untouched.
pub open spec fn only_added(a: Database, b: Database) -> bool {
    &&& b.permissions@.len() >= a.permissions@.len()
    &&& b.permissions@.subrange(0, a.permissions@.len() as int) == a.permissions@
    &&& b.groups@.len() >= a.groups@.len()
    &&& b.groups@.subrange(0, a.groups@.len() as int) == a.groups@
    &&& b.groups_permissions@.len() >= a.groups_permissions@.len()
    &&& b.groups_permissions@.subrange(0, a.groups_permissions@.len() as int)
        == a.groups_permissions@
    &&& b.users@ == a.users@
    &&& b.users_groups@ == a.users_groups@
    &&& b.login_sessions@ == a.login_sessions@
    &&& b.events@ == a.events@
    &&& b.next_event_id == a.next_event_id
    &&& b.self_commit_allowed == a.self_commit_allowed
}

/// The baseline permissions with their descriptions.
fn baseline() -> (r: Vec<(String, String)>)
    ensures
        r@.len() == baseline_names().len(),
        forall|j: int|
            0 <= j < r@.len() ==> (#[trigger] r@[j]).0@ == baseline_names()[j] && r@[j].0@.len()
                <= 255 && r@[j].1@.len() <= 3000,
{
    let r = vec![
        ("cauth:permissions:get".to_owned(), "permission to retrieve the permission list".to_owned()),
        ("cauth:permissions:post".to_owned(), "permission to post new permissions".to_owned()),
        ("cauth:permissions:delete".to_owned(), "permission to delete a permission".to_owned()),
        ("cauth:groups:get".to_owned(), "permission to retrieve the group list".to_owned()),
        ("cauth:groups:post".to_owned(), "permission to post new groups".to_owned()),
        ("cauth:groups:delete".to_owned(), "permission to delete a group".to_owned()),
        ("cauth:groups:update".to_owned(), "permission to grant or revoke permissions of groups".to_owned()),
        ("cauth:users:update".to_owned(), "permission to grant or revoke groups of users".to_owned()),
        ("cauth:users:delete".to_owned(), "permission to delete any user; use with caution".to_owned()),
    ];
    proof {
        reveal_strlit("cauth:permissions:get");
        reveal_strlit("cauth:permissions:post");
        reveal_strlit("cauth:permissions:delete");
        reveal_strlit("cauth:groups:get");
        reveal_strlit("cauth:groups:post");
        reveal_strlit("cauth:groups:delete");
        reveal_strlit("cauth:groups:update");
        reveal_strlit("cauth:users:update");
        reveal_strlit("cauth:users:delete");
        reveal_strlit("permission to retrieve the permission list");
        reveal_strlit("permission to post new permissions");
        reveal_strlit("permission to delete a permission");
        reveal_strlit("permission to retrieve the group list");
        reveal_strlit("permission to post new groups");
        reveal_strlit("permission to delete a group");
        reveal_strlit("permission to grant or revoke permissions of groups");
        reveal_strlit("permission to grant or revoke groups of users");
        reveal_strlit("permission to delete any user; use with caution");
    }
    r
}

/// Ensures that the baseline permissions exist and that the `root` group
/// exists and holds all of them. Rows already present are kept as they are
/// and colliding inserts are ignored, so a second run changes nothing.
pub fn init_defaults(db: &mut Database)
    requires
        old(db).wf(),
    ensures
        final(db).wf(),
        bootstrapped(*final(db)),
        only_added(*old(db), *final(db)),
        bootstrapped(*old(db)) ==> *final(db) == *old(db),
{
    let ghost a = *db;
    let rows = baseline();
    let mut names: Vec<String> = Vec::new();
    let mut i: usize = 0;
    proof {
        assert(a.permissions@.subrange(0, a.permissions@.len() as int) =~= a.permissions@);
        assert(a.groups@.subrange(0, a.groups@.len() as int) =~= a.groups@);
        assert(a.groups_permissions@.subrange(0, a.groups_permissions@.len() as int)
            =~= a.groups_permissions@);
    }
    while i < rows.len()
        invariant
            i <= rows@.len(),
            rows@.len() == baseline_names().len(),
            forall|j: int|
                0 <= j < rows@.len() ==> (#[trigger] rows@[j]).0@ == baseline_names()[j]
                    && rows@[j].0@.len() <= 255 && rows@[j].1@.len() <= 3000,
            db.wf(),
            names@.len() == i,
            forall|j: int| 0 <= j < i ==> (#[trigger] names@[j])@ == baseline_names()[j],
            forall|j: int| 0 <= j < i ==> db.permission_exists(#[trigger] baseline_names()[j]),
            db.groups@ == a.groups@,
            db.groups_permissions@ == a.groups_permissions@,
            only_added(a, *db),
            bootstrapped(a) ==> *db == a,
        decreases rows@.len() - i,
    {
        let ghost before = *db;
        let r = Permission::insert(db, &rows[i].0, &rows[i].1);
        proof {
            assert(insert_permission_post(before, rows@[i as int].0@, rows@[i as int].1@, *db, r));
            if r is Ok {
                crate::seqs::lemma_push_keys(
                    before.permissions@,
                    db.permissions@.last(),
                    |p: crate::store::Permission| crate::store::permission_key(p),
                );
                assert(db.permissions@ =~= before.permissions@.push(db.permissions@.last()));
                assert(db.permissions@.subrange(0, a.permissions@.len() as int)
                    =~= before.permissions@.subrange(0, a.permissions@.len() as int));
            }
        }
        names.push(rows[i].0.clone());
        i = i + 1;
    }
    let ghost b = *db;
    let root = "root".to_owned();
    let description = "the most privileged group, holding every baseline permission".to_owned();
    proof {
        reveal_strlit("root");
        reveal_strlit("the most privileged group, holding every baseline permission");
    }
    let r = Group::insert(db, &root, &description, &names);
    proof {
        assert(insert_group_post(b, root@, description@, names@, *db, r));
        assert forall|j: int| 0 <= j < names@.len() implies b.permission_exists(
            (#[trigger] names@[j])@,
        ) by {
            assert(names@[j]@ == baseline_names()[j]);
        }
        if r is Ok {
            crate::seqs::lemma_push_keys(
                b.groups@,
                db.groups@.last(),
                |g: crate::store::Group| crate::store::group_key(g),
            );
            assert(db.groups@ =~= b.groups@.push(db.groups@.last()));
            assert(db.groups@.subrange(0, a.groups@.len() as int) =~= a.groups@);
            assert(db.groups_permissions@.subrange(0, a.groups_permissions@.len() as int)
                =~= a.groups_permissions@);
        } else {
            assert(root@.len() <= 255 && description@.len() <= 3000);
            assert(crate::groups::all_permissions_exist(b, names@));
            if let Err(e) = r {
                assert(e == crate::groups::GroupInsertError::NameConflict);
            }
            assert(b.group_exists(root@));
        }
        assert(db.permissions@ == b.permissions@);
        assert forall|j: int| 0 <= j < baseline_names().len() implies db.permission_exists(
            #[trigger] baseline_names()[j],
        ) by {
            assert(b.permission_exists(baseline_names()[j]));
        }
    }
    let ghost c = *db;
    let mut k: usize = 0;
    while k < names.len()
        invariant
            k <= names@.len(),
            names@.len() == baseline_names().len(),
            forall|j: int| 0 <= j < names@.len() ==> (#[trigger] names@[j])@ == baseline_names()[j],
            root@ == root_name(),
            db.wf(),
            db.permissions@ == c.permissions@,
            db.groups@ == c.groups@,
            forall|j: int|
                0 <= j < baseline_names().len() ==> db.permission_exists(
                    #[trigger] baseline_names()[j],
                ),
            db.group_exists(root_name()),
            forall|j: int| 0 <= j < k ==> db.group_holds(root_name(), #[trigger] baseline_names()[j]),
            only_added(a, *db),
            bootstrapped(a) ==> *db == a,
        decreases names@.len() - k,
    {
        let ghost before = *db;
        let r = Group::grant_permission(db, &root, &names[k]);
        proof {
            assert(grant_permission_post(before, root@, names@[k as int]@, *db, r));
            assert(before.permission_exists(names@[k as int]@));
            if r is Ok {
                let n = before.groups_permissions@.len() as int;
                assert(db.groups_permissions@[n] == db.groups_permissions@.last());
                assert(db.group_holds(root_name(), baseline_names()[k as int]));
                assert forall|j: int| 0 <= j < k implies db.group_holds(
                    root_name(),
                    #[trigger] baseline_names()[j],
                ) by {
                    let w = choose|w: int|
                        0 <= w < before.groups_permissions@.len()
                            && (#[trigger] before.groups_permissions@[w]).group_name@ == root_name()
                            && before.groups_permissions@[w].permission_name@
                            == baseline_names()[j];
                    assert(db.groups_permissions@[w] == before.groups_permissions@[w]);
                }
                assert(db.groups_permissions@.subrange(0, a.groups_permissions@.len() as int)
                    =~= before.groups_permissions@.subrange(
                    0,
                    a.groups_permissions@.len() as int,
                ));
            }
        }
        k = k + 1;
    }
}

} // verus!
