use crate::engine::{cancel_post, commit_post, event_index};
use crate::events::{action_allowed, event_created, event_exists, EventStatus, EventType};
use crate::groups::delete_group_post;
use crate::password::argon2_accepts;
use crate::permissions::delete_permission_post;
use crate::sessions::session_may;
use crate::seqs::lemma_filter_members;
use crate::store::Database;
use crate::tables::{
    keeps_grant_without_group, keeps_grant_without_permission, keeps_membership_without_group,
    keeps_membership_without_user, keeps_session_without_user,
};
use crate::users::{credentials_valid, delete_user_post, insert_user_post};
use vstd::prelude::*;

verus! {

/// A user stored with the hash of a password authenticates with that
/// password.
pub proof fn lemma_registered_user_authenticates(
    a: Database,
    b: Database,
    login: Seq<char>,
    password: Seq<char>,
    hash: Seq<char>,
    details: Seq<char>,
)
    requires
        insert_user_post(a, login, hash, details, b, Ok(())),
        argon2_accepts(password, hash),
    ensures
        credentials_valid(b, login, password),
{
    let i = b.users@.len() - 1;
    assert(b.users@[i] == b.users@.last());
}

/// Identifiers of successively created events strictly increase, whatever
/// happened in between as long as the identifier counter did not go back.
pub proof fn lemma_event_ids_increase(
    a: Database,
    b: Database,
    c: Database,
    d: Database,
    first: u64,
    second: u64,
    k1: EventType,
    k2: EventType,
    c1: Option<u128>,
    c2: Option<u128>,
    t1: u64,
    t2: u64,
)
    requires
        event_created(a, b, first, k1, c1, t1),
        b.next_event_id <= c.next_event_id,
        event_created(c, d, second, k2, c2, t2),
    ensures
        first < second,
{
}

/// Committing an already committed event, with sufficient permissions,
/// succeeds and changes nothing; cancelling an already cancelled event
/// that one may cancel succeeds and changes nothing.
pub proof fn lemma_terminal_events_idempotent(
    a: Database,
    b: Database,
    session: u128,
    id: u64,
    now: u64,
    r: Result<(), crate::events::EventError>,
)
    requires
        a.wf(),
        event_exists(a, id),
    ensures
        a.events@[event_index(a, id)].status == EventStatus::Committed && session_may(
            a,
            session,
            "events:commit"@,
            now,
        ) && action_allowed(a, session, a.events@[event_index(a, id)].payload, now) && (
            a.self_commit_allowed || a.events@[event_index(a, id)].creator != Some(session))
            && commit_post(
            a,
            session,
            id,
            now,
            b,
            r,
        ) ==> r is Ok && b == a,
        a.events@[event_index(a, id)].status == EventStatus::Cancelled && (a.events@[event_index(
            a,
            id,
        )].creator == Some(session) || session_may(a, session, "events:cancel"@, now))
            && cancel_post(a, session, id, now, b, r) ==> r is Ok && b == a,
{
}

/// After deleting a user no membership or session names it; after deleting
/// a group no membership or grant names it; after deleting a permission no
/// grant names it.
pub proof fn lemma_cascade_complete(
    a: Database,
    u: Seq<char>,
    g: Seq<char>,
    p: Seq<char>,
    after_user: Database,
    after_group: Database,
    after_permission: Database,
    rg: Result<(), crate::groups::GroupDeleteError>,
    rp: Result<(), crate::permissions::PermissionDeleteError>,
)
    requires
        delete_user_post(a, u, after_user),
        delete_group_post(a, g, after_group, rg),
        rg is Ok,
        delete_permission_post(a, p, after_permission, rp),
        rp is Ok,
    ensures
        forall|i: int|
            0 <= i < after_user.users_groups@.len() ==> (
            #[trigger] after_user.users_groups@[i]).user_login@ != u,
        forall|i: int|
            0 <= i < after_user.login_sessions@.len() ==> (
            #[trigger] after_user.login_sessions@[i]).user_login@ != u,
        forall|i: int|
            0 <= i < after_group.users_groups@.len() ==> (
            #[trigger] after_group.users_groups@[i]).group_name@ != g,
        forall|i: int|
            0 <= i < after_group.groups_permissions@.len() ==> (
            #[trigger] after_group.groups_permissions@[i]).group_name@ != g,
        forall|i: int|
            0 <= i < after_permission.groups_permissions@.len() ==> (
            #[trigger] after_permission.groups_permissions@[i]).permission_name@ != p,
{
    lemma_filter_members(a.users_groups@, keeps_membership_without_user(u));
    lemma_filter_members(a.login_sessions@, keeps_session_without_user(u));
    lemma_filter_members(a.users_groups@, keeps_membership_without_group(g));
    lemma_filter_members(a.groups_permissions@, keeps_grant_without_group(g));
    lemma_filter_members(a.groups_permissions@, keeps_grant_without_permission(p));
}

} // verus!
