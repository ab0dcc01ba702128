use crate::events::{event_created, EventError, EventPayload, EventType};
use crate::groups::{insert_group_post, GroupInsertError};
use crate::sessions::session_may;
use crate::listing::{listed, Order};
use crate::store::{Database, Group, User};
use vstd::prelude::*;

verus! {

/// The HTTP status that reports an error: `401` for a missing permission,
/// `400` for everything else.
pub open spec fn status_of(e: EventError) -> u16 {
    match e {
        EventError::Unauthorized => 401,
        _ => 400,
    }
}

/// The HTTP status that reports an error.
pub fn http_status(e: &EventError) -> (r: u16)
    ensures
        r == status_of(*e),
{
    match e {
        EventError::Unauthorized => 401,
        _ => 400,
    }
}

/// Creates a group on behalf of `session`, which must carry `groups:post`:
/// at once when `auto_commit` holds, else by staging an event whose
/// identifier is returned.
pub fn post_group(
    db: &mut Database,
    session: u128,
    name: &String,
    description: &String,
    permissions: &Vec<String>,
    auto_commit: bool,
    now: u64,
) -> (r: Result<Option<u64>, EventError>)
    requires
        old(db).wf(),
    ensures
        final(db).wf(),
        (r matches Err(EventError::Unauthorized)) <==> !session_may(
            *old(db),
            session,
            "groups:post"@,
            now,
        ),
        r is Err ==> *final(db) == *old(db),
        auto_commit && session_may(*old(db), session, "groups:post"@, now) ==> exists|
            rr: Result<(), GroupInsertError>,
        |
            #[trigger] insert_group_post(
                *old(db),
                name@,
                description@,
                permissions@,
                *final(db),
                rr,
            ) && (rr is Ok <==> r == Ok::<Option<u64>, EventError>(None)) && (rr == Err::<
                (),
                GroupInsertError,
            >(GroupInsertError::NameConflict) <==> (r matches Err(EventError::NameConflict))) && (
            rr == Err::<(), GroupInsertError>(GroupInsertError::NameError) <==> (r matches Err(
                EventError::NameError,
            ))),
        !auto_commit && session_may(*old(db), session, "groups:post"@, now)
            && old(db).next_event_id < u64::MAX ==> r is Ok,
        !auto_commit && r is Err ==> (r matches Err(EventError::Unauthorized)) || (r matches Err(
            EventError::StorageError,
        )),
        r matches Ok(Some(id)) ==> !auto_commit && event_created(
            *old(db),
            *final(db),
            id,
            EventType::GroupInsert,
            Some(session),
            now,
        ) && (final(db).events@.last().payload matches EventPayload::GroupInsert {
            name: n,
            description: d,
            permissions: p,
        } && n == *name && d == *description && p@ == permissions@),
        r matches Ok(None) ==> auto_commit,
{
    if !db.session_has_permission(session, "groups:post", now) {
        return Err(EventError::Unauthorized);
    }
    if auto_commit {
        let rr = Group::insert(db, name, description, permissions);
        assert(insert_group_post(*old(db), name@, description@, permissions@, *db, rr));
        match rr {
            Ok(()) => Ok(None),
            Err(GroupInsertError::NameConflict) => Err(EventError::NameConflict),
            Err(GroupInsertError::NameError) => Err(EventError::NameError),
        }
    } else {
        let payload = EventPayload::GroupInsert {
            name: name.clone(),
            description: description.clone(),
            permissions: crate::events::copy_names(permissions),
        };
        match db.create_event(session, payload, now) {
            Ok(id) => Ok(Some(id)),
            Err(e) => Err(e),
        }
    }
}

/// The first row of page `page` when pages hold ten rows.
pub open spec fn page_start(page: usize) -> usize {
    if page > usize::MAX / 10 {
        usize::MAX
    } else {
        (page * 10) as usize
    }
}

/// Lists page `page` (ten groups per page, sorted by name) on behalf of
/// `session`, which must carry `groups:get`.
pub fn get_groups(
    db: &Database,
    session: u128,
    order: Option<Order>,
    page: Option<usize>,
    now: u64,
) -> (r: Result<Vec<Group>, EventError>)
    requires
        db.wf(),
    ensures
        (r matches Err(EventError::Unauthorized)) <==> !session_may(*db, session, "groups:get"@, now),
        r is Err ==> (r matches Err(EventError::Unauthorized)),
        r matches Ok(v) ==> listed(
            db.groups@,
            db.groups@.map_values(|g: Group| g.name@),
            order,
            Some(page_start(match page {
                None => 0,
                Some(p) => p,
            })),
            Some(10),
            v@,
        ),
{
    if !db.session_has_permission(session, "groups:get", now) {
        return Err(EventError::Unauthorized);
    }
    let p = match page {
        None => 0,
        Some(p) => p,
    };
    let start = if p > usize::MAX / 10 {
        usize::MAX
    } else {
        p * 10
    };
    match Group::list(db, order, Some(start), Some(10)) {
        Ok(v) => Ok(v),
        Err(_) => Err(EventError::StorageError),
    }
}

} // verus!
