use crate::events::{event_created, EventError, EventPayload, EventType};
use crate::sessions::session_may;
use crate::store::{Database, User};
use crate::users::delete_user_post;
use vstd::prelude::*;

verus! {

/// The query of a user deletion request.
pub struct QueryData {
    pub session_token: u128,
    pub auto_commit: bool,
}

/// Deletes user `login` on behalf of the query's session, which must carry
/// `users:delete:{login}`: at once when `query.auto_commit` holds, else by
/// staging an event whose identifier is returned.
pub fn controller(
    db: &mut Database,
    query: &QueryData,
    login: &String,
    now: u64,
) -> (r: Result<Option<u64>, EventError>)
    requires
        old(db).wf(),
    ensures
        final(db).wf(),
        (r matches Err(EventError::Unauthorized)) <==> !session_may(
            *old(db),
            query.session_token,
            "users:delete:"@ + login@,
            now,
        ),
        r is Err ==> *final(db) == *old(db),
        r is Ok && query.auto_commit ==> r == Ok::<Option<u64>, EventError>(None) && delete_user_post(
            *old(db),
            login@,
            *final(db),
        ),
        query.auto_commit && session_may(
            *old(db),
            query.session_token,
            "users:delete:"@ + login@,
            now,
        ) ==> r == Ok::<Option<u64>, EventError>(None),
        r matches Ok(Some(id)) ==> !query.auto_commit && event_created(
            *old(db),
            *final(db),
            id,
            EventType::UserDelete,
            Some(query.session_token),
            now,
        ) && final(db).events@.last().payload == (EventPayload::UserDelete { login: *login }),
        !query.auto_commit && session_may(*old(db), query.session_token, "users:delete:"@ + login@, now)
            && old(db).next_event_id < u64::MAX ==> r is Ok,
{
    let required = "users:delete:".to_owned().concat(login.as_str());
    if !db.session_has_permission(query.session_token, required.as_str(), now) {
        return Err(EventError::Unauthorized);
    }
    if query.auto_commit {
        User::delete(db, login);
        Ok(None)
    } else {
        match User::event().delete(db, login, query.session_token, now) {
            Ok(id) => Ok(Some(id)),
            Err(e) => Err(e),
        }
    }
}

} // verus!
