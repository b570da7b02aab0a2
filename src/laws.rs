use vstd::prelude::*;
use crate::model::FeedbackView;
use crate::schema::{CreateFeedbackSchema, UpdateFeedbackSchema};
use crate::service::{
    after_create, after_delete, after_update, create_result, delete_result, get_result, update_result,
    update_stamp, ServiceError,
};
use crate::store::page_of;

verus! {

/// A create that succeeds returns a record whose id no earlier record has,
/// that has a creation time and no update time, and that is then stored
/// under its id.
pub proof fn lemma_create_fresh(
    m: Map<Seq<char>, FeedbackView>,
    id: Seq<char>,
    body: CreateFeedbackSchema,
    now: i64,
)
    ensures
        create_result(m, id, body, now) matches Ok(v) ==> {
            &&& v.id == id
            &&& !m.contains_key(v.id)
            &&& v.created_at is Some
            &&& v.updated_at is None
            &&& after_create(m, id, body, now) == m.insert(v.id, v)
        },
{
}

/// Reading a record right after creating it returns the created record.
pub proof fn lemma_get_after_create(
    m: Map<Seq<char>, FeedbackView>,
    id: Seq<char>,
    body: CreateFeedbackSchema,
    now: i64,
)
    ensures
        create_result(m, id, body, now) is Ok ==> get_result(after_create(m, id, body, now), id)
            == create_result(m, id, body, now),
{
}

/// An update that sets no field changes nothing but `updated_at`, which
/// moves past its previous value and is no earlier than the time read.
pub proof fn lemma_empty_update(
    m: Map<Seq<char>, FeedbackView>,
    id: Seq<char>,
    u: UpdateFeedbackSchema,
    now: i64,
)
    requires
        m.contains_key(id),
        u.name is None && u.email is None && u.feedback is None,
        u.rating is None && u.status is None,
        m[id].updated_at != Some(i64::MAX),
    ensures
        update_result(m, id, u, now) matches Ok(v) && {
            let old_row = m[id];
            &&& v.id == old_row.id
            &&& v.name == old_row.name
            &&& v.email == old_row.email
            &&& v.feedback == old_row.feedback
            &&& v.rating == old_row.rating
            &&& v.status == old_row.status
            &&& v.created_at == old_row.created_at
            &&& v.updated_at matches Some(t) && now <= t && (old_row.updated_at matches Some(p)
                ==> p < t)
        },
{
}

/// An update that sets only the rating changes the rating and `updated_at`
/// and nothing else.
pub proof fn lemma_rating_update(
    m: Map<Seq<char>, FeedbackView>,
    id: Seq<char>,
    u: UpdateFeedbackSchema,
    now: i64,
)
    requires
        m.contains_key(id),
        u.name is None && u.email is None && u.feedback is None,
        u.rating is Some && u.status is None,
        m[id].updated_at != Some(i64::MAX),
    ensures
        update_result(m, id, u, now) matches Ok(v) && {
            let old_row = m[id];
            &&& v.rating == u.rating->Some_0.bits
            &&& v.id == old_row.id
            &&& v.name == old_row.name
            &&& v.email == old_row.email
            &&& v.feedback == old_row.feedback
            &&& v.status == old_row.status
            &&& v.created_at == old_row.created_at
            &&& v.updated_at matches Some(t) && now <= t && (old_row.updated_at matches Some(p)
                ==> p < t)
        },
{
}

/// Applying the same update twice gives the same fields both times, and the
/// second `updated_at` lies strictly after the first.
pub proof fn lemma_repeated_update(
    m: Map<Seq<char>, FeedbackView>,
    id: Seq<char>,
    u: UpdateFeedbackSchema,
    now1: i64,
    now2: i64,
)
    requires
        m.contains_key(id),
        update_stamp(m[id].updated_at, now1) < i64::MAX,
    ensures
        update_result(m, id, u, now1) matches Ok(v1) && update_result(
            after_update(m, id, u, now1),
            id,
            u,
            now2,
        ) matches Ok(v2) && {
            &&& v2.id == v1.id
            &&& v2.name == v1.name
            &&& v2.email == v1.email
            &&& v2.feedback == v1.feedback
            &&& v2.rating == v1.rating
            &&& v2.status == v1.status
            &&& v2.created_at == v1.created_at
            &&& v1.updated_at->Some_0 < v2.updated_at->Some_0
        },
{
}

/// After a record is deleted, reading it reports not-found.
pub proof fn lemma_get_after_delete(m: Map<Seq<char>, FeedbackView>, id: Seq<char>)
    ensures
        get_result(after_delete(m, id), id) == Err::<FeedbackView, ServiceError>(
            ServiceError::NotFound,
        ),
{
}

/// Deleting an id that names no record reports not-found and changes nothing.
pub proof fn lemma_delete_missing(m: Map<Seq<char>, FeedbackView>, id: Seq<char>)
    requires
        !m.contains_key(id),
    ensures
        delete_result(m, id) == Err::<(), ServiceError>(ServiceError::NotFound),
        after_delete(m, id) == m,
{
    assert(m.remove(id) =~= m);
}

/// Creating a record whose id is already stored reports a conflict and
/// changes nothing.
pub proof fn lemma_create_conflict(
    m: Map<Seq<char>, FeedbackView>,
    id: Seq<char>,
    body: CreateFeedbackSchema,
    now: i64,
)
    requires
        m.contains_key(id),
    ensures
        create_result(m, id, body, now) == Err::<FeedbackView, ServiceError>(
            ServiceError::Conflict,
        ),
        after_create(m, id, body, now) == m,
{
}

/// A listing of an empty table is empty, whatever page it asks for.
pub proof fn lemma_list_empty(limit: int, offset: int)
    requires
        0 <= limit,
        0 <= offset,
    ensures
        page_of(Seq::<FeedbackView>::empty(), limit, offset) == Seq::<FeedbackView>::empty(),
{
    assert(page_of(Seq::<FeedbackView>::empty(), limit, offset) =~= Seq::<FeedbackView>::empty());
}

/// Reading an id that names no record reports not-found, never an internal
/// error.
pub proof fn lemma_get_missing(m: Map<Seq<char>, FeedbackView>, id: Seq<char>)
    requires
        !m.contains_key(id),
    ensures
        get_result(m, id) == Err::<FeedbackView, ServiceError>(ServiceError::NotFound),
{
}

} // verus!
