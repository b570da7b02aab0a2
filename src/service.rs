use vstd::prelude::*;
use vstd::string::*;
use crate::model::{opt_stamp_view, Feedback, FeedbackView, Timestamp};
use crate::schema::{
    effective_limit, merged, window_offset, CreateFeedbackSchema, FilterOptions,
    UpdateFeedbackSchema,
};
use crate::store::{id_lt, page_of, sorted_by_id, FeedbackTable, StoreError};

verus! {

/// How a service operation failed.
#[derive(Clone, Debug)]
pub enum ServiceError {
    /// No record has the requested id.
    NotFound,
    /// The record would collide with a stored one on a unique field.
    Conflict,
    /// Any other store failure, with its description.
    Internal(String),
}

impl ServiceError {
    /// The HTTP status that reports this error.
    pub fn status_code(&self) -> (r: u16)
        ensures
            r == match self {
                ServiceError::NotFound => 404u16,
                ServiceError::Conflict => 409u16,
                ServiceError::Internal(_) => 500u16,
            },
    {
        match self {
            ServiceError::NotFound => 404,
            ServiceError::Conflict => 409,
            ServiceError::Internal(_) => 500,
        }
    }

    /// Whether the failure lies with the request (`"fail"`) rather than the
    /// server (`"error"`).
    pub fn is_client_failure(&self) -> (r: bool)
        ensures
            r == !(self is Internal),
    {
        !matches!(self, ServiceError::Internal(_))
    }
}

/// The description given for a store error that is not one of its own kind.
pub open spec fn describe(e: StoreError) -> Seq<char> {
    match e {
        StoreError::RowNotFound => "row not found"@,
        StoreError::UniqueViolation => "unique constraint violated"@,
        StoreError::Other(m) => m@,
    }
}

fn describe_exec(e: StoreError) -> (r: String)
    ensures
        r@ == describe(e),
{
    match e {
        StoreError::RowNotFound => String::from_str("row not found"),
        StoreError::UniqueViolation => String::from_str("unique constraint violated"),
        StoreError::Other(m) => m,
    }
}

/// Maps a failed insert to the service's error.
pub fn classify_create_error(e: StoreError) -> (r: ServiceError)
    ensures
        match e {
            StoreError::UniqueViolation => r is Conflict,
            _ => r is Internal && r->Internal_0@ == describe(e),
        },
{
    match e {
        StoreError::UniqueViolation => ServiceError::Conflict,
        _ => ServiceError::Internal(describe_exec(e)),
    }
}

/// Maps a failed read-back of a row that was just inserted: the row must be
/// there, so every failure, a missing row included, is an internal error.
pub fn classify_reread_error(e: StoreError) -> (r: ServiceError)
    ensures
        r is Internal && r->Internal_0@ == describe(e),
{
    ServiceError::Internal(describe_exec(e))
}

/// Maps a failed read of one row to the service's error: a missing row is
/// not-found, any other failure an internal error.
pub fn classify_read_error(e: StoreError) -> (r: ServiceError)
    ensures
        match e {
            StoreError::RowNotFound => r is NotFound,
            _ => r is Internal && r->Internal_0@ == describe(e),
        },
{
    match e {
        StoreError::RowNotFound => ServiceError::NotFound,
        _ => ServiceError::Internal(describe_exec(e)),
    }
}

/// A write by id that changed no row means the id names no record.
pub fn require_affected(rows: u64) -> (r: Result<(), ServiceError>)
    ensures
        rows == 0 ==> r == Err::<(), ServiceError>(ServiceError::NotFound),
        rows != 0 ==> r == Ok::<(), ServiceError>(()),
{
    if rows == 0 {
        Err(ServiceError::NotFound)
    } else {
        Ok(())
    }
}

/// The message that reports a missing record.
pub fn not_found_message(id: &str) -> (r: String)
    ensures
        r@ == "Feedback with ID: "@ + id@ + " not found"@,
{
    let mut r = String::from_str("Feedback with ID: ");
    r.append(id);
    r.append(" not found");
    r
}

/// The `updated_at` an update writes: `now`, unless that would not advance
/// past the previous stamp, in which case one microsecond after it.
pub open spec fn update_stamp(prev: Option<i64>, now: i64) -> i64 {
    match prev {
        Some(p) => if p < now {
            now
        } else if p < i64::MAX {
            (p + 1) as i64
        } else {
            p
        },
        None => now,
    }
}

pub fn next_update_stamp(prev: Option<Timestamp>, now: Timestamp) -> (r: Timestamp)
    ensures
        r.micros == update_stamp(opt_stamp_view(prev), now.micros),
{
    match prev {
        Some(p) => if p.micros < now.micros {
            now
        } else if p.micros < i64::MAX {
            Timestamp { micros: p.micros + 1 }
        } else {
            p
        },
        None => now,
    }
}

/// The record a create stores: the client's fields, the given id and
/// creation time, no status and no update time.
pub open spec fn created_view(id: Seq<char>, body: CreateFeedbackSchema, created: i64) -> FeedbackView {
    FeedbackView {
        id: id,
        name: body.name@,
        email: body.email@,
        feedback: body.feedback@,
        rating: body.rating.bits,
        status: None,
        created_at: Some(created),
        updated_at: None,
    }
}

/// Builds the row that a create inserts.
pub fn new_record(id: String, body: &CreateFeedbackSchema, created: Timestamp) -> (r: Feedback)
    ensures
        r@ == created_view(id@, *body, created.micros),
{
    Feedback {
        id,
        name: body.name.clone(),
        email: body.email.clone(),
        feedback: body.feedback.clone(),
        rating: body.rating,
        status: None,
        created_at: Some(created),
        updated_at: None,
    }
}

pub open spec fn outcome(r: Result<Feedback, ServiceError>) -> Result<FeedbackView, ServiceError> {
    match r {
        Ok(f) => Ok(f@),
        Err(e) => Err(e),
    }
}

/// What get returns on a table keyed as `m`.
pub open spec fn get_result(m: Map<Seq<char>, FeedbackView>, id: Seq<char>) -> Result<FeedbackView, ServiceError> {
    if m.contains_key(id) {
        Ok(m[id])
    } else {
        Err(ServiceError::NotFound)
    }
}

/// What create returns, given the id and creation time it was handed.
pub open spec fn create_result(
    m: Map<Seq<char>, FeedbackView>,
    id: Seq<char>,
    body: CreateFeedbackSchema,
    now: i64,
) -> Result<FeedbackView, ServiceError> {
    if m.contains_key(id) {
        Err(ServiceError::Conflict)
    } else {
        Ok(created_view(id, body, now))
    }
}

/// The table after create.
pub open spec fn after_create(
    m: Map<Seq<char>, FeedbackView>,
    id: Seq<char>,
    body: CreateFeedbackSchema,
    now: i64,
) -> Map<Seq<char>, FeedbackView> {
    if m.contains_key(id) {
        m
    } else {
        m.insert(id, created_view(id, body, now))
    }
}

/// What update returns, given the time it read.
pub open spec fn update_result(
    m: Map<Seq<char>, FeedbackView>,
    id: Seq<char>,
    u: UpdateFeedbackSchema,
    now: i64,
) -> Result<FeedbackView, ServiceError> {
    if m.contains_key(id) {
        Ok(merged(m[id], u, update_stamp(m[id].updated_at, now)))
    } else {
        Err(ServiceError::NotFound)
    }
}

/// The table after update.
pub open spec fn after_update(
    m: Map<Seq<char>, FeedbackView>,
    id: Seq<char>,
    u: UpdateFeedbackSchema,
    now: i64,
) -> Map<Seq<char>, FeedbackView> {
    if m.contains_key(id) {
        m.insert(id, merged(m[id], u, update_stamp(m[id].updated_at, now)))
    } else {
        m
    }
}

/// What delete returns.
pub open spec fn delete_result(m: Map<Seq<char>, FeedbackView>, id: Seq<char>) -> Result<(), ServiceError> {
    if m.contains_key(id) {
        Ok(())
    } else {
        Err(ServiceError::NotFound)
    }
}

/// The table after delete.
pub open spec fn after_delete(m: Map<Seq<char>, FeedbackView>, id: Seq<char>) -> Map<Seq<char>, FeedbackView> {
    m.remove(id)
}

/// One page of a listing and the number of records on it.
#[derive(Debug)]
pub struct FeedbackPage {
    pub results: usize,
    pub feedbacks: Vec<Feedback>,
}

/// Lists the records of the page that `opts` selects, in order of id.
pub fn list_feedbacks(table: &FeedbackTable, opts: &FilterOptions) -> (r: FeedbackPage)
    requires
        table.wf(),
    ensures
        r.feedbacks@.map_values(|f: Feedback| f@) == page_of(
            table@,
            effective_limit(opts.limit),
            window_offset(*opts),
        ),
        r.results == r.feedbacks@.len(),
        r.results == page_of(table@, effective_limit(opts.limit), window_offset(*opts)).len(),
        sorted_by_id(r.feedbacks@.map_values(|f: Feedback| f@)),
{
    let w = opts.window();
    let feedbacks = table.select(w);
    let ghost s = page_of(table@, w.limit as int, w.offset as int);
    assert(sorted_by_id(s)) by {
        assert forall|i: int, j: int| 0 <= i < j < s.len() implies id_lt(
            #[trigger] s[i].id,
            #[trigger] s[j].id,
        ) by {
            let start = if w.offset < table@.len() { w.offset as int } else { table@.len() as int };
            assert(s[i] == table@[start + i]);
            assert(s[j] == table@[start + j]);
        };
    };
    FeedbackPage { results: feedbacks.len(), feedbacks }
}

/// Creates a record with the given id and creation time.
pub fn create_feedback_with(
    table: &mut FeedbackTable,
    id: String,
    body: &CreateFeedbackSchema,
    now: Timestamp,
) -> (r: Result<Feedback, ServiceError>)
    requires
        old(table).wf(),
    ensures
        final(table).wf(),
        outcome(r) == create_result(old(table).rows_map(), id@, *body, now.micros),
        final(table).rows_map() == after_create(old(table).rows_map(), id@, *body, now.micros),
        final(table)@.len() == old(table)@.len() + if r is Ok { 1int } else { 0int },
{
    let row = new_record(id, body, now);
    let back = row.copy();
    match table.insert(row) {
        Ok(()) => Ok(back),
        Err(e) => Err(classify_create_error(e)),
    }
}

/// Creates a record under a fresh random id, stamped with the current time.
pub fn create_feedback(table: &mut FeedbackTable, body: &CreateFeedbackSchema) -> (r: Result<
    Feedback,
    ServiceError,
>)
    requires
        old(table).wf(),
    ensures
        final(table).wf(),
        match r {
            Ok(f) => {
                &&& !old(table).rows_map().contains_key(f@.id)
                &&& f.created_at matches Some(t) && f@ == created_view(f@.id, *body, t.micros)
                &&& final(table).rows_map() == old(table).rows_map().insert(f@.id, f@)
            },
            Err(e) => e is Conflict && final(table).rows_map() == old(table).rows_map(),
        },
        r matches Ok(f) ==> f@.id.len() == 36,
        r is Err ==> exists|k: Seq<char>|
            k.len() == 36 && #[trigger] old(table).rows_map().contains_key(k),
        final(table)@.len() == old(table)@.len() + if r is Ok { 1int } else { 0int },
{
    let id = fresh_id();
    let now = current_time();
    create_feedback_with(table, id, body, now)
}

/// The record with id `id`.
pub fn get_feedback(table: &FeedbackTable, id: &str) -> (r: Result<Feedback, ServiceError>)
    requires
        table.wf(),
    ensures
        outcome(r) == get_result(table.rows_map(), id@),
{
    match table.fetch(id) {
        Ok(f) => Ok(f),
        Err(e) => Err(classify_read_error(e)),
    }
}

/// Applies the partial update `body` to the record with id `id`, as of `now`.
pub fn edit_feedback_at(
    table: &mut FeedbackTable,
    id: &str,
    body: &UpdateFeedbackSchema,
    now: Timestamp,
) -> (r: Result<Feedback, ServiceError>)
    requires
        old(table).wf(),
    ensures
        final(table).wf(),
        outcome(r) == update_result(old(table).rows_map(), id@, *body, now.micros),
        final(table).rows_map() == after_update(old(table).rows_map(), id@, *body, now.micros),
        final(table)@.len() == old(table)@.len(),
{
    let current = match table.fetch(id) {
        Ok(f) => f,
        Err(e) => {
            return Err(classify_read_error(e));
        },
    };
    let stamp = next_update_stamp(current.updated_at, now);
    let row = body.apply(&current, stamp);
    let rows = table.replace(row);
    match require_affected(rows) {
        Ok(()) => {},
        Err(e) => {
            return Err(e);
        },
    }
    match table.fetch(id) {
        Ok(f) => Ok(f),
        Err(e) => Err(classify_read_error(e)),
    }
}

/// Applies the partial update `body` to the record with id `id`, as of the
/// current time.
pub fn edit_feedback(table: &mut FeedbackTable, id: &str, body: &UpdateFeedbackSchema) -> (r: Result<
    Feedback,
    ServiceError,
>)
    requires
        old(table).wf(),
    ensures
        final(table).wf(),
        match r {
            Ok(f) => {
                &&& old(table).rows_map().contains_key(id@)
                &&& f.updated_at matches Some(t) && f@ == merged(
                    old(table).rows_map()[id@],
                    *body,
                    t.micros,
                )
                &&& final(table).rows_map() == old(table).rows_map().insert(id@, f@)
                &&& old(table).rows_map()[id@].updated_at matches Some(p) ==> (p < i64::MAX ==> p
                    < f@.updated_at->Some_0)
                &&& f@.updated_at->Some_0 >= 0
            },
            Err(e) => {
                &&& e is NotFound
                &&& !old(table).rows_map().contains_key(id@)
                &&& final(table).rows_map() == old(table).rows_map()
            },
        },
        final(table)@.len() == old(table)@.len(),
{
    let now = current_time();
    edit_feedback_at(table, id, body, now)
}

/// Deletes the record with id `id`.
pub fn delete_feedback(table: &mut FeedbackTable, id: &str) -> (r: Result<(), ServiceError>)
    requires
        old(table).wf(),
    ensures
        final(table).wf(),
        r == delete_result(old(table).rows_map(), id@),
        final(table).rows_map() == after_delete(old(table).rows_map(), id@),
        final(table)@.len() == old(table)@.len() - if r is Ok { 1int } else { 0int },
{
    let rows = table.remove(id);
    require_affected(rows)
}

/// Relies on uuid::Uuid::new_v4 and its `Display` form: a random identifier,
/// written as 36 characters in the hyphenated form.
#[verifier::external_body]
fn fresh_id() -> (r: String)
    ensures
        r@.len() == 36,
{
    uuid::Uuid::new_v4().to_string()
}

/// Relies on chrono::Utc::now and DateTime::timestamp_micros: the current
/// time, in microseconds since the Unix epoch. `Utc::now` measures the
/// system clock from the epoch (it panics on a clock set before it), so the
/// result is never negative.
#[verifier::external_body]
fn current_time() -> (r: Timestamp)
    ensures
        r.micros >= 0,
{
    Timestamp { micros: chrono::Utc::now().timestamp_micros() }
}

} // verus!
