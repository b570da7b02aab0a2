use vstd::prelude::*;
use crate::model::{copy_opt_str, Feedback, FeedbackView, Rating, Timestamp};

verus! {

/// The page used when a listing names none.
pub const DEFAULT_PAGE: usize = 1;

/// The number of records per page when a listing names none.
pub const DEFAULT_LIMIT: usize = 10;

/// Query options of a listing: a 1-based page number and a page size.
#[derive(Clone, Copy, Debug, PartialEq, Eq, Structural, Default)]
pub struct FilterOptions {
    pub page: Option<usize>,
    pub limit: Option<usize>,
}

/// Which rows a listing asks for: at most `limit` rows after skipping `offset`.
#[derive(Clone, Copy, Debug, PartialEq, Eq, Structural)]
pub struct PageWindow {
    pub limit: usize,
    pub offset: usize,
}

/// The page a listing reads; a page below 1 is read as page 1.
pub open spec fn effective_page(page: Option<usize>) -> int {
    match page {
        Some(p) => if p >= 1 { p as int } else { 1 },
        None => DEFAULT_PAGE as int,
    }
}

pub open spec fn effective_limit(limit: Option<usize>) -> int {
    match limit {
        Some(l) => l as int,
        None => DEFAULT_LIMIT as int,
    }
}

/// `(page - 1) * limit`, capped at `usize::MAX`: past the last row every
/// offset selects the same empty page.
pub open spec fn window_offset(opts: FilterOptions) -> int {
    let o = (effective_page(opts.page) - 1) * effective_limit(opts.limit);
    if o <= usize::MAX as int { o } else { usize::MAX as int }
}

impl FilterOptions {
    /// The rows that these options select.
    pub fn window(&self) -> (r: PageWindow)
        ensures
            r.limit as int == effective_limit(self.limit),
            r.offset as int == window_offset(*self),
    {
        let page: usize = match self.page {
            Some(p) => if p >= 1 { p } else { 1 },
            None => DEFAULT_PAGE,
        };
        let limit: usize = match self.limit {
            Some(l) => l,
            None => DEFAULT_LIMIT,
        };
        let offset: usize = match (page - 1).checked_mul(limit) {
            Some(o) => o,
            None => usize::MAX,
        };
        PageWindow { limit, offset }
    }
}

/// The fields a client supplies to create a record. `status` is accepted but
/// not stored by a create.
#[derive(Clone, Debug)]
pub struct CreateFeedbackSchema {
    pub name: String,
    pub email: String,
    pub feedback: String,
    pub rating: Rating,
    pub status: Option<String>,
}

/// A partial update: each field that is `None` is left as it is.
#[derive(Clone, Debug, Default)]
pub struct UpdateFeedbackSchema {
    pub name: Option<String>,
    pub email: Option<String>,
    pub feedback: Option<String>,
    pub rating: Option<Rating>,
    pub status: Option<String>,
}

pub open spec fn pick_str(given: Option<String>, current: Seq<char>) -> Seq<char> {
    match given {
        Some(v) => v@,
        None => current,
    }
}

/// The record after `update` is applied to `current` at instant `stamp`.
pub open spec fn merged(current: FeedbackView, update: UpdateFeedbackSchema, stamp: i64) -> FeedbackView {
    FeedbackView {
        id: current.id,
        name: pick_str(update.name, current.name),
        email: pick_str(update.email, current.email),
        feedback: pick_str(update.feedback, current.feedback),
        rating: match update.rating {
            Some(r) => r.bits,
            None => current.rating,
        },
        status: match update.status {
            Some(s) => Some(s@),
            None => current.status,
        },
        created_at: current.created_at,
        updated_at: Some(stamp),
    }
}

/// A field of the merge: the given value, else a copy of the current one.
fn pick_string(given: &Option<String>, current: &String) -> (r: String)
    ensures
        r@ == pick_str(*given, current@),
{
    match given {
        Some(v) => v.clone(),
        None => current.clone(),
    }
}

impl UpdateFeedbackSchema {
    /// The update with no field set.
    pub fn empty() -> (r: UpdateFeedbackSchema)
        ensures
            r.name.is_none() && r.email.is_none() && r.feedback.is_none(),
            r.rating.is_none() && r.status.is_none(),
    {
        UpdateFeedbackSchema { name: None, email: None, feedback: None, rating: None, status: None }
    }

    /// Applies this partial update to `current`, stamping it with `stamp`.
    pub fn apply(&self, current: &Feedback, stamp: Timestamp) -> (r: Feedback)
        ensures
            r@ == merged(current@, *self, stamp.micros),
    {
        let status = match &self.status {
            Some(s) => Some(s.clone()),
            None => copy_opt_str(&current.status),
        };
        Feedback {
            id: current.id.clone(),
            name: pick_string(&self.name, &current.name),
            email: pick_string(&self.email, &current.email),
            feedback: pick_string(&self.feedback, &current.feedback),
            rating: match self.rating {
                Some(r) => r,
                None => current.rating,
            },
            status,
            created_at: current.created_at,
            updated_at: Some(stamp),
        }
    }
}

} // verus!
