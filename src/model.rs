use vstd::prelude::*;

verus! {

/// A feedback score, held as the IEEE-754 bit pattern of a 32-bit float.
#[derive(Clone, Copy, Debug, PartialEq, Eq, Structural)]
pub struct Rating {
    pub bits: u32,
}

/// An instant, in microseconds since the Unix epoch (UTC).
#[derive(Clone, Copy, Debug, PartialEq, Eq, Structural)]
pub struct Timestamp {
    pub micros: i64,
}

/// One stored feedback record.
#[derive(Clone, Debug)]
pub struct Feedback {
    pub id: String,
    pub name: String,
    pub email: String,
    pub feedback: String,
    pub rating: Rating,
    pub status: Option<String>,
    pub created_at: Option<Timestamp>,
    pub updated_at: Option<Timestamp>,
}

/// The mathematical value of a `Feedback`.
pub struct FeedbackView {
    pub id: Seq<char>,
    pub name: Seq<char>,
    pub email: Seq<char>,
    pub feedback: Seq<char>,
    pub rating: u32,
    pub status: Option<Seq<char>>,
    pub created_at: Option<i64>,
    pub updated_at: Option<i64>,
}

pub open spec fn opt_str_view(s: Option<String>) -> Option<Seq<char>> {
    match s {
        Some(v) => Some(v@),
        None => None,
    }
}

pub open spec fn opt_stamp_view(t: Option<Timestamp>) -> Option<i64> {
    match t {
        Some(v) => Some(v.micros),
        None => None,
    }
}

impl View for Feedback {
    type V = FeedbackView;

    open spec fn view(&self) -> FeedbackView {
        FeedbackView {
            id: self.id@,
            name: self.name@,
            email: self.email@,
            feedback: self.feedback@,
            rating: self.rating.bits,
            status: opt_str_view(self.status),
            created_at: opt_stamp_view(self.created_at),
            updated_at: opt_stamp_view(self.updated_at),
        }
    }
}

/// A copy of an optional string with the same contents.
pub fn copy_opt_str(s: &Option<String>) -> (r: Option<String>)
    ensures
        opt_str_view(r) == opt_str_view(*s),
{
    match s {
        Some(v) => Some(v.clone()),
        None => None,
    }
}

impl Feedback {
    /// A copy of this record with the same contents.
    pub fn copy(&self) -> (r: Feedback)
        ensures
            r@ == self@,
    {
        Feedback {
            id: self.id.clone(),
            name: self.name.clone(),
            email: self.email.clone(),
            feedback: self.feedback.clone(),
            rating: self.rating,
            status: copy_opt_str(&self.status),
            created_at: self.created_at,
            updated_at: self.updated_at,
        }
    }
}

} // verus!
