use vstd::prelude::*;

verus! {

/// Lowest rating a review may carry.
pub const MIN_RATING: u8 = 1;

/// Highest rating a review may carry.
pub const MAX_RATING: u8 = 5;

/// The typed failures reported to the boundary layer.
#[derive(Clone, Copy, Debug, PartialEq, Eq, Structural)]
pub enum ServiceError {
    /// Malformed or out-of-range request data.
    InvalidInput,
    /// A referenced user, book or review does not exist.
    NotFound,
    /// A registration collided with an existing username.
    DuplicateUser,
    /// Unknown username or wrong password; the two are not told apart.
    AuthFailed,
    /// The password hashing collaborator refused to produce a hash.
    Hashing,
}

/// A registered user; only the password's hash is kept, never the password.
#[derive(Clone, Debug, PartialEq, Eq)]
pub struct User {
    pub id: u64,
    pub username: String,
    pub password_hash: String,
}

/// A catalogued book with its aggregate block of running totals.
#[derive(Clone, Debug, PartialEq, Eq)]
pub struct Book {
    pub id: u64,
    pub author_id: u64,
    pub title: String,
    pub metadata: String,
    pub review_count: u64,
    pub rating_sum: u128,
}

/// An immutable review of one book by one user.
#[derive(Clone, Debug, PartialEq, Eq)]
pub struct Review {
    pub id: u64,
    pub book_id: u64,
    pub user_id: u64,
    pub rating: u8,
    pub body: String,
    pub created_at: u64,
}

pub open spec fn rating_in_bounds(rating: u8) -> bool {
    MIN_RATING <= rating <= MAX_RATING
}

/// The average rating rounded down, or `None` while no review exists.
pub open spec fn spec_average_floor(review_count: u64, rating_sum: u128) -> Option<u128> {
    if review_count == 0 {
        None
    } else {
        Some((rating_sum / (review_count as u128)) as u128)
    }
}

impl Book {
    /// Whole part of `rating_sum / review_count`; undefined (`None`) for an
    /// unreviewed book.
    pub fn average_rating_floor(&self) -> (r: Option<u128>)
        ensures
            r == spec_average_floor(self.review_count, self.rating_sum),
    {
        if self.review_count == 0 {
            None
        } else {
            Some(self.rating_sum / (self.review_count as u128))
        }
    }

    /// True when the aggregate's average is exactly `value`.
    pub fn average_rating_is(&self, value: u128) -> (r: bool)
        ensures
            r == (self.review_count > 0 && self.rating_sum == self.review_count * value),
    {
        if self.review_count == 0 {
            false
        } else {
            match (self.review_count as u128).checked_mul(value) {
                Some(p) => p == self.rating_sum,
                None => false,
            }
        }
    }
}

/// A copy of `s` that is known to equal it.
pub fn copy_string(s: &String) -> (r: String)
    ensures
        r == *s,
{
    s.clone()
}

impl User {
    pub fn duplicate(&self) -> (r: User)
        ensures
            r == *self,
    {
        User { id: self.id, username: copy_string(&self.username), password_hash: copy_string(&self.password_hash) }
    }
}

impl Book {
    pub fn duplicate(&self) -> (r: Book)
        ensures
            r == *self,
    {
        Book {
            id: self.id,
            author_id: self.author_id,
            title: copy_string(&self.title),
            metadata: copy_string(&self.metadata),
            review_count: self.review_count,
            rating_sum: self.rating_sum,
        }
    }
}

impl Review {
    pub fn duplicate(&self) -> (r: Review)
        ensures
            r == *self,
    {
        Review {
            id: self.id,
            book_id: self.book_id,
            user_id: self.user_id,
            rating: self.rating,
            body: copy_string(&self.body),
            created_at: self.created_at,
        }
    }
}

} // verus!
