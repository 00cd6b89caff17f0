use vstd::prelude::*;
use crate::database::{Database, review_admissible, review_appended, with_review};
use crate::model::ServiceError;

verus! {

/// The outcome `add_review` owes: `NotFound` for an unknown book, then for an
/// unknown user, `InvalidInput` for an out-of-bounds rating or a creation
/// time earlier than the latest review's, else the new review's id.
pub open spec fn add_review_outcome(
    db: &Database,
    book_id: u64,
    user_id: u64,
    rating: u8,
    created_at: u64,
) -> Result<u64, ServiceError> {
    if book_id >= db.books().len() || user_id >= db.users().len() {
        Err(ServiceError::NotFound)
    } else if !review_admissible(db.reviews(), rating, created_at) {
        Err(ServiceError::InvalidInput)
    } else {
        Ok(db.reviews().len() as u64)
    }
}

/// Adds a review of `book_id` by `user_id`: checks that both exist, then
/// hands the write to the ledger, which records the review and advances the
/// book's aggregate together. A failure changes nothing.
pub fn add_review(
    db: &mut Database,
    book_id: u64,
    user_id: u64,
    rating: u8,
    body: &str,
    created_at: u64,
) -> (r: Result<u64, ServiceError>)
    requires
        old(db).wf(),
        add_review_outcome(old(db), book_id, user_id, rating, created_at) is Ok ==> old(db).reviews().len() < usize::MAX,
    ensures
        final(db).wf(),
        r == add_review_outcome(old(db), book_id, user_id, rating, created_at),
        r is Err ==> final(db).unchanged_from(old(db)),
        r is Ok ==> {
            &&& review_appended(old(db).reviews(), final(db).reviews(), book_id, user_id, rating, body@, created_at)
            &&& final(db).books() == old(db).books().update(
                book_id as int,
                with_review(old(db).books()[book_id as int], rating),
            )
            &&& final(db).users() == old(db).users()
        },
{
    if db.get_book(book_id).is_err() {
        return Err(ServiceError::NotFound);
    }
    if !db.user_exists(user_id) {
        return Err(ServiceError::NotFound);
    }
    db.append_review(book_id, user_id, rating, body, created_at)
}

} // verus!
