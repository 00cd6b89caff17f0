use vstd::prelude::*;
use crate::model::{Book, Review, ServiceError, User, copy_string, rating_in_bounds, MAX_RATING};

verus! {

/// The reviews of `book_id`, in the order in which they were recorded.
pub open spec fn reviews_of(reviews: Seq<Review>, book_id: u64) -> Seq<Review>
    decreases reviews.len(),
{
    if reviews.len() == 0 {
        Seq::empty()
    } else {
        let earlier = reviews_of(reviews.drop_last(), book_id);
        if reviews.last().book_id == book_id {
            earlier.push(reviews.last())
        } else {
            earlier
        }
    }
}

/// The sum of the ratings of `reviews`.
pub open spec fn rating_total(reviews: Seq<Review>) -> nat
    decreases reviews.len(),
{
    if reviews.len() == 0 {
        0
    } else {
        rating_total(reviews.drop_last()) + reviews.last().rating as nat
    }
}

pub open spec fn has_username(users: Seq<User>, name: Seq<char>) -> bool {
    exists|i: int| 0 <= i < users.len() && (#[trigger] users[i]).username@ == name
}

pub open spec fn users_wf(users: Seq<User>) -> bool {
    &&& forall|i: int| 0 <= i < users.len() ==> (#[trigger] users[i]).id == i
    &&& forall|i: int, j: int|
        0 <= i < users.len() && 0 <= j < users.len() && i != j
            ==> (#[trigger] users[i]).username@ != (#[trigger] users[j]).username@
}

/// Each book's aggregate block agrees with the reviews that reference it.
pub open spec fn books_wf(books: Seq<Book>, reviews: Seq<Review>) -> bool {
    forall|i: int| 0 <= i < books.len() ==> {
        let b = #[trigger] books[i];
        &&& b.id == i
        &&& b.review_count == reviews_of(reviews, i as u64).len()
        &&& b.rating_sum == rating_total(reviews_of(reviews, i as u64))
        &&& b.review_count <= reviews.len()
        &&& b.rating_sum <= MAX_RATING * b.review_count
    }
}

/// Creation times never decrease along `reviews`.
pub open spec fn creation_ordered(reviews: Seq<Review>) -> bool {
    forall|i: int, j: int| 0 <= i <= j < reviews.len() ==> (#[trigger] reviews[i]).created_at <= (
    #[trigger] reviews[j]).created_at
}

/// Creation time of the latest review, 0 for an empty ledger.
pub open spec fn latest_creation(reviews: Seq<Review>) -> u64 {
    if reviews.len() == 0 {
        0
    } else {
        reviews.last().created_at
    }
}

/// A review that the ledger accepts after `reviews`: a rating in bounds and
/// a creation time no earlier than the latest review's.
pub open spec fn review_admissible(reviews: Seq<Review>, rating: u8, created_at: u64) -> bool {
    rating_in_bounds(rating) && latest_creation(reviews) <= created_at
}

/// Every review references an existing book and user and has a valid rating,
/// and the ledger is in creation order.
pub open spec fn reviews_wf(reviews: Seq<Review>, n_books: nat, n_users: nat) -> bool {
    &&& forall|k: int| 0 <= k < reviews.len() ==> {
        let r = #[trigger] reviews[k];
        &&& r.id == k
        &&& r.book_id < n_books
        &&& r.user_id < n_users
        &&& rating_in_bounds(r.rating)
    }
    &&& creation_ordered(reviews)
}

/// `new` is `old` with one more user, of the given name and hash, at the end.
pub open spec fn user_appended(old: Seq<User>, new: Seq<User>, name: Seq<char>, hash: Seq<char>) -> bool {
    &&& new.len() == old.len() + 1
    &&& new.drop_last() == old
    &&& new.last().id == old.len()
    &&& new.last().username@ == name
    &&& new.last().password_hash@ == hash
}

/// `new` is `old` with one more, unreviewed, book at the end.
pub open spec fn book_appended(
    old: Seq<Book>,
    new: Seq<Book>,
    author_id: u64,
    title: Seq<char>,
    metadata: Seq<char>,
) -> bool {
    &&& new.len() == old.len() + 1
    &&& new.drop_last() == old
    &&& new.last().id == old.len()
    &&& new.last().author_id == author_id
    &&& new.last().title@ == title
    &&& new.last().metadata@ == metadata
    &&& new.last().review_count == 0
    &&& new.last().rating_sum == 0
}

/// `new` is `old` with one more review at the end.
pub open spec fn review_appended(
    old: Seq<Review>,
    new: Seq<Review>,
    book_id: u64,
    user_id: u64,
    rating: u8,
    body: Seq<char>,
    created_at: u64,
) -> bool {
    &&& new.len() == old.len() + 1
    &&& new.drop_last() == old
    &&& new.last().id == old.len()
    &&& new.last().book_id == book_id
    &&& new.last().user_id == user_id
    &&& new.last().rating == rating
    &&& new.last().body@ == body
    &&& new.last().created_at == created_at
}

/// The book with its aggregate block advanced by one review of `rating`.
pub open spec fn with_review(b: Book, rating: u8) -> Book {
    Book {
        review_count: (b.review_count + 1) as u64,
        rating_sum: (b.rating_sum + rating) as u128,
        ..b
    }
}

/// The shared persistence handle: users, books and reviews, each keyed by
/// its position. Passed explicitly to the services that use it.
pub struct Database {
    users: Vec<User>,
    books: Vec<Book>,
    reviews: Vec<Review>,
}

impl Database {
    pub closed spec fn users(&self) -> Seq<User> {
        self.users@
    }

    pub closed spec fn books(&self) -> Seq<Book> {
        self.books@
    }

    pub closed spec fn reviews(&self) -> Seq<Review> {
        self.reviews@
    }

    pub open spec fn wf(&self) -> bool {
        &&& users_wf(self.users())
        &&& books_wf(self.books(), self.reviews())
        &&& reviews_wf(self.reviews(), self.books().len(), self.users().len())
    }

    pub open spec fn unchanged_from(&self, other: &Database) -> bool {
        &&& self.users() == other.users()
        &&& self.books() == other.books()
        &&& self.reviews() == other.reviews()
    }

    /// An empty database.
    pub fn new() -> (r: Database)
        ensures
            r.wf(),
            r.users().len() == 0,
            r.books().len() == 0,
            r.reviews().len() == 0,
    {
        Database { users: Vec::new(), books: Vec::new(), reviews: Vec::new() }
    }
}

/// Recording one more review extends the history of its own book by that
/// review and leaves the history of every other book as it was.
pub proof fn lemma_reviews_of_push(reviews: Seq<Review>, r: Review, book_id: u64)
    ensures
        reviews_of(reviews.push(r), book_id) == if r.book_id == book_id {
            reviews_of(reviews, book_id).push(r)
        } else {
            reviews_of(reviews, book_id)
        },
{
    assert(reviews.push(r).drop_last() =~= reviews);
}

pub proof fn lemma_rating_total_push(reviews: Seq<Review>, r: Review)
    ensures
        rating_total(reviews.push(r)) == rating_total(reviews) + r.rating,
{
    assert(reviews.push(r).drop_last() =~= reviews);
}

/// A book that no review references has an empty history.
proof fn lemma_reviews_of_unreferenced(reviews: Seq<Review>, book_id: u64)
    requires
        forall|k: int| 0 <= k < reviews.len() ==> (#[trigger] reviews[k]).book_id != book_id,
    ensures
        reviews_of(reviews, book_id) == Seq::<Review>::empty(),
    decreases reviews.len(),
{
    if reviews.len() > 0 {
        let prefix = reviews.drop_last();
        assert forall|k: int| 0 <= k < prefix.len() implies (#[trigger] prefix[k]).book_id != book_id by {
            assert(prefix[k] == reviews[k]);
        }
        lemma_reviews_of_unreferenced(prefix, book_id);
    }
}

impl Database {
    /// Position of the user called `name`, if there is one.
    fn username_position(&self, name: &String) -> (r: Option<usize>)
        requires
            self.wf(),
        ensures
            r matches Some(i) ==> i < self.users().len() && self.users()[i as int].username@ == name@,
            r is None <==> !has_username(self.users(), name@),
    {
        let mut i: usize = 0;
        while i < self.users.len()
            invariant
                i <= self.users@.len(),
                forall|j: int| 0 <= j < i ==> (#[trigger] self.users@[j]).username@ != name@,
            decreases self.users@.len() - i,
        {
            if self.users[i].username == *name {
                return Some(i);
            }
            i = i + 1;
        }
        None
    }

    /// Credential store: records a new user with its password hash.
    pub fn create_user(&mut self, username: &str, password_hash: String) -> (r: Result<u64, ServiceError>)
        requires
            old(self).wf(),
        ensures
            final(self).wf(),
            has_username(old(self).users(), username@) ==> r == Err::<u64, ServiceError>(
                ServiceError::DuplicateUser,
            ) && final(self).unchanged_from(old(self)),
            !has_username(old(self).users(), username@) ==> {
                &&& r == Ok::<u64, ServiceError>(old(self).users().len() as u64)
                &&& user_appended(old(self).users(), final(self).users(), username@, password_hash@)
                &&& final(self).books() == old(self).books()
                &&& final(self).reviews() == old(self).reviews()
            },
    {
        let name = username.to_owned();
        if self.username_position(&name).is_some() {
            return Err(ServiceError::DuplicateUser);
        }
        let id = self.users.len() as u64;
        let ghost before = self.users@;
        self.users.push(User { id, username: name, password_hash });
        assert(self.users@.drop_last() =~= before);
        Ok(id)
    }

    /// Credential store: the user called `username`.
    pub fn find_by_username(&self, username: &str) -> (r: Result<User, ServiceError>)
        requires
            self.wf(),
        ensures
            r is Err <==> !has_username(self.users(), username@),
            r matches Err(e) ==> e == ServiceError::NotFound,
            r matches Ok(u) ==> u.id < self.users().len() && u == self.users()[u.id as int] && u.username@
                == username@,
    {
        let name = username.to_owned();
        match self.username_position(&name) {
            Some(i) => Ok(self.users[i].duplicate()),
            None => Err(ServiceError::NotFound),
        }
    }

    /// Number of reviews recorded, over all books.
    pub fn review_total(&self) -> (r: usize)
        ensures
            r == self.reviews().len(),
    {
        self.reviews.len()
    }

    /// Creation time of the latest review, 0 while the ledger is empty; a new
    /// review may not be earlier.
    pub fn latest_creation_time(&self) -> (r: u64)
        ensures
            r == latest_creation(self.reviews()),
    {
        let n = self.reviews.len();
        if n == 0 {
            0
        } else {
            self.reviews[n - 1].created_at
        }
    }

    /// Whether `user_id` names a registered user.
    pub fn user_exists(&self, user_id: u64) -> (r: bool)
        ensures
            r == (user_id < self.users().len()),
    {
        user_id < self.users.len() as u64
    }
}

impl Database {
    /// Book catalog: adds an unreviewed book; an empty title is refused.
    pub fn add_book(&mut self, author_id: u64, title: &str, metadata: &str) -> (r: Result<u64, ServiceError>)
        requires
            old(self).wf(),
        ensures
            final(self).wf(),
            title@.len() == 0 ==> r == Err::<u64, ServiceError>(ServiceError::InvalidInput)
                && final(self).unchanged_from(old(self)),
            title@.len() > 0 ==> {
                &&& r == Ok::<u64, ServiceError>(old(self).books().len() as u64)
                &&& book_appended(old(self).books(), final(self).books(), author_id, title@, metadata@)
                &&& final(self).users() == old(self).users()
                &&& final(self).reviews() == old(self).reviews()
            },
    {
        if title.is_empty() {
            return Err(ServiceError::InvalidInput);
        }
        let id = self.books.len() as u64;
        let ghost before = self.books@;
        proof {
            lemma_reviews_of_unreferenced(self.reviews@, id);
        }
        self.books.push(
            Book {
                id,
                author_id,
                title: title.to_owned(),
                metadata: metadata.to_owned(),
                review_count: 0,
                rating_sum: 0,
            },
        );
        assert(self.books@.drop_last() =~= before);
        Ok(id)
    }

    /// Book catalog: the book `book_id`, aggregate block included.
    pub fn get_book(&self, book_id: u64) -> (r: Result<Book, ServiceError>)
        ensures
            book_id < self.books().len() ==> r == Ok::<Book, ServiceError>(self.books()[book_id as int]),
            book_id >= self.books().len() ==> r == Err::<Book, ServiceError>(ServiceError::NotFound),
    {
        if book_id < self.books.len() as u64 {
            Ok(self.books[book_id as usize].duplicate())
        } else {
            Err(ServiceError::NotFound)
        }
    }

    /// Review ledger: records a review and advances its book's aggregate in
    /// one step, so that no state in between is ever observable. Refuses an
    /// out-of-bounds rating or a creation time earlier than the latest
    /// review's, then a book or user that does not resolve.
    pub fn append_review(
        &mut self,
        book_id: u64,
        user_id: u64,
        rating: u8,
        body: &str,
        created_at: u64,
    ) -> (r: Result<u64, ServiceError>)
        requires
            old(self).wf(),
            review_admissible(old(self).reviews(), rating, created_at) && book_id < old(self).books().len() && user_id
                < old(self).users().len() ==> old(self).reviews().len() < usize::MAX,
        ensures
            final(self).wf(),
            !review_admissible(old(self).reviews(), rating, created_at) ==> r == Err::<u64, ServiceError>(ServiceError::InvalidInput)
                && final(self).unchanged_from(old(self)),
            review_admissible(old(self).reviews(), rating, created_at) && (book_id >= old(self).books().len() || user_id >= old(self).users().len())
                ==> r == Err::<u64, ServiceError>(ServiceError::NotFound) && final(self).unchanged_from(old(self)),
            review_admissible(old(self).reviews(), rating, created_at) && book_id < old(self).books().len() && user_id < old(self).users().len()
                ==> {
                &&& r == Ok::<u64, ServiceError>(old(self).reviews().len() as u64)
                &&& review_appended(old(self).reviews(), final(self).reviews(), book_id, user_id, rating, body@, created_at)
                &&& final(self).books() == old(self).books().update(
                    book_id as int,
                    with_review(old(self).books()[book_id as int], rating),
                )
                &&& final(self).users() == old(self).users()
            },
    {
        if rating < crate::model::MIN_RATING || rating > MAX_RATING {
            return Err(ServiceError::InvalidInput);
        }
        let n = self.reviews.len();
        if n > 0 && created_at < self.reviews[n - 1].created_at {
            return Err(ServiceError::InvalidInput);
        }
        if book_id >= self.books.len() as u64 || user_id >= self.users.len() as u64 {
            return Err(ServiceError::NotFound);
        }
        let ghost old_reviews = self.reviews@;
        let ghost old_books = self.books@;
        let id = self.reviews.len() as u64;
        let review = Review { id, book_id, user_id, rating, body: body.to_owned(), created_at };
        let ghost rv = review;
        let b = book_id as usize;
        let mut book = self.books[b].duplicate();
        assert(book.review_count <= old_reviews.len());
        book.review_count = book.review_count + 1;
        book.rating_sum = book.rating_sum + rating as u128;
        self.reviews.push(review);
        self.books.set(b, book);
        proof {
            assert(self.reviews@ == old_reviews.push(rv));
            assert(self.reviews@.drop_last() =~= old_reviews);
            assert forall|i: int, j: int| 0 <= i <= j < self.reviews@.len() implies (
            #[trigger] self.reviews@[i]).created_at <= (#[trigger] self.reviews@[j]).created_at by {
                if j == old_reviews.len() && i < j {
                    assert(old_reviews[i].created_at <= old_reviews[old_reviews.len() - 1].created_at);
                }
            }
            assert forall|i: int| 0 <= i < self.books@.len() implies {
                let bk = #[trigger] self.books@[i];
                &&& bk.id == i
                &&& bk.review_count == reviews_of(self.reviews@, i as u64).len()
                &&& bk.rating_sum == rating_total(reviews_of(self.reviews@, i as u64))
                &&& bk.review_count <= self.reviews@.len()
                &&& bk.rating_sum <= MAX_RATING * bk.review_count
            } by {
                lemma_reviews_of_push(old_reviews, rv, i as u64);
                lemma_rating_total_push(reviews_of(old_reviews, i as u64), rv);
            }
            assert(self.books@ =~= old_books.update(book_id as int, with_review(old_books[book_id as int], rating)));
        }
        Ok(id)
    }

    /// Review ledger: the reviews of `book_id` in creation order; empty for
    /// an unknown book. Each call starts afresh from the ledger.
    pub fn list_reviews_for_book(&self, book_id: u64) -> (r: Vec<Review>)
        requires
            self.wf(),
        ensures
            r@ == reviews_of(self.reviews(), book_id),
            creation_ordered(r@),
    {
        proof {
            lemma_reviews_of_ordered(self.reviews@, book_id);
        }
        let mut out: Vec<Review> = Vec::new();
        let mut k: usize = 0;
        while k < self.reviews.len()
            invariant
                k <= self.reviews@.len(),
                out@ == reviews_of(self.reviews@.subrange(0, k as int), book_id),
            decreases self.reviews@.len() - k,
        {
            let ghost prefix = self.reviews@.subrange(0, k as int);
            assert(self.reviews@.subrange(0, k + 1) =~= prefix.push(self.reviews@[k as int]));
            proof {
                lemma_reviews_of_push(prefix, self.reviews@[k as int], book_id);
            }
            if self.reviews[k].book_id == book_id {
                out.push(self.reviews[k].duplicate());
            }
            k = k + 1;
        }
        assert(self.reviews@.subrange(0, self.reviews@.len() as int) =~= self.reviews@);
        out
    }
}

/// The history of one book inherits the ledger's creation order, and none
/// of it is later than the latest review.
proof fn lemma_reviews_of_ordered(reviews: Seq<Review>, book_id: u64)
    requires
        creation_ordered(reviews),
    ensures
        creation_ordered(reviews_of(reviews, book_id)),
        forall|i: int| 0 <= i < reviews_of(reviews, book_id).len() ==> (#[trigger] reviews_of(reviews, book_id)[i]).created_at
            <= latest_creation(reviews),
    decreases reviews.len(),
{
    if reviews.len() > 0 {
        let prefix = reviews.drop_last();
        assert forall|i: int, j: int| 0 <= i <= j < prefix.len() implies (#[trigger] prefix[i]).created_at <= (
        #[trigger] prefix[j]).created_at by {
            assert(prefix[i] == reviews[i] && prefix[j] == reviews[j]);
        }
        lemma_reviews_of_ordered(prefix, book_id);
        if prefix.len() > 0 {
            assert(prefix.last() == reviews[prefix.len() - 1]);
            assert(reviews[prefix.len() - 1].created_at <= reviews[reviews.len() - 1].created_at);
        }
    }
}

proof fn lemma_reviews_of_concat(a: Seq<Review>, c: Seq<Review>, book_id: u64)
    ensures
        reviews_of(a + c, book_id) == reviews_of(a, book_id) + reviews_of(c, book_id),
    decreases c.len(),
{
    if c.len() == 0 {
        assert(a + c =~= a);
        assert(reviews_of(a, book_id) + reviews_of(c, book_id) =~= reviews_of(a, book_id));
    } else {
        let rest = c.drop_last();
        lemma_reviews_of_concat(a, rest, book_id);
        assert(a + c =~= (a + rest).push(c.last()));
        assert(c =~= rest.push(c.last()));
        lemma_reviews_of_push(a + rest, c.last(), book_id);
        lemma_reviews_of_push(rest, c.last(), book_id);
        assert((reviews_of(a, book_id) + reviews_of(rest, book_id)).push(c.last()) =~= reviews_of(a, book_id)
            + reviews_of(rest, book_id).push(c.last()));
    }
}

proof fn lemma_rating_total_concat(s: Seq<Review>, t: Seq<Review>)
    ensures
        rating_total(s + t) == rating_total(s) + rating_total(t),
    decreases t.len(),
{
    if t.len() == 0 {
        assert(s + t =~= s);
    } else {
        let rest = t.drop_last();
        lemma_rating_total_concat(s, rest);
        assert(s + t =~= (s + rest).push(t.last()));
        assert(t =~= rest.push(t.last()));
        lemma_rating_total_push(s + rest, t.last());
        lemma_rating_total_push(rest, t.last());
    }
}

/// In a consistent database, a book's review count is the number of reviews
/// that reference it and its rating sum is the sum of their ratings.
pub proof fn lemma_aggregate_matches_ledger(db: &Database, book_id: u64)
    requires
        db.wf(),
        book_id < db.books().len(),
    ensures
        db.books()[book_id as int].review_count == reviews_of(db.reviews(), book_id).len(),
        db.books()[book_id as int].rating_sum == rating_total(reviews_of(db.reviews(), book_id)),
{
}

/// No lost updates: when the reviews `added` are recorded after the state
/// `before`, in any interleaving of books, each book's count grows by the
/// number of those reviews that reference it and its rating sum by the sum of
/// their ratings.
pub proof fn lemma_reviews_accumulate(before: &Database, after: &Database, added: Seq<Review>, book_id: u64)
    requires
        before.wf(),
        after.wf(),
        after.reviews() == before.reviews() + added,
        book_id < before.books().len(),
        book_id < after.books().len(),
    ensures
        after.books()[book_id as int].review_count == before.books()[book_id as int].review_count
            + reviews_of(added, book_id).len(),
        after.books()[book_id as int].rating_sum == before.books()[book_id as int].rating_sum
            + rating_total(reviews_of(added, book_id)),
{
    lemma_aggregate_matches_ledger(before, book_id);
    lemma_aggregate_matches_ledger(after, book_id);
    lemma_reviews_of_concat(before.reviews(), added, book_id);
    lemma_rating_total_concat(reviews_of(before.reviews(), book_id), reviews_of(added, book_id));
}

} // verus!
