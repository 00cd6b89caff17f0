use book_reviews::auth::{login, register};
use book_reviews::database::Database;
use book_reviews::model::ServiceError;
use book_reviews::review_service::add_review;

const SALT: [u8; 16] = [7, 1, 9, 3, 5, 2, 8, 4, 6, 0, 11, 13, 17, 19, 23, 29];
const OTHER_SALT: [u8; 16] = [42; 16];

fn db_with_user_and_book() -> (Database, u64, u64) {
    let mut db = Database::new();
    let user = db.create_user("reader", "$argon2id$stored".to_string()).unwrap();
    let book = db.add_book(user, "Dune", "Frank Herbert").unwrap();
    (db, user, book)
}

#[test]
fn register_then_login_returns_same_identity() {
    let mut db = Database::new();
    let alice = register(&mut db, "alice", "pw123", &SALT).unwrap();
    let bob = register(&mut db, "bob", "hunter2", &OTHER_SALT).unwrap();
    assert_eq!(alice, 0);
    assert_eq!(bob, 1);
    assert_eq!(login(&db, "alice", "pw123"), Ok(alice));
    assert_eq!(login(&db, "bob", "hunter2"), Ok(bob));
}

#[test]
fn login_failures_are_identical() {
    let mut db = Database::new();
    register(&mut db, "alice", "pw123", &SALT).unwrap();
    let wrong_password = login(&db, "alice", "pw124");
    let unknown_user = login(&db, "mallory", "pw123");
    assert_eq!(wrong_password, Err(ServiceError::AuthFailed));
    assert_eq!(unknown_user, Err(ServiceError::AuthFailed));
    assert_eq!(wrong_password, unknown_user);
}

#[test]
fn register_stores_a_hash_not_the_password() {
    let mut db = Database::new();
    register(&mut db, "alice", "pw123", &SALT).unwrap();
    let user = db.find_by_username("alice").unwrap();
    assert_ne!(user.password_hash, "pw123");
    assert!(user.password_hash.starts_with("$argon2"));
    assert!(!user.password_hash.contains("pw123"));
}

#[test]
fn register_rejects_empty_credentials() {
    let mut db = Database::new();
    assert_eq!(register(&mut db, "", "pw123", &SALT), Err(ServiceError::InvalidInput));
    assert_eq!(register(&mut db, "alice", "", &SALT), Err(ServiceError::InvalidInput));
    assert_eq!(db.find_by_username("alice"), Err(ServiceError::NotFound));
}

#[test]
fn register_duplicate_username() {
    let mut db = Database::new();
    db.create_user("alice", "$argon2id$stored".to_string()).unwrap();
    assert_eq!(register(&mut db, "alice", "pw123", &SALT), Err(ServiceError::DuplicateUser));
    assert_eq!(db.create_user("alice", "other".to_string()), Err(ServiceError::DuplicateUser));
}

#[test]
fn register_with_unusable_salt_reports_hashing_failure() {
    let mut db = Database::new();
    assert_eq!(register(&mut db, "alice", "pw123", &[]), Err(ServiceError::Hashing));
    assert_eq!(db.find_by_username("alice"), Err(ServiceError::NotFound));
}

#[test]
fn login_against_unparsable_stored_hash_fails() {
    let mut db = Database::new();
    db.create_user("alice", "pw123".to_string()).unwrap();
    assert_eq!(login(&db, "alice", "pw123"), Err(ServiceError::AuthFailed));
}

#[test]
fn credential_store_lookup() {
    let mut db = Database::new();
    assert_eq!(db.create_user("alice", "h1".to_string()), Ok(0));
    assert_eq!(db.create_user("bob", "h2".to_string()), Ok(1));
    let bob = db.find_by_username("bob").unwrap();
    assert_eq!(bob.id, 1);
    assert_eq!(bob.username, "bob");
    assert_eq!(bob.password_hash, "h2");
    assert_eq!(db.find_by_username("carol"), Err(ServiceError::NotFound));
    assert!(db.user_exists(1));
    assert!(!db.user_exists(2));
}

#[test]
fn add_book_initialises_aggregate() {
    let mut db = Database::new();
    let id = db.add_book(0, "Dune", "1965").unwrap();
    let book = db.get_book(id).unwrap();
    assert_eq!(book.title, "Dune");
    assert_eq!(book.metadata, "1965");
    assert_eq!(book.author_id, 0);
    assert_eq!(book.review_count, 0);
    assert_eq!(book.rating_sum, 0);
    assert_eq!(book.average_rating_floor(), None);
    assert!(!book.average_rating_is(0));
}

#[test]
fn add_book_rejects_empty_title() {
    let mut db = Database::new();
    assert_eq!(db.add_book(0, "", "meta"), Err(ServiceError::InvalidInput));
    assert_eq!(db.get_book(0), Err(ServiceError::NotFound));
}

#[test]
fn aggregate_tracks_every_review() {
    let (mut db, user, book) = db_with_user_and_book();
    let other = db.add_book(user, "Emma", "").unwrap();
    let ratings: [u8; 6] = [5, 1, 4, 4, 2, 3];
    for (i, r) in ratings.iter().enumerate() {
        let target = if i % 2 == 0 { book } else { other };
        add_review(&mut db, target, user, *r, "", i as u64).unwrap();
    }
    let b = db.get_book(book).unwrap();
    let o = db.get_book(other).unwrap();
    assert_eq!(b.review_count, 3);
    assert_eq!(b.rating_sum, 5 + 4 + 2);
    assert_eq!(o.review_count, 3);
    assert_eq!(o.rating_sum, 1 + 4 + 3);
    let total: u128 = ratings.iter().map(|r| *r as u128).sum();
    assert_eq!(b.rating_sum + o.rating_sum, total);
}

#[test]
fn add_review_to_missing_book_changes_nothing() {
    let (mut db, user, book) = db_with_user_and_book();
    assert_eq!(add_review(&mut db, book + 1, user, 4, "great", 10), Err(ServiceError::NotFound));
    assert_eq!(add_review(&mut db, book + 1, user, 0, "great", 10), Err(ServiceError::NotFound));
    assert!(db.list_reviews_for_book(book + 1).is_empty());
    let b = db.get_book(book).unwrap();
    assert_eq!(b.review_count, 0);
    assert_eq!(b.rating_sum, 0);
    assert_eq!(add_review(&mut db, book, user, 4, "", 11), Ok(0));
}

#[test]
fn add_review_by_missing_user_not_found() {
    let (mut db, user, book) = db_with_user_and_book();
    assert_eq!(add_review(&mut db, book, user + 1, 4, "", 1), Err(ServiceError::NotFound));
    assert_eq!(db.get_book(book).unwrap().review_count, 0);
}

#[test]
fn add_review_rating_bounds() {
    let (mut db, user, book) = db_with_user_and_book();
    assert_eq!(add_review(&mut db, book, user, 0, "", 1), Err(ServiceError::InvalidInput));
    assert_eq!(add_review(&mut db, book, user, 6, "", 1), Err(ServiceError::InvalidInput));
    assert_eq!(db.get_book(book).unwrap().review_count, 0);
    assert_eq!(add_review(&mut db, book, user, 5, "", 1), Ok(0));
    assert_eq!(add_review(&mut db, book, user, 1, "", 2), Ok(1));
    assert_eq!(db.get_book(book).unwrap().review_count, 2);
}

#[test]
fn ledger_validates_on_its_own() {
    let (mut db, user, book) = db_with_user_and_book();
    assert_eq!(db.append_review(book, user, 9, "", 1), Err(ServiceError::InvalidInput));
    assert_eq!(db.append_review(book + 5, user, 3, "", 1), Err(ServiceError::NotFound));
    assert_eq!(db.append_review(book, user + 5, 3, "", 1), Err(ServiceError::NotFound));
    assert_eq!(db.append_review(book, user, 3, "fine", 1), Ok(0));
    assert_eq!(db.get_book(book).unwrap().rating_sum, 3);
}

#[test]
fn reviews_listed_in_creation_order() {
    let (mut db, user, book) = db_with_user_and_book();
    let other = db.add_book(user, "Emma", "").unwrap();
    add_review(&mut db, book, user, 2, "first", 100).unwrap();
    add_review(&mut db, other, user, 5, "elsewhere", 101).unwrap();
    add_review(&mut db, book, user, 4, "second", 102).unwrap();
    let listed = db.list_reviews_for_book(book);
    assert_eq!(listed.len(), 2);
    assert_eq!(listed[0].body, "first");
    assert_eq!(listed[0].id, 0);
    assert_eq!(listed[0].rating, 2);
    assert_eq!(listed[1].body, "second");
    assert_eq!(listed[1].id, 2);
    assert_eq!(listed[1].created_at, 102);
    assert_eq!(db.list_reviews_for_book(book), listed);
    assert_eq!(db.list_reviews_for_book(other).len(), 1);
}

#[test]
fn alice_reviews_dune() {
    let mut db = Database::new();
    let alice = register(&mut db, "alice", "pw123", &SALT).unwrap();
    let b = db.add_book(alice, "Dune", "").unwrap();
    add_review(&mut db, b, alice, 5, "", 1).unwrap();
    let book = db.get_book(b).unwrap();
    assert_eq!(book.review_count, 1);
    assert_eq!(book.average_rating_floor(), Some(5));
    assert!(book.average_rating_is(5));
    assert_eq!(book.rating_sum as f64 / book.review_count as f64, 5.0);
    add_review(&mut db, b, alice, 3, "", 2).unwrap();
    let book = db.get_book(b).unwrap();
    assert_eq!(book.review_count, 2);
    assert_eq!(book.average_rating_floor(), Some(4));
    assert!(book.average_rating_is(4));
    assert_eq!(book.rating_sum as f64 / book.review_count as f64, 4.0);
}

#[test]
fn average_rounds_down_when_not_whole() {
    let (mut db, user, book) = db_with_user_and_book();
    add_review(&mut db, book, user, 5, "", 1).unwrap();
    add_review(&mut db, book, user, 4, "", 2).unwrap();
    let b = db.get_book(book).unwrap();
    assert_eq!(b.average_rating_floor(), Some(4));
    assert!(!b.average_rating_is(4));
    assert!(!b.average_rating_is(5));
}

#[test]
fn review_earlier_than_latest_is_refused() {
    let (mut db, user, book) = db_with_user_and_book();
    assert_eq!(db.latest_creation_time(), 0);
    assert_eq!(add_review(&mut db, book, user, 4, "", 50), Ok(0));
    assert_eq!(db.latest_creation_time(), 50);
    assert_eq!(add_review(&mut db, book, user, 4, "", 49), Err(ServiceError::InvalidInput));
    assert_eq!(db.append_review(book, user, 4, "", 10), Err(ServiceError::InvalidInput));
    assert_eq!(db.get_book(book).unwrap().review_count, 1);
    assert_eq!(add_review(&mut db, book, user, 2, "", 50), Ok(1));
    let listed = db.list_reviews_for_book(book);
    assert_eq!(listed.len(), 2);
    assert!(listed[0].created_at <= listed[1].created_at);
}

#[test]
fn register_succeeds_with_recommended_salt_length() {
    let mut db = Database::new();
    assert_eq!(register(&mut db, "alice", "pw123", &[9u8; 8]), Ok(0));
    assert_eq!(register(&mut db, "bob", "pw123", &[9u8; 48]), Ok(1));
    assert_eq!(register(&mut db, "carol", "pw123", &[9u8; 49]), Err(ServiceError::Hashing));
    assert_eq!(register(&mut db, "dave", "pw123", &[9u8; 7]), Err(ServiceError::Hashing));
}
