use vstd::prelude::*;
use crate::database::{Database, has_username};
use crate::model::{ServiceError, User};
use crate::password::{hash_password, password_matches, verify_password};

verus! {

/// What a login attempt yields: the user's id when the name is known and the
/// password verifies against its stored hash, `AuthFailed` in every other case.
pub open spec fn login_outcome(users: Seq<User>, name: Seq<char>, password: Seq<char>) -> Result<u64, ServiceError> {
    if has_username(users, name) {
        let i = choose|i: int| 0 <= i < users.len() && (#[trigger] users[i]).username@ == name;
        if password_matches(password, users[i].password_hash@) {
            Ok(i as u64)
        } else {
            Err(ServiceError::AuthFailed)
        }
    } else {
        Err(ServiceError::AuthFailed)
    }
}

/// `new` is `old` with the user `id` called `name` appended, whose stored
/// hash verifies against `password`.
pub open spec fn registered(old: Seq<User>, new: Seq<User>, name: Seq<char>, password: Seq<char>, id: u64) -> bool {
    &&& id == old.len()
    &&& new.len() == old.len() + 1
    &&& new.drop_last() == old
    &&& new.last().id == id
    &&& new.last().username@ == name
    &&& password_matches(password, new.last().password_hash@)
}

/// Fewest salt bytes that Argon2 accepts.
pub const MIN_SALT_BYTES: usize = 8;

/// Most salt bytes that fit the hash string's salt field.
pub const MAX_SALT_BYTES: usize = 48;

/// Longest password, in characters, for which hashing is sure to succeed
/// (Argon2 takes at most `u32::MAX` bytes, four per character at most).
pub const MAX_PASSWORD_CHARS: usize = 0x3FFF_FFFF;

/// Registers a user under a salted Argon2 hash of `password`; `salt` is
/// expected to be fresh randomness of at least `MIN_SALT_BYTES` bytes.
pub fn register(db: &mut Database, username: &str, password: &str, salt: &[u8]) -> (r: Result<u64, ServiceError>)
    requires
        old(db).wf(),
    ensures
        final(db).wf(),
        username@.len() == 0 || password@.len() == 0 ==> r == Err::<u64, ServiceError>(ServiceError::InvalidInput),
        username@.len() > 0 && password@.len() > 0 && has_username(old(db).users(), username@) ==> r == Err::<
            u64,
            ServiceError,
        >(ServiceError::DuplicateUser),
        username@.len() > 0 && password@.len() > 0 && !has_username(old(db).users(), username@) && salt@.len()
            < MIN_SALT_BYTES ==> r == Err::<u64, ServiceError>(ServiceError::Hashing),
        username@.len() > 0 && password@.len() > 0 && !has_username(old(db).users(), username@)
            && MIN_SALT_BYTES <= salt@.len() <= MAX_SALT_BYTES && password@.len() <= MAX_PASSWORD_CHARS ==> r is Ok,
        r is Err ==> final(db).unchanged_from(old(db)),
        r matches Err(e) ==> (e == ServiceError::InvalidInput || e == ServiceError::DuplicateUser || e
            == ServiceError::Hashing),
        r matches Err(e) && e == ServiceError::Hashing ==> username@.len() > 0 && password@.len() > 0
            && !has_username(old(db).users(), username@),
        r matches Ok(id) ==> {
            &&& username@.len() > 0 && password@.len() > 0
            &&& registered(old(db).users(), final(db).users(), username@, password@, id)
            &&& final(db).books() == old(db).books()
            &&& final(db).reviews() == old(db).reviews()
        },
{
    if username.is_empty() || password.is_empty() {
        return Err(ServiceError::InvalidInput);
    }
    if db.find_by_username(username).is_ok() {
        return Err(ServiceError::DuplicateUser);
    }
    if salt.len() < MIN_SALT_BYTES {
        return Err(ServiceError::Hashing);
    }
    let hash = match hash_password(password, salt) {
        Ok(h) => h,
        Err(_) => return Err(ServiceError::Hashing),
    };
    let ghost h = hash@;
    let r = db.create_user(username, hash);
    assert(password_matches(password@, h));
    r
}

/// Authenticates a login attempt. An unknown name and a wrong password give
/// the same `AuthFailed`, and both run one hash computation, so neither the
/// result nor the cost tells them apart.
pub fn login(db: &Database, username: &str, password: &str) -> (r: Result<u64, ServiceError>)
    requires
        db.wf(),
    ensures
        r == login_outcome(db.users(), username@, password@),
{
    match db.find_by_username(username) {
        Ok(user) => {
            let ok = verify_password(password, user.password_hash.as_str());
            proof {
                let i = choose|i: int|
                    0 <= i < db.users().len() && (#[trigger] db.users()[i]).username@ == username@;
                assert(db.users()[i].username@ == db.users()[user.id as int].username@);
            }
            if ok {
                Ok(user.id)
            } else {
                Err(ServiceError::AuthFailed)
            }
        },
        Err(_) => {
            let decoy_salt: [u8; 16] = [0u8; 16];
            let _ = hash_password(password, decoy_salt.as_slice());
            Err(ServiceError::AuthFailed)
        },
    }
}

/// A successful registration is followed by a successful login with the same
/// credentials, which returns the identity that registration gave.
pub proof fn lemma_register_then_login(
    before: &Database,
    after: &Database,
    name: Seq<char>,
    password: Seq<char>,
    id: u64,
)
    requires
        before.wf(),
        after.wf(),
        registered(before.users(), after.users(), name, password, id),
    ensures
        login_outcome(after.users(), name, password) == Ok::<u64, ServiceError>(id),
{
    let users = after.users();
    assert(users[users.len() - 1] == users.last());
    assert(has_username(users, name));
    let i = choose|i: int| 0 <= i < users.len() && (#[trigger] users[i]).username@ == name;
    assert(users[i].username@ == users[users.len() - 1].username@);
}

/// A login with an unknown name and one with a wrong password fail alike,
/// with `AuthFailed`.
pub proof fn lemma_login_failures_alike(db: &Database, name: Seq<char>, password: Seq<char>)
    requires
        db.wf(),
        !has_username(db.users(), name) || (forall|i: int|
            0 <= i < db.users().len() && (#[trigger] db.users()[i]).username@ == name ==> !password_matches(
                password,
                db.users()[i].password_hash@,
            )),
    ensures
        login_outcome(db.users(), name, password) == Err::<u64, ServiceError>(ServiceError::AuthFailed),
{
}

} // verus!
