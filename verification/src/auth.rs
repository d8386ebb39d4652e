//! Password authentication: users with salted password hashes, kept in a
//! database that the application chooses.

use vstd::prelude::*;
use crate::text::str_eq;

verus! {

/// The Argon2 hash string for a password and a salt, where there is one.
pub uninterp spec fn argon2_hash(password: Seq<char>, salt: Seq<char>) -> Option<Seq<char>>;

/// Whether a password verifies against a hash string.
pub uninterp spec fn password_matches(hash: Seq<char>, password: Seq<char>) -> bool;

/// Sixteen bytes from the random source of the operating system, or `None`
/// where the source fails.
///
/// Trusted: `OsRng::try_fill_bytes` of rand_core, the form that hands a
/// failure of the source back. Nothing is claimed of the bytes.
#[verifier::external_body]
fn random_bytes() -> (r: Option<[u8; 16]>) {
    let mut bytes = [0u8; 16];
    match rand_core::RngCore::try_fill_bytes(&mut rand_core::OsRng, &mut bytes) {
        Ok(()) => Some(bytes),
        Err(_) => None,
    }
}

/// The given bytes as a salt, in the text form that `hash_with_salt` takes,
/// or `None` where they cannot be written so.
///
/// Trusted: `SaltString::encode_b64` of the password-hash crate. Nothing is
/// claimed of the text.
#[verifier::external_body]
fn salt_of(bytes: &[u8; 16]) -> (r: Option<String>) {
    match argon2::password_hash::SaltString::encode_b64(bytes) {
        Ok(salt) => Some(salt.as_str().to_string()),
        Err(_) => None,
    }
}

/// The hash string of `password` under `salt`, or `None` where the salt or
/// the password is not acceptable to the hash function.
///
/// Trusted: `Argon2::default().hash_password` of the argon2 crate. The result
/// depends on the two arguments alone, and a hash string that it returns
/// verifies against the password it was made from.
#[verifier::external_body]
fn hash_with_salt(password: &str, salt: &str) -> (r: Option<String>)
    ensures
        match argon2_hash(password@, salt@) {
            Some(h) => r matches Some(x) && x@ == h,
            None => r is None,
        },
        r matches Some(x) ==> password_matches(x@, password@),
{
    match argon2::password_hash::SaltString::from_b64(salt) {
        Ok(salt) => match argon2::PasswordHasher::hash_password(
            &argon2::Argon2::default(),
            password.as_bytes(),
            &salt,
        ) {
            Ok(hash) => Some(hash.to_string()),
            Err(_) => None,
        },
        Err(_) => None,
    }
}

/// Whether `password` verifies against the hash string `hash`. A text that is
/// no hash string verifies against nothing.
///
/// Trusted: `Argon2::default().verify_password` of the argon2 crate on the
/// parsed hash string. The result depends on the two arguments alone.
#[verifier::external_body]
fn verify_hash(hash: &str, password: &str) -> (r: bool)
    ensures
        r == password_matches(hash@, password@),
{
    match argon2::PasswordHash::new(hash) {
        Ok(parsed) => argon2::PasswordVerifier::verify_password(
            &argon2::Argon2::default(),
            password.as_bytes(),
            &parsed,
        ).is_ok(),
        Err(_) => false,
    }
}

/// The identifier of a user that is made of the given random bytes.
///
/// Trusted: `Builder::from_random_bytes` and `Builder::into_uuid` of the uuid
/// crate, in the hyphenated text form. Nothing is claimed of the text.
#[verifier::external_body]
fn uid_of(bytes: &[u8; 16]) -> (r: String) {
    uuid::Builder::from_random_bytes(*bytes).into_uuid().to_string()
}

/// Why an operation on users failed.
#[derive(Debug, Clone, Copy, PartialEq, Eq, Structural)]
pub enum AuthError {
    /// A user with this identifier exists already.
    UserAlreadyExists,
    /// No user has this identifier.
    UserNotFound,
    /// The password could not be hashed, or the random source of the system
    /// failed.
    GenericError,
}

/// A user: an identifier and the hash string of the user's password.
#[derive(Debug)]
pub struct User {
    pub uid: String,
    pub password_hash: String,
}

/// What a user is in contracts.
pub struct UserView {
    pub uid: Seq<char>,
    pub password_hash: Seq<char>,
}

impl View for User {
    type V = UserView;

    open spec fn view(&self) -> UserView {
        UserView { uid: self.uid@, password_hash: self.password_hash@ }
    }
}

impl Clone for User {
    fn clone(&self) -> (r: Self)
        ensures
            r@ == self@,
    {
        User { uid: self.uid.clone(), password_hash: self.password_hash.clone() }
    }
}

/// Where users are kept. A database maps identifiers to users.
pub trait AuthDatabase: Sized {
    /// The user with the given identifier, if there is one.
    spec fn lookup(&self, uid: Seq<char>) -> Option<UserView>;

    /// A database without users.
    fn new_database() -> (r: Self)
        ensures
            forall|uid: Seq<char>| r.lookup(uid) is None,
    ;

    /// The user with the given identifier.
    fn get_user_by_uid(&self, uid: &str) -> (r: Option<User>)
        ensures
            match self.lookup(uid@) {
                Some(user) => r matches Some(x) && x@ == user,
                None => r is None,
            },
    ;

    /// Adds a user, unless a user with the same identifier exists.
    fn add_user(&mut self, user: User) -> (r: Result<(), AuthError>)
        ensures
            old(self).lookup(user@.uid) is Some ==> r == Err::<(), AuthError>(
                AuthError::UserAlreadyExists,
            ) && forall|uid: Seq<char>| final(self).lookup(uid) == old(self).lookup(uid),
            old(self).lookup(user@.uid) is None ==> r is Ok && final(self).lookup(user@.uid)
                == Some(user@) && forall|uid: Seq<char>|
                uid != user@.uid ==> final(self).lookup(uid) == old(self).lookup(uid),
    ;

    /// Removes the user with the given identifier.
    fn remove_user(&mut self, uid: &str) -> (r: Result<(), AuthError>)
        ensures
            old(self).lookup(uid@) is None ==> r == Err::<(), AuthError>(AuthError::UserNotFound)
                && forall|other: Seq<char>| final(self).lookup(other) == old(self).lookup(other),
            old(self).lookup(uid@) is Some ==> r is Ok && final(self).lookup(uid@) is None
                && forall|other: Seq<char>|
                other != uid@ ==> final(self).lookup(other) == old(self).lookup(other),
    ;
}

/// The views of a sequence of users.
pub open spec fn user_views(s: Seq<User>) -> Seq<UserView> {
    Seq::new(s.len(), |i: int| s[i]@)
}

/// The first user in `s` with the given identifier.
pub open spec fn find_user(s: Seq<UserView>, uid: Seq<char>) -> Option<UserView>
    decreases s.len(),
{
    if s.len() == 0 {
        None
    } else {
        match find_user(s.drop_last(), uid) {
            Some(user) => Some(user),
            None => if s.last().uid == uid {
                Some(s.last())
            } else {
                None
            },
        }
    }
}

/// A user found in the first `k` entries is the user found in all of them.
proof fn lemma_find_user_prefix(s: Seq<UserView>, uid: Seq<char>, k: int)
    requires
        0 <= k <= s.len(),
        find_user(s.take(k), uid) is Some,
    ensures
        find_user(s, uid) == find_user(s.take(k), uid),
    decreases s.len() - k,
{
    if k < s.len() {
        assert(s.take(k + 1).drop_last() =~= s.take(k));
        lemma_find_user_prefix(s, uid, k + 1);
    } else {
        assert(s.take(k) =~= s);
    }
}

impl AuthDatabase for Vec<User> {
    open spec fn lookup(&self, uid: Seq<char>) -> Option<UserView> {
        find_user(user_views(self@), uid)
    }

    fn new_database() -> (r: Self) {
        let r: Vec<User> = Vec::new();
        assert(user_views(r@) =~= Seq::<UserView>::empty());
        r
    }

    fn get_user_by_uid(&self, uid: &str) -> (r: Option<User>) {
        let ghost all = user_views(self@);
        let mut i: usize = 0;
        assert(all.take(0) =~= Seq::<UserView>::empty());
        while i < self.len()
            invariant
                i <= self@.len(),
                all == user_views(self@),
                find_user(all.take(i as int), uid@) is None,
            decreases self@.len() - i,
        {
            proof {
                assert(all.take(i + 1).drop_last() =~= all.take(i as int));
                assert(all.take(i + 1).last() == self@[i as int]@);
            }
            if str_eq(self[i].uid.as_str(), uid) {
                proof {
                    lemma_find_user_prefix(all, uid@, i + 1);
                }
                return Some(self[i].clone());
            }
            i += 1;
        }
        assert(all.take(i as int) =~= all);
        None
    }

    fn add_user(&mut self, user: User) -> (r: Result<(), AuthError>) {
        match self.get_user_by_uid(user.uid.as_str()) {
            Some(_) => Err(AuthError::UserAlreadyExists),
            None => {
                let ghost before = user_views(self@);
                self.push(user);
                proof {
                    let after = user_views(self@);
                    assert(after.drop_last() =~= before);
                    assert(after.last() == user@);
                }
                Ok(())
            },
        }
    }

    fn remove_user(&mut self, uid: &str) -> (r: Result<(), AuthError>) {
        let ghost all = user_views(self@);
        let mut kept: Vec<User> = Vec::new();
        let mut found = false;
        let mut i: usize = 0;
        assert(all.take(0) =~= Seq::<UserView>::empty());
        assert(user_views(kept@) =~= Seq::<UserView>::empty());
        while i < self.len()
            invariant
                i <= self@.len(),
                all == user_views(self@),
                found == find_user(all.take(i as int), uid@) is Some,
                find_user(user_views(kept@), uid@) is None,
                forall|other: Seq<char>|
                    other != uid@ ==> find_user(user_views(kept@), other) == find_user(
                        all.take(i as int),
                        other,
                    ),
            decreases self@.len() - i,
        {
            let ghost kept_before = user_views(kept@);
            proof {
                assert(all.take(i + 1).drop_last() =~= all.take(i as int));
                assert(all.take(i + 1).last() == self@[i as int]@);
            }
            if str_eq(self[i].uid.as_str(), uid) {
                found = true;
            } else {
                kept.push(self[i].clone());
                proof {
                    let kept_after = user_views(kept@);
                    assert(kept_after.drop_last() =~= kept_before);
                    assert(kept_after.last() == self@[i as int]@);
                }
            }
            proof {
                let kept_after = user_views(kept@);
                assert forall|other: Seq<char>| other != uid@ implies find_user(kept_after, other)
                    == find_user(all.take(i + 1), other) by {
                    assert(find_user(kept_before, other) == find_user(all.take(i as int), other));
                }
            }
            i += 1;
        }
        assert(all.take(i as int) =~= all);
        if found {
            *self = kept;
            Ok(())
        } else {
            Err(AuthError::UserNotFound)
        }
    }
}

/// Creates, checks and removes users in a database.
pub struct AuthProvider<T: AuthDatabase> {
    db: T,
}

impl<T: AuthDatabase> AuthProvider<T> {
    /// The user with the given identifier, if there is one.
    pub closed spec fn lookup(&self, uid: Seq<char>) -> Option<UserView> {
        self.db.lookup(uid)
    }

    /// A provider over the given database.
    pub fn new(db: T) -> (r: Self)
        ensures
            forall|uid: Seq<char>| r.lookup(uid) == db.lookup(uid),
    {
        AuthProvider { db }
    }

    /// Adds the user that `create` made of a fresh identifier and the hash
    /// string of the password. With no hash string or with an identifier that
    /// is taken, no user is added.
    pub fn enrol(&mut self, uid: String, hash: Option<String>) -> (r: Result<User, AuthError>)
        ensures
            hash is None ==> r == Err::<User, AuthError>(AuthError::GenericError),
            hash is Some && old(self).lookup(uid@) is Some ==> r == Err::<User, AuthError>(
                AuthError::UserAlreadyExists,
            ),
            hash is Some && old(self).lookup(uid@) is None ==> (r matches Ok(user) && user@ == (
            UserView { uid: uid@, password_hash: hash->0@ }) && final(self).lookup(uid@) == Some(
                user@,
            )),
            r is Err ==> forall|other: Seq<char>|
                final(self).lookup(other) == old(self).lookup(other),
            forall|other: Seq<char>|
                other != uid@ ==> final(self).lookup(other) == old(self).lookup(other),
    {
        match hash {
            None => Err(AuthError::GenericError),
            Some(password_hash) => {
                let user = User { uid, password_hash };
                match self.db.add_user(user.clone()) {
                    Ok(()) => Ok(user),
                    Err(e) => Err(e),
                }
            },
        }
    }

    /// What `create` comes to when the identifier that it draws is `uid` and
    /// the salt that it draws is `salt`. Where the password has no hash
    /// string under the salt, the error is `GenericError`; where the
    /// identifier is taken, it is `UserAlreadyExists`; in both cases no user
    /// is added. Otherwise the user with that identifier and that hash string
    /// is added and returned, and every other user stays.
    pub open spec fn creates(
        before: Self,
        after: Self,
        password: Seq<char>,
        uid: Seq<char>,
        salt: Seq<char>,
        r: Result<User, AuthError>,
    ) -> bool {
        match argon2_hash(password, salt) {
            None => r == Err::<User, AuthError>(AuthError::GenericError) && forall|
                other: Seq<char>,
            | after.lookup(other) == before.lookup(other),
            Some(hash) => if before.lookup(uid) is Some {
                r == Err::<User, AuthError>(AuthError::UserAlreadyExists) && forall|
                    other: Seq<char>,
                | after.lookup(other) == before.lookup(other)
            } else {
                r matches Ok(user) && user@ == (UserView { uid, password_hash: hash })
                    && after.lookup(uid) == Some(user@) && forall|other: Seq<char>|
                    other != uid ==> after.lookup(other) == before.lookup(other)
            },
        }
    }

    /// Creates a user with the given password and a fresh random identifier.
    /// The password is kept as a salted hash string against which it
    /// verifies. Where the random source of the system fails, or what it
    /// gives cannot be written as a salt, the error is `GenericError` and no
    /// user is added. Otherwise an identifier and a salt are drawn; which,
    /// is open, and for the two that are drawn the outcome is what `creates`
    /// says.
    pub fn create(&mut self, password: &str) -> (r: Result<User, AuthError>)
        ensures
            (r == Err::<User, AuthError>(AuthError::GenericError) && forall|other: Seq<char>|
                final(self).lookup(other) == old(self).lookup(other)) || exists|
                uid: Seq<char>,
                salt: Seq<char>,
            | #[trigger]
                Self::creates(*old(self), *final(self), password@, uid, salt, r),
            r matches Ok(user) ==> old(self).lookup(user@.uid) is None && final(self).lookup(
                user@.uid,
            ) == Some(user@) && password_matches(user@.password_hash, password@) && forall|
                other: Seq<char>,
            |
                other != user@.uid ==> final(self).lookup(other) == old(self).lookup(other),
            r is Err ==> forall|other: Seq<char>|
                final(self).lookup(other) == old(self).lookup(other),
    {
        let salt = match random_bytes() {
            Some(bytes) => match salt_of(&bytes) {
                Some(salt) => salt,
                None => {
                    return Err(AuthError::GenericError);
                },
            },
            None => {
                return Err(AuthError::GenericError);
            },
        };
        let uid = match random_bytes() {
            Some(bytes) => uid_of(&bytes),
            None => {
                return Err(AuthError::GenericError);
            },
        };
        let hash = hash_with_salt(password, salt.as_str());
        let ghost drawn = uid@;
        let r = self.enrol(uid, hash);
        assert(Self::creates(*old(self), *self, password@, drawn, salt@, r));
        r
    }

    /// Whether a user with the given identifier exists.
    pub fn user_exists(&self, uid: &str) -> (r: bool)
        ensures
            r == self.lookup(uid@) is Some,
    {
        self.db.get_user_by_uid(uid).is_some()
    }

    /// Whether a user with the given identifier exists and the password
    /// verifies against the user's hash string.
    pub fn verify(&self, uid: &str, password: &str) -> (r: bool)
        ensures
            r == (self.lookup(uid@) matches Some(user) && password_matches(
                user.password_hash,
                password@,
            )),
    {
        match self.db.get_user_by_uid(uid) {
            Some(user) => verify_hash(user.password_hash.as_str(), password),
            None => false,
        }
    }

    /// Removes the user with the given identifier.
    pub fn remove(&mut self, uid: &str) -> (r: Result<(), AuthError>)
        ensures
            old(self).lookup(uid@) is None ==> r == Err::<(), AuthError>(AuthError::UserNotFound)
                && forall|other: Seq<char>| final(self).lookup(other) == old(self).lookup(other),
            old(self).lookup(uid@) is Some ==> r is Ok && final(self).lookup(uid@) is None
                && forall|other: Seq<char>|
                other != uid@ ==> final(self).lookup(other) == old(self).lookup(other),
    {
        self.db.remove_user(uid)
    }
}

impl<T: AuthDatabase> Default for AuthProvider<T> {
    fn default() -> (r: Self)
        ensures
            forall|uid: Seq<char>| r.lookup(uid) is None,
    {
        AuthProvider { db: T::new_database() }
    }
}

} // verus!
