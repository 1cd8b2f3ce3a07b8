//! Account management: creation with the username-uniqueness invariant, and
//! credential checks through an opaque password-hashing capability.
use vstd::prelude::*;
use vstd::string::StringSliceAdditionalSpecFns;
use crate::ChatError;
use crate::store::{Store, User, history_pairs};

verus! {

/// Whether `password` matches the stored password-hash string `hash`. The
/// relation is a function of the two strings alone; it is given meaning only
/// by the trusted items below.
pub uninterp spec fn password_accepted(password: Seq<char>, hash: Seq<char>) -> bool;

/// Relies on `argon2::Argon2::verify_password` together with
/// `password_hash::PasswordHash::new`: whether a password matches a stored
/// PHC-format hash string is a deterministic function of the two strings
/// (the hash string carries its own salt and parameters); a hash string that
/// does not parse accepts no password.
#[verifier::external_body]
fn verify_password(password: &str, hash: &str) -> (r: bool)
    ensures
        r == password_accepted(password@, hash@),
{
    match argon2::password_hash::PasswordHash::new(hash) {
        Ok(parsed) => argon2::password_hash::PasswordVerifier::verify_password(
            &argon2::Argon2::default(),
            password.as_bytes(),
            &parsed,
        ).is_ok(),
        Err(_) => false,
    }
}

/// Relies on `str::len`: the length in bytes of a string slice, which always
/// fits in `usize`.
#[verifier::external_body]
fn byte_len(s: &str) -> (n: usize)
    ensures
        n == s.spec_bytes().len(),
{
    s.len()
}

/// Relies on `argon2::Argon2::hash_password` with a salt drawn from the
/// operating system's randomness: the result is a PHC hash string that
/// `verify_password` accepts for the same password. Its sources fail only
/// for a password longer than the algorithm's cap of `u32::MAX` bytes, which
/// the precondition excludes, so the call succeeds; the salt is random, so
/// nothing more is promised of the string's value.
#[verifier::external_body]
fn hash_password(password: &str) -> (r: Result<String, ChatError>)
    requires
        password.spec_bytes().len() <= 0xFFFF_FFFF,
    ensures
        r is Ok,
        r matches Ok(h) ==> password_accepted(password@, h@),
{
    let salt = argon2::password_hash::SaltString::generate(
        &mut argon2::password_hash::rand_core::OsRng,
    );
    match argon2::password_hash::PasswordHasher::hash_password(
        &argon2::Argon2::default(),
        password.as_bytes(),
        &salt,
    ) {
        Ok(h) => Ok(h.to_string()),
        Err(_) => Err(ChatError::Transient),
    }
}

impl Store {
    /// Creates an account from an already-computed password hash. Fails with
    /// `Conflict`, leaving the store unchanged, exactly when the username is
    /// taken; otherwise the new user is appended and nothing else moves.
    pub fn create_user_with_hash(&mut self, username: String, password_hash: String) -> (r:
        Result<usize, ChatError>)
        requires
            old(self).wf(),
        ensures
            final(self).wf(),
            old(self).has_user(username@) ==> r == Err::<usize, ChatError>(ChatError::Conflict)
                && *final(self) == *old(self),
            !old(self).has_user(username@) ==> (r matches Ok(id) && id == old(self).users@.len()
                && final(self).users@ == old(self).users@.push(
                (User { username, password_hash }),
            )),
            final(self).chats@ == old(self).chats@,
            final(self).memberships@ == old(self).memberships@,
            final(self).messages@ == old(self).messages@,
            final(self).queue@ == old(self).queue@,
    {
        if self.resolve_user(username.as_str()).is_some() {
            return Err(ChatError::Conflict);
        }
        let ghost s1 = *self;
        let id = self.users.len();
        self.users.push(User { username, password_hash });
        proof {
            let len = self.queue@.len() as int;
            assert forall|c: int| 0 <= c < self.chats@.len() implies history_pairs(
                (#[trigger] self.chats@[c]).history@,
            ) == self.delivered_pairs(c, len) by {
                crate::store::lemma_pairs_frame(s1, *self, c, len);
            }
        }
        Ok(id)
    }

    /// Creates an account: checks uniqueness, hashes the password with a
    /// fresh random salt, and stores the new user. `Conflict` is returned,
    /// with the store unchanged, exactly when the username is taken; any
    /// password the hash algorithm can take (up to `u32::MAX` bytes) is
    /// otherwise accepted, and one beyond that cap surfaces as `Transient`
    /// with the store unchanged.
    pub fn create_user(&mut self, username: String, password: &str) -> (r: Result<
        usize,
        ChatError,
    >)
        requires
            old(self).wf(),
        ensures
            final(self).wf(),
            old(self).has_user(username@) ==> r == Err::<usize, ChatError>(ChatError::Conflict),
            r is Err ==> *final(self) == *old(self),
            !old(self).has_user(username@) ==> (r is Ok || r == Err::<usize, ChatError>(
                ChatError::Transient,
            )),
            (!old(self).has_user(username@) && password.spec_bytes().len() <= 0xFFFF_FFFF)
                ==> r is Ok,
            r matches Ok(id) ==> {
                &&& !old(self).has_user(username@)
                &&& id == old(self).users@.len()
                &&& final(self).users@.len() == old(self).users@.len() + 1
                &&& forall|j: int|
                    0 <= j < old(self).users@.len() ==> final(self).users@[j] == old(
                        self,
                    ).users@[j]
                &&& final(self).users@.last().username@ == username@
                &&& password_accepted(password@, final(self).users@.last().password_hash@)
            },
            final(self).chats@ == old(self).chats@,
            final(self).memberships@ == old(self).memberships@,
            final(self).messages@ == old(self).messages@,
            final(self).queue@ == old(self).queue@,
    {
        if self.user_exists(username.as_str()) {
            return Err(ChatError::Conflict);
        }
        if byte_len(password) as u64 > 0xFFFF_FFFFu64 {
            return Err(ChatError::Transient);
        }
        let hash = match hash_password(password) {
            Ok(h) => h,
            Err(e) => {
                return Err(e);
            },
        };
        self.create_user_with_hash(username, hash)
    }

    /// Authenticates a login attempt: true exactly when the username resolves
    /// and the password matches the stored hash.
    pub fn login(&self, username: &str, password: &str) -> (r: bool)
        requires
            self.wf(),
        ensures
            r == (self.has_user(username@) && password_accepted(
                password@,
                self.users@[self.user_index(username@)].password_hash@,
            )),
    {
        match self.resolve_user(username) {
            None => false,
            Some(i) => {
                proof {
                    let k = self.user_index(username@);
                    assert(self.has_user(username@));
                    if k != i as int {
                        assert(self.users@[k].username@ == self.users@[i as int].username@);
                    }
                }
                verify_password(password, self.users[i].password_hash.as_str())
            },
        }
    }
}

} // verus!
