//! Salted, memory-hard password hashing and verification (Argon2, PHC string format).
use argon2::password_hash::rand_core::OsRng;
use argon2::password_hash::{PasswordHash, PasswordHasher, PasswordVerifier, SaltString};
use argon2::Argon2;
use vstd::prelude::*;
use vstd::utf8::encode_utf8;

use crate::error::Error;
use crate::model::User;

verus! {

/// What Argon2 says of `attempt` against the stored record: `Some(true)` when it matches,
/// `Some(false)` when it does not, `None` when the record cannot be parsed or verified.
pub uninterp spec fn argon2_verdict(record: Seq<char>, attempt: Seq<char>) -> Option<bool>;

/// A password short enough for Argon2: at most 2^32 - 1 bytes of UTF-8.
pub open spec fn password_fits(password: Seq<char>) -> bool {
    encode_utf8(password).len() <= 0xFFFF_FFFF
}

/// A character of the B64 alphabet of the PHC string format (standard alphabet, no padding).
pub open spec fn is_b64_char(c: char) -> bool {
    ('A' <= c && c <= 'Z') || ('a' <= c && c <= 'z') || ('0' <= c && c <= '9') || c == '+'
        || c == '/'
}

/// The PHC string that `Argon2::default()` writes: algorithm `argon2id`, version 19,
/// 19456 KiB of memory, 2 passes, parallelism 1, then the 16-byte salt (22 B64
/// characters), `$`, and the 32-byte derived key (43 B64 characters). It is never the
/// plaintext: it describes how to re-derive the key from it.
pub open spec fn default_phc_form(h: Seq<char>) -> bool {
    let prefix = "$argon2id$v=19$m=19456,t=2,p=1$"@;
    &&& h.len() == prefix.len() + 22 + 1 + 43
    &&& h.subrange(0, prefix.len() as int) == prefix
    &&& h[prefix.len() + 22int] == '$'
    &&& forall|i: int|
        prefix.len() <= i < h.len() && i != prefix.len() + 22 ==> is_b64_char(#[trigger] h[i])
}

/// Relies on `SaltString::generate` over the operating system's generator, which always
/// makes a 16-byte salt, and on `PasswordHasher::hash_password` of `Argon2::default()`
/// with that salt: it fails only for a password over 2^32 - 1 bytes. The PHC string it
/// returns has the default form, with `p=1` as its only parallelism, and is one that
/// `verify_password` accepts for the same password.
#[verifier::external_body]
fn argon2_hash(password: &str) -> (r: Result<String, String>)
    ensures
        password_fits(password@) ==> r is Ok,
        r matches Ok(h) ==> argon2_verdict(h@, password@) == Some(true),
        r matches Ok(h) ==> !oversized_parallelism(h@),
        r matches Ok(h) ==> default_phc_form(h@),
{
    let salt = SaltString::generate(&mut OsRng);
    match Argon2::default().hash_password(password.as_bytes(), &salt) {
        Ok(h) => Ok(h.to_string()),
        Err(e) => Err(e.to_string()),
    }
}

/// An ASCII decimal digit.
pub open spec fn is_digit_byte(c: u8) -> bool {
    48 <= c <= 57
}

/// At byte `i` of a record stands a parallelism parameter `p=` whose value has at least
/// nine digits.
pub open spec fn oversized_parallelism_at(b: Seq<u8>, i: int) -> bool {
    &&& 0 <= i
    &&& i + 11 <= b.len()
    &&& b[i] == 112u8
    &&& b[i + 1] == 61u8
    &&& forall|j: int| i + 2 <= j < i + 11 ==> is_digit_byte(#[trigger] b[j])
}

/// A record whose parallelism has nine digits or more. Argon2 caps parallelism at
/// 2^24 - 1, so such a record is never valid; on one with 536870912 or more, its
/// parameter check multiplies in 32 bits and overflows.
pub open spec fn oversized_parallelism(record: Seq<char>) -> bool {
    exists|i: int| oversized_parallelism_at(encode_utf8(record), i)
}

/// Whether `b[start..end]` is all decimal digits.
fn all_digits(b: &[u8], start: usize, end: usize) -> (r: bool)
    requires
        start <= end <= b@.len(),
    ensures
        r == forall|j: int| start <= j < end ==> is_digit_byte(#[trigger] b@[j]),
{
    let mut j = start;
    while j < end
        invariant
            start <= j <= end,
            end <= b@.len(),
            forall|k: int| start <= k < j ==> is_digit_byte(#[trigger] b@[k]),
        decreases end - j,
    {
        if b[j] < 48 || b[j] > 57 {
            return false;
        }
        j = j + 1;
    }
    true
}

/// Whether the record has a parallelism parameter of nine digits or more.
fn has_oversized_parallelism(record: &str) -> (r: bool)
    ensures
        r == oversized_parallelism(record@),
{
    let b = record.as_bytes();
    let mut i: usize = 0;
    while i < b.len()
        invariant
            b@ == encode_utf8(record@),
            i <= b@.len(),
            forall|k: int| 0 <= k < i ==> !#[trigger] oversized_parallelism_at(b@, k),
        decreases b@.len() - i,
    {
        if b.len() - i >= 11 && b[i] == 112 && b[i + 1] == 61 && all_digits(b, i + 2, i + 11) {
            assert(oversized_parallelism_at(b@, i as int));
            return true;
        }
        i = i + 1;
    }
    assert forall|k: int| !#[trigger] oversized_parallelism_at(b@, k) by {
        if 0 <= k < i {
        }
    }
    false
}

/// Relies on `PasswordHash::new` to parse the record and on
/// `PasswordVerifier::verify_password` of `Argon2::default()`, which re-derives the key
/// with the record's parameters and salt and compares in constant time; its
/// `Error::Password` means a mismatch. Records with an oversized parallelism are left
/// out: on them the parameter check can overflow.
#[verifier::external_body]
fn argon2_verify(record: &str, attempt: &str) -> (r: Result<bool, String>)
    requires
        !oversized_parallelism(record@),
    ensures
        r is Ok <==> argon2_verdict(record@, attempt@) is Some,
        r matches Ok(v) ==> argon2_verdict(record@, attempt@) == Some(v),
{
    let parsed = match PasswordHash::new(record) {
        Ok(p) => p,
        Err(e) => return Err(e.to_string()),
    };
    match Argon2::default().verify_password(attempt.as_bytes(), &parsed) {
        Ok(()) => Ok(true),
        Err(argon2::password_hash::Error::Password) => Ok(false),
        Err(e) => Err(e.to_string()),
    }
}

/// Hashes `password` with a fresh random salt into a self-describing record; this
/// succeeds for every password of at most 2^32 - 1 bytes, and the record then verifies
/// against that password.
pub fn create(password: &str) -> (r: Result<String, Error>)
    ensures
        password_fits(password@) ==> r is Ok,
        r matches Ok(h) ==> argon2_verdict(h@, password@) == Some(true),
        r matches Ok(h) ==> !oversized_parallelism(h@),
        r matches Ok(h) ==> default_phc_form(h@),
{
    match argon2_hash(password) {
        Ok(h) => Ok(h),
        Err(m) => Err(Error::runtime(m)),
    }
}

/// Checks `attempt` against a stored record: `Ok(true)` on a match, `Ok(false)` on a
/// mismatch, and an error only when the record itself cannot be used. A record with an
/// oversized parallelism is such a record.
pub fn verify(record: &str, attempt: &str) -> (r: Result<bool, Error>)
    ensures
        oversized_parallelism(record@) ==> r is Err,
        !oversized_parallelism(record@) ==> (r is Ok <==> argon2_verdict(record@, attempt@) is Some),
        r matches Ok(v) ==> argon2_verdict(record@, attempt@) == Some(v),
{
    if has_oversized_parallelism(record) {
        return Err(Error::runtime("Invalid parallelism in password hash".to_owned()));
    }
    match argon2_verify(record, attempt) {
        Ok(v) => Ok(v),
        Err(m) => Err(Error::runtime(m)),
    }
}

/// Relies on chrono's `Utc::now().timestamp_millis()`: the current time in milliseconds
/// since the epoch; nothing is known of its value.
#[verifier::external_body]
fn now_millis() -> (r: i64) {
    chrono::Utc::now().timestamp_millis()
}

impl User {
    /// A new user named `username` whose record is the hash of `password`; it has no
    /// activity yet.
    pub fn new(username: String, password: String) -> (r: Result<User, Error>)
        ensures
            password_fits(password@) ==> r is Ok,
            r matches Ok(u) ==> u@.username == username@ && u@.last_activity is None
                && argon2_verdict(u@.password_hash, password@) == Some(true),
            r matches Ok(u) ==> !oversized_parallelism(u@.password_hash),
            r matches Ok(u) ==> default_phc_form(u@.password_hash),
    {
        match create(password.as_str()) {
            Ok(password_hash) => Ok(User::from_parts(username, password_hash, None)),
            Err(e) => Err(e),
        }
    }

    /// Checks `password` against this user's record (see [`verify`]).
    pub fn check(&self, password: &str) -> (r: Result<bool, Error>)
        ensures
            oversized_parallelism(self@.password_hash) ==> r is Err,
            !oversized_parallelism(self@.password_hash) ==> (r is Ok <==> argon2_verdict(
                self@.password_hash,
                password@,
            ) is Some),
            r matches Ok(v) ==> argon2_verdict(self@.password_hash, password@) == Some(v),
    {
        verify(self.password_hash(), password)
    }

    /// Records the current time as the last activity; name and hash stay.
    pub fn touch(&mut self)
        ensures
            final(self)@.username == old(self)@.username,
            final(self)@.password_hash == old(self)@.password_hash,
            final(self)@.last_activity is Some,
    {
        let now = now_millis();
        self.set_last_activity(now);
    }
}

/// Outcome of presenting credentials for a stored user.
#[derive(Debug)]
pub enum AuthOutcome {
    /// The secret matched; the user now carries the time of this authentication and
    /// should be written back.
    Accepted(User),
    /// No such user, or the secret did not match.
    Rejected,
    /// The stored record could not be used.
    Failed(Error),
}

/// Decides an authentication attempt against the user found under the presented name,
/// if any. A match stamps the user's last activity with the current time.
pub fn authenticate(found: Option<User>, attempt: &str) -> (r: AuthOutcome)
    ensures
        found is None ==> r is Rejected,
        found matches Some(u) ==> if oversized_parallelism(u@.password_hash) {
            r is Failed
        } else {
            match argon2_verdict(u@.password_hash, attempt@) {
                None => r is Failed,
                Some(false) => r is Rejected,
                Some(true) => r matches AuthOutcome::Accepted(v) && v@.username == u@.username
                    && v@.password_hash == u@.password_hash && v@.last_activity is Some,
            }
        },
{
    match found {
        None => AuthOutcome::Rejected,
        Some(mut user) => match user.check(attempt) {
            Err(e) => AuthOutcome::Failed(e),
            Ok(false) => AuthOutcome::Rejected,
            Ok(true) => {
                user.touch();
                AuthOutcome::Accepted(user)
            },
        },
    }
}

/// A registration request: the name and the plaintext password of a new account.
#[derive(Debug)]
pub struct RegisterUser {
    pub username: String,
    pub password: String,
}

impl RegisterUser {
    /// Accepts the request unless the name or the password is empty.
    pub fn validate(&self) -> (r: Result<(), String>)
        ensures
            r is Ok <==> self.username@.len() > 0 && self.password@.len() > 0,
            r matches Err(m) ==> m@ == "Username and password cannot be empty"@,
    {
        if self.username.as_str().is_empty() || self.password.as_str().is_empty() {
            return Err("Username and password cannot be empty".to_owned());
        }
        Ok(())
    }
}

} // verus!
