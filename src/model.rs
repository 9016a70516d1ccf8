//! Domain records: users, reading progress and the composite key of a progress record.
use vstd::prelude::*;

verus! {

/// What a [`User`] holds, as mathematical values.
pub struct UserView {
    pub username: Seq<char>,
    pub password_hash: Seq<char>,
    pub last_activity: Option<i64>,
}

/// The user that stands for "no record": empty name, empty hash, never active.
pub open spec fn default_user() -> UserView {
    UserView { username: Seq::empty(), password_hash: Seq::empty(), last_activity: None }
}

/// An account: a unique name, a self-describing password hash (never the plaintext),
/// and the time of the last successful authentication in milliseconds since the epoch.
#[derive(Debug)]
pub struct User {
    username: String,
    password_hash: String,
    last_activity: Option<i64>,
}

impl View for User {
    type V = UserView;

    closed spec fn view(&self) -> UserView {
        UserView {
            username: self.username@,
            password_hash: self.password_hash@,
            last_activity: self.last_activity,
        }
    }
}

impl User {
    /// Builds a user from stored parts; the hash is taken as it is.
    pub(crate) fn from_parts(username: String, password_hash: String, last_activity: Option<i64>) -> (r: User)
        ensures
            r@ == (UserView { username: username@, password_hash: password_hash@, last_activity }),
    {
        User { username, password_hash, last_activity }
    }

    /// The name that identifies this user.
    pub fn username(&self) -> (r: &str)
        ensures
            r@ == self@.username,
    {
        self.username.as_str()
    }

    /// The stored password hash.
    pub fn password_hash(&self) -> (r: &str)
        ensures
            r@ == self@.password_hash,
    {
        self.password_hash.as_str()
    }

    /// Records `timestamp` (milliseconds since the epoch) as the last activity.
    pub fn set_last_activity(&mut self, timestamp: i64)
        ensures
            final(self)@ == (UserView { last_activity: Some(timestamp), ..old(self)@ }),
    {
        self.last_activity = Some(timestamp);
    }

    /// The last recorded activity, if any.
    pub fn last_activity(&self) -> (r: Option<i64>)
        ensures
            r == self@.last_activity,
    {
        self.last_activity
    }
}

impl Default for User {
    fn default() -> (r: User)
        ensures
            r@ == default_user(),
    {
        User { username: String::new(), password_hash: String::new(), last_activity: None }
    }
}

/// What a [`Progress`] holds, as mathematical values.
pub struct ProgressView {
    pub device_id: Seq<char>,
    pub device: Seq<char>,
    pub percentage_bits: u32,
    pub progress: Seq<char>,
    pub timestamp: u64,
}

/// The progress record that stands for "no record": empty texts and zeros.
pub open spec fn default_progress() -> ProgressView {
    ProgressView {
        device_id: Seq::empty(),
        device: Seq::empty(),
        percentage_bits: 0,
        progress: Seq::empty(),
        timestamp: 0,
    }
}

/// Reading progress of one user in one document, as reported by a device.
///
/// The percentage is a 32-bit IEEE-754 value carried as its bit pattern: this layer
/// stores it as it is and never reads it.
#[derive(Debug, Clone)]
pub struct Progress {
    /// Identifier of the reporting device.
    pub device_id: String,
    /// Human-readable device name.
    pub device: String,
    /// Bit pattern of the reading percentage.
    pub percentage_bits: u32,
    /// Opaque position marker.
    pub progress: String,
    /// Milliseconds since the epoch, as supplied by the caller.
    pub timestamp: u64,
}

impl View for Progress {
    type V = ProgressView;

    open spec fn view(&self) -> ProgressView {
        ProgressView {
            device_id: self.device_id@,
            device: self.device@,
            percentage_bits: self.percentage_bits,
            progress: self.progress@,
            timestamp: self.timestamp,
        }
    }
}

impl Default for Progress {
    fn default() -> (r: Progress)
        ensures
            r@ == default_progress(),
    {
        Progress {
            device_id: String::new(),
            device: String::new(),
            percentage_bits: 0,
            progress: String::new(),
            timestamp: 0,
        }
    }
}

/// What a [`ProgressKey`] holds, as mathematical values.
pub struct ProgressKeyView {
    pub document: Seq<char>,
    pub user: Seq<char>,
}

/// Identity of a progress record: the document, then the user.
#[derive(Debug, Clone)]
pub struct ProgressKey {
    pub document: String,
    pub user: String,
}

impl View for ProgressKey {
    type V = ProgressKeyView;

    open spec fn view(&self) -> ProgressKeyView {
        ProgressKeyView { document: self.document@, user: self.user@ }
    }
}

impl Default for ProgressKey {
    fn default() -> (r: ProgressKey)
        ensures
            r@ == (ProgressKeyView { document: Seq::empty(), user: Seq::empty() }),
    {
        ProgressKey { document: String::new(), user: String::new() }
    }
}

/// A caller whose credentials were accepted: its name and its last activity.
#[derive(Debug, Clone)]
pub struct AuthenticatedUser(pub String, pub Option<i64>);

} // verus!
