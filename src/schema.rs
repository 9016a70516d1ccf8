//! The two tables of the store and what each service operation reads and writes.
//!
//! The users table is keyed by the raw username, in the natural order of text; the
//! progress table is keyed by the bytes of a [`ProgressKey`], ordered by
//! [`crate::codec::compare_key_bytes`]. Values are the bytes of the records (see [`crate::codec`]).
//! The engine that holds the tables runs each operation in one transaction; the
//! functions here compute what that transaction writes, and what a read returns.
use vstd::prelude::*;

use crate::codec::{
    decode_key, decode_progress, decode_progress_bytes, decode_user,
    decode_user_bytes, encode_key, encode_progress, key_bytes, key_fits, lemma_key_round_trip,
    lemma_progress_round_trip, lemma_user_round_trip, progress_bytes, progress_fits, user_bytes,
    user_fits,
};
use crate::model::{Progress, ProgressKey, ProgressKeyView, ProgressView, User, UserView};

verus! {

/// Name of the users table; the suffix is the schema version.
pub const USERS_TABLE: &'static str = "users-v3";

/// Name of the progress table; the suffix is the schema version.
pub const PROGRESS_TABLE: &'static str = "progress-v3";

/// The contents of the two tables.
pub struct TablesView {
    /// Username to the bytes of the user.
    pub users: Map<Seq<char>, Seq<u8>>,
    /// Key, as the engine's order tells keys apart, to the bytes of the progress record.
    /// That order finds two keys equal exactly when they are the same key
    /// ([`crate::codec::lemma_key_cmp_total_order`]).
    pub progress: Map<ProgressKeyView, Seq<u8>>,
}

/// The key of the progress of `user` in `document`.
pub open spec fn progress_key(user: Seq<char>, document: Seq<char>) -> ProgressKeyView {
    ProgressKeyView { document, user }
}

/// What a lookup of `name` returns.
pub open spec fn stored_user(t: TablesView, name: Seq<char>) -> Option<UserView> {
    if t.users.contains_key(name) {
        Some(decode_user(t.users[name]))
    } else {
        None
    }
}

/// The tables after `u` is written under its name, replacing any earlier user.
pub open spec fn after_upsert_user(t: TablesView, u: UserView) -> TablesView {
    TablesView { users: t.users.insert(u.username, user_bytes(u)), ..t }
}

/// What deleting `name` returns: whether a user was stored under it.
pub open spec fn delete_outcome(t: TablesView, name: Seq<char>) -> bool {
    t.users.contains_key(name)
}

/// The tables after the user named `name` is deleted.
pub open spec fn after_delete_user(t: TablesView, name: Seq<char>) -> TablesView {
    TablesView { users: t.users.remove(name), ..t }
}

/// The tables after the progress bytes `value` are written under the key bytes `key`.
/// The engine places a key by decoding it, so the slot is the decoded key.
pub open spec fn after_progress_write(t: TablesView, key: Seq<u8>, value: Seq<u8>) -> TablesView {
    TablesView { progress: t.progress.insert(decode_key(key), value), ..t }
}

/// The tables after `p` is recorded as the progress of `user` in `document`.
pub open spec fn after_update_progress(
    t: TablesView,
    user: Seq<char>,
    document: Seq<char>,
    p: ProgressView,
) -> TablesView {
    after_progress_write(t, key_bytes(progress_key(user, document)), progress_bytes(p))
}

/// What a lookup of the progress of `user` in `document` returns.
pub open spec fn stored_progress(t: TablesView, user: Seq<char>, document: Seq<char>) -> Option<
    ProgressView,
> {
    let k = decode_key(key_bytes(progress_key(user, document)));
    if t.progress.contains_key(k) {
        Some(decode_progress(t.progress[k]))
    } else {
        None
    }
}

/// What recording progress writes, and what it answers.
#[derive(Debug)]
pub struct ProgressWrite {
    /// Bytes of the key (document, user).
    pub key: Vec<u8>,
    /// Bytes of the progress record.
    pub value: Vec<u8>,
    /// The document, echoed back to the caller.
    pub document: String,
    /// The record's own timestamp, echoed back to the caller.
    pub timestamp: u64,
}

/// The write that records `progress` for `user` in `document`: the whole record replaces
/// any earlier one under the same key; the answer is the document and the record's
/// timestamp.
pub fn progress_write(user: String, document: String, progress: &Progress) -> (r: ProgressWrite)
    ensures
        r.key@ == key_bytes(progress_key(user@, document@)),
        r.value@ == progress_bytes(progress@),
        r.document@ == document@,
        r.timestamp == progress.timestamp,
        key_fits(progress_key(user@, document@)),
        progress_fits(progress@),
{
    let echoed = document.clone();
    let key = ProgressKey { document, user };
    ProgressWrite {
        key: encode_key(&key),
        value: encode_progress(progress),
        document: echoed,
        timestamp: progress.timestamp,
    }
}

/// The user that a lookup returns, from the bytes found under its name, if any.
pub fn user_from_lookup(found: Option<&[u8]>) -> (r: Option<User>)
    ensures
        r is Some <==> found is Some,
        r matches Some(u) ==> u@ == decode_user(found->0@),
{
    match found {
        Some(b) => Some(decode_user_bytes(b)),
        None => None,
    }
}

/// The progress record that a lookup returns, from the bytes found under its key, if
/// any. A missing record is `None`, not an error.
pub fn progress_from_lookup(found: Option<&[u8]>) -> (r: Option<Progress>)
    ensures
        r is Some <==> found is Some,
        r matches Some(p) ==> p@ == decode_progress(found->0@),
{
    match found {
        Some(b) => Some(decode_progress_bytes(b)),
        None => None,
    }
}

/// The users that a full scan returns, from the stored values in the order of the scan.
pub fn users_from_scan(values: &Vec<Vec<u8>>) -> (r: Vec<User>)
    ensures
        r@.len() == values@.len(),
        forall|i: int| 0 <= i < values@.len() ==> #[trigger] r@[i]@ == decode_user(values@[i]@),
{
    let mut users: Vec<User> = Vec::new();
    let mut i: usize = 0;
    while i < values.len()
        invariant
            i <= values@.len(),
            users@.len() == i,
            forall|j: int| 0 <= j < i ==> #[trigger] users@[j]@ == decode_user(values@[j]@),
        decreases values@.len() - i,
    {
        users.push(decode_user_bytes(values[i].as_slice()));
        i = i + 1;
    }
    users
}

// Laws of the operations over the tables

/// Writing the same user twice leaves the tables as one write does.
pub proof fn lemma_upsert_user_idempotent(t: TablesView, u: UserView)
    ensures
        after_upsert_user(after_upsert_user(t, u), u) == after_upsert_user(t, u),
{
    assert(after_upsert_user(after_upsert_user(t, u), u).users =~= after_upsert_user(t, u).users);
}

/// After a user is written, a lookup of its name returns exactly that user.
pub proof fn lemma_upsert_then_get(t: TablesView, u: UserView)
    requires
        user_fits(u),
    ensures
        stored_user(after_upsert_user(t, u), u.username) == Some(u),
{
    lemma_user_round_trip(u);
}

/// Deleting a name answers whether a user was stored under it, and afterwards a lookup
/// of that name returns nothing; other names keep their users.
pub proof fn lemma_delete_user(t: TablesView, name: Seq<char>, other: Seq<char>)
    requires
        other != name,
    ensures
        delete_outcome(t, name) == stored_user(t, name) is Some,
        stored_user(after_delete_user(t, name), name) is None,
        stored_user(after_delete_user(t, name), other) == stored_user(t, other),
{
}

/// When progress is recorded twice under the same user and document, a lookup returns
/// exactly the second record.
pub proof fn lemma_progress_last_write_wins(
    t: TablesView,
    user: Seq<char>,
    document: Seq<char>,
    p1: ProgressView,
    p2: ProgressView,
)
    requires
        key_fits(progress_key(user, document)),
        progress_fits(p2),
    ensures
        stored_progress(
            after_update_progress(after_update_progress(t, user, document, p1), user, document, p2),
            user,
            document,
        ) == Some(p2),
{
    lemma_progress_round_trip(p2);
}

/// Recording progress for one user and document leaves the progress of every other
/// user or document as it was.
pub proof fn lemma_progress_isolation(
    t: TablesView,
    user: Seq<char>,
    document: Seq<char>,
    p: ProgressView,
    other_user: Seq<char>,
    other_document: Seq<char>,
)
    requires
        key_fits(progress_key(user, document)),
        key_fits(progress_key(other_user, other_document)),
        user != other_user || document != other_document,
    ensures
        stored_progress(after_update_progress(t, user, document, p), other_user, other_document)
            == stored_progress(t, other_user, other_document),
{
    lemma_key_round_trip(progress_key(user, document));
    lemma_key_round_trip(progress_key(other_user, other_document));
}

/// Recording progress leaves the users table as it was, and writing a user leaves the
/// progress table as it was.
pub proof fn lemma_tables_independent(
    t: TablesView,
    u: UserView,
    user: Seq<char>,
    document: Seq<char>,
    p: ProgressView,
)
    ensures
        after_update_progress(t, user, document, p).users == t.users,
        after_upsert_user(t, u).progress == t.progress,
{
}

} // verus!
