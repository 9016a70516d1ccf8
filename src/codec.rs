//! Byte form of the stored records.
//!
//! A text field is its UTF-8 length as eight little-endian bytes followed by its UTF-8
//! bytes; an integer is its little-endian bytes; an optional integer is a tag byte
//! (0 for none, 1 for some) followed by the integer. A record is its fields in order and
//! nothing else. Decoding never fails: empty or malformed bytes give the type's default;
//! a caller that must tell a malformed record apart (to report it) parses instead.
use std::cmp::Ordering;
use vstd::bytes::*;
use vstd::prelude::*;
use vstd::slice::*;
use vstd::string::*;
use vstd::utf8::*;

use crate::model::{
    default_progress, default_user, Progress, ProgressKey, ProgressKeyView, ProgressView, User,
    UserView,
};

verus! {

broadcast use {encode_utf8_valid_utf8, encode_utf8_decode_utf8};

/// Bytes of a text field.
pub open spec fn text_bytes(s: Seq<char>) -> Seq<u8> {
    spec_u64_to_le_bytes(encode_utf8(s).len() as u64) + encode_utf8(s)
}

/// A text whose UTF-8 length can be written in the eight length bytes.
pub open spec fn text_fits(s: Seq<char>) -> bool {
    encode_utf8(s).len() <= u64::MAX
}

/// The text field that starts at `pos`, with the position after it.
pub open spec fn parse_text(b: Seq<u8>, pos: int) -> Option<(Seq<char>, int)> {
    if 0 <= pos && pos + 8 <= b.len() {
        let end = pos + 8 + spec_u64_from_le_bytes(b.subrange(pos, pos + 8)) as int;
        if end <= b.len() && valid_utf8(b.subrange(pos + 8, end)) {
            Some((decode_utf8(b.subrange(pos + 8, end)), end))
        } else {
            None
        }
    } else {
        None
    }
}

/// The eight-byte integer that starts at `pos`, with the position after it.
pub open spec fn parse_u64(b: Seq<u8>, pos: int) -> Option<(u64, int)> {
    if 0 <= pos && pos + 8 <= b.len() {
        Some((spec_u64_from_le_bytes(b.subrange(pos, pos + 8)), pos + 8))
    } else {
        None
    }
}

/// The four-byte integer that starts at `pos`, with the position after it.
pub open spec fn parse_u32(b: Seq<u8>, pos: int) -> Option<(u32, int)> {
    if 0 <= pos && pos + 4 <= b.len() {
        Some((spec_u32_from_le_bytes(b.subrange(pos, pos + 4)), pos + 4))
    } else {
        None
    }
}

/// Bytes of an optional signed integer.
pub open spec fn opt_i64_bytes(o: Option<i64>) -> Seq<u8> {
    match o {
        None => seq![0u8],
        Some(x) => seq![1u8] + spec_u64_to_le_bytes(#[verifier::truncate] (x as u64)),
    }
}

/// The optional signed integer that starts at `pos`, with the position after it.
pub open spec fn parse_opt_i64(b: Seq<u8>, pos: int) -> Option<(Option<i64>, int)> {
    if 0 <= pos && pos < b.len() && b[pos] == 0 {
        Some((None, pos + 1))
    } else if 0 <= pos && pos < b.len() && b[pos] == 1 {
        match parse_u64(b, pos + 1) {
            Some((x, end)) => Some((Some(#[verifier::truncate] (x as i64)), end)),
            None => None,
        }
    } else {
        None
    }
}

proof fn lemma_parse_text(pre: Seq<u8>, s: Seq<char>, post: Seq<u8>)
    requires
        text_fits(s),
    ensures
        parse_text(pre + text_bytes(s) + post, pre.len() as int) == Some(
            (s, (pre.len() + text_bytes(s).len()) as int),
        ),
        text_bytes(s).len() == 8 + encode_utf8(s).len(),
{
    lemma_auto_spec_u64_to_from_le_bytes();
    let n = encode_utf8(s).len() as u64;
    let b = pre + text_bytes(s) + post;
    let p = pre.len() as int;
    assert(b.subrange(p, p + 8) =~= spec_u64_to_le_bytes(n));
    assert(b.subrange(p + 8, p + 8 + n) =~= encode_utf8(s));
}

proof fn lemma_parse_u64(pre: Seq<u8>, x: u64, post: Seq<u8>)
    ensures
        parse_u64(pre + spec_u64_to_le_bytes(x) + post, pre.len() as int) == Some(
            (x, pre.len() + 8int),
        ),
        spec_u64_to_le_bytes(x).len() == 8,
{
    lemma_auto_spec_u64_to_from_le_bytes();
    let p = pre.len() as int;
    assert((pre + spec_u64_to_le_bytes(x) + post).subrange(p, p + 8) =~= spec_u64_to_le_bytes(x));
}

proof fn lemma_parse_u32(pre: Seq<u8>, x: u32, post: Seq<u8>)
    ensures
        parse_u32(pre + spec_u32_to_le_bytes(x) + post, pre.len() as int) == Some(
            (x, pre.len() + 4int),
        ),
        spec_u32_to_le_bytes(x).len() == 4,
{
    lemma_auto_spec_u32_to_from_le_bytes();
    let p = pre.len() as int;
    assert((pre + spec_u32_to_le_bytes(x) + post).subrange(p, p + 4) =~= spec_u32_to_le_bytes(x));
}

proof fn lemma_parse_opt_i64(pre: Seq<u8>, o: Option<i64>, post: Seq<u8>)
    ensures
        parse_opt_i64(pre + opt_i64_bytes(o) + post, pre.len() as int) == Some(
            (o, (pre.len() + opt_i64_bytes(o).len()) as int),
        ),
{
    let b = pre + opt_i64_bytes(o) + post;
    let p = pre.len() as int;
    match o {
        None => {
            assert(b[p] == 0);
        },
        Some(x) => {
            assert(b[p] == 1);
            lemma_parse_u64(pre + seq![1u8], #[verifier::truncate] (x as u64), post);
            assert(b =~= (pre + seq![1u8]) + spec_u64_to_le_bytes(#[verifier::truncate] (x as u64)) + post);
            assert((x as u64) as i64 == x) by (bit_vector);
        },
    }
}

/// Relies on `std::str::from_utf8`: the bytes are accepted exactly when they are valid
/// UTF-8, and then the text is the characters that they encode.
#[verifier::external_body]
fn utf8_text(b: &[u8]) -> (r: Option<String>)
    ensures
        r is Some <==> valid_utf8(b@),
        r matches Some(s) ==> s@ == decode_utf8(b@),
{
    match std::str::from_utf8(b) {
        Ok(s) => Some(s.to_string()),
        Err(_) => None,
    }
}

/// Appends the text field of `s`.
fn write_text(out: &mut Vec<u8>, s: &str)
    ensures
        final(out)@ == old(out)@ + text_bytes(s@),
        text_fits(s@),
{
    let bytes = s.as_bytes();
    let mut len_bytes = u64_to_le_bytes(bytes.len() as u64);
    out.append(&mut len_bytes);
    let mut body = slice_to_vec(bytes);
    out.append(&mut body);
}

/// Reads the text field at `pos`.
fn read_text(b: &[u8], pos: usize) -> (r: Option<(String, usize)>)
    ensures
        r matches Some((s, end)) ==> parse_text(b@, pos as int) == Some((s@, end as int)),
        r is None ==> parse_text(b@, pos as int) is None,
{
    let len = b.len();
    if pos > len || len - pos < 8 {
        return None;
    }
    let n = u64_from_le_bytes(slice_subrange(b, pos, pos + 8));
    let start = pos + 8;
    if n > (len - start) as u64 {
        return None;
    }
    let end = start + n as usize;
    match utf8_text(slice_subrange(b, start, end)) {
        Some(s) => Some((s, end)),
        None => None,
    }
}

/// Reads the eight-byte integer at `pos`.
fn read_u64(b: &[u8], pos: usize) -> (r: Option<(u64, usize)>)
    ensures
        r matches Some((x, end)) ==> parse_u64(b@, pos as int) == Some((x, end as int)),
        r is None ==> parse_u64(b@, pos as int) is None,
{
    let len = b.len();
    if pos > len || len - pos < 8 {
        return None;
    }
    Some((u64_from_le_bytes(slice_subrange(b, pos, pos + 8)), pos + 8))
}

/// Reads the four-byte integer at `pos`.
fn read_u32(b: &[u8], pos: usize) -> (r: Option<(u32, usize)>)
    ensures
        r matches Some((x, end)) ==> parse_u32(b@, pos as int) == Some((x, end as int)),
        r is None ==> parse_u32(b@, pos as int) is None,
{
    let len = b.len();
    if pos > len || len - pos < 4 {
        return None;
    }
    Some((u32_from_le_bytes(slice_subrange(b, pos, pos + 4)), pos + 4))
}

/// Reads the optional signed integer at `pos`.
fn read_opt_i64(b: &[u8], pos: usize) -> (r: Option<(Option<i64>, usize)>)
    ensures
        r matches Some((x, end)) ==> parse_opt_i64(b@, pos as int) == Some((x, end as int)),
        r is None ==> parse_opt_i64(b@, pos as int) is None,
{
    if pos >= b.len() {
        return None;
    }
    let tag = b[pos];
    if tag == 0 {
        Some((None, pos + 1))
    } else if tag == 1 {
        match read_u64(b, pos + 1) {
            Some((x, end)) => Some((Some(#[verifier::truncate] (x as i64)), end)),
            None => None,
        }
    } else {
        None
    }
}

// Records

/// A user whose texts fit their length fields.
pub open spec fn user_fits(u: UserView) -> bool {
    text_fits(u.username) && text_fits(u.password_hash)
}

/// A progress record whose texts fit their length fields.
pub open spec fn progress_fits(p: ProgressView) -> bool {
    text_fits(p.device_id) && text_fits(p.device) && text_fits(p.progress)
}

/// A key whose texts fit their length fields.
pub open spec fn key_fits(k: ProgressKeyView) -> bool {
    text_fits(k.document) && text_fits(k.user)
}

/// Bytes of a user: name, password hash, last activity.
pub open spec fn user_bytes(u: UserView) -> Seq<u8> {
    text_bytes(u.username) + text_bytes(u.password_hash) + opt_i64_bytes(u.last_activity)
}

/// Bytes of a progress record: device id, device, percentage bits, marker, timestamp.
pub open spec fn progress_bytes(p: ProgressView) -> Seq<u8> {
    text_bytes(p.device_id) + text_bytes(p.device) + spec_u32_to_le_bytes(p.percentage_bits)
        + text_bytes(p.progress) + spec_u64_to_le_bytes(p.timestamp)
}

/// Bytes of a progress key: document, then user.
pub open spec fn key_bytes(k: ProgressKeyView) -> Seq<u8> {
    text_bytes(k.document) + text_bytes(k.user)
}

/// The user that `b` holds, when `b` is exactly the bytes of one.
pub open spec fn parse_user(b: Seq<u8>) -> Option<UserView> {
    match parse_text(b, 0) {
        Some((username, p1)) => match parse_text(b, p1) {
            Some((password_hash, p2)) => match parse_opt_i64(b, p2) {
                Some((last_activity, p3)) => if p3 == b.len() {
                    Some(UserView { username, password_hash, last_activity })
                } else {
                    None
                },
                None => None,
            },
            None => None,
        },
        None => None,
    }
}

/// The progress record that `b` holds, when `b` is exactly the bytes of one.
pub open spec fn parse_progress(b: Seq<u8>) -> Option<ProgressView> {
    match parse_text(b, 0) {
        Some((device_id, p1)) => match parse_text(b, p1) {
            Some((device, p2)) => match parse_u32(b, p2) {
                Some((percentage_bits, p3)) => match parse_text(b, p3) {
                    Some((progress, p4)) => match parse_u64(b, p4) {
                        Some((timestamp, p5)) => if p5 == b.len() {
                            Some(ProgressView { device_id, device, percentage_bits, progress, timestamp })
                        } else {
                            None
                        },
                        None => None,
                    },
                    None => None,
                },
                None => None,
            },
            None => None,
        },
        None => None,
    }
}

/// The key that `b` holds, when `b` is exactly the bytes of one.
pub open spec fn parse_key(b: Seq<u8>) -> Option<ProgressKeyView> {
    match parse_text(b, 0) {
        Some((document, p1)) => match parse_text(b, p1) {
            Some((user, p2)) => if p2 == b.len() {
                Some(ProgressKeyView { document, user })
            } else {
                None
            },
            None => None,
        },
        None => None,
    }
}

/// What decoding `b` gives: the user it holds, else the default user.
pub open spec fn decode_user(b: Seq<u8>) -> UserView {
    match parse_user(b) {
        Some(u) => u,
        None => default_user(),
    }
}

/// What decoding `b` gives: the progress record it holds, else the default one.
pub open spec fn decode_progress(b: Seq<u8>) -> ProgressView {
    match parse_progress(b) {
        Some(p) => p,
        None => default_progress(),
    }
}

/// What decoding `b` gives: the key it holds, else the key of two empty texts.
pub open spec fn decode_key(b: Seq<u8>) -> ProgressKeyView {
    match parse_key(b) {
        Some(k) => k,
        None => ProgressKeyView { document: Seq::empty(), user: Seq::empty() },
    }
}

/// Decoding the bytes of a user gives that user back.
pub proof fn lemma_user_round_trip(u: UserView)
    requires
        user_fits(u),
    ensures
        parse_user(user_bytes(u)) == Some(u),
        decode_user(user_bytes(u)) == u,
{
    let t1 = text_bytes(u.username);
    let t2 = text_bytes(u.password_hash);
    let t3 = opt_i64_bytes(u.last_activity);
    let b = user_bytes(u);
    lemma_parse_text(Seq::empty(), u.username, t2 + t3);
    assert(b =~= Seq::empty() + t1 + (t2 + t3));
    lemma_parse_text(t1, u.password_hash, t3);
    assert(b =~= t1 + t2 + t3);
    lemma_parse_opt_i64(t1 + t2, u.last_activity, Seq::empty());
    assert(b =~= (t1 + t2) + t3 + Seq::empty());
}

/// Decoding the bytes of a progress record gives that record back.
pub proof fn lemma_progress_round_trip(p: ProgressView)
    requires
        progress_fits(p),
    ensures
        parse_progress(progress_bytes(p)) == Some(p),
        decode_progress(progress_bytes(p)) == p,
{
    let t1 = text_bytes(p.device_id);
    let t2 = text_bytes(p.device);
    let t3 = spec_u32_to_le_bytes(p.percentage_bits);
    let t4 = text_bytes(p.progress);
    let t5 = spec_u64_to_le_bytes(p.timestamp);
    let b = progress_bytes(p);
    lemma_parse_text(Seq::empty(), p.device_id, t2 + t3 + t4 + t5);
    assert(b =~= Seq::empty() + t1 + (t2 + t3 + t4 + t5));
    lemma_parse_text(t1, p.device, t3 + t4 + t5);
    assert(b =~= t1 + t2 + (t3 + t4 + t5));
    lemma_parse_u32(t1 + t2, p.percentage_bits, t4 + t5);
    assert(b =~= (t1 + t2) + t3 + (t4 + t5));
    lemma_parse_text(t1 + t2 + t3, p.progress, t5);
    assert(b =~= (t1 + t2 + t3) + t4 + t5);
    lemma_parse_u64(t1 + t2 + t3 + t4, p.timestamp, Seq::empty());
    assert(b =~= (t1 + t2 + t3 + t4) + t5 + Seq::empty());
}

/// Decoding the bytes of a key gives that key back.
pub proof fn lemma_key_round_trip(k: ProgressKeyView)
    requires
        key_fits(k),
    ensures
        parse_key(key_bytes(k)) == Some(k),
        decode_key(key_bytes(k)) == k,
{
    let t1 = text_bytes(k.document);
    let t2 = text_bytes(k.user);
    lemma_parse_text(Seq::empty(), k.document, t2);
    assert(key_bytes(k) =~= Seq::empty() + t1 + t2);
    lemma_parse_text(t1, k.user, Seq::empty());
    assert(key_bytes(k) =~= t1 + t2 + Seq::empty());
}

/// Encodes a user.
pub fn encode_user(u: &User) -> (r: Vec<u8>)
    ensures
        r@ == user_bytes(u@),
        user_fits(u@),
{
    let mut out: Vec<u8> = Vec::new();
    write_text(&mut out, u.username());
    write_text(&mut out, u.password_hash());
    match u.last_activity() {
        None => out.push(0u8),
        Some(x) => {
            out.push(1u8);
            let mut xb = u64_to_le_bytes(x as u64);
            out.append(&mut xb);
        },
    }
    proof {
        assert(out@ =~= user_bytes(u@));
    }
    out
}

/// Parses a user: `None` when the bytes are not exactly the bytes of one.
pub fn parse_user_bytes(b: &[u8]) -> (r: Option<User>)
    ensures
        r is Some <==> parse_user(b@) is Some,
        r matches Some(u) ==> parse_user(b@) == Some(u@),
{
    let (username, p1) = match read_text(b, 0) {
        Some(x) => x,
        None => return None,
    };
    let (password_hash, p2) = match read_text(b, p1) {
        Some(x) => x,
        None => return None,
    };
    let (last_activity, p3) = match read_opt_i64(b, p2) {
        Some(x) => x,
        None => return None,
    };
    if p3 != b.len() {
        return None;
    }
    Some(User::from_parts(username, password_hash, last_activity))
}

/// Decodes a user; empty or malformed bytes give the default user.
pub fn decode_user_bytes(b: &[u8]) -> (r: User)
    ensures
        r@ == decode_user(b@),
        b@.len() == 0 ==> r@ == default_user(),
        parse_user(b@) is None ==> r@ == default_user(),
{
    match parse_user_bytes(b) {
        Some(u) => u,
        None => User::default(),
    }
}

/// Encodes a progress record.
pub fn encode_progress(p: &Progress) -> (r: Vec<u8>)
    ensures
        r@ == progress_bytes(p@),
        progress_fits(p@),
{
    let mut out: Vec<u8> = Vec::new();
    write_text(&mut out, p.device_id.as_str());
    write_text(&mut out, p.device.as_str());
    let mut pb = u32_to_le_bytes(p.percentage_bits);
    out.append(&mut pb);
    write_text(&mut out, p.progress.as_str());
    let mut tb = u64_to_le_bytes(p.timestamp);
    out.append(&mut tb);
    proof {
        assert(out@ =~= progress_bytes(p@));
    }
    out
}

/// Parses a progress record: `None` when the bytes are not exactly the bytes of one.
pub fn parse_progress_bytes(b: &[u8]) -> (r: Option<Progress>)
    ensures
        r is Some <==> parse_progress(b@) is Some,
        r matches Some(p) ==> parse_progress(b@) == Some(p@),
{
    let (device_id, p1) = match read_text(b, 0) {
        Some(x) => x,
        None => return None,
    };
    let (device, p2) = match read_text(b, p1) {
        Some(x) => x,
        None => return None,
    };
    let (percentage_bits, p3) = match read_u32(b, p2) {
        Some(x) => x,
        None => return None,
    };
    let (progress, p4) = match read_text(b, p3) {
        Some(x) => x,
        None => return None,
    };
    let (timestamp, p5) = match read_u64(b, p4) {
        Some(x) => x,
        None => return None,
    };
    if p5 != b.len() {
        return None;
    }
    Some(Progress { device_id, device, percentage_bits, progress, timestamp })
}

/// Decodes a progress record; empty or malformed bytes give the default record.
pub fn decode_progress_bytes(b: &[u8]) -> (r: Progress)
    ensures
        r@ == decode_progress(b@),
        b@.len() == 0 ==> r@ == default_progress(),
        parse_progress(b@) is None ==> r@ == default_progress(),
{
    match parse_progress_bytes(b) {
        Some(p) => p,
        None => Progress::default(),
    }
}

/// Encodes a progress key.
pub fn encode_key(k: &ProgressKey) -> (r: Vec<u8>)
    ensures
        r@ == key_bytes(k@),
        key_fits(k@),
{
    let mut out: Vec<u8> = Vec::new();
    write_text(&mut out, k.document.as_str());
    write_text(&mut out, k.user.as_str());
    out
}

/// Decodes a progress key; empty or malformed bytes give the key of two empty texts.
pub fn decode_key_bytes(b: &[u8]) -> (r: ProgressKey)
    ensures
        r@ == decode_key(b@),
{
    let (document, p1) = match read_text(b, 0) {
        Some(x) => x,
        None => return ProgressKey::default(),
    };
    let (user, p2) = match read_text(b, p1) {
        Some(x) => x,
        None => return ProgressKey::default(),
    };
    if p2 != b.len() {
        return ProgressKey::default();
    }
    ProgressKey { document, user }
}

// Order of progress keys

/// Lexicographic order of byte sequences: the first differing byte decides, and a
/// proper prefix comes first.
pub open spec fn bytes_cmp(a: Seq<u8>, b: Seq<u8>) -> Ordering
    decreases a.len(),
{
    if a.len() == 0 {
        if b.len() == 0 {
            Ordering::Equal
        } else {
            Ordering::Less
        }
    } else if b.len() == 0 {
        Ordering::Greater
    } else if a[0] < b[0] {
        Ordering::Less
    } else if a[0] > b[0] {
        Ordering::Greater
    } else {
        bytes_cmp(a.drop_first(), b.drop_first())
    }
}

/// Order of texts: that of their UTF-8 bytes, as for Rust's `str`.
pub open spec fn text_cmp(a: Seq<char>, b: Seq<char>) -> Ordering {
    bytes_cmp(encode_utf8(a), encode_utf8(b))
}

/// Field-wise order of keys: by document, then by user.
pub open spec fn key_cmp(k1: ProgressKeyView, k2: ProgressKeyView) -> Ordering {
    match text_cmp(k1.document, k2.document) {
        Ordering::Equal => text_cmp(k1.user, k2.user),
        o => o,
    }
}

/// Compares two texts by their UTF-8 bytes.
fn compare_text(a: &str, b: &str) -> (r: Ordering)
    ensures
        r == text_cmp(a@, b@),
{
    let x = a.as_bytes();
    let y = b.as_bytes();
    let mut i: usize = 0;
    assert(x@.skip(0) =~= x@);
    assert(y@.skip(0) =~= y@);
    while i < x.len() && i < y.len()
        invariant
            x@ == encode_utf8(a@),
            y@ == encode_utf8(b@),
            i <= x@.len(),
            i <= y@.len(),
            bytes_cmp(x@, y@) == bytes_cmp(x@.skip(i as int), y@.skip(i as int)),
        decreases x@.len() - i,
    {
        assert(x@.skip(i as int)[0] == x@[i as int]);
        assert(y@.skip(i as int)[0] == y@[i as int]);
        if x[i] < y[i] {
            return Ordering::Less;
        }
        if x[i] > y[i] {
            return Ordering::Greater;
        }
        assert(x@.skip(i as int).drop_first() =~= x@.skip(i + 1));
        assert(y@.skip(i as int).drop_first() =~= y@.skip(i + 1));
        i = i + 1;
    }
    if i < x.len() {
        Ordering::Greater
    } else if i < y.len() {
        Ordering::Less
    } else {
        Ordering::Equal
    }
}

/// The engine's order on stored progress keys: decode both, then compare field-wise.
pub fn compare_key_bytes(a: &[u8], b: &[u8]) -> (r: Ordering)
    ensures
        r == key_cmp(decode_key(a@), decode_key(b@)),
{
    let k1 = decode_key_bytes(a);
    let k2 = decode_key_bytes(b);
    match compare_text(k1.document.as_str(), k2.document.as_str()) {
        Ordering::Equal => compare_text(k1.user.as_str(), k2.user.as_str()),
        o => o,
    }
}

/// Comparing the bytes of two keys agrees with comparing the keys field-wise, document
/// first, then user.
pub proof fn lemma_key_order(k1: ProgressKeyView, k2: ProgressKeyView)
    requires
        key_fits(k1),
        key_fits(k2),
    ensures
        key_cmp(decode_key(key_bytes(k1)), decode_key(key_bytes(k2))) == key_cmp(k1, k2),
{
    lemma_key_round_trip(k1);
    lemma_key_round_trip(k2);
}

/// Equal key bytes come only from equal keys.
pub proof fn lemma_key_bytes_injective(k1: ProgressKeyView, k2: ProgressKeyView)
    requires
        key_fits(k1),
        key_fits(k2),
        key_bytes(k1) == key_bytes(k2),
    ensures
        k1 == k2,
{
    lemma_key_round_trip(k1);
    lemma_key_round_trip(k2);
}

/// Empty bytes, and any bytes that do not hold exactly one record, decode to the
/// type's default.
pub proof fn lemma_decode_degrades(b: Seq<u8>)
    ensures
        b.len() == 0 ==> decode_user(b) == default_user() && decode_progress(b) == default_progress(),
        parse_user(b) is None ==> decode_user(b) == default_user(),
        parse_progress(b) is None ==> decode_progress(b) == default_progress(),
{
}

proof fn lemma_bytes_cmp_equal(a: Seq<u8>, b: Seq<u8>)
    ensures
        bytes_cmp(a, b) == Ordering::Equal <==> a == b,
    decreases a.len(),
{
    if a.len() == 0 || b.len() == 0 {
        if a.len() != b.len() {
            assert(a != b);
        } else {
            assert(a =~= b);
        }
    } else if a[0] != b[0] {
        assert(a != b);
    } else {
        lemma_bytes_cmp_equal(a.drop_first(), b.drop_first());
        if a.drop_first() == b.drop_first() {
            assert(a =~= b) by {
                assert forall|i: int| 0 <= i < a.len() implies a[i] == b[i] by {
                    if i > 0 {
                        assert(a[i] == a.drop_first()[i - 1]);
                        assert(b[i] == b.drop_first()[i - 1]);
                    }
                }
            }
        } else {
            assert(a != b);
        }
    }
}

proof fn lemma_bytes_cmp_antisymmetric(a: Seq<u8>, b: Seq<u8>)
    ensures
        (bytes_cmp(a, b) == Ordering::Less) == (bytes_cmp(b, a) == Ordering::Greater),
    decreases a.len(),
{
    if a.len() > 0 && b.len() > 0 && a[0] == b[0] {
        lemma_bytes_cmp_antisymmetric(a.drop_first(), b.drop_first());
    }
}

proof fn lemma_bytes_cmp_transitive(a: Seq<u8>, b: Seq<u8>, c: Seq<u8>)
    requires
        bytes_cmp(a, b) == Ordering::Less,
        bytes_cmp(b, c) == Ordering::Less,
    ensures
        bytes_cmp(a, c) == Ordering::Less,
    decreases a.len(),
{
    if a.len() > 0 && b.len() > 0 && c.len() > 0 && a[0] == b[0] && b[0] == c[0] {
        lemma_bytes_cmp_transitive(a.drop_first(), b.drop_first(), c.drop_first());
    }
}

proof fn lemma_text_cmp_equal(a: Seq<char>, b: Seq<char>)
    ensures
        text_cmp(a, b) == Ordering::Equal <==> a == b,
{
    lemma_bytes_cmp_equal(encode_utf8(a), encode_utf8(b));
    assert(decode_utf8(encode_utf8(a)) == a);
    assert(decode_utf8(encode_utf8(b)) == b);
}

/// The order of keys is a total order: it finds two keys equal exactly when they are
/// the same key, it is antisymmetric, and it is transitive. Keys that the order cannot
/// tell apart are therefore one slot of the progress table.
pub proof fn lemma_key_cmp_total_order(
    k1: ProgressKeyView,
    k2: ProgressKeyView,
    k3: ProgressKeyView,
)
    ensures
        (key_cmp(k1, k2) == Ordering::Equal) == (k1 == k2),
        (key_cmp(k1, k2) == Ordering::Less) == (key_cmp(k2, k1) == Ordering::Greater),
        key_cmp(k1, k2) == Ordering::Less && key_cmp(k2, k3) == Ordering::Less ==> key_cmp(k1, k3)
            == Ordering::Less,
{
    lemma_text_cmp_equal(k1.document, k2.document);
    lemma_text_cmp_equal(k1.user, k2.user);
    lemma_text_cmp_equal(k2.document, k3.document);
    lemma_text_cmp_equal(k1.document, k3.document);
    let (d1, d2, d3) = (encode_utf8(k1.document), encode_utf8(k2.document), encode_utf8(k3.document));
    let (u1, u2, u3) = (encode_utf8(k1.user), encode_utf8(k2.user), encode_utf8(k3.user));
    lemma_bytes_cmp_antisymmetric(d1, d2);
    lemma_bytes_cmp_antisymmetric(d2, d1);
    lemma_bytes_cmp_antisymmetric(u1, u2);
    lemma_bytes_cmp_antisymmetric(u2, u1);
    lemma_bytes_cmp_equal(d2, d1);
    lemma_bytes_cmp_equal(u2, u1);
    if key_cmp(k1, k2) == Ordering::Less && key_cmp(k2, k3) == Ordering::Less {
        if bytes_cmp(d1, d2) == Ordering::Less && bytes_cmp(d2, d3) == Ordering::Less {
            lemma_bytes_cmp_transitive(d1, d2, d3);
        } else if bytes_cmp(d1, d2) == Ordering::Less {
            assert(d2 == d3);
        } else if bytes_cmp(d2, d3) == Ordering::Less {
            assert(d1 == d2);
        } else {
            assert(d1 == d2 && d2 == d3);
            lemma_bytes_cmp_transitive(u1, u2, u3);
        }
    }
}

} // verus!
