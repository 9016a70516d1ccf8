use std::cmp::Ordering;

use korrosync::codec::{
    compare_key_bytes, decode_key_bytes, decode_progress_bytes, decode_user_bytes, encode_key,
    encode_progress, encode_user, parse_progress_bytes, parse_user_bytes,
};
use korrosync::model::{Progress, ProgressKey, User};

fn progress(device_id: &str, device: &str, percentage: f32, marker: &str, timestamp: u64) -> Progress {
    Progress {
        device_id: device_id.to_string(),
        device: device.to_string(),
        percentage_bits: percentage.to_bits(),
        progress: marker.to_string(),
        timestamp,
    }
}

fn key(document: &str, user: &str) -> ProgressKey {
    ProgressKey {
        document: document.to_string(),
        user: user.to_string(),
    }
}

fn assert_default_progress(p: &Progress) {
    assert_eq!(p.device_id, "");
    assert_eq!(p.device, "");
    assert_eq!(p.percentage_bits, 0);
    assert_eq!(p.progress, "");
    assert_eq!(p.timestamp, 0);
}

fn assert_default_user(u: &User) {
    assert_eq!(u.username(), "");
    assert_eq!(u.password_hash(), "");
    assert_eq!(u.last_activity(), None);
}

#[test]
fn user_round_trip() {
    let mut user = User::new("alice".to_string(), "pw1".to_string()).unwrap();
    user.set_last_activity(-1609459200000);
    let back = decode_user_bytes(&encode_user(&user));
    assert_eq!(back.username(), "alice");
    assert_eq!(back.password_hash(), user.password_hash());
    assert_eq!(back.last_activity(), Some(-1609459200000));
    assert!(back.check("pw1").unwrap());
}

#[test]
fn default_user_round_trip_and_exact_bytes() {
    let user = User::default();
    let bytes = encode_user(&user);
    assert_eq!(bytes, vec![0u8; 17]);
    assert_default_user(&decode_user_bytes(&bytes));
}

#[test]
fn progress_round_trip() {
    let p = progress("unique-device-id-123", "Kindle Paperwhite 11th Gen", 67.89, "Chapter 12, Page 345 of 512", 1704067200000);
    let back = decode_progress_bytes(&encode_progress(&p));
    assert_eq!(back.device_id, "unique-device-id-123");
    assert_eq!(back.device, "Kindle Paperwhite 11th Gen");
    assert_eq!(f32::from_bits(back.percentage_bits), 67.89);
    assert_eq!(back.progress, "Chapter 12, Page 345 of 512");
    assert_eq!(back.timestamp, 1704067200000);
}

#[test]
fn progress_round_trip_boundaries() {
    let p = progress("", "", 100.0, "", u64::MAX);
    let back = decode_progress_bytes(&encode_progress(&p));
    assert_eq!(back.timestamp, u64::MAX);
    assert_eq!(f32::from_bits(back.percentage_bits), 100.0);
    assert_eq!(back.progress, "");
}

#[test]
fn round_trip_of_non_ascii_and_long_texts() {
    let long = "a".repeat(1000);
    let p = progress("désk 📚", &long, 0.0, "ページ 5", 0);
    let back = decode_progress_bytes(&encode_progress(&p));
    assert_eq!(back.device_id, "désk 📚");
    assert_eq!(back.device, long);
    assert_eq!(back.progress, "ページ 5");
}

#[test]
fn key_bytes_are_length_prefixed_texts() {
    let bytes = encode_key(&key("ab", "c"));
    assert_eq!(
        bytes,
        vec![2, 0, 0, 0, 0, 0, 0, 0, b'a', b'b', 1, 0, 0, 0, 0, 0, 0, 0, b'c']
    );
    let back = decode_key_bytes(&bytes);
    assert_eq!(back.document, "ab");
    assert_eq!(back.user, "c");
}

#[test]
fn progress_bytes_are_exact() {
    let p = Progress {
        device_id: "d".to_string(),
        device: "".to_string(),
        percentage_bits: 0x01020304,
        progress: "x".to_string(),
        timestamp: 258,
    };
    let mut expected = vec![1, 0, 0, 0, 0, 0, 0, 0, b'd'];
    expected.extend_from_slice(&[0; 8]);
    expected.extend_from_slice(&[4, 3, 2, 1]);
    expected.extend_from_slice(&[1, 0, 0, 0, 0, 0, 0, 0, b'x']);
    expected.extend_from_slice(&[2, 1, 0, 0, 0, 0, 0, 0]);
    assert_eq!(encode_progress(&p), expected);
}

#[test]
fn decode_of_empty_bytes_gives_defaults() {
    assert_default_user(&decode_user_bytes(&[]));
    assert_default_progress(&decode_progress_bytes(&[]));
    let k = decode_key_bytes(&[]);
    assert_eq!(k.document, "");
    assert_eq!(k.user, "");
}

#[test]
fn decode_of_corrupted_bytes_gives_defaults() {
    let p = progress("device-123", "Kindle", 45.5, "Page 91 of 200", 1609459200000);
    let good = encode_progress(&p);
    // truncated
    assert_default_progress(&decode_progress_bytes(&good[..good.len() - 1]));
    // trailing garbage
    let mut longer = good.clone();
    longer.push(7);
    assert_default_progress(&decode_progress_bytes(&longer));
    // a length beyond the end
    let mut lying = good.clone();
    lying[0] = 200;
    assert_default_progress(&decode_progress_bytes(&lying));
    // invalid UTF-8 inside a text
    let mut bad_text = good.clone();
    bad_text[8] = 0xff;
    assert_default_progress(&decode_progress_bytes(&bad_text));
    // random bytes
    assert_default_user(&decode_user_bytes(&[1, 2, 3]));
}

#[test]
fn decode_of_bad_activity_tag_gives_default_user() {
    let mut bytes = encode_user(&User::default());
    bytes[16] = 2;
    assert_default_user(&decode_user_bytes(&bytes));
}

#[test]
fn key_order_is_document_then_user() {
    let cases = [
        (("a", "z"), ("b", "a"), Ordering::Less),
        (("b", "a"), ("a", "z"), Ordering::Greater),
        (("book", "alice"), ("book", "bob"), Ordering::Less),
        (("book", "bob"), ("book", "bob"), Ordering::Equal),
        (("book", "alice"), ("book.epub", ""), Ordering::Less),
        (("", "x"), ("", ""), Ordering::Greater),
        (("é", "a"), ("z", "a"), Ordering::Greater),
    ];
    for ((d1, u1), (d2, u2), expected) in cases {
        let k1 = key(d1, u1);
        let k2 = key(d2, u2);
        let natural = (d1, u1).cmp(&(d2, u2));
        assert_eq!(natural, expected);
        assert_eq!(compare_key_bytes(&encode_key(&k1), &encode_key(&k2)), expected);
    }
}

#[test]
fn key_order_differs_from_raw_byte_order() {
    // "b" has a shorter length prefix than "aa", so the raw bytes of "aa" sort after
    // those of "b" while the keys sort the other way.
    let k1 = encode_key(&key("aa", "u"));
    let k2 = encode_key(&key("b", "u"));
    assert_eq!(k1.cmp(&k2), Ordering::Greater);
    assert_eq!(compare_key_bytes(&k1, &k2), Ordering::Less);
}

#[test]
fn corrupted_keys_compare_as_the_empty_key() {
    let empty = encode_key(&key("", ""));
    assert_eq!(compare_key_bytes(&[9, 9], &empty), Ordering::Equal);
    assert_eq!(compare_key_bytes(&[], &encode_key(&key("", "a"))), Ordering::Less);
}

#[test]
fn parse_tells_corrupted_records_apart() {
    let p = progress("d", "k", 1.5, "x", 3);
    let good = encode_progress(&p);
    let parsed = parse_progress_bytes(&good).unwrap();
    assert_eq!(parsed.timestamp, 3);
    assert_eq!(parsed.device, "k");
    assert!(parse_progress_bytes(&good[..good.len() - 1]).is_none());
    assert!(parse_progress_bytes(&[]).is_none());
    let u = encode_user(&User::default());
    assert!(parse_user_bytes(&u).is_some());
    assert!(parse_user_bytes(&[]).is_none());
    assert!(parse_user_bytes(&[0xff; 20]).is_none());
}
