use korrosync::codec::{encode_key, encode_progress, encode_user};
use korrosync::error::{Error, ServiceError};
use korrosync::model::{AuthenticatedUser, Progress, ProgressKey, User};
use korrosync::schema::{
    progress_from_lookup, progress_write, user_from_lookup, users_from_scan, PROGRESS_TABLE,
    USERS_TABLE,
};

fn create_test_progress() -> Progress {
    Progress {
        device_id: "device-123".to_string(),
        device: "Kindle".to_string(),
        percentage_bits: 45.5f32.to_bits(),
        progress: "Page 91 of 200".to_string(),
        timestamp: 1609459200000,
    }
}

#[test]
fn table_names_carry_a_version() {
    assert_eq!(USERS_TABLE, "users-v3");
    assert_eq!(PROGRESS_TABLE, "progress-v3");
}

#[test]
fn progress_write_echoes_document_and_timestamp() {
    let p = create_test_progress();
    let w = progress_write("alice".to_string(), "book.epub".to_string(), &p);
    assert_eq!(w.document, "book.epub");
    assert_eq!(w.timestamp, 1609459200000);
    let k = ProgressKey {
        document: "book.epub".to_string(),
        user: "alice".to_string(),
    };
    assert_eq!(w.key, encode_key(&k));
    assert_eq!(w.value, encode_progress(&p));
}

#[test]
fn progress_keys_of_users_and_documents_differ() {
    let p = create_test_progress();
    let alice = progress_write("alice".to_string(), "book.epub".to_string(), &p);
    let bob = progress_write("bob".to_string(), "book.epub".to_string(), &p);
    let other_doc = progress_write("alice".to_string(), "other.epub".to_string(), &p);
    assert_ne!(alice.key, bob.key);
    assert_ne!(alice.key, other_doc.key);
    // swapping user and document gives another key
    let swapped = progress_write("book.epub".to_string(), "alice".to_string(), &p);
    assert_ne!(alice.key, swapped.key);
}

#[test]
fn empty_user_or_document_is_accepted() {
    let p = create_test_progress();
    let w = progress_write("".to_string(), "book.epub".to_string(), &p);
    assert_eq!(w.document, "book.epub");
    let w = progress_write("alice".to_string(), "".to_string(), &p);
    assert_eq!(w.document, "");
}

#[test]
fn missing_progress_is_none() {
    assert!(progress_from_lookup(None).is_none());
    assert!(user_from_lookup(None).is_none());
}

#[test]
fn stored_progress_is_returned_whole() {
    let p = create_test_progress();
    let w = progress_write("alice".to_string(), "book.epub".to_string(), &p);
    let back = progress_from_lookup(Some(&w.value)).unwrap();
    assert_eq!(back.device_id, "device-123");
    assert_eq!(back.device, "Kindle");
    assert_eq!(f32::from_bits(back.percentage_bits), 45.5);
    assert_eq!(back.progress, "Page 91 of 200");
    assert_eq!(back.timestamp, 1609459200000);
}

#[test]
fn later_progress_replaces_every_field() {
    let p1 = Progress {
        device_id: "device-1".to_string(),
        device: "Kindle".to_string(),
        percentage_bits: 30.0f32.to_bits(),
        progress: "Page 60".to_string(),
        timestamp: 1000000,
    };
    let p2 = Progress {
        device_id: "device-2".to_string(),
        device: "Kobo".to_string(),
        percentage_bits: 70.0f32.to_bits(),
        progress: "".to_string(),
        timestamp: 2000000,
    };
    let w1 = progress_write("alice".to_string(), "book.epub".to_string(), &p1);
    let w2 = progress_write("alice".to_string(), "book.epub".to_string(), &p2);
    assert_eq!(w1.key, w2.key);
    let back = progress_from_lookup(Some(&w2.value)).unwrap();
    assert_eq!(back.device_id, "device-2");
    assert_eq!(back.device, "Kobo");
    assert_eq!(f32::from_bits(back.percentage_bits), 70.0);
    assert_eq!(back.progress, "");
    assert_eq!(back.timestamp, 2000000);
}

#[test]
fn stored_user_is_returned() {
    let mut user = User::default();
    user.set_last_activity(42);
    let bytes = encode_user(&user);
    let back = user_from_lookup(Some(&bytes)).unwrap();
    assert_eq!(back.last_activity(), Some(42));
}

#[test]
fn corrupted_user_reads_as_default() {
    let back = user_from_lookup(Some(&[5, 5, 5])).unwrap();
    assert_eq!(back.username(), "");
    assert_eq!(back.last_activity(), None);
}

#[test]
fn scan_decodes_each_value_in_order() {
    let mut a = User::default();
    a.set_last_activity(1);
    let mut b = User::default();
    b.set_last_activity(2);
    let values = vec![encode_user(&a), vec![0xff], encode_user(&b)];
    let users = users_from_scan(&values);
    assert_eq!(users.len(), 3);
    assert_eq!(users[0].last_activity(), Some(1));
    assert_eq!(users[1].last_activity(), None);
    assert_eq!(users[2].last_activity(), Some(2));
    assert!(users_from_scan(&Vec::new()).is_empty());
}

#[test]
fn errors_carry_their_message() {
    let e = ServiceError::db("commit failed".to_string());
    assert!(matches!(e, ServiceError::DB(_)));
    assert_eq!(e.message(), "commit failed");
    let io = ServiceError::Io("denied".to_string());
    assert_eq!(io.message(), "denied");
    let m = Error::runtime("bad hash".to_string());
    assert_eq!(m.message(), "bad hash");
}

#[test]
fn authenticated_user_holds_name_and_activity() {
    let a = AuthenticatedUser("alice".to_string(), Some(7));
    assert_eq!(a.0, "alice");
    assert_eq!(a.1, Some(7));
}
