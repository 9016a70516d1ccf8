use korrosync::config::{parse_flag, Config, Db, Server};

fn s(v: &str) -> Option<String> {
    Some(v.to_string())
}

#[test]
fn defaults_apply_when_nothing_is_set() {
    let c = Config::from_env(None, None, None, None, None);
    assert_eq!(c.db.path, "data/db.redb");
    assert_eq!(c.server.address, "0.0.0.0:3000");
    assert_eq!(c.server.cert_path, "tls/cert.pem");
    assert_eq!(c.server.key_path, "tls/key.pem");
    assert!(!c.server.use_tls);
}

#[test]
fn set_values_win() {
    let c = Config::from_env(s("/tmp/x.redb"), s("127.0.0.1:8080"), s("c.pem"), s("k.pem"), s("Yes"));
    assert_eq!(c.db.path, "/tmp/x.redb");
    assert_eq!(c.server.address, "127.0.0.1:8080");
    assert_eq!(c.server.cert_path, "c.pem");
    assert_eq!(c.server.key_path, "k.pem");
    assert!(c.server.use_tls);
    assert_eq!(Db::from_env(None).path, "data/db.redb");
}

#[test]
fn flag_words_in_any_case() {
    for w in ["true", "TRUE", "1", "yes", "On"] {
        assert_eq!(parse_flag(w), Some(true), "{}", w);
    }
    for w in ["false", "False", "0", "NO", "off"] {
        assert_eq!(parse_flag(w), Some(false), "{}", w);
    }
    for w in ["", "maybe", "2", " on"] {
        assert_eq!(parse_flag(w), None, "{}", w);
    }
}

#[test]
fn invalid_tls_flag_is_refused() {
    assert!(Config::try_from_env(None, None, None, None, s("perhaps")).is_none());
    let c = Config::try_from_env(s("db"), None, None, None, s("OFF")).unwrap();
    assert_eq!(c.db.path, "db");
    assert!(!c.server.use_tls);
    let server = Server::from_env(None, None, None, s("1"));
    assert!(server.use_tls);
    assert_eq!(server.address, "0.0.0.0:3000");
}
