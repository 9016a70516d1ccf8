//! Settings of the server, from the values of its environment variables.
//!
//! - `KORROSYNC_DB_PATH`: path of the store (default `data/db.redb`).
//! - `KORROSYNC_SERVER_ADDRESS`: address to bind (default `0.0.0.0:3000`).
//! - `KORROSYNC_USE_TLS`: whether to serve over TLS; `true`, `1`, `yes`, `on` or `false`,
//!   `0`, `no`, `off`, in any case (default `false`).
//! - `KORROSYNC_CERT_PATH`, `KORROSYNC_KEY_PATH`: PEM certificate and private key
//!   (defaults `tls/cert.pem`, `tls/key.pem`).
use vstd::prelude::*;

verus! {

pub const DEFAULT_DB_PATH: &'static str = "data/db.redb";

pub const DEFAULT_SERVER_ADDRESS: &'static str = "0.0.0.0:3000";

pub const DEFAULT_TLS_CERT: &'static str = "tls/cert.pem";

pub const DEFAULT_TLS_PRIVKEY: &'static str = "tls/key.pem";

/// What `str::to_lowercase` makes of a text.
pub uninterp spec fn lower_of(s: Seq<char>) -> Seq<char>;

/// Relies on `str::to_lowercase`: the result depends on the characters alone.
#[verifier::external_body]
fn lowercase(s: &str) -> (r: String)
    ensures
        r@ == lower_of(s@),
{
    s.to_lowercase()
}

/// The boolean that a lower-case flag word stands for, if any.
pub open spec fn flag_word(w: Seq<char>) -> Option<bool> {
    if w == "true"@ || w == "1"@ || w == "yes"@ || w == "on"@ {
        Some(true)
    } else if w == "false"@ || w == "0"@ || w == "no"@ || w == "off"@ {
        Some(false)
    } else {
        None
    }
}

/// Reads a boolean flag word in any case; `None` for a word that is none of them.
pub fn parse_flag(s: &str) -> (r: Option<bool>)
    ensures
        r == flag_word(lower_of(s@)),
{
    let w = lowercase(s);
    if w == "true".to_owned() || w == "1".to_owned() || w == "yes".to_owned() || w
        == "on".to_owned() {
        Some(true)
    } else if w == "false".to_owned() || w == "0".to_owned() || w == "no".to_owned() || w
        == "off".to_owned() {
        Some(false)
    } else {
        None
    }
}

/// The text of a setting: the value that was set, else the default.
pub open spec fn chosen(value: Option<String>, default: Seq<char>) -> Seq<char> {
    match value {
        Some(v) => v@,
        None => default,
    }
}

/// Whether TLS is on: set to a word that stands for true; off when unset.
pub open spec fn tls_chosen(use_tls: Option<String>) -> bool {
    match use_tls {
        Some(w) => flag_word(lower_of(w@)) == Some(true),
        None => false,
    }
}

/// Whether the TLS flag is set to a word that is not a boolean.
pub open spec fn tls_invalid(use_tls: Option<String>) -> bool {
    use_tls matches Some(w) && flag_word(lower_of(w@)) is None
}

/// The value that was set, else the default.
fn or_default(value: Option<String>, default: &str) -> (r: String)
    ensures
        r@ == match value {
            Some(v) => v@,
            None => default@,
        },
{
    match value {
        Some(v) => v,
        None => default.to_owned(),
    }
}

/// Settings of the store.
#[derive(Debug)]
pub struct Db {
    /// Path of the store file.
    pub path: String,
}

impl Db {
    /// From the value of `KORROSYNC_DB_PATH`, if set.
    pub fn from_env(path: Option<String>) -> (r: Db)
        ensures
            r.path@ == chosen(path, DEFAULT_DB_PATH@),
    {
        Db { path: or_default(path, DEFAULT_DB_PATH) }
    }
}

/// Settings of the listener.
#[derive(Debug)]
pub struct Server {
    /// Address to bind, such as `0.0.0.0:3000`.
    pub address: String,
    /// PEM certificate, used with TLS.
    pub cert_path: String,
    /// PEM private key, used with TLS.
    pub key_path: String,
    /// Whether to serve over TLS.
    pub use_tls: bool,
}

impl Server {
    /// From the values of `KORROSYNC_SERVER_ADDRESS`, `KORROSYNC_CERT_PATH`,
    /// `KORROSYNC_KEY_PATH` and `KORROSYNC_USE_TLS`, each if set. A TLS flag that is set
    /// must be a boolean word (see [`parse_flag`]).
    pub fn from_env(
        address: Option<String>,
        cert_path: Option<String>,
        key_path: Option<String>,
        use_tls: Option<String>,
    ) -> (r: Server)
        requires
            !tls_invalid(use_tls),
        ensures
            r.address@ == chosen(address, DEFAULT_SERVER_ADDRESS@),
            r.cert_path@ == chosen(cert_path, DEFAULT_TLS_CERT@),
            r.key_path@ == chosen(key_path, DEFAULT_TLS_PRIVKEY@),
            r.use_tls == tls_chosen(use_tls),
    {
        let use_tls = match use_tls {
            Some(w) => match parse_flag(w.as_str()) {
                Some(b) => b,
                None => false,
            },
            None => false,
        };
        Server {
            address: or_default(address, DEFAULT_SERVER_ADDRESS),
            cert_path: or_default(cert_path, DEFAULT_TLS_CERT),
            key_path: or_default(key_path, DEFAULT_TLS_PRIVKEY),
            use_tls,
        }
    }
}

/// All settings.
#[derive(Debug)]
pub struct Config {
    pub db: Db,
    pub server: Server,
}

impl Config {
    /// From the values of the environment variables, each if set. A TLS flag that is set
    /// must be a boolean word (see [`parse_flag`]).
    pub fn from_env(
        db_path: Option<String>,
        address: Option<String>,
        cert_path: Option<String>,
        key_path: Option<String>,
        use_tls: Option<String>,
    ) -> (r: Config)
        requires
            !tls_invalid(use_tls),
        ensures
            r.db.path@ == chosen(db_path, DEFAULT_DB_PATH@),
            r.server.address@ == chosen(address, DEFAULT_SERVER_ADDRESS@),
            r.server.cert_path@ == chosen(cert_path, DEFAULT_TLS_CERT@),
            r.server.key_path@ == chosen(key_path, DEFAULT_TLS_PRIVKEY@),
            r.server.use_tls == tls_chosen(use_tls),
    {
        Config {
            db: Db::from_env(db_path),
            server: Server::from_env(address, cert_path, key_path, use_tls),
        }
    }

    /// Checks the TLS flag first: `None` when it is set to a word that is not a boolean,
    /// else the settings of [`Config::from_env`].
    pub fn try_from_env(
        db_path: Option<String>,
        address: Option<String>,
        cert_path: Option<String>,
        key_path: Option<String>,
        use_tls: Option<String>,
    ) -> (r: Option<Config>)
        ensures
            r is None <==> tls_invalid(use_tls),
            r matches Some(c) ==> {
                &&& c.db.path@ == chosen(db_path, DEFAULT_DB_PATH@)
                &&& c.server.address@ == chosen(address, DEFAULT_SERVER_ADDRESS@)
                &&& c.server.cert_path@ == chosen(cert_path, DEFAULT_TLS_CERT@)
                &&& c.server.key_path@ == chosen(key_path, DEFAULT_TLS_PRIVKEY@)
                &&& c.server.use_tls == tls_chosen(use_tls)
            },
    {
        let valid = match &use_tls {
            Some(w) => parse_flag(w.as_str()).is_some(),
            None => true,
        };
        if !valid {
            return None;
        }
        Some(Config::from_env(db_path, address, cert_path, key_path, use_tls))
    }
}

} // verus!
