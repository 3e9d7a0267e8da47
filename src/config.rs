use crate::error::{Error, ErrorKind};
use crate::registry::same_text;
use vstd::prelude::*;

verus! {

/// The value of the first entry named `key` in `vars`.
pub open spec fn env_value(vars: Seq<(String, String)>, key: Seq<char>) -> Option<Seq<char>>
    decreases vars.len(),
{
    if vars.len() == 0 {
        None
    } else if vars[0].0@ == key {
        Some(vars[0].1@)
    } else {
        env_value(vars.skip(1), key)
    }
}

/// The value of `key`, or `default` where it is not set.
pub open spec fn env_or_spec(vars: Seq<(String, String)>, key: Seq<char>, default: Seq<char>) -> Seq<
    char,
> {
    match env_value(vars, key) {
        Some(v) => v,
        None => default,
    }
}

/// The vault settings are required: the selected envelope provider is Google Cloud.
pub open spec fn gcp_selected(vars: Seq<(String, String)>) -> bool {
    env_or_spec(vars, "ENVELOPE_PROVIDER"@, "gcp"@) == "gcp"@
}

/// A vault setting: its value where Google Cloud is selected, else empty.
pub open spec fn gcp_setting(vars: Seq<(String, String)>, key: Seq<char>) -> Seq<char> {
    if gcp_selected(vars) {
        env_or_spec(vars, key, Seq::empty())
    } else {
        Seq::empty()
    }
}

/// The process configuration: provider selectors, service addresses and vault key naming.
pub struct Config {
    pub rust_log: String,
    pub listen_addr: String,
    pub db_addr: String,
    pub db_proto: String,
    pub db_user: String,
    pub db_pass: String,
    pub encryption_provider: String,
    pub hashing_provider: String,
    pub keyderivation_provider: String,
    pub envelope_provider: String,
    pub filesystem_provider: String,
    pub gcp_project_id: String,
    pub gcp_keyring_location: String,
    pub gcp_keyring_name: String,
    pub gcp_key_name: String,
}

impl Config {
    /// The configuration from the environment `vars`: each setting's value, or its default
    /// where it is not set. The four vault settings have no default: where Google Cloud is
    /// the selected envelope provider, a missing one is a configuration error, and
    /// otherwise they are empty.
    pub fn default(vars: &Vec<(String, String)>) -> (r: Result<Config, Error>)
        ensures
            r is Err <==> gcp_selected(vars@) && (env_value(vars@, "GCP_PROJECT_ID"@) is None
                || env_value(vars@, "GCP_KEYRING_LOCATION"@) is None || env_value(
                vars@,
                "GCP_KEYRING_NAME"@,
            ) is None || env_value(vars@, "GCP_KEY_NAME"@) is None),
            r matches Err(e) ==> e.kind == ErrorKind::Configuration,
            r matches Ok(c) ==> {
                &&& c.rust_log@ == env_or_spec(vars@, "RUST_LOG"@, "pandorica=debug"@)
                &&& c.listen_addr@ == env_or_spec(vars@, "LISTEN_ADDR"@, "127.0.0.1:5000"@)
                &&& c.db_addr@ == env_or_spec(vars@, "DB_ADDR"@, "127.0.0.1:8000"@)
                &&& c.db_proto@ == env_or_spec(vars@, "DB_PROTO"@, "ws"@)
                &&& c.db_user@ == env_or_spec(vars@, "DB_USER"@, "root"@)
                &&& c.db_pass@ == env_or_spec(vars@, "DB_PASS"@, "root"@)
                &&& c.encryption_provider@ == env_or_spec(
                    vars@,
                    "ENCRYPTION_PROVIDER"@,
                    "chacha20poly1305"@,
                )
                &&& c.hashing_provider@ == env_or_spec(vars@, "HASHING_PROVIDER"@, "argon2id"@)
                &&& c.keyderivation_provider@ == env_or_spec(
                    vars@,
                    "KEYDERIVATION_PROVIDER"@,
                    "scrypt"@,
                )
                &&& c.envelope_provider@ == env_or_spec(vars@, "ENVELOPE_PROVIDER"@, "gcp"@)
                &&& c.filesystem_provider@ == env_or_spec(vars@, "FILESYSTEM_PROVIDER"@, "memory"@)
                &&& c.gcp_project_id@ == gcp_setting(vars@, "GCP_PROJECT_ID"@)
                &&& c.gcp_keyring_location@ == gcp_setting(vars@, "GCP_KEYRING_LOCATION"@)
                &&& c.gcp_keyring_name@ == gcp_setting(vars@, "GCP_KEYRING_NAME"@)
                &&& c.gcp_key_name@ == gcp_setting(vars@, "GCP_KEY_NAME"@)
            },
    {
        let rust_log = Self::env_or(vars, "RUST_LOG", "pandorica=debug");
        let listen_addr = Self::env_or(vars, "LISTEN_ADDR", "127.0.0.1:5000");
        let db_addr = Self::env_or(vars, "DB_ADDR", "127.0.0.1:8000");
        let db_proto = Self::env_or(vars, "DB_PROTO", "ws");
        let db_user = Self::env_or(vars, "DB_USER", "root");
        let db_pass = Self::env_or(vars, "DB_PASS", "root");
        let encryption_provider = Self::env_or(vars, "ENCRYPTION_PROVIDER", "chacha20poly1305");
        let hashing_provider = Self::env_or(vars, "HASHING_PROVIDER", "argon2id");
        let keyderivation_provider = Self::env_or(vars, "KEYDERIVATION_PROVIDER", "scrypt");
        let envelope_provider = Self::env_or(vars, "ENVELOPE_PROVIDER", "gcp");
        let filesystem_provider = Self::env_or(vars, "FILESYSTEM_PROVIDER", "memory");
        let gcp_project_id = Self::env_expect_gcp(vars, "GCP_PROJECT_ID")?;
        let gcp_keyring_location = Self::env_expect_gcp(vars, "GCP_KEYRING_LOCATION")?;
        let gcp_keyring_name = Self::env_expect_gcp(vars, "GCP_KEYRING_NAME")?;
        let gcp_key_name = Self::env_expect_gcp(vars, "GCP_KEY_NAME")?;
        Ok(Config {
            rust_log,
            listen_addr,
            db_addr,
            db_proto,
            db_user,
            db_pass,
            encryption_provider,
            hashing_provider,
            keyderivation_provider,
            envelope_provider,
            filesystem_provider,
            gcp_project_id,
            gcp_keyring_location,
            gcp_keyring_name,
            gcp_key_name,
        })
    }

    /// The value of the first entry named `key`.
    pub fn env_lookup(vars: &Vec<(String, String)>, key: &str) -> (r: Option<String>)
        ensures
            match env_value(vars@, key@) {
                Some(v) => r matches Some(s) && s@ == v,
                None => r is None,
            },
    {
        let mut i: usize = 0;
        assert(vars@.skip(0) =~= vars@);
        while i < vars.len()
            invariant
                i <= vars@.len(),
                env_value(vars@, key@) == env_value(vars@.skip(i as int), key@),
            decreases vars@.len() - i,
        {
            let ghost rest = vars@.skip(i as int);
            assert(rest.skip(1) =~= vars@.skip(i + 1));
            assert(rest[0] == vars@[i as int]);
            if same_text(vars[i].0.as_str(), key) {
                return Some(vars[i].1.clone());
            }
            i = i + 1;
        }
        None
    }

    /// The value of `key`, or `default` where it is not set.
    pub fn env_or(vars: &Vec<(String, String)>, key: &str, default: &str) -> (r: String)
        ensures
            r@ == env_or_spec(vars@, key@, default@),
    {
        match Self::env_lookup(vars, key) {
            Some(v) => v,
            None => default.to_owned(),
        }
    }

    /// The value of `key` where `condition` holds, and then it must be set; the empty
    /// text otherwise.
    pub fn env_expect_if(vars: &Vec<(String, String)>, key: &str, condition: bool) -> (r: Result<
        String,
        Error,
    >)
        ensures
            !condition ==> (r matches Ok(s) && s@.len() == 0),
            condition ==> match env_value(vars@, key@) {
                Some(v) => r matches Ok(s) && s@ == v,
                None => r matches Err(e) && e.kind == ErrorKind::Configuration,
            },
    {
        if condition {
            match Self::env_lookup(vars, key) {
                Some(v) => Ok(v),
                None => Err(Error::new(ErrorKind::Configuration, "a required setting is not set")),
            }
        } else {
            Ok(String::new())
        }
    }

    /// A vault setting: required where Google Cloud is the selected envelope provider.
    pub fn env_expect_gcp(vars: &Vec<(String, String)>, key: &str) -> (r: Result<String, Error>)
        ensures
            !gcp_selected(vars@) ==> (r matches Ok(s) && s@.len() == 0),
            gcp_selected(vars@) ==> match env_value(vars@, key@) {
                Some(v) => r matches Ok(s) && s@ == v,
                None => r matches Err(e) && e.kind == ErrorKind::Configuration,
            },
    {
        let provider = Self::env_or(vars, "ENVELOPE_PROVIDER", "gcp");
        Self::env_expect_if(vars, key, same_text(provider.as_str(), "gcp"))
    }

    pub fn rust_log(&self) -> (r: &str)
        ensures
            r@ == self.rust_log@,
    {
        self.rust_log.as_str()
    }

    pub fn listen_addr(&self) -> (r: &str)
        ensures
            r@ == self.listen_addr@,
    {
        self.listen_addr.as_str()
    }

    pub fn db_addr(&self) -> (r: &str)
        ensures
            r@ == self.db_addr@,
    {
        self.db_addr.as_str()
    }

    pub fn db_proto(&self) -> (r: &str)
        ensures
            r@ == self.db_proto@,
    {
        self.db_proto.as_str()
    }

    pub fn db_user(&self) -> (r: &str)
        ensures
            r@ == self.db_user@,
    {
        self.db_user.as_str()
    }

    pub fn db_pass(&self) -> (r: &str)
        ensures
            r@ == self.db_pass@,
    {
        self.db_pass.as_str()
    }

    pub fn encryption_provider(&self) -> (r: &str)
        ensures
            r@ == self.encryption_provider@,
    {
        self.encryption_provider.as_str()
    }

    pub fn hashing_provider(&self) -> (r: &str)
        ensures
            r@ == self.hashing_provider@,
    {
        self.hashing_provider.as_str()
    }

    pub fn keyderivation_provider(&self) -> (r: &str)
        ensures
            r@ == self.keyderivation_provider@,
    {
        self.keyderivation_provider.as_str()
    }

    pub fn envelope_provider(&self) -> (r: &str)
        ensures
            r@ == self.envelope_provider@,
    {
        self.envelope_provider.as_str()
    }

    pub fn filesystem_provider(&self) -> (r: &str)
        ensures
            r@ == self.filesystem_provider@,
    {
        self.filesystem_provider.as_str()
    }

    pub fn gcp_project_id(&self) -> (r: &str)
        ensures
            r@ == self.gcp_project_id@,
    {
        self.gcp_project_id.as_str()
    }

    pub fn gcp_keyring_location(&self) -> (r: &str)
        ensures
            r@ == self.gcp_keyring_location@,
    {
        self.gcp_keyring_location.as_str()
    }

    pub fn gcp_keyring_name(&self) -> (r: &str)
        ensures
            r@ == self.gcp_keyring_name@,
    {
        self.gcp_keyring_name.as_str()
    }

    pub fn gcp_key_name(&self) -> (r: &str)
        ensures
            r@ == self.gcp_key_name@,
    {
        self.gcp_key_name.as_str()
    }
}

} // verus!
