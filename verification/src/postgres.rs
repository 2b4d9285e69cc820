//! What a PostgreSQL connection is opened with.
use vstd::prelude::*;
use crate::models::{DbConnectionConfig, lookup, opt_view};
use crate::text::{to_lowercase, unicode_lowercase, str_eq, str_to_owned, parse_u64_spec};

verus! {

/// The settings a PostgreSQL connection is opened with.
#[derive(Debug)]
pub struct ConnectPlan {
    pub host: String,
    pub port: u16,
    pub user: String,
    pub password: String,
    pub dbname: Option<String>,
    /// Seconds.
    pub connect_timeout: Option<u64>,
    pub application_name: Option<String>,
    /// Connect over TLS (any SSL mode but `disable`).
    pub use_tls: bool,
    /// Accept certificates that do not verify (SSL mode `prefer`).
    pub accept_invalid_certs: bool,
}

/// The SSL mode: the `sslmode` parameter lower-cased, `prefer` by default.
pub open spec fn ssl_mode(c: DbConnectionConfig) -> Seq<char> {
    match lookup(c.extra_params@, "sslmode"@) {
        Some(m) => unicode_lowercase(m),
        None => "prefer"@,
    }
}

/// How a configuration is connected.
pub fn connect_plan(config: &DbConnectionConfig) -> (r: ConnectPlan)
    ensures
        r.host@ == config.host@,
        r.port == config.port,
        r.user@ == config.username@,
        r.password@ == config.password@,
        opt_view(r.dbname) == opt_view(config.database),
        r.connect_timeout == match lookup(config.extra_params@, "connect_timeout"@) {
            Some(v) => parse_u64_spec(v),
            None => None,
        },
        opt_view(r.application_name) == lookup(config.extra_params@, "application_name"@),
        r.use_tls == (ssl_mode(*config) != "disable"@),
        r.accept_invalid_certs == (ssl_mode(*config) == "prefer"@),
{
    let mode = match config.get_param("sslmode") {
        Some(m) => to_lowercase(m.as_str()),
        None => str_to_owned("prefer"),
    };
    let use_tls = !str_eq(mode.as_str(), "disable");
    let accept_invalid_certs = str_eq(mode.as_str(), "prefer");
    ConnectPlan {
        host: config.host.clone(),
        port: config.port,
        user: config.username.clone(),
        password: config.password.clone(),
        dbname: match &config.database {
            Some(d) => Some(d.clone()),
            None => None,
        },
        connect_timeout: config.get_param_as("connect_timeout"),
        application_name: match config.get_param("application_name") {
            Some(a) => Some(a.clone()),
            None => None,
        },
        use_tls,
        accept_invalid_certs,
    }
}

} // verus!
