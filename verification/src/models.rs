//! Stored connection and workspace model.
//!
//! A connection's extra parameters are a list of key/value pairs; a key is
//! looked up by its first occurrence, so the list behaves as the map that
//! the application stores.
use vstd::prelude::*;
use std::collections::HashSet;
use crate::text::{
    str_eq, str_to_owned, push_str, push_char, u64_to_decimal, decimal, parse_u64, signed_decimal,
    i64_to_decimal,
    parse_u64_spec,
};

verus! {

broadcast use vstd::std_specs::hash::group_hash_axioms;

// ---------------------------------------------------------------------------
// Active connections
// ---------------------------------------------------------------------------

/// Which stored connections are currently open.
pub struct ActiveConnections {
    active_ids: HashSet<i64>,
}

impl View for ActiveConnections {
    type V = Set<i64>;

    closed spec fn view(&self) -> Set<i64> {
        self.active_ids@
    }
}

impl ActiveConnections {
    /// The set of open connections is finite.
    pub open spec fn wf(&self) -> bool {
        self@.finite()
    }

    pub fn new() -> (r: Self)
        ensures
            r@ == Set::<i64>::empty(),
            r.wf(),
    {
        ActiveConnections { active_ids: HashSet::new() }
    }

    pub fn add(&mut self, conn_id: i64)
        requires
            old(self).wf(),
        ensures
            final(self)@ == old(self)@.insert(conn_id),
            final(self).wf(),
    {
        self.active_ids.insert(conn_id);
    }

    pub fn remove(&mut self, conn_id: i64)
        requires
            old(self).wf(),
        ensures
            final(self)@ == old(self)@.remove(conn_id),
            final(self).wf(),
    {
        self.active_ids.remove(&conn_id);
        assert(self.active_ids@ =~= old(self).active_ids@.remove(conn_id));
    }

    pub fn is_active(&self, conn_id: i64) -> (r: bool)
        ensures
            r == self@.contains(conn_id),
    {
        self.active_ids.contains(&conn_id)
    }

    pub fn active_count(&self) -> (r: usize)
        ensures
            r == self@.len(),
    {
        self.active_ids.len()
    }
}

/// Opening a connection makes it active and counts it once; closing it
/// makes it inactive again and gives back the count it had before.
pub proof fn law_active_add_remove(s: Set<i64>, id: i64)
    requires
        s.finite(),
    ensures
        s.insert(id).contains(id),
        !s.remove(id).contains(id),
        !s.contains(id) ==> s.insert(id).len() == s.len() + 1,
        s.contains(id) ==> s.insert(id) == s,
        !s.contains(id) ==> s.insert(id).remove(id) == s,
        s.contains(id) ==> s.remove(id).len() + 1 == s.len(),
        !s.contains(id) ==> s.remove(id) == s,
{
    if !s.contains(id) {
        assert(s.insert(id).remove(id) =~= s);
        assert(s.remove(id) =~= s);
    } else {
        assert(s.insert(id) =~= s);
    }
}

// ---------------------------------------------------------------------------
// Connection and database kinds
// ---------------------------------------------------------------------------

#[derive(Clone, Copy, Debug, PartialEq, Eq, Structural)]
pub enum ConnectionType {
    All,
    Database,
    SshSftp,
    ChatDB,
}

impl ConnectionType {
    pub open spec fn from_str_spec(s: Seq<char>) -> ConnectionType {
        if s == "Database"@ {
            ConnectionType::Database
        } else if s == "SshSftp"@ {
            ConnectionType::SshSftp
        } else if s == "ChatDB"@ {
            ConnectionType::ChatDB
        } else {
            ConnectionType::Database
        }
    }

    pub open spec fn label_spec(self) -> Seq<char> {
        match self {
            ConnectionType::All => "全部"@,
            ConnectionType::Database => "数据库"@,
            ConnectionType::SshSftp => "SSH/SFTP"@,
            ConnectionType::ChatDB => "ChatDB"@,
        }
    }

    pub fn all() -> (r: Vec<ConnectionType>)
        ensures
            r@ == seq![
                ConnectionType::All,
                ConnectionType::Database,
                ConnectionType::SshSftp,
                ConnectionType::ChatDB,
            ],
    {
        vec![
            ConnectionType::All,
            ConnectionType::Database,
            ConnectionType::SshSftp,
            ConnectionType::ChatDB,
        ]
    }

    /// Reads a stored connection type; anything unknown (`"All"` too) is a
    /// database connection.
    pub fn from_str(s: &str) -> (r: ConnectionType)
        ensures
            r == Self::from_str_spec(s@),
    {
        if str_eq(s, "Database") {
            ConnectionType::Database
        } else if str_eq(s, "SshSftp") {
            ConnectionType::SshSftp
        } else if str_eq(s, "ChatDB") {
            ConnectionType::ChatDB
        } else {
            ConnectionType::Database
        }
    }

    /// The stored name of the type.
    pub fn name(&self) -> (r: &'static str)
        ensures
            r@ == match *self {
                ConnectionType::All => "All"@,
                ConnectionType::Database => "Database"@,
                ConnectionType::SshSftp => "SshSftp"@,
                ConnectionType::ChatDB => "ChatDB"@,
            },
    {
        match self {
            ConnectionType::All => "All",
            ConnectionType::Database => "Database",
            ConnectionType::SshSftp => "SshSftp",
            ConnectionType::ChatDB => "ChatDB",
        }
    }

    pub fn label(&self) -> (r: &'static str)
        ensures
            r@ == self.label_spec(),
    {
        match self {
            ConnectionType::All => "全部",
            ConnectionType::Database => "数据库",
            ConnectionType::SshSftp => "SSH/SFTP",
            ConnectionType::ChatDB => "ChatDB",
        }
    }
}

/// Database type enumeration.
#[derive(Clone, Copy, Debug, PartialEq, Eq, Structural)]
pub enum DatabaseType {
    PostgreSQL,
}

impl DatabaseType {
    pub open spec fn name_spec(self) -> Seq<char> {
        match self {
            DatabaseType::PostgreSQL => "PostgreSQL"@,
        }
    }

    pub fn all() -> (r: Vec<DatabaseType>)
        ensures
            r@ == seq![DatabaseType::PostgreSQL],
    {
        vec![DatabaseType::PostgreSQL]
    }

    pub fn as_str(&self) -> (r: &'static str)
        ensures
            r@ == self.name_spec(),
    {
        match self {
            DatabaseType::PostgreSQL => "PostgreSQL",
        }
    }

    pub fn from_str(s: &str) -> (r: Option<DatabaseType>)
        ensures
            r == (if s@ == "PostgreSQL"@ {
                Some(DatabaseType::PostgreSQL)
            } else {
                None
            }),
    {
        if str_eq(s, "PostgreSQL") {
            Some(DatabaseType::PostgreSQL)
        } else {
            None
        }
    }
}

/// Reading a database type's name back gives the type.
pub proof fn law_database_type_round_trip(t: DatabaseType)
    ensures
        (if t.name_spec() == "PostgreSQL"@ {
            Some(DatabaseType::PostgreSQL)
        } else {
            None
        }) == Some(t),
{
}

/// Reads a database type name; unknown names fall back to PostgreSQL.
pub fn parse_db_type(s: &str) -> (r: DatabaseType)
    ensures
        r == DatabaseType::PostgreSQL,
{
    let _ = s;
    DatabaseType::PostgreSQL
}

// ---------------------------------------------------------------------------
// SSH and proxy settings
// ---------------------------------------------------------------------------

#[derive(Debug, Clone)]
pub enum SshAuthMethod {
    Password { password: String },
    PrivateKey { key_path: String, passphrase: Option<String> },
}

#[derive(Debug, Clone)]
pub struct JumpServerConfig {
    pub host: String,
    pub port: u16,
    pub username: String,
    pub auth_method: SshAuthMethod,
}

#[derive(Debug, Clone, Copy, PartialEq, Eq, Structural)]
pub enum ProxyType {
    Socks5,
    Http,
}

#[derive(Debug, Clone)]
pub struct ProxyConfig {
    pub proxy_type: ProxyType,
    pub host: String,
    pub port: u16,
    pub username: Option<String>,
    pub password: Option<String>,
}

#[derive(Debug, Clone)]
pub struct SshParams {
    pub host: String,
    pub port: u16,
    pub username: String,
    pub auth_method: SshAuthMethod,
    /// Connect timeout in seconds.
    pub connect_timeout: Option<u64>,
    /// Keep-alive interval in seconds.
    pub keepalive_interval: Option<u64>,
    /// Keep-alive failures tolerated.
    pub keepalive_max: Option<usize>,
    pub default_directory: Option<String>,
    pub init_script: Option<String>,
    pub jump_server: Option<JumpServerConfig>,
    pub proxy: Option<ProxyConfig>,
}

// ---------------------------------------------------------------------------
// Database connection configuration
// ---------------------------------------------------------------------------

/// The value stored under `key`: the first pair with that key.
pub open spec fn lookup(ps: Seq<(String, String)>, key: Seq<char>) -> Option<Seq<char>>
    decreases ps.len(),
{
    if ps.len() == 0 {
        None
    } else if ps[0].0@ == key {
        Some(ps[0].1@)
    } else {
        lookup(ps.drop_first(), key)
    }
}

/// Two parameter lists hold the same map from keys to values.
pub open spec fn same_params(a: Seq<(String, String)>, b: Seq<(String, String)>) -> bool {
    forall|k: Seq<char>| #[trigger] lookup(a, k) == lookup(b, k)
}

proof fn lemma_lookup_some(ps: Seq<(String, String)>, key: Seq<char>)
    ensures
        lookup(ps, key) is Some <==> exists|i: int| 0 <= i < ps.len() && (#[trigger] ps[i]).0@ == key,
    decreases ps.len(),
{
    if ps.len() > 0 {
        lemma_lookup_some(ps.drop_first(), key);
        if lookup(ps.drop_first(), key) is Some {
            let i = choose|i: int| 0 <= i < ps.drop_first().len() && (#[trigger] ps.drop_first()[i]).0@ == key;
            assert(ps[i + 1] == ps.drop_first()[i]);
        }
        if exists|i: int| 0 <= i < ps.len() && (#[trigger] ps[i]).0@ == key {
            let i = choose|i: int| 0 <= i < ps.len() && (#[trigger] ps[i]).0@ == key;
            if i > 0 {
                assert(ps.drop_first()[i - 1] == ps[i]);
            }
        }
    }
}

/// Index of the first pair with key `key`, or `ps.len()`.
fn find_param(ps: &Vec<(String, String)>, key: &str) -> (r: usize)
    ensures
        r <= ps.len(),
        r < ps.len() ==> ps@[r as int].0@ == key@ && lookup(ps@, key@) == Some(ps@[r as int].1@),
        r == ps.len() ==> lookup(ps@, key@) is None,
{
    let mut i: usize = 0;
    assert(ps@.subrange(0, ps@.len() as int) =~= ps@);
    while i < ps.len()
        invariant
            i <= ps.len(),
            lookup(ps@, key@) == lookup(ps@.subrange(i as int, ps@.len() as int), key@),
        decreases ps.len() - i,
    {
        let ghost rest = ps@.subrange(i as int, ps@.len() as int);
        assert(rest[0] == ps@[i as int]);
        if str_eq(ps[i].0.as_str(), key) {
            return i;
        }
        assert(rest.drop_first() =~= ps@.subrange(i + 1, ps@.len() as int));
        i += 1;
    }
    assert(ps@.subrange(i as int, ps@.len() as int).len() == 0);
    i
}

fn opt_string_eq(a: &Option<String>, b: &Option<String>) -> (r: bool)
    ensures
        r == (opt_view(*a) == opt_view(*b)),
{
    match a {
        Some(x) => match b {
            Some(y) => str_eq(x.as_str(), y.as_str()),
            None => false,
        },
        None => b.is_none(),
    }
}

pub open spec fn opt_view(o: Option<String>) -> Option<Seq<char>> {
    match o {
        Some(s) => Some(s@),
        None => None,
    }
}

/// Connection configuration.
#[derive(Debug, Clone)]
pub struct DbConnectionConfig {
    pub id: String,
    pub database_type: DatabaseType,
    pub name: String,
    pub host: String,
    pub port: u16,
    pub username: String,
    pub password: String,
    pub database: Option<String>,
    pub schema: Option<String>,
    pub service_name: Option<String>,
    pub sid: Option<String>,
    pub workspace_id: Option<i64>,
    pub extra_params: Vec<(String, String)>,
}

/// Every key of `a` is looked up alike in `b`.
spec fn keys_agree(a: Seq<(String, String)>, b: Seq<(String, String)>, n: int) -> bool {
    forall|i: int| 0 <= i < n ==> lookup(a, (#[trigger] a[i]).0@) == lookup(b, a[i].0@)
}

fn params_agree(a: &Vec<(String, String)>, b: &Vec<(String, String)>) -> (r: bool)
    ensures
        r == keys_agree(a@, b@, a@.len() as int),
{
    let mut i: usize = 0;
    while i < a.len()
        invariant
            i <= a.len(),
            keys_agree(a@, b@, i as int),
        decreases a.len() - i,
    {
        let key = a[i].0.as_str();
        let ia = find_param(a, key);
        let ib = find_param(b, key);
        let same = if ia < a.len() && ib < b.len() {
            a[ia].1 == b[ib].1
        } else {
            ia == a.len() && ib == b.len()
        };
        proof {
            assert(a@[i as int].0@ == key@);
            lemma_lookup_some(a@, key@);
        }
        if !same {
            assert(!keys_agree(a@, b@, a@.len() as int)) by {
                assert(lookup(a@, a@[i as int].0@) != lookup(b@, a@[i as int].0@));
            }
            return false;
        }
        i += 1;
    }
    true
}

proof fn lemma_same_params(a: Seq<(String, String)>, b: Seq<(String, String)>)
    ensures
        same_params(a, b) <==> (keys_agree(a, b, a.len() as int) && keys_agree(
            b,
            a,
            b.len() as int,
        )),
{
    if keys_agree(a, b, a.len() as int) && keys_agree(b, a, b.len() as int) {
        assert forall|k: Seq<char>| #[trigger] lookup(a, k) == lookup(b, k) by {
            lemma_lookup_some(a, k);
            lemma_lookup_some(b, k);
            if lookup(a, k) is Some {
                let i = choose|i: int| 0 <= i < a.len() && (#[trigger] a[i]).0@ == k;
                assert(lookup(a, a[i].0@) == lookup(b, a[i].0@));
            } else if lookup(b, k) is Some {
                let i = choose|i: int| 0 <= i < b.len() && (#[trigger] b[i]).0@ == k;
                assert(lookup(b, b[i].0@) == lookup(a, b[i].0@));
            }
        }
    }
}

impl DbConnectionConfig {
    /// The parameter stored under `key`.
    pub fn get_param(&self, key: &str) -> (r: Option<&String>)
        ensures
            match r {
                Some(v) => lookup(self.extra_params@, key@) == Some(v@),
                None => lookup(self.extra_params@, key@) is None,
            },
    {
        let i = find_param(&self.extra_params, key);
        if i < self.extra_params.len() {
            Some(&self.extra_params[i].1)
        } else {
            None
        }
    }

    /// The parameter stored under `key`, read as a decimal `u64`; `None`
    /// where it is missing or does not parse.
    pub fn get_param_as(&self, key: &str) -> (r: Option<u64>)
        ensures
            r == (match lookup(self.extra_params@, key@) {
                Some(v) => parse_u64_spec(v),
                None => None,
            }),
    {
        match self.get_param(key) {
            Some(v) => parse_u64(v.as_str()),
            None => None,
        }
    }

    /// Whether the parameter under `key` is `"true"` or `"1"`.
    pub fn get_param_bool(&self, key: &str) -> (r: bool)
        ensures
            r == (match lookup(self.extra_params@, key@) {
                Some(v) => v == "true"@ || v == "1"@,
                None => false,
            }),
    {
        match self.get_param(key) {
            Some(v) => str_eq(v.as_str(), "true") || str_eq(v.as_str(), "1"),
            None => false,
        }
    }

    /// `host:port`.
    pub fn server_info(&self) -> (r: String)
        ensures
            r@ == self.host@ + ":"@ + decimal(self.port as nat),
    {
        let mut out = self.host.clone();
        push_str(&mut out, ":");
        let port = u64_to_decimal(self.port as u64);
        push_str(&mut out, port.as_str());
        out
    }

    /// Whether the settings that reach the server differ (the id, name,
    /// type and workspace are not compared).
    pub fn is_change(&self, other: &DbConnectionConfig) -> (r: bool)
        ensures
            r == !(self.host@ == other.host@ && self.port == other.port && self.username@
                == other.username@ && self.password@ == other.password@ && opt_view(
                self.database,
            ) == opt_view(other.database) && opt_view(self.schema) == opt_view(other.schema)
                && opt_view(self.service_name) == opt_view(other.service_name) && opt_view(
                self.sid,
            ) == opt_view(other.sid) && same_params(self.extra_params@, other.extra_params@)),
    {
        proof {
            lemma_same_params(self.extra_params@, other.extra_params@);
        }
        !(self.host == other.host && self.port == other.port && self.username == other.username
            && self.password == other.password && opt_string_eq(&self.database, &other.database)
            && opt_string_eq(&self.schema, &other.schema) && opt_string_eq(
            &self.service_name,
            &other.service_name,
        ) && opt_string_eq(&self.sid, &other.sid) && params_agree(
            &self.extra_params,
            &other.extra_params,
        ) && params_agree(&other.extra_params, &self.extra_params))
    }
}


// ---------------------------------------------------------------------------
// JSON text of strings
// ---------------------------------------------------------------------------

/// Lower-case hexadecimal digit for `d < 16`.
pub open spec fn hex_digit(d: nat) -> char {
    if d < 10 {
        (('0' as u32) + d) as char
    } else {
        (('a' as u32) + d - 10) as char
    }
}

/// How one character is written inside a JSON string.
pub open spec fn json_escape_char(c: char) -> Seq<char> {
    if c == '"' {
        seq!['\\', '"']
    } else if c == '\\' {
        seq!['\\', '\\']
    } else if c == '\n' {
        seq!['\\', 'n']
    } else if c == '\r' {
        seq!['\\', 'r']
    } else if c == '\t' {
        seq!['\\', 't']
    } else if c == '\x08' {
        seq!['\\', 'b']
    } else if c == '\x0C' {
        seq!['\\', 'f']
    } else if (c as u32) < 0x20 {
        seq!['\\', 'u', '0', '0', hex_digit((c as u32 / 16) as nat), hex_digit((c as u32 % 16) as nat)]
    } else {
        seq![c]
    }
}

pub open spec fn json_escape(s: Seq<char>) -> Seq<char>
    decreases s.len(),
{
    if s.len() == 0 {
        Seq::empty()
    } else {
        json_escape(s.drop_last()) + json_escape_char(s.last())
    }
}

/// A JSON string literal holding `s`.
pub open spec fn json_str(s: Seq<char>) -> Seq<char> {
    seq!['"'] + json_escape(s) + seq!['"']
}

// ---------------------------------------------------------------------------
// Workspaces, stored connections and key/value records
// ---------------------------------------------------------------------------

/// Workspace for organizing connections.
#[derive(Debug, Clone)]
pub struct Workspace {
    pub id: Option<i64>,
    pub name: String,
    pub color: Option<String>,
    pub icon: Option<String>,
    pub created_at: Option<i64>,
    pub updated_at: Option<i64>,
}

impl Workspace {
    /// A workspace that has not been stored yet.
    pub fn new(name: String) -> (r: Workspace)
        ensures
            r.name == name,
            r.id is None,
            r.color is None,
            r.icon is None,
            r.created_at is None,
            r.updated_at is None,
    {
        Workspace { id: None, name, color: None, icon: None, created_at: None, updated_at: None }
    }
}

fn clone_opt_string(o: &Option<String>) -> (r: Option<String>)
    ensures
        r == *o,
{
    match o {
        Some(s) => Some(s.clone()),
        None => None,
    }
}

/// Stored connection with ID.
#[derive(Debug)]
pub struct StoredConnection {
    pub id: Option<i64>,
    pub name: String,
    pub connection_type: ConnectionType,
    pub params: String,
    pub workspace_id: Option<i64>,
    /// The selected databases as a JSON array; `None` selects them all.
    pub selected_databases: Option<String>,
    pub remark: Option<String>,
    pub created_at: Option<i64>,
    pub updated_at: Option<i64>,
}

/// The selection stored for a configuration that names one database.
pub open spec fn selected_for(database: Option<String>) -> Option<Seq<char>> {
    match database {
        Some(d) => Some("[\""@ + d@ + "\"]"@),
        None => None,
    }
}

impl StoredConnection {
    /// A database connection record that has not been stored yet;
    /// `params_json` is the JSON text of `params` (as serde writes it, which
    /// the application does), and a configuration that names a database
    /// selects just that database.
    pub fn new_database(
        name: String,
        params: DbConnectionConfig,
        params_json: String,
        workspace_id: Option<i64>,
    ) -> (r: StoredConnection)
        ensures
            r.id is None,
            r.name == name,
            r.connection_type == ConnectionType::Database,
            r.params == params_json,
            r.workspace_id == workspace_id,
            opt_view(r.selected_databases) == selected_for(params.database),
            r.remark is None,
            r.created_at is None,
            r.updated_at is None,
    {
        let selected = match &params.database {
            Some(d) => {
                let mut s = str_to_owned("[\"");
                push_str(&mut s, d.as_str());
                push_str(&mut s, "\"]");
                Some(s)
            },
            None => None,
        };
        StoredConnection {
            id: None,
            name,
            connection_type: ConnectionType::Database,
            params: params_json,
            workspace_id,
            selected_databases: selected,
            remark: None,
            created_at: None,
            updated_at: None,
        }
    }

    /// An SSH/SFTP connection record that has not been stored yet, holding
    /// the JSON text of its SSH settings.
    pub fn new_ssh(name: String, params_json: String, workspace_id: Option<i64>) -> (r: StoredConnection)
        ensures
            r.id is None,
            r.name == name,
            r.connection_type == ConnectionType::SshSftp,
            r.params == params_json,
            r.workspace_id == workspace_id,
            r.selected_databases is None,
            r.remark is None,
            r.created_at is None,
            r.updated_at is None,
    {
        StoredConnection {
            id: None,
            name,
            connection_type: ConnectionType::SshSftp,
            params: params_json,
            workspace_id,
            selected_databases: None,
            remark: None,
            created_at: None,
            updated_at: None,
        }
    }

    /// The configuration of this record, given the configuration read from
    /// its params text: it takes the record's name and workspace, and the
    /// record's id in decimal (0 for a record not stored yet).
    pub fn to_db_connection(&self, params: DbConnectionConfig) -> (r: DbConnectionConfig)
        ensures
            r == (DbConnectionConfig {
                id: r.id,
                name: r.name,
                workspace_id: self.workspace_id,
                ..params
            }),
            r.name@ == self.name@,
            r.id@ == signed_decimal(
                match self.id {
                    Some(i) => i as int,
                    None => 0,
                },
            ),
    {
        let id = match self.id {
            Some(i) => i,
            None => 0,
        };
        DbConnectionConfig {
            id: i64_to_decimal(id),
            name: self.name.clone(),
            workspace_id: self.workspace_id,
            ..params
        }
    }

    /// The record for a configuration, under the configuration's own name
    /// and workspace; `params_json` is the configuration's JSON text.
    pub fn from_db_connection(connection: DbConnectionConfig, params_json: String) -> (r: StoredConnection)
        ensures
            r.id is None,
            r.name@ == connection.name@,
            r.connection_type == ConnectionType::Database,
            r.params == params_json,
            r.workspace_id == connection.workspace_id,
            opt_view(r.selected_databases) == selected_for(connection.database),
            r.remark is None,
            r.created_at is None,
            r.updated_at is None,
    {
        let name = connection.name.clone();
        let workspace_id = connection.workspace_id;
        Self::new_database(name, connection, params_json, workspace_id)
    }

    /// The params text as it is written to storage; passwords are stored
    /// as they are.
    pub fn encrypt_params(&self) -> (r: String)
        ensures
            r@ == self.params@,
    {
        self.params.clone()
    }

    /// The params text as it is read back from storage.
    pub fn decrypt_params(&self) -> (r: String)
        ensures
            r@ == self.params@,
    {
        self.params.clone()
    }

    /// A copy whose params are decrypted.
    pub fn with_decrypted_params(&self) -> (r: StoredConnection)
        ensures
            r.id == self.id,
            r.name@ == self.name@,
            r.connection_type == self.connection_type,
            r.params@ == self.params@,
            r.workspace_id == self.workspace_id,
            r.selected_databases == self.selected_databases,
            r.remark == self.remark,
            r.created_at == self.created_at,
            r.updated_at == self.updated_at,
    {
        StoredConnection {
            id: self.id,
            name: self.name.clone(),
            connection_type: self.connection_type,
            params: self.decrypt_params(),
            workspace_id: self.workspace_id,
            selected_databases: clone_opt_string(&self.selected_databases),
            remark: clone_opt_string(&self.remark),
            created_at: self.created_at,
            updated_at: self.updated_at,
        }
    }
}

/// Generic key-value storage model.
#[derive(Debug, Clone)]
pub struct KeyValue {
    pub id: Option<i64>,
    pub key: String,
    pub value: String,
    pub created_at: Option<i64>,
    pub updated_at: Option<i64>,
}

impl KeyValue {
    pub fn new(key: String, value: String) -> (r: KeyValue)
        ensures
            r.key == key,
            r.value == value,
            r.id is None,
            r.created_at is None,
            r.updated_at is None,
    {
        KeyValue { id: None, key, value, created_at: None, updated_at: None }
    }
}


/// Two configurations with the same fields.
pub open spec fn same_config(a: DbConnectionConfig, b: DbConnectionConfig) -> bool {
    &&& a.id == b.id
    &&& a.database_type == b.database_type
    &&& a.name == b.name
    &&& a.host == b.host
    &&& a.port == b.port
    &&& a.username == b.username
    &&& a.password == b.password
    &&& a.database == b.database
    &&& a.schema == b.schema
    &&& a.service_name == b.service_name
    &&& a.sid == b.sid
    &&& a.workspace_id == b.workspace_id
    &&& a.extra_params@ == b.extra_params@
}

/// A field-by-field copy of a configuration.
pub fn clone_config(c: &DbConnectionConfig) -> (r: DbConnectionConfig)
    ensures
        same_config(r, *c),
{
    let mut params: Vec<(String, String)> = Vec::new();
    let mut i: usize = 0;
    while i < c.extra_params.len()
        invariant
            i <= c.extra_params.len(),
            params@ == c.extra_params@.subrange(0, i as int),
        decreases c.extra_params.len() - i,
    {
        let k = c.extra_params[i].0.clone();
        let v = c.extra_params[i].1.clone();
        params.push((k, v));
        assert(params@ =~= c.extra_params@.subrange(0, i + 1));
        i += 1;
    }
    assert(c.extra_params@.subrange(0, c.extra_params@.len() as int) =~= c.extra_params@);
    DbConnectionConfig {
        id: c.id.clone(),
        database_type: c.database_type,
        name: c.name.clone(),
        host: c.host.clone(),
        port: c.port,
        username: c.username.clone(),
        password: c.password.clone(),
        database: clone_opt_string(&c.database),
        schema: clone_opt_string(&c.schema),
        service_name: clone_opt_string(&c.service_name),
        sid: clone_opt_string(&c.sid),
        workspace_id: c.workspace_id,
        extra_params: params,
    }
}


// ---------------------------------------------------------------------------
// Selected databases
// ---------------------------------------------------------------------------

/// The JSON array of the strings, as `serde_json` writes it: no spaces.
pub open spec fn json_string_array(v: Seq<Seq<char>>) -> Seq<char> {
    "["@ + json_list(v) + "]"@
}

pub open spec fn json_list(v: Seq<Seq<char>>) -> Seq<char>
    decreases v.len(),
{
    if v.len() == 0 {
        Seq::empty()
    } else if v.len() == 1 {
        json_str(v[0])
    } else {
        json_list(v.drop_last()) + ","@ + json_str(v.last())
    }
}

/// What `serde_json::from_str::<Vec<String>>` reads from the text, or
/// `None` where it fails.
pub uninterp spec fn json_parse_string_list(s: Seq<char>) -> Option<Seq<Seq<char>>>;

/// Writes the list with `serde_json::to_string`.
#[verifier::external_body]
fn serde_json_string_list(v: &Vec<String>) -> (r: String)
    ensures
        r@ == json_string_array(v@.map_values(|s: String| s@)),
{
    serde_json::to_string(v).unwrap_or_default()
}

/// Reads a list with `serde_json::from_str`.
#[verifier::external_body]
fn serde_json_parse_string_list(s: &str) -> (r: Option<Vec<String>>)
    ensures
        match r {
            Some(v) => json_parse_string_list(s@) == Some(v@.map_values(|x: String| x@)),
            None => json_parse_string_list(s@) is None,
        },
{
    serde_json::from_str::<Vec<String>>(s).ok()
}

impl StoredConnection {
    /// The selected databases; `None` selects them all (also where the
    /// stored selection does not read as a list).
    pub fn get_selected_databases(&self) -> (r: Option<Vec<String>>)
        ensures
            match self.selected_databases {
                Some(json) => match r {
                    Some(v) => json_parse_string_list(json@) == Some(v@.map_values(|x: String| x@)),
                    None => json_parse_string_list(json@) is None,
                },
                None => r is None,
            },
    {
        match &self.selected_databases {
            Some(json) => serde_json_parse_string_list(json.as_str()),
            None => None,
        }
    }

    /// Stores the selected databases; `None` selects them all.
    pub fn set_selected_databases(&mut self, databases: Option<Vec<String>>)
        ensures
            match databases {
                Some(v) => opt_view(final(self).selected_databases) == Some(json_string_array(v@.map_values(|x: String| x@))),
                None => final(self).selected_databases is None,
            },
            *final(self) == (StoredConnection { selected_databases: final(self).selected_databases, ..*old(self) }),
    {
        self.selected_databases = match databases {
            Some(v) => Some(serde_json_string_list(&v)),
            None => None,
        };
    }
}

} // verus!
