//! Application-wide database state: the plugin registry, the registered
//! connection configurations and the session registry.
use vstd::prelude::*;
use crate::models::{DatabaseType, DbConnectionConfig, clone_config, same_config, opt_view};
use crate::db_types::{DbNode, DbNodeType, node_name_for};
use crate::sessions::ConnectionManager;
use crate::execution::SqlResult;
use crate::text::str_eq;

verus! {

/// Errors of the database layer that the library decides.
#[derive(Debug, Clone, Copy, PartialEq, Eq, Structural)]
pub enum DbError {
    /// No plugin handles this database type.
    UnsupportedDatabase,
    /// No configuration is registered under the id.
    ConnectionNotFound,
    /// A statement that was run gave back no result.
    NoResult,
}

/// The database plugins available, one per database type.
#[derive(Debug, Clone)]
pub struct DbManager {
    plugins: Vec<DatabaseType>,
}

impl View for DbManager {
    type V = Seq<DatabaseType>;

    closed spec fn view(&self) -> Seq<DatabaseType> {
        self.plugins@
    }
}

impl DbManager {
    /// The plugins built in: PostgreSQL.
    pub fn new() -> (r: DbManager)
        ensures
            r@ == seq![DatabaseType::PostgreSQL],
    {
        DbManager { plugins: vec![DatabaseType::PostgreSQL] }
    }

    /// The plugin for a database type.
    pub fn get_plugin(&self, db_type: &DatabaseType) -> (r: Result<DatabaseType, DbError>)
        ensures
            self@.contains(*db_type) ==> r == Ok::<DatabaseType, DbError>(*db_type),
            !self@.contains(*db_type) ==> r == Err::<DatabaseType, DbError>(DbError::UnsupportedDatabase),
    {
        let mut i: usize = 0;
        while i < self.plugins.len()
            invariant
                i <= self.plugins.len(),
                forall|j: int| 0 <= j < i ==> self.plugins@[j] != *db_type,
            decreases self.plugins.len() - i,
        {
            if self.plugins[i] == *db_type {
                return Ok(*db_type);
            }
            i += 1;
        }
        Err(DbError::UnsupportedDatabase)
    }
}

/// Opens connections through the plugins of a `DbManager`.
#[derive(Debug, Clone)]
pub struct ConnectionPool {
    pub db_manager: DbManager,
}

impl ConnectionPool {
    pub fn new(db_manager: DbManager) -> (r: ConnectionPool)
        ensures
            r.db_manager@ == db_manager@,
    {
        ConnectionPool { db_manager }
    }
}

/// Database state shared by the application.
pub struct GlobalDbState {
    pub db_manager: DbManager,
    pub connection_manager: ConnectionManager,
    pub connection_pool: ConnectionPool,
    /// Registered configurations; an id is looked up at its first occurrence.
    pub connections: Vec<DbConnectionConfig>,
}

/// Index of the first configuration with id `id`, or -1.
pub open spec fn config_index(cs: Seq<DbConnectionConfig>, id: Seq<char>) -> int
    decreases cs.len(),
{
    if cs.len() == 0 {
        -1
    } else {
        let i = config_index(cs.drop_last(), id);
        if i >= 0 {
            i
        } else if cs.last().id@ == id {
            cs.len() - 1
        } else {
            -1
        }
    }
}

/// No two registered configurations share an id.
pub open spec fn ids_unique(cs: Seq<DbConnectionConfig>) -> bool {
    forall|i: int, j: int| 0 <= i < j < cs.len() ==> (#[trigger] cs[i]).id@ != (#[trigger] cs[j]).id@
}

proof fn lemma_config_index(cs: Seq<DbConnectionConfig>, id: Seq<char>)
    ensures
        -1 <= config_index(cs, id) < cs.len(),
        config_index(cs, id) >= 0 ==> cs[config_index(cs, id)].id@ == id,
        config_index(cs, id) >= 0 ==> forall|j: int| 0 <= j < config_index(cs, id) ==> (#[trigger] cs[j]).id@ != id,
        config_index(cs, id) < 0 ==> forall|j: int| 0 <= j < cs.len() ==> (#[trigger] cs[j]).id@ != id,
    decreases cs.len(),
{
    if cs.len() > 0 {
        lemma_config_index(cs.drop_last(), id);
        assert forall|j: int| 0 <= j < cs.len() - 1 implies #[trigger] cs[j] == cs.drop_last()[j] by {}
    }
}

impl GlobalDbState {
    /// The first of the results of a run, or `NoResult` where there is none.
    pub fn wrapper_result(result: Vec<SqlResult>) -> (r: Result<SqlResult, DbError>)
        ensures
            match r {
                Ok(x) => result@.len() > 0 && x == result@[0],
                Err(e) => result@.len() == 0 && e == DbError::NoResult,
            },
    {
        let mut result = result;
        if result.len() == 0 {
            Err(DbError::NoResult)
        } else {
            Ok(result.remove(0))
        }
    }

    /// The configurations registered, in order.
    pub open spec fn configs(&self) -> Seq<DbConnectionConfig> {
        self.connections@
    }

    /// No configuration registered, no session open.
    pub fn new() -> (r: GlobalDbState)
        ensures
            r.configs().len() == 0,
            ids_unique(r.configs()),
            r.connection_manager.wf(),
            r.connection_manager@.len() == 0,
            r.connection_manager.counter() == 0,
            r.connection_manager.idle_timeout_spec() == 300_000,
            r.connection_manager.max_lifetime_spec() == 1_800_000,
            r.db_manager@ == seq![DatabaseType::PostgreSQL],
            r.connection_pool.db_manager@ == seq![DatabaseType::PostgreSQL],
    {
        let db_manager = DbManager::new();
        let pool_manager = DbManager::new();
        GlobalDbState {
            db_manager,
            connection_manager: ConnectionManager::new(),
            connection_pool: ConnectionPool::new(pool_manager),
            connections: Vec::new(),
        }
    }

    fn find_config(&self, connection_id: &str) -> (r: Option<usize>)
        ensures
            match r {
                Some(i) => i == config_index(self.configs(), connection_id@) && i < self.configs().len(),
                None => config_index(self.configs(), connection_id@) < 0,
            },
    {
        proof {
            lemma_config_index(self.connections@, connection_id@);
        }
        let mut i: usize = 0;
        while i < self.connections.len()
            invariant
                i <= self.connections.len(),
                forall|j: int| 0 <= j < i ==> (#[trigger] self.connections@[j]).id@ != connection_id@,
                -1 <= config_index(self.connections@, connection_id@) < self.connections@.len(),
                config_index(self.connections@, connection_id@) >= 0 ==> self.connections@[config_index(self.connections@, connection_id@)].id@ == connection_id@,
                config_index(self.connections@, connection_id@) >= 0 ==> forall|j: int| 0 <= j < config_index(self.connections@, connection_id@) ==> (#[trigger] self.connections@[j]).id@ != connection_id@,
                config_index(self.connections@, connection_id@) < 0 ==> forall|j: int| 0 <= j < self.connections@.len() ==> (#[trigger] self.connections@[j]).id@ != connection_id@,
            decreases self.connections.len() - i,
        {
            if str_eq(self.connections[i].id.as_str(), connection_id) {
                return Some(i);
            }
            i += 1;
        }
        None
    }

    /// Registers a configuration under its id, replacing one registered
    /// under the same id.
    pub fn register_connection(&mut self, config: DbConnectionConfig)
        ensures
            ({
                let k = config_index(old(self).configs(), config.id@);
                &&& k >= 0 ==> final(self).configs() == old(self).configs().update(k, config)
                &&& k < 0 ==> final(self).configs() == old(self).configs().push(config)
            }),
            ids_unique(old(self).configs()) ==> ids_unique(final(self).configs()),
            final(self).connection_manager == old(self).connection_manager,
    {
        proof {
            lemma_config_index(self.connections@, config.id@);
        }
        let ghost old_cs = self.connections@;
        match self.find_config(config.id.as_str()) {
            Some(i) => {
                self.connections.set(i, config);
                proof {
                    let cs = self.connections@;
                    if ids_unique(old_cs) {
                        assert forall|a: int, b: int| 0 <= a < b < cs.len() implies (#[trigger] cs[a]).id@ != (#[trigger] cs[b]).id@ by {
                            if a != i as int && b != i as int {
                                assert(cs[a] == old_cs[a] && cs[b] == old_cs[b]);
                            } else if a == i as int {
                                assert(cs[b] == old_cs[b]);
                                assert(old_cs[a].id@ != old_cs[b].id@);
                            } else {
                                assert(cs[a] == old_cs[a]);
                                assert(old_cs[a].id@ != old_cs[b].id@);
                            }
                        }
                    }
                }
            },
            None => {
                self.connections.push(config);
                proof {
                    let cs = self.connections@;
                    if ids_unique(old_cs) {
                        assert forall|a: int, b: int| 0 <= a < b < cs.len() implies (#[trigger] cs[a]).id@ != (#[trigger] cs[b]).id@ by {
                            assert(cs[a] == old_cs[a]);
                            if b < old_cs.len() {
                                assert(cs[b] == old_cs[b]);
                            }
                        }
                    }
                }
            },
        }
    }

    /// The configuration registered under `connection_id`.
    pub fn get_config(&self, connection_id: &str) -> (r: Option<DbConnectionConfig>)
        ensures
            ({
                let k = config_index(self.configs(), connection_id@);
                &&& k >= 0 ==> r is Some && same_config(r.unwrap(), self.configs()[k])
                &&& k < 0 ==> r is None
            }),
    {
        match self.find_config(connection_id) {
            Some(i) => Some(clone_config(&self.connections[i])),
            None => None,
        }
    }

    /// Forgets the configuration registered under `connection_id` and drops
    /// its sessions; returns the ids of the sessions to close.
    pub fn unregister_connection(&mut self, connection_id: &str) -> (r: Vec<String>)
        requires
            old(self).connection_manager.wf(),
        ensures
            final(self).connection_manager.wf(),
            final(self).connection_manager@ == crate::sessions::without_config(old(self).connection_manager@, connection_id@),
            ({
                let k = config_index(old(self).configs(), connection_id@);
                &&& k >= 0 ==> final(self).configs() == old(self).configs().remove(k)
                &&& k < 0 ==> final(self).configs() == old(self).configs()
            }),
            ids_unique(old(self).configs()) ==> ids_unique(final(self).configs()),
    {
        let ghost old_cs = self.connections@;
        match self.find_config(connection_id) {
            Some(i) => {
                self.connections.remove(i);
                proof {
                    let cs = self.connections@;
                    if ids_unique(old_cs) {
                        assert forall|a: int, b: int| 0 <= a < b < cs.len() implies (#[trigger] cs[a]).id@ != (#[trigger] cs[b]).id@ by {
                            let oa = if a < i as int { a } else { a + 1 };
                            let ob = if b < i as int { b } else { b + 1 };
                            assert(cs[a] == old_cs[oa] && cs[b] == old_cs[ob]);
                        }
                    }
                }
            },
            None => {},
        }
        self.connection_manager.remove_all_sessions(connection_id)
    }

    /// The configuration a new session is opened with: the registered one,
    /// on `database` where one is given.
    pub fn session_config(&self, connection_id: &str, database: Option<String>) -> (r: Result<DbConnectionConfig, DbError>)
        ensures
            ({
                let k = config_index(self.configs(), connection_id@);
                match r {
                    Ok(c) => k >= 0 && {
                        let reg = self.configs()[k];
                        same_config(DbConnectionConfig { database: reg.database, ..c }, reg)
                            && c.database == match database {
                            Some(d) => Some(d),
                            None => reg.database,
                        }
                    },
                    Err(e) => k < 0 && e == DbError::ConnectionNotFound,
                }
            }),
    {
        match self.get_config(connection_id) {
            Some(mut c) => {
                match database {
                    Some(d) => {
                        c.database = Some(d);
                    },
                    None => {},
                }
                Ok(c)
            },
            None => Err(DbError::ConnectionNotFound),
        }
    }

    /// The configuration the children of a tree node are loaded with: on
    /// the node's database where it has one.
    pub fn node_config(&self, connection_id: &str, node: &DbNode) -> (r: Result<DbConnectionConfig, DbError>)
        ensures
            ({
                let k = config_index(self.configs(), connection_id@);
                match r {
                    Ok(c) => k >= 0 && {
                        let reg = self.configs()[k];
                        same_config(DbConnectionConfig { database: reg.database, ..c }, reg)
                            && crate::models::opt_view(c.database) == match crate::db_types::node_name_for(
                            *node,
                            crate::db_types::DbNodeType::Database,
                            "database"@,
                        ) {
                            Some(d) => Some(d),
                            None => crate::models::opt_view(reg.database),
                        }
                    },
                    Err(e) => k < 0 && e == DbError::ConnectionNotFound,
                }
            }),
    {
        let db = node.get_database_name();
        match self.get_config(connection_id) {
            Some(mut c) => {
                match db {
                    Some(d) => {
                        c.database = Some(d);
                    },
                    None => {},
                }
                Ok(c)
            },
            None => Err(DbError::ConnectionNotFound),
        }
    }

    /// Whether a cached tree node can answer with its children: only once
    /// they were loaded (an empty list counts).
    pub fn cached_children_ready(cached: &DbNode) -> (r: bool)
        ensures
            r == cached.children_loaded,
    {
        cached.children_loaded
    }
}

// ---------------------------------------------------------------------------
// Object views
// ---------------------------------------------------------------------------

/// Which listing an object view shows.
#[derive(Debug, Clone, Copy, PartialEq, Eq, Structural)]
pub enum ObjectListing {
    Databases,
    Schemas,
    Tables,
    Columns,
    Views,
    Functions,
    Procedures,
    Triggers,
    Sequences,
}

/// The listing to load for the object view of a node, and what it is
/// loaded for.
#[derive(Debug)]
pub struct ObjectViewRequest {
    pub listing: ObjectListing,
    pub database: String,
    pub schema: Option<String>,
    pub table: String,
}

/// The listing a node's object view shows, given what the database's
/// plugin supports; `None` where the node has no object view (a
/// connection whose children are not loaded yet, or a leaf).
pub open spec fn object_listing(
    node_type: DbNodeType,
    children_loaded: bool,
    supports_schema: bool,
    uses_schema_as_database: bool,
) -> Option<ObjectListing> {
    match node_type {
        DbNodeType::Connection => if !children_loaded {
            None
        } else if uses_schema_as_database {
            Some(ObjectListing::Schemas)
        } else {
            Some(ObjectListing::Databases)
        },
        DbNodeType::Database => if supports_schema {
            Some(ObjectListing::Schemas)
        } else {
            Some(ObjectListing::Tables)
        },
        DbNodeType::TablesFolder | DbNodeType::Schema => Some(ObjectListing::Tables),
        DbNodeType::Table | DbNodeType::ColumnsFolder => Some(ObjectListing::Columns),
        DbNodeType::ViewsFolder => Some(ObjectListing::Views),
        DbNodeType::FunctionsFolder => Some(ObjectListing::Functions),
        DbNodeType::ProceduresFolder => Some(ObjectListing::Procedures),
        DbNodeType::TriggersFolder => Some(ObjectListing::Triggers),
        DbNodeType::SequencesFolder => Some(ObjectListing::Sequences),
        _ => None,
    }
}

/// What the object view of `node` loads. `database` is the database of the
/// configuration the node is loaded with (see `node_config`); the schema
/// and table come from the node, and a database node lists its tables
/// without a schema.
pub fn object_view_request(
    node: &DbNode,
    database: &Option<String>,
    supports_schema: bool,
    uses_schema_as_database: bool,
) -> (r: Option<ObjectViewRequest>)
    ensures
        match r {
            None => object_listing(node.node_type, node.children_loaded, supports_schema, uses_schema_as_database) is None,
            Some(q) => {
                &&& object_listing(node.node_type, node.children_loaded, supports_schema, uses_schema_as_database)
                    == Some(q.listing)
                &&& q.database@ == match database {
                    Some(d) => d@,
                    None => Seq::empty(),
                }
                &&& opt_view(q.schema) == if node.node_type == DbNodeType::Database {
                    None
                } else {
                    node_name_for(*node, DbNodeType::Schema, "schema"@)
                }
                &&& q.table@ == match node_name_for(*node, DbNodeType::Table, "table"@) {
                    Some(t) => t,
                    None => Seq::empty(),
                }
            },
        },
{
    let listing = match node.node_type {
        DbNodeType::Connection => if !node.children_loaded {
            None
        } else if uses_schema_as_database {
            Some(ObjectListing::Schemas)
        } else {
            Some(ObjectListing::Databases)
        },
        DbNodeType::Database => if supports_schema {
            Some(ObjectListing::Schemas)
        } else {
            Some(ObjectListing::Tables)
        },
        DbNodeType::TablesFolder | DbNodeType::Schema => Some(ObjectListing::Tables),
        DbNodeType::Table | DbNodeType::ColumnsFolder => Some(ObjectListing::Columns),
        DbNodeType::ViewsFolder => Some(ObjectListing::Views),
        DbNodeType::FunctionsFolder => Some(ObjectListing::Functions),
        DbNodeType::ProceduresFolder => Some(ObjectListing::Procedures),
        DbNodeType::TriggersFolder => Some(ObjectListing::Triggers),
        DbNodeType::SequencesFolder => Some(ObjectListing::Sequences),
        _ => None,
    };
    match listing {
        None => None,
        Some(listing) => {
            let database = match database {
                Some(d) => d.clone(),
                None => String::new(),
            };
            let schema = if node.node_type == DbNodeType::Database {
                None
            } else {
                node.get_schema_name()
            };
            let table = match node.get_table_name() {
                Some(t) => t,
                None => String::new(),
            };
            Some(ObjectViewRequest { listing, database, schema, table })
        },
    }
}

} // verus!
