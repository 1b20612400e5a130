use vstd::prelude::*;

use crate::config::{opt_view, AppConfig, DbOptions, DbSettings};
use crate::json::{copy_entries, lemma_entries_view, entries_view, Json, JsonValue};
use crate::oop::db_options_for;

verus! {

/// Environment variable that carries a module's rendered configuration.
pub const MODKIT_MODULE_CONFIG_ENV: &'static str = "MODKIT_MODULE_CONFIG";

/// Environment variable that carries the directory service's endpoint.
pub const MODKIT_DIRECTORY_ENDPOINT_ENV: &'static str = "MODKIT_DIRECTORY_ENDPOINT";

/// Environment variable that names a module's configuration file.
pub const MODKIT_CONFIG_PATH_ENV: &'static str = "MODKIT_CONFIG_PATH";

/// Endpoint of the directory service where none is given.
pub const DEFAULT_DIRECTORY_ENDPOINT: &'static str = "http://127.0.0.1:50051";

/// Seconds between two heartbeats where nothing else is given.
pub const DEFAULT_HEARTBEAT_INTERVAL_SECS: u64 = 5;

/// What a migration run prints once every module has migrated.
pub const MIGRATIONS_OK_MESSAGE: &'static str = "[OK] Database migrations completed successfully";

/// `uuid::Uuid`, carried through as an opaque value.
#[verifier::external_type_specification]
#[verifier::external_body]
pub struct ExUuid(uuid::Uuid);

/// Relies on uuid::Uuid::new_v4: a random identifier, of which nothing is
/// promised.
#[verifier::external_body]
fn new_v4() -> (r: uuid::Uuid) {
    uuid::Uuid::new_v4()
}

/// The identifier given, or a fresh random one.
pub fn resolve_instance_id(instance_id: Option<uuid::Uuid>) -> (r: uuid::Uuid)
    ensures
        instance_id is Some ==> r == instance_id->0,
{
    match instance_id {
        Some(id) => id,
        None => new_v4(),
    }
}

/// Failures of a migration run before any module is reached.
#[derive(Debug, PartialEq, Eq)]
pub enum MigrateError {
    /// The configuration has no `database` section.
    NoDatabase,
}

/// What the database pool factory reads of a configuration: the global
/// `database` section and the modules table.
pub open spec fn db_view_of(config: AppConfig) -> Option<Json> {
    match opt_view(config.database) {
        None => None,
        Some(d) => Some(Json::Obj(seq![("database"@, d), ("modules"@, Json::Obj(config.modules_view()))])),
    }
}

/// The database options of a process: none without a global `database`
/// section, else the pool factory over that section and the modules table.
pub fn resolve_db_options(config: &AppConfig) -> (r: DbOptions)
    ensures
        db_options_for(r, config.server.home_dir@, db_view_of(*config)),
{
    match &config.database {
        None => DbOptions::Disabled,
        Some(db) => {
            let mut entries: Vec<(String, JsonValue)> = Vec::new();
            entries.push(("database".to_owned(), db.deep_copy()));
            entries.push(("modules".to_owned(), JsonValue::Object(copy_entries(&config.modules))));
            proof {
                lemma_entries_view(entries@);
                assert(entries_view(entries@) =~= seq![
                    ("database"@, db@),
                    ("modules"@, Json::Obj(config.modules_view())),
                ]);
            }
            DbOptions::Manager(DbSettings { home_dir: config.server.home_dir.clone(), config: JsonValue::Object(entries) })
        },
    }
}

/// The database options of a migration run: an error where the
/// configuration has no database, the options of `resolve_db_options`
/// otherwise.
pub fn migration_db_options(config: &AppConfig) -> (r: Result<DbOptions, MigrateError>)
    ensures
        config.database is None <==> r == Err::<DbOptions, MigrateError>(MigrateError::NoDatabase),
        r is Ok ==> db_options_for(r->Ok_0, config.server.home_dir@, db_view_of(*config)),
{
    let db_options = resolve_db_options(config);
    match db_options {
        DbOptions::Disabled => Err(MigrateError::NoDatabase),
        DbOptions::Manager(s) => Ok(DbOptions::Manager(s)),
    }
}

/// What wakes the heartbeat loop of an out-of-process module.
#[derive(Clone, Copy, Debug, PartialEq, Eq, Structural)]
pub enum HeartbeatEvent {
    /// The process is shutting down.
    Cancelled,
    /// The interval has elapsed.
    Tick,
    /// A heartbeat went through.
    Sent,
    /// A heartbeat failed.
    SendFailed,
}

/// What the heartbeat loop does next.
#[derive(Clone, Copy, Debug, PartialEq, Eq, Structural)]
pub enum HeartbeatAction {
    /// Send a heartbeat now.
    Send,
    /// Wait for the next tick; a failure is only reported.
    Wait,
    /// Leave the loop and deregister, best effort.
    StopAndDeregister,
}

/// The heartbeat loop's decision: cancellation ends it, a tick sends, and
/// the outcome of a send, success or failure, waits for the next tick.
pub fn heartbeat_step(event: HeartbeatEvent) -> (r: HeartbeatAction)
    ensures
        event == HeartbeatEvent::Cancelled <==> r == HeartbeatAction::StopAndDeregister,
        event == HeartbeatEvent::Tick <==> r == HeartbeatAction::Send,
        (event == HeartbeatEvent::Sent || event == HeartbeatEvent::SendFailed) <==> r
            == HeartbeatAction::Wait,
{
    match event {
        HeartbeatEvent::Cancelled => HeartbeatAction::StopAndDeregister,
        HeartbeatEvent::Tick => HeartbeatAction::Send,
        HeartbeatEvent::Sent => HeartbeatAction::Wait,
        HeartbeatEvent::SendFailed => HeartbeatAction::Wait,
    }
}

/// Options of an out-of-process module's boot.
#[derive(Debug)]
pub struct OopRunOptions {
    /// Logical module name.
    pub module_name: String,
    /// Instance identifier; a random one where absent.
    pub instance_id: Option<uuid::Uuid>,
    /// Directory service endpoint.
    pub directory_endpoint: String,
    /// Path to the configuration file.
    pub config_path: Option<String>,
    /// Log verbosity (0 default, 1 info, 2 debug, 3 trace).
    pub verbose: u8,
    /// Print the effective configuration and exit.
    pub print_config: bool,
    /// Seconds between heartbeats.
    pub heartbeat_interval_secs: u64,
}

impl OopRunOptions {
    /// The default options, given the values of the configuration-path and
    /// directory-endpoint environment variables.
    pub fn from_env_values(config_path: Option<String>, directory_endpoint: Option<String>) -> (r:
        OopRunOptions)
        ensures
            r.module_name@.len() == 0,
            r.instance_id is None,
            r.config_path == config_path,
            match directory_endpoint {
                Some(e) => r.directory_endpoint == e,
                None => r.directory_endpoint@ == DEFAULT_DIRECTORY_ENDPOINT@,
            },
            r.verbose == 0,
            !r.print_config,
            r.heartbeat_interval_secs == DEFAULT_HEARTBEAT_INTERVAL_SECS,
    {
        let directory_endpoint = match directory_endpoint {
            Some(e) => e,
            None => DEFAULT_DIRECTORY_ENDPOINT.to_owned(),
        };
        OopRunOptions {
            module_name: String::new(),
            instance_id: None,
            directory_endpoint,
            config_path,
            verbose: 0,
            print_config: false,
            heartbeat_interval_secs: DEFAULT_HEARTBEAT_INTERVAL_SECS,
        }
    }
}

} // verus!
