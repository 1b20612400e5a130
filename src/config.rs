use vstd::prelude::*;

use crate::json::{entries_view, copy_entries, json_wf, Json, JsonValue};
use crate::logging::LoggingConfig;

verus! {

/// Settings of the process's own server.
#[derive(Debug, PartialEq, Eq)]
pub struct ServerConfig {
    /// Canonical home directory of the process.
    pub home_dir: String,
}

/// The effective configuration of one process.
#[derive(Debug, PartialEq, Eq)]
pub struct AppConfig {
    pub server: ServerConfig,
    /// Global database section: `servers` by name and `auto_provision`.
    pub database: Option<JsonValue>,
    pub logging: LoggingConfig,
    pub tracing: Option<JsonValue>,
    pub modules_dir: Option<String>,
    /// Each module's subtree by module name: `config`, `database`, `runtime`, `logging`.
    pub modules: Vec<(String, JsonValue)>,
}

pub open spec fn opt_view(v: Option<JsonValue>) -> Option<Json> {
    match v {
        Some(x) => Some(x@),
        None => None,
    }
}

/// A copy of an optional document.
/// An absent document, or one that repeats no key in any object.
pub open spec fn opt_wf(v: Option<JsonValue>) -> bool {
    match v {
        Some(x) => json_wf(x@),
        None => true,
    }
}

pub fn copy_opt(v: &Option<JsonValue>) -> (r: Option<JsonValue>)
    ensures
        opt_view(r) == opt_view(*v),
{
    match v {
        Some(x) => Some(x.deep_copy()),
        None => None,
    }
}

impl AppConfig {
    /// The logging table has unique keys; module names are unique; no
    /// object in the database, tracing or module sections repeats a key.
    pub open spec fn wf(&self) -> bool {
        &&& self.logging.wf()
        &&& opt_wf(self.database)
        &&& opt_wf(self.tracing)
        &&& json_wf(Json::Obj(self.modules_view()))
    }

    /// The modules table as a JSON object's entries.
    pub open spec fn modules_view(&self) -> Seq<(Seq<char>, Json)> {
        entries_view(self.modules@)
    }

    /// Whether the configuration is well formed, as `wf` states it.
    pub fn well_formed(&self) -> (r: bool)
        ensures
            r == self.wf(),
    {
        self.logging.has_unique_keys() && match &self.database {
            Some(d) => d.well_formed(),
            None => true,
        } && match &self.tracing {
            Some(t) => t.well_formed(),
            None => true,
        } && crate::json::entries_well_formed(&self.modules)
    }

    /// A configuration with a home directory and nothing else.
    pub fn minimal(home_dir: String) -> (r: AppConfig)
        ensures
            r.wf(),
            r.server.home_dir == home_dir,
            r.database is None,
            r.logging@ == Map::<Seq<char>, crate::logging::Section>::empty(),
            r.tracing is None,
            r.modules_dir is None,
            r.modules@.len() == 0,
    {
        proof {
            assert(entries_view(Seq::<(String, JsonValue)>::empty()) =~= Seq::<(Seq<char>, Json)>::empty());
        }
        AppConfig {
            server: ServerConfig { home_dir },
            database: None,
            logging: LoggingConfig::new(),
            tracing: None,
            modules_dir: None,
            modules: Vec::new(),
        }
    }

    /// Applies the command line's verbosity counter to the logging settings.
    pub fn apply_cli_overrides(&mut self, verbose: u8)
        requires
            old(self).wf(),
        ensures
            final(self).wf(),
            final(self).server == old(self).server,
            final(self).database == old(self).database,
            final(self).tracing == old(self).tracing,
            final(self).modules_dir == old(self).modules_dir,
            final(self).modules == old(self).modules,
            final(self).logging@ == old(self).logging@.insert(
                "default"@,
                if old(self).logging@.contains_key("default"@) {
                    crate::logging::Section {
                        console_level: Some(crate::logging::level_for_verbosity(verbose)),
                        ..old(self).logging@["default"@]
                    }
                } else {
                    crate::logging::Section {
                        console_level: Some(crate::logging::level_for_verbosity(verbose)),
                        section_file: None,
                        console_format: crate::logging::ConsoleFormat::Text,
                        max_age_days: None,
                        max_backups: None,
                        max_size_mb: None,
                    }
                },
            ),
    {
        self.logging.apply_verbosity(verbose);
    }

    pub fn copy(&self) -> (r: AppConfig)
        ensures
            r.server == self.server,
            opt_view(r.database) == opt_view(self.database),
            r.logging.entries@ == self.logging.entries@,
            opt_view(r.tracing) == opt_view(self.tracing),
            r.modules_dir == self.modules_dir,
            r.modules_view() == self.modules_view(),
    {
        AppConfig {
            server: ServerConfig { home_dir: self.server.home_dir.clone() },
            database: copy_opt(&self.database),
            logging: self.logging.copy(),
            tracing: copy_opt(&self.tracing),
            modules_dir: match &self.modules_dir {
                Some(d) => Some(d.clone()),
                None => None,
            },
            modules: copy_entries(&self.modules),
        }
    }
}

/// The database part of a rendered module configuration.
#[derive(Debug, PartialEq, Eq)]
pub struct RenderedDbConfig {
    /// The global servers that the module references, and `auto_provision`.
    pub global: Option<JsonValue>,
    /// The module's own database settings.
    pub module: Option<JsonValue>,
}

impl RenderedDbConfig {
    pub fn new(global: Option<JsonValue>, module: Option<JsonValue>) -> (r: RenderedDbConfig)
        ensures
            r.global == global,
            r.module == module,
    {
        RenderedDbConfig { global, module }
    }
}

/// The configuration that a parent hands to one out-of-process module: all
/// the module needs to boot without a file of its own.
#[derive(Debug, PartialEq, Eq)]
pub struct RenderedModuleConfig {
    pub database: Option<RenderedDbConfig>,
    pub config: JsonValue,
    pub logging: Option<LoggingConfig>,
    pub tracing: Option<JsonValue>,
}

/// What the database pool factory is given: the home directory and the
/// merged configuration object.
#[derive(Debug, PartialEq, Eq)]
pub struct DbSettings {
    pub home_dir: String,
    pub config: JsonValue,
}

/// Whether the process runs with databases, and with which settings.
#[derive(Debug, PartialEq, Eq)]
pub enum DbOptions {
    Disabled,
    Manager(DbSettings),
}

} // verus!
