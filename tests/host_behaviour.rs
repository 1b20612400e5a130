use modkit_host::config::{AppConfig, DbOptions, RenderedModuleConfig};
use modkit_host::file_parser::{
    check_local_path, default_max_file_size_mb, FileParserConfig, PathError,
};
use modkit_host::json::{lookup, merge_json_objects, merged, JsonValue};
use modkit_host::logging::{
    console_level_for, default_logging_config, logging_section, merge_logging_configs, Level,
    LoggingConfig, Section,
};
use modkit_host::oop::{build_merged_db_options, build_oop_config_and_db};
use modkit_host::render::render_module_config_for_oop;
use modkit_host::run::{
    heartbeat_step, migration_db_options, resolve_db_options, resolve_instance_id,
    HeartbeatAction, HeartbeatEvent, MigrateError, OopRunOptions, DEFAULT_DIRECTORY_ENDPOINT,
};
use modkit_host::spawn::{build_oop_spawn_options, try_build_oop_module_config, BootError};

fn obj(entries: Vec<(&str, JsonValue)>) -> JsonValue {
    JsonValue::Object(entries.into_iter().map(|(k, v)| (k.to_string(), v)).collect())
}

fn s(x: &str) -> JsonValue {
    JsonValue::Str(x.to_string())
}

fn n(x: i64) -> JsonValue {
    JsonValue::Number(x)
}

fn logging_of(pairs: Vec<(&str, Section)>) -> LoggingConfig {
    let mut l = LoggingConfig::new();
    for (k, sec) in pairs {
        l.insert(k.to_string(), sec);
    }
    l
}

fn base_config() -> AppConfig {
    let mut c = AppConfig::minimal("/tmp/modkit_home".to_string());
    c.logging = default_logging_config();
    c
}

fn oop_runtime(path: &str) -> JsonValue {
    obj(vec![
        ("type", s("oop")),
        (
            "execution",
            obj(vec![
                ("executable_path", s(path)),
                ("args", JsonValue::Array(vec![s("--serve"), s("-v")])),
                ("environment", obj(vec![("RUST_LOG", s("info"))])),
            ]),
        ),
    ])
}

#[test]
fn merge_with_empty_local_logging_keeps_master() {
    let master = logging_of(vec![
        ("default", logging_section(Some(Level::Info), "logs/m.log")),
        ("sqlx", logging_section(Some(Level::Warn), "logs/sql.log")),
    ]);
    let r = merge_logging_configs(Some(&master), &LoggingConfig::new());
    assert_eq!(r.len(), 2);
    assert_eq!(r.get("default").unwrap(), master.get("default").unwrap());
    assert_eq!(r.get("sqlx").unwrap(), master.get("sqlx").unwrap());
}

#[test]
fn merge_logging_twice_with_same_local_is_stable() {
    let master = logging_of(vec![("default", logging_section(Some(Level::Info), "logs/m.log"))]);
    let local = logging_of(vec![
        ("default", logging_section(Some(Level::Debug), "logs/l.log")),
        ("api", logging_section(Some(Level::Trace), "logs/api.log")),
    ]);
    let once = merge_logging_configs(Some(&master), &local);
    let twice = merge_logging_configs(Some(&once), &local);
    assert_eq!(twice.len(), once.len());
    for key in ["default", "api"] {
        assert_eq!(twice.get(key).unwrap(), once.get(key).unwrap());
    }
    assert!(twice.get("sqlx").is_none());
}

#[test]
fn logging_merge_keys_are_the_union() {
    let master = logging_of(vec![
        ("default", logging_section(Some(Level::Info), "logs/m.log")),
        ("only_master", logging_section(Some(Level::Warn), "logs/om.log")),
    ]);
    let local = logging_of(vec![
        ("default", logging_section(Some(Level::Error), "logs/l.log")),
        ("only_local", logging_section(Some(Level::Debug), "logs/ol.log")),
    ]);
    let r = merge_logging_configs(Some(&master), &local);
    assert_eq!(r.len(), 3);
    assert_eq!(r.get("default").unwrap(), local.get("default").unwrap());
    assert_eq!(r.get("only_master").unwrap(), master.get("only_master").unwrap());
    assert_eq!(r.get("only_local").unwrap(), local.get("only_local").unwrap());
}

#[test]
fn deep_merge_keeps_unique_keys_and_replaces_leaves() {
    let target = obj(vec![
        ("keep", n(1)),
        ("nested", obj(vec![("x", n(1)), ("y", s("old"))])),
        ("leaf", s("old")),
    ]);
    let source = obj(vec![
        ("nested", obj(vec![("y", s("new")), ("z", JsonValue::Null)])),
        ("leaf", JsonValue::Array(vec![n(7)])),
        ("added", JsonValue::Bool(false)),
    ]);
    let r = merged(&target, &source);
    assert_eq!(
        r,
        obj(vec![
            ("keep", n(1)),
            ("nested", obj(vec![("x", n(1)), ("y", s("new")), ("z", JsonValue::Null)])),
            ("leaf", JsonValue::Array(vec![n(7)])),
            ("added", JsonValue::Bool(false)),
        ])
    );
}

#[test]
fn deep_merge_twice_with_same_source_is_stable() {
    let mut target = obj(vec![("a", obj(vec![("b", n(1))])), ("c", n(2))]);
    let source = obj(vec![("a", obj(vec![("b", n(5)), ("d", n(6))]))]);
    merge_json_objects(&mut target, &source);
    let once = target.deep_copy();
    merge_json_objects(&mut target, &source);
    assert_eq!(target, once);
}

#[test]
fn deep_merge_into_non_object_target_replaces_it() {
    let mut target = s("scalar");
    merge_json_objects(&mut target, &obj(vec![("a", n(1))]));
    assert_eq!(target, obj(vec![("a", n(1))]));
}

#[test]
fn local_pool_override_keeps_rendered_file() {
    let rendered = modkit_host::config::RenderedDbConfig::new(
        None,
        Some(obj(vec![
            ("server", s("sqlite_main")),
            ("file", s("master.db")),
            ("pool", obj(vec![("max_conns", n(5))])),
        ])),
    );
    let mut local = base_config();
    local.modules.push((
        "m".to_string(),
        obj(vec![("database", obj(vec![("pool", obj(vec![("max_conns", n(10))]))]))]),
    ));
    let r = build_merged_db_options("/tmp/home", "m", Some(&rendered), &local);
    match r {
        DbOptions::Manager(settings) => {
            assert_eq!(settings.home_dir, "/tmp/home");
            let db = settings.config.get("modules").unwrap().get("m").unwrap().get("database").unwrap();
            assert_eq!(
                db,
                &obj(vec![
                    ("server", s("sqlite_main")),
                    ("file", s("master.db")),
                    ("pool", obj(vec![("max_conns", n(10))])),
                ])
            );
            assert!(settings.config.get("database").is_none());
        }
        DbOptions::Disabled => panic!("expected database options"),
    }
}

#[test]
fn standalone_boot_uses_local_everything() {
    let mut local = base_config();
    local.logging = logging_of(vec![("default", logging_section(Some(Level::Debug), "logs/l.log"))]);
    local.modules.push(("m".to_string(), obj(vec![("config", obj(vec![("setting", s("local"))]))])));
    let (cfg, logging, db) = build_oop_config_and_db(&local, "m", None);
    assert_eq!(
        lookup(&cfg.modules, "m").unwrap().get("config").unwrap().get("setting").unwrap(),
        &s("local")
    );
    assert!(matches!(db, DbOptions::Disabled));
    assert_eq!(logging, local.logging);
}

#[test]
fn rendered_config_fills_module_without_entry() {
    let local = base_config();
    let rendered = RenderedModuleConfig {
        database: None,
        config: obj(vec![("k", n(3))]),
        logging: None,
        tracing: Some(obj(vec![("enabled", JsonValue::Bool(true))])),
    };
    let (cfg, logging, _) = build_oop_config_and_db(&local, "fresh", Some(&rendered));
    assert_eq!(lookup(&cfg.modules, "fresh").unwrap(), &obj(vec![("config", obj(vec![("k", n(3))]))]));
    assert_eq!(logging, local.logging);
    assert_eq!(cfg.tracing, Some(obj(vec![("enabled", JsonValue::Bool(true))])));
}

#[test]
fn local_tracing_stays_without_rendered_tracing() {
    let mut local = base_config();
    local.tracing = Some(obj(vec![("endpoint", s("http://otel:4317"))]));
    let rendered = RenderedModuleConfig {
        database: None,
        config: JsonValue::Null,
        logging: None,
        tracing: None,
    };
    let (cfg, _, _) = build_oop_config_and_db(&local, "m", Some(&rendered));
    assert_eq!(cfg.tracing, local.tracing);
}

#[test]
fn non_object_module_entry_is_left_alone() {
    let mut local = base_config();
    local.modules.push(("m".to_string(), s("disabled")));
    let rendered = RenderedModuleConfig {
        database: None,
        config: obj(vec![("k", n(3))]),
        logging: None,
        tracing: None,
    };
    let (cfg, _, _) = build_oop_config_and_db(&local, "m", Some(&rendered));
    assert_eq!(lookup(&cfg.modules, "m").unwrap(), &s("disabled"));
}

fn two_module_config() -> AppConfig {
    let mut c = base_config();
    c.database = Some(obj(vec![
        (
            "servers",
            obj(vec![
                ("sqlite_main", obj(vec![("engine", s("sqlite")), ("file", s("main.db")), ("dsn", s("x"))])),
                ("unused", obj(vec![("engine", s("postgres"))])),
            ]),
        ),
        ("auto_provision", JsonValue::Bool(true)),
    ]));
    c.modules.push(("a".to_string(), obj(vec![("runtime", obj(vec![("type", s("inproc"))]))])));
    c.modules.push((
        "b".to_string(),
        obj(vec![
            ("runtime", oop_runtime("/usr/bin/b")),
            (
                "database",
                obj(vec![("server", s("sqlite_main")), ("file", s("b.db")), ("dsn", JsonValue::Null)]),
            ),
            ("config", obj(vec![("answer", n(42))])),
        ]),
    ));
    c
}

#[test]
fn parent_side_projection_sends_referenced_servers_only() {
    let c = two_module_config();
    let plans = build_oop_spawn_options(&c).unwrap().unwrap();
    assert_eq!(plans.len(), 1);
    let b = &plans[0];
    assert_eq!(b.module_name, "b");
    assert_eq!(b.binary, "/usr/bin/b");
    assert_eq!(b.args, vec!["--serve".to_string(), "-v".to_string()]);
    assert_eq!(b.env, vec![("RUST_LOG".to_string(), "info".to_string())]);
    assert_eq!(b.working_directory, None);
    let db = b.rendered_config.database.as_ref().unwrap();
    let servers = db.global.as_ref().unwrap().get("servers").unwrap();
    assert!(servers.get("sqlite_main").is_some());
    assert!(servers.get("unused").is_none());
    assert_eq!(db.global.as_ref().unwrap().get("auto_provision").unwrap(), &JsonValue::Bool(true));
    assert_eq!(b.rendered_config.config, obj(vec![("answer", n(42))]));
}

#[test]
fn rendered_module_db_lays_non_null_fields_over_server() {
    let c = two_module_config();
    let r = render_module_config_for_oop(&c, "b");
    let module = r.database.unwrap().module.unwrap();
    assert_eq!(
        module,
        obj(vec![
            ("engine", s("sqlite")),
            ("file", s("b.db")),
            ("dsn", s("x")),
            ("server", s("sqlite_main")),
        ])
    );
    assert_eq!(r.logging.unwrap(), c.logging);
}

#[test]
fn render_without_database_has_no_database() {
    let mut c = base_config();
    c.modules.push(("m".to_string(), obj(vec![("runtime", oop_runtime("/bin/m"))])));
    let r = render_module_config_for_oop(&c, "m");
    assert!(r.database.is_none());
    assert_eq!(r.config, JsonValue::Null);
}

#[test]
fn spawn_options_none_without_oop_modules() {
    let mut c = base_config();
    c.modules.push(("a".to_string(), obj(vec![("runtime", obj(vec![("type", s("inproc"))]))])));
    c.modules.push(("plain".to_string(), obj(vec![("config", n(1))])));
    assert_eq!(build_oop_spawn_options(&c), Ok(None));
}

#[test]
fn oop_module_without_execution_is_an_error() {
    let mut c = base_config();
    c.modules.push(("x".to_string(), obj(vec![("runtime", obj(vec![("type", s("oop"))]))])));
    assert_eq!(
        try_build_oop_module_config(&c, "x"),
        Err(BootError::MissingExecution("x".to_string()))
    );
    assert_eq!(build_oop_spawn_options(&c), Err(BootError::MissingExecution("x".to_string())));
}

#[test]
fn unknown_runtime_type_is_an_error() {
    let mut c = base_config();
    c.modules.push(("x".to_string(), obj(vec![("runtime", obj(vec![("type", s("remote"))]))])));
    assert_eq!(
        try_build_oop_module_config(&c, "x"),
        Err(BootError::InvalidRuntime("x".to_string()))
    );
}

#[test]
fn non_string_argument_is_an_error() {
    let mut c = base_config();
    c.modules.push((
        "x".to_string(),
        obj(vec![(
            "runtime",
            obj(vec![
                ("type", s("oop")),
                ("execution", obj(vec![("executable_path", s("/bin/x")), ("args", JsonValue::Array(vec![n(1)]))])),
            ]),
        )]),
    ));
    assert_eq!(
        try_build_oop_module_config(&c, "x"),
        Err(BootError::InvalidRuntime("x".to_string()))
    );
}

#[test]
fn migrate_without_database_is_refused() {
    let c = base_config();
    assert_eq!(migration_db_options(&c), Err(MigrateError::NoDatabase));
    assert_eq!(resolve_db_options(&c), DbOptions::Disabled);
}

#[test]
fn migrate_with_database_hands_section_to_factory() {
    let mut c = base_config();
    c.database = Some(obj(vec![("servers", obj(vec![]))]));
    match migration_db_options(&c) {
        Ok(DbOptions::Manager(settings)) => {
            assert_eq!(settings.home_dir, "/tmp/modkit_home");
            assert_eq!(settings.config.get("database").unwrap(), &obj(vec![("servers", obj(vec![]))]));
            assert_eq!(settings.config.get("modules").unwrap(), &obj(vec![]));
        }
        other => panic!("unexpected {other:?}"),
    }
}

#[test]
fn heartbeat_decisions() {
    assert_eq!(heartbeat_step(HeartbeatEvent::Cancelled), HeartbeatAction::StopAndDeregister);
    assert_eq!(heartbeat_step(HeartbeatEvent::Tick), HeartbeatAction::Send);
    assert_eq!(heartbeat_step(HeartbeatEvent::Sent), HeartbeatAction::Wait);
    assert_eq!(heartbeat_step(HeartbeatEvent::SendFailed), HeartbeatAction::Wait);
}

#[test]
fn oop_run_options_defaults() {
    let o = OopRunOptions::from_env_values(None, None);
    assert_eq!(o.directory_endpoint, DEFAULT_DIRECTORY_ENDPOINT);
    assert_eq!(o.directory_endpoint, "http://127.0.0.1:50051");
    assert_eq!(o.heartbeat_interval_secs, 5);
    assert_eq!(o.verbose, 0);
    assert!(!o.print_config);
    assert!(o.module_name.is_empty());
    let o = OopRunOptions::from_env_values(Some("/etc/m.yaml".to_string()), Some("http://h:1".to_string()));
    assert_eq!(o.config_path.as_deref(), Some("/etc/m.yaml"));
    assert_eq!(o.directory_endpoint, "http://h:1");
}

#[test]
fn instance_id_is_kept_or_generated() {
    let given = resolve_instance_id(None);
    assert_eq!(given.get_version_num(), 4);
    assert_eq!(resolve_instance_id(Some(given)), given);
    assert_ne!(resolve_instance_id(None), given);
}

#[test]
fn file_parser_defaults() {
    assert_eq!(default_max_file_size_mb(), 100);
    let c = FileParserConfig::default();
    assert_eq!(c.max_file_size_mb, 100);
    assert!(c.allowed_local_base_dir.is_none());
}

#[test]
fn verbosity_sets_default_console_level() {
    assert_eq!(console_level_for(0), Level::Warn);
    assert_eq!(console_level_for(1), Level::Info);
    assert_eq!(console_level_for(2), Level::Debug);
    assert_eq!(console_level_for(3), Level::Trace);
    assert_eq!(console_level_for(9), Level::Trace);
    let mut c = base_config();
    c.logging = logging_of(vec![("default", logging_section(Some(Level::Info), "logs/x.log"))]);
    c.apply_cli_overrides(2);
    let d = c.logging.get("default").unwrap();
    assert_eq!(d.console_level, Some(Level::Debug));
    assert_eq!(d.file().unwrap(), "logs/x.log");
    let mut empty = AppConfig::minimal("/tmp".to_string());
    empty.apply_cli_overrides(0);
    assert_eq!(empty.logging.get("default").unwrap().console_level, Some(Level::Warn));
    assert!(empty.logging.get("default").unwrap().file().is_none());
}

#[test]
fn default_logging_is_info() {
    let l = default_logging_config();
    assert_eq!(l.len(), 1);
    assert_eq!(l.get("default").unwrap().console_level, Some(Level::Info));
}

#[test]
fn logging_section_shape() {
    let sec = logging_section(None, "logs/a.log");
    assert_eq!(sec.console_level, None);
    assert_eq!(sec.file(), Some("logs/a.log"));
    assert_eq!(sec.section_file.as_ref().unwrap().file_level, Some(Level::Debug));
    assert_eq!(sec.max_age_days, Some(7));
    assert_eq!(sec.max_backups, Some(3));
    assert_eq!(sec.max_size_mb, Some(100));
}

#[test]
fn dotdot_paths_are_blocked_before_resolution() {
    for p in ["some/../../etc/passwd", "../secret.txt", "/allowed/dir/../../../etc/shadow", "/safe/../etc/passwd", ".."] {
        match check_local_path(p, "/srv/base", Some("/srv/base/x")) {
            Err(PathError::DotDot { path }) => {
                assert_eq!(path, p);
                assert!(path.contains(".."));
            }
            other => panic!("expected a dot-dot refusal for {p}, got {other:?}"),
        }
    }
}

#[test]
fn paths_resolving_inside_base_are_accepted() {
    assert_eq!(check_local_path("hello.txt", "/srv/base", Some("/srv/base/hello.txt")), Ok(()));
    assert_eq!(check_local_path("subdir/nested.txt", "/srv/base", Some("/srv/base/subdir/nested.txt")), Ok(()));
    assert_eq!(check_local_path("a..b.txt", "/srv/base", Some("/srv/base/a..b.txt")), Ok(()));
    assert_eq!(check_local_path("/", "/", Some("/etc")), Ok(()));
}

#[test]
fn paths_resolving_outside_base_are_blocked_without_naming_it() {
    assert_eq!(
        check_local_path("/srv/other/secret.txt", "/srv/base", Some("/srv/other/secret.txt")),
        Err(PathError::OutsideBase)
    );
    assert_eq!(
        check_local_path("escape.txt", "/srv/base", Some("/srv/external/secret.txt")),
        Err(PathError::OutsideBase)
    );
    assert_eq!(
        check_local_path("/srv/base_evil/x", "/srv/base", Some("/srv/base_evil/x")),
        Err(PathError::OutsideBase)
    );
}

#[test]
fn missing_file_is_not_found() {
    assert_eq!(
        check_local_path("nonexistent.txt", "/srv/base", None),
        Err(PathError::NotFound { path: "nonexistent.txt".to_string() })
    );
}
