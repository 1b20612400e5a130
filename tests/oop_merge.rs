use modkit_host::config::{AppConfig, DbOptions, RenderedDbConfig, RenderedModuleConfig};
use modkit_host::json::{lookup, merge_json_objects, JsonValue};
use modkit_host::logging::{
    default_logging_config, logging_section, merge_logging_configs, Level, LoggingConfig, Section,
};
use modkit_host::oop::{build_merged_db_options, build_oop_config_and_db};

fn obj(entries: Vec<(&str, JsonValue)>) -> JsonValue {
    JsonValue::Object(entries.into_iter().map(|(k, v)| (k.to_string(), v)).collect())
}

fn s(x: &str) -> JsonValue {
    JsonValue::Str(x.to_string())
}

fn n(x: i64) -> JsonValue {
    JsonValue::Number(x)
}

fn logging_of(pairs: Vec<(&str, Section)>) -> LoggingConfig {
    let mut l = LoggingConfig::new();
    for (k, sec) in pairs {
        l.insert(k.to_string(), sec);
    }
    l
}

fn minimal_app_config() -> AppConfig {
    let mut c = AppConfig::minimal("/tmp/modkit_test".to_string());
    c.logging = default_logging_config();
    c
}

fn set_module(c: &mut AppConfig, name: &str, v: JsonValue) {
    c.modules.retain(|(k, _)| k != name);
    c.modules.push((name.to_string(), v));
}

fn module<'a>(c: &'a AppConfig, name: &str) -> &'a JsonValue {
    lookup(&c.modules, name).unwrap()
}

// Logging merge

#[test]
fn test_merge_logging_local_only() {
    let local_logging = logging_of(vec![(
        "default",
        logging_section(Some(Level::Debug), "logs/local.log"),
    )]);

    let result = merge_logging_configs(None, &local_logging);

    assert_eq!(result.len(), 1);
    assert_eq!(result.get("default").unwrap().console_level, Some(Level::Debug));
    assert_eq!(result.get("default").unwrap().file().unwrap(), "logs/local.log");
}

#[test]
fn test_merge_logging_local_overrides_master_key() {
    let master_logging = logging_of(vec![
        ("default", logging_section(Some(Level::Info), "logs/master.log")),
        ("module_a", logging_section(Some(Level::Info), "logs/a-master.log")),
    ]);
    let local_logging = logging_of(vec![(
        "default",
        logging_section(Some(Level::Debug), "logs/local.log"),
    )]);

    let result = merge_logging_configs(Some(&master_logging), &local_logging);

    assert_eq!(result.len(), 2);
    assert_eq!(result.get("default").unwrap().console_level, Some(Level::Debug));
    assert_eq!(result.get("default").unwrap().file().unwrap(), "logs/local.log");
    assert_eq!(result.get("module_a").unwrap().console_level, Some(Level::Info));
    assert_eq!(result.get("module_a").unwrap().file().unwrap(), "logs/a-master.log");
}

#[test]
fn test_merge_logging_local_adds_new_key() {
    let master_logging = logging_of(vec![(
        "default",
        logging_section(Some(Level::Info), "logs/default.log"),
    )]);
    let local_logging = logging_of(vec![(
        "new_module",
        logging_section(Some(Level::Trace), "logs/new.log"),
    )]);

    let result = merge_logging_configs(Some(&master_logging), &local_logging);

    assert_eq!(result.len(), 2);
    assert_eq!(result.get("default").unwrap().console_level, Some(Level::Info));
    assert_eq!(result.get("new_module").unwrap().console_level, Some(Level::Trace));
}

#[test]
fn test_merge_logging_multiple_overrides() {
    let master_logging = logging_of(vec![
        ("default", logging_section(Some(Level::Info), "logs/default.log")),
        ("sqlx", logging_section(Some(Level::Warn), "logs/sql.log")),
        ("api", logging_section(Some(Level::Info), "logs/api.log")),
    ]);
    let local_logging = logging_of(vec![
        ("default", logging_section(Some(Level::Debug), "logs/local-default.log")),
        ("sqlx", logging_section(Some(Level::Debug), "logs/local-sql.log")),
    ]);

    let result = merge_logging_configs(Some(&master_logging), &local_logging);

    assert_eq!(result.len(), 3);
    assert_eq!(result.get("default").unwrap().console_level, Some(Level::Debug));
    assert_eq!(result.get("sqlx").unwrap().console_level, Some(Level::Debug));
    assert_eq!(result.get("api").unwrap().console_level, Some(Level::Info));
}

// JSON object merge

#[test]
fn test_merge_json_flat_objects() {
    let mut target = obj(vec![("a", n(1)), ("b", n(2))]);
    let source = obj(vec![("b", n(3)), ("c", n(4))]);

    merge_json_objects(&mut target, &source);

    assert_eq!(target, obj(vec![("a", n(1)), ("b", n(3)), ("c", n(4))]));
}

#[test]
fn test_merge_json_nested_objects() {
    let mut target = obj(vec![(
        "database",
        obj(vec![("host", s("localhost")), ("port", n(5432))]),
    )]);
    let source = obj(vec![("database", obj(vec![("port", n(5433)), ("user", s("admin"))]))]);

    merge_json_objects(&mut target, &source);

    assert_eq!(
        target,
        obj(vec![(
            "database",
            obj(vec![("host", s("localhost")), ("port", n(5433)), ("user", s("admin"))]),
        )])
    );
}

#[test]
fn test_merge_json_deeply_nested() {
    let mut target = obj(vec![(
        "level1",
        obj(vec![("level2", obj(vec![("a", n(1)), ("b", n(2))]))]),
    )]);
    let source = obj(vec![(
        "level1",
        obj(vec![
            ("level2", obj(vec![("b", n(3)), ("c", n(4))])),
            ("new_key", s("value")),
        ]),
    )]);

    merge_json_objects(&mut target, &source);

    assert_eq!(
        target,
        obj(vec![(
            "level1",
            obj(vec![
                ("level2", obj(vec![("a", n(1)), ("b", n(3)), ("c", n(4))])),
                ("new_key", s("value")),
            ]),
        )])
    );
}

#[test]
fn test_merge_json_source_replaces_non_object() {
    let mut target = obj(vec![("key", s("string_value"))]);
    let source = obj(vec![("key", obj(vec![("nested", JsonValue::Bool(true))]))]);

    merge_json_objects(&mut target, &source);

    assert_eq!(target, obj(vec![("key", obj(vec![("nested", JsonValue::Bool(true))]))]));
}

#[test]
fn test_merge_json_non_object_replaces_object() {
    let mut target = obj(vec![("key", obj(vec![("nested", JsonValue::Bool(true))]))]);
    let source = obj(vec![("key", s("string_value"))]);

    merge_json_objects(&mut target, &source);

    assert_eq!(target, obj(vec![("key", s("string_value"))]));
}

#[test]
fn test_merge_json_empty_source() {
    let mut target = obj(vec![("a", n(1)), ("b", n(2))]);
    let source = obj(vec![]);

    merge_json_objects(&mut target, &source);

    assert_eq!(target, obj(vec![("a", n(1)), ("b", n(2))]));
}

#[test]
fn test_merge_json_empty_target() {
    let mut target = obj(vec![]);
    let source = obj(vec![("a", n(1)), ("b", n(2))]);

    merge_json_objects(&mut target, &source);

    assert_eq!(target, obj(vec![("a", n(1)), ("b", n(2))]));
}

// Database merge

fn create_global_db_config() -> JsonValue {
    obj(vec![
        (
            "servers",
            obj(vec![(
                "sqlite_main",
                obj(vec![
                    ("engine", s("sqlite")),
                    ("params", obj(vec![("WAL", s("true"))])),
                    ("pool", obj(vec![("max_conns", n(5)), ("acquire_timeout", s("30s"))])),
                ]),
            )]),
        ),
        ("auto_provision", JsonValue::Bool(true)),
    ])
}

fn create_module_db_config() -> JsonValue {
    obj(vec![
        ("engine", s("sqlite")),
        ("server", s("sqlite_main")),
        ("file", s("module.db")),
    ])
}

fn merged_config(r: &DbOptions) -> &JsonValue {
    match r {
        DbOptions::Manager(settings) => &settings.config,
        DbOptions::Disabled => panic!("expected database options"),
    }
}

fn module_db<'a>(r: &'a DbOptions, name: &str) -> &'a JsonValue {
    merged_config(r).get("modules").unwrap().get(name).unwrap().get("database").unwrap()
}

#[test]
fn test_rendered_db_config_no_database() {
    let local_config = minimal_app_config();

    let result = build_merged_db_options("/tmp/modkit_test_no_db", "test_module", None, &local_config);

    assert!(matches!(result, DbOptions::Disabled));
}

#[test]
fn test_rendered_db_config_master_only() {
    let rendered_db =
        RenderedDbConfig::new(Some(create_global_db_config()), Some(create_module_db_config()));
    let local_config = minimal_app_config();

    let result = build_merged_db_options(
        "/tmp/modkit_test_master_only",
        "test_module",
        Some(&rendered_db),
        &local_config,
    );

    assert!(matches!(result, DbOptions::Manager(_)));
    assert_eq!(merged_config(&result).get("database").unwrap(), &create_global_db_config());
    assert_eq!(module_db(&result, "test_module"), &create_module_db_config());
}

#[test]
fn test_rendered_db_config_local_only() {
    let mut local_config = minimal_app_config();
    local_config.database = Some(create_global_db_config());
    set_module(
        &mut local_config,
        "test_module",
        obj(vec![(
            "database",
            obj(vec![("server", s("sqlite_main")), ("file", s("local.db"))]),
        )]),
    );

    let result =
        build_merged_db_options("/tmp/modkit_test_local_only", "test_module", None, &local_config);

    assert!(matches!(result, DbOptions::Manager(_)));
    assert_eq!(
        module_db(&result, "test_module"),
        &obj(vec![("server", s("sqlite_main")), ("file", s("local.db"))])
    );
}

#[test]
fn test_rendered_db_config_local_overrides_pool() {
    let rendered_db =
        RenderedDbConfig::new(Some(create_global_db_config()), Some(create_module_db_config()));
    let mut local_config = minimal_app_config();
    set_module(
        &mut local_config,
        "test_module",
        obj(vec![("database", obj(vec![("pool", obj(vec![("max_conns", n(10))]))]))]),
    );

    let result = build_merged_db_options(
        "/tmp/modkit_test_pool_override",
        "test_module",
        Some(&rendered_db),
        &local_config,
    );

    assert!(matches!(result, DbOptions::Manager(_)));
    let db = module_db(&result, "test_module");
    assert_eq!(db.get("pool").unwrap().get("max_conns").unwrap(), &n(10));
    assert_eq!(db.get("file").unwrap(), &s("module.db"));
}

#[test]
fn test_rendered_db_config_local_overrides_file() {
    let rendered_db =
        RenderedDbConfig::new(Some(create_global_db_config()), Some(create_module_db_config()));
    let mut local_config = minimal_app_config();
    set_module(
        &mut local_config,
        "test_module",
        obj(vec![("database", obj(vec![("file", s("local_override.db"))]))]),
    );

    let result = build_merged_db_options(
        "/tmp/modkit_test_file_override",
        "test_module",
        Some(&rendered_db),
        &local_config,
    );

    assert!(matches!(result, DbOptions::Manager(_)));
    let db = module_db(&result, "test_module");
    assert_eq!(db.get("file").unwrap(), &s("local_override.db"));
    assert_eq!(db.get("server").unwrap(), &s("sqlite_main"));
}

#[test]
fn test_rendered_db_config_local_adds_params() {
    let rendered_db =
        RenderedDbConfig::new(Some(create_global_db_config()), Some(create_module_db_config()));
    let mut local_config = minimal_app_config();
    set_module(
        &mut local_config,
        "test_module",
        obj(vec![("database", obj(vec![("params", obj(vec![("new_param", s("value"))]))]))]),
    );

    let result = build_merged_db_options(
        "/tmp/modkit_test_params_add",
        "test_module",
        Some(&rendered_db),
        &local_config,
    );

    assert!(matches!(result, DbOptions::Manager(_)));
    let db = module_db(&result, "test_module");
    assert_eq!(db.get("params").unwrap().get("new_param").unwrap(), &s("value"));
}

#[test]
fn test_rendered_db_config_local_global_merges_with_master() {
    let rendered_db =
        RenderedDbConfig::new(Some(create_global_db_config()), Some(create_module_db_config()));
    let mut local_config = minimal_app_config();
    local_config.database = Some(obj(vec![(
        "servers",
        obj(vec![(
            "new_server",
            obj(vec![("engine", s("sqlite")), ("dsn", s("sqlite://new.db"))]),
        )]),
    )]));

    let result = build_merged_db_options(
        "/tmp/modkit_test_global_merge",
        "test_module",
        Some(&rendered_db),
        &local_config,
    );

    assert!(matches!(result, DbOptions::Manager(_)));
    let servers = merged_config(&result).get("database").unwrap().get("servers").unwrap();
    assert!(servers.get("sqlite_main").is_some());
    assert_eq!(servers.get("new_server").unwrap().get("dsn").unwrap(), &s("sqlite://new.db"));
}

// Full out-of-process configuration

#[test]
fn test_build_oop_config_standalone_mode() {
    let mut local_config = minimal_app_config();
    local_config.logging = logging_of(vec![(
        "default",
        logging_section(Some(Level::Debug), "logs/standalone.log"),
    )]);
    set_module(
        &mut local_config,
        "test_module",
        obj(vec![("config", obj(vec![("setting", s("local_value"))]))]),
    );

    let (final_config, merged_logging, db_options) =
        build_oop_config_and_db(&local_config, "test_module", None);

    let module_config = module(&final_config, "test_module");
    assert_eq!(module_config.get("config").unwrap().get("setting").unwrap(), &s("local_value"));
    assert_eq!(merged_logging.len(), 1);
    assert_eq!(merged_logging.get("default").unwrap().console_level, Some(Level::Debug));
    assert!(matches!(db_options, DbOptions::Disabled));
}

#[test]
fn test_build_oop_config_with_rendered_config() {
    let local_config = minimal_app_config();
    let rendered = RenderedModuleConfig {
        database: None,
        config: obj(vec![("master_setting", s("value"))]),
        logging: Some(logging_of(vec![(
            "default",
            logging_section(Some(Level::Info), "logs/master.log"),
        )])),
        tracing: None,
    };

    let (final_config, merged_logging, _) =
        build_oop_config_and_db(&local_config, "test_module", Some(&rendered));

    let module_config = module(&final_config, "test_module");
    assert_eq!(module_config.get("config").unwrap().get("master_setting").unwrap(), &s("value"));
    assert_eq!(merged_logging.get("default").unwrap().console_level, Some(Level::Info));
}

#[test]
fn test_build_oop_config_local_overrides_master_config() {
    let mut local_config = minimal_app_config();
    set_module(
        &mut local_config,
        "test_module",
        obj(vec![("config", obj(vec![("local_setting", s("local_value"))]))]),
    );
    let rendered = RenderedModuleConfig {
        database: None,
        config: obj(vec![("master_setting", s("master_value")), ("another", s("setting"))]),
        logging: None,
        tracing: None,
    };

    let (final_config, _, _) = build_oop_config_and_db(&local_config, "test_module", Some(&rendered));

    let module_config = module(&final_config, "test_module");
    assert_eq!(
        module_config.get("config").unwrap().get("local_setting").unwrap(),
        &s("local_value")
    );
    assert!(module_config.get("config").unwrap().get("master_setting").is_none());
}

#[test]
fn test_build_oop_config_logging_merge() {
    let mut local_config = minimal_app_config();
    local_config.logging = logging_of(vec![
        ("default", logging_section(Some(Level::Debug), "logs/local-default.log")),
        ("new_key", logging_section(Some(Level::Trace), "logs/new.log")),
    ]);
    let rendered = RenderedModuleConfig {
        database: None,
        config: obj(vec![]),
        logging: Some(logging_of(vec![
            ("default", logging_section(Some(Level::Info), "logs/master-default.log")),
            ("sqlx", logging_section(Some(Level::Warn), "logs/sql.log")),
        ])),
        tracing: None,
    };

    let (_, merged_logging, _) =
        build_oop_config_and_db(&local_config, "test_module", Some(&rendered));

    assert_eq!(merged_logging.len(), 3);
    assert_eq!(merged_logging.get("default").unwrap().console_level, Some(Level::Debug));
    assert_eq!(
        merged_logging.get("default").unwrap().file().unwrap(),
        "logs/local-default.log"
    );
    assert_eq!(merged_logging.get("sqlx").unwrap().console_level, Some(Level::Warn));
    assert_eq!(merged_logging.get("new_key").unwrap().console_level, Some(Level::Trace));
}

#[test]
fn test_build_oop_config_empty_local_config_section() {
    let mut local_config = minimal_app_config();
    set_module(&mut local_config, "test_module", obj(vec![("config", JsonValue::Null)]));
    let rendered = RenderedModuleConfig {
        database: None,
        config: obj(vec![("master_setting", s("value"))]),
        logging: None,
        tracing: None,
    };

    let (final_config, _, _) = build_oop_config_and_db(&local_config, "test_module", Some(&rendered));

    let module_config = module(&final_config, "test_module");
    assert_eq!(module_config.get("config").unwrap().get("master_setting").unwrap(), &s("value"));
}

#[test]
fn test_build_oop_config_no_config_section_in_local() {
    let mut local_config = minimal_app_config();
    set_module(&mut local_config, "test_module", obj(vec![("database", obj(vec![]))]));
    let rendered = RenderedModuleConfig {
        database: None,
        config: obj(vec![("master_setting", s("value"))]),
        logging: None,
        tracing: None,
    };

    let (final_config, _, _) = build_oop_config_and_db(&local_config, "test_module", Some(&rendered));

    let module_config = module(&final_config, "test_module");
    assert_eq!(module_config.get("config").unwrap().get("master_setting").unwrap(), &s("value"));
}
