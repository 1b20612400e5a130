use modkit_host::codec::ConfigError;
use modkit_host::config::{AppConfig, RenderedDbConfig, RenderedModuleConfig};
use modkit_host::json::{lookup, JsonValue};
use modkit_host::logging::{
    logging_section, ConsoleFormat, Level, LoggingConfig, Section, SectionFile,
};

fn obj(entries: Vec<(&str, JsonValue)>) -> JsonValue {
    JsonValue::Object(entries.into_iter().map(|(k, v)| (k.to_string(), v)).collect())
}

fn s(x: &str) -> JsonValue {
    JsonValue::Str(x.to_string())
}

fn sample_logging() -> LoggingConfig {
    let mut l = LoggingConfig::new();
    l.insert("default".to_string(), logging_section(Some(Level::Info), "logs/a.log"));
    l.insert(
        "sqlx".to_string(),
        Section {
            console_level: None,
            section_file: Some(SectionFile { file: "logs/sql.log".to_string(), file_level: None }),
            console_format: ConsoleFormat::Json,
            max_age_days: None,
            max_backups: Some(u32::MAX),
            max_size_mb: Some(u64::MAX),
        },
    );
    l
}

#[test]
fn rendered_config_round_trips_through_json() {
    let cfg = RenderedModuleConfig {
        database: Some(RenderedDbConfig::new(
            Some(obj(vec![("servers", obj(vec![("main", obj(vec![("dsn", s("x"))]))]))])),
            Some(JsonValue::Null),
        )),
        config: obj(vec![("k", JsonValue::Array(vec![JsonValue::Number(-3), JsonValue::Bool(true)]))]),
        logging: Some(sample_logging()),
        tracing: None,
    };
    let back = RenderedModuleConfig::from_json(&cfg.to_json()).unwrap();
    assert_eq!(back, cfg);
}

#[test]
fn rendered_config_with_nothing_optional_round_trips() {
    let cfg = RenderedModuleConfig { database: None, config: JsonValue::Null, logging: None, tracing: None };
    let j = cfg.to_json();
    assert_eq!(j, obj(vec![("config", JsonValue::Null)]));
    assert_eq!(RenderedModuleConfig::from_json(&j).unwrap(), cfg);
}

#[test]
fn rendered_config_refuses_malformed_parts() {
    assert!(RenderedModuleConfig::from_json(&s("x")).is_none());
    assert!(RenderedModuleConfig::from_json(&obj(vec![("database", s("x"))])).is_none());
    assert!(RenderedModuleConfig::from_json(&obj(vec![(
        "logging",
        obj(vec![("default", obj(vec![("console_level", s("loud"))]))])
    )]))
    .is_none());
    let missing_config = RenderedModuleConfig::from_json(&obj(vec![])).unwrap();
    assert_eq!(missing_config.config, JsonValue::Null);
}

#[test]
fn section_json_shape() {
    let j = logging_section(Some(Level::Warn), "logs/w.log").to_json();
    assert_eq!(
        j,
        obj(vec![
            ("console_level", s("warn")),
            ("file", s("logs/w.log")),
            ("file_level", s("debug")),
            ("console_format", s("text")),
            ("max_age_days", JsonValue::Number(7)),
            ("max_backups", JsonValue::Number(3)),
            ("max_size_mb", JsonValue::Unsigned(100)),
        ])
    );
    assert_eq!(Section::from_json(&j).unwrap(), logging_section(Some(Level::Warn), "logs/w.log"));
    assert!(Section::from_json(&obj(vec![("max_age_days", JsonValue::Number(-1))])).is_none());
    assert!(Section::from_json(&obj(vec![("max_age_days", JsonValue::Unsigned(1 << 40))])).is_none());
    let defaults = Section::from_json(&obj(vec![])).unwrap();
    assert_eq!(defaults.console_format, ConsoleFormat::Text);
    assert!(defaults.section_file.is_none());
}

fn config_doc() -> JsonValue {
    obj(vec![
        ("server", obj(vec![("home_dir", s("/var/lib/app"))])),
        ("database", obj(vec![("servers", obj(vec![]))])),
        ("modules", obj(vec![("m", obj(vec![("config", JsonValue::Number(1))]))])),
    ])
}

#[test]
fn app_config_from_json_applies_defaults() {
    let c = AppConfig::from_json(&config_doc()).unwrap();
    assert_eq!(c.server.home_dir, "/var/lib/app");
    assert_eq!(c.database, Some(obj(vec![("servers", obj(vec![]))])));
    assert_eq!(c.logging.get("default").unwrap().console_level, Some(Level::Info));
    assert_eq!(c.tracing, None);
    assert_eq!(c.modules_dir, None);
    assert_eq!(lookup(&c.modules, "m").unwrap(), &obj(vec![("config", JsonValue::Number(1))]));
    assert_eq!(AppConfig::from_json(&c.to_json()).unwrap(), c);
}

#[test]
fn app_config_errors_name_the_part() {
    assert_eq!(AppConfig::from_json(&s("x")), Err(ConfigError::NotAnObject));
    assert_eq!(AppConfig::from_json(&obj(vec![])), Err(ConfigError::Server));
    let mut unknown = config_doc();
    if let JsonValue::Object(es) = &mut unknown {
        es.push(("colour".to_string(), s("blue")));
    }
    assert_eq!(AppConfig::from_json(&unknown), Err(ConfigError::UnknownField));
    let mut bad_logging = config_doc();
    if let JsonValue::Object(es) = &mut bad_logging {
        es.push(("logging".to_string(), s("x")));
    }
    assert_eq!(AppConfig::from_json(&bad_logging), Err(ConfigError::Logging));
    let mut bad_dir = config_doc();
    if let JsonValue::Object(es) = &mut bad_dir {
        es.push(("modules_dir".to_string(), JsonValue::Number(3)));
    }
    assert_eq!(AppConfig::from_json(&bad_dir), Err(ConfigError::ModulesDir));
    let bad_modules = obj(vec![
        ("server", obj(vec![("home_dir", s("/h"))])),
        ("modules", JsonValue::Array(vec![])),
    ]);
    assert_eq!(AppConfig::from_json(&bad_modules), Err(ConfigError::Modules));
}

#[test]
fn repeated_keys_are_detected_at_any_depth() {
    assert!(config_doc().well_formed());
    let nested = obj(vec![("a", obj(vec![("x", JsonValue::Number(1)), ("x", JsonValue::Number(2))]))]);
    assert!(!nested.well_formed());
    let in_array = JsonValue::Array(vec![obj(vec![("k", s("a")), ("k", s("b"))])]);
    assert!(!in_array.well_formed());
    let top = obj(vec![("a", obj(vec![("x", JsonValue::Number(1))])), ("a", obj(vec![]))]);
    assert!(!top.well_formed());
}

#[test]
fn config_with_repeated_key_is_refused() {
    let mut doc = config_doc();
    if let JsonValue::Object(es) = &mut doc {
        es.push(("modules".to_string(), obj(vec![])));
    }
    assert_eq!(AppConfig::from_json(&doc), Err(ConfigError::RepeatedKey));
    let c = AppConfig::from_json(&config_doc()).unwrap();
    assert!(c.well_formed());
    let mut twice = c.to_json();
    if let JsonValue::Object(es) = &mut twice {
        es.retain(|(k, _)| k == "server");
    }
    let mut bad = AppConfig::from_json(&twice).unwrap();
    bad.modules.push(("m".to_string(), JsonValue::Null));
    bad.modules.push(("m".to_string(), JsonValue::Null));
    assert!(!bad.well_formed());
}
