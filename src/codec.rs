use vstd::prelude::*;

use crate::config::{opt_view, opt_wf, AppConfig, RenderedDbConfig, RenderedModuleConfig, ServerConfig};
use crate::json::{
    entries_view, json_wf, lemma_entries_view, lemma_obj_get_wf, lookup, obj_get, Json, JsonValue,
    key_index,
};
use crate::logging::{
    default_logging_config, default_logging_map, section_map, ConsoleFormat, Level, LoggingConfig,
    Section, SectionFile,
};

verus! {

/// One entry where the value is there, none where it is not.
pub open spec fn opt_entry(k: Seq<char>, v: Option<Json>) -> Seq<(Seq<char>, Json)> {
    match v {
        Some(x) => seq![(k, x)],
        None => Seq::empty(),
    }
}

pub open spec fn level_name(l: Level) -> Seq<char> {
    match l {
        Level::Trace => "trace"@,
        Level::Debug => "debug"@,
        Level::Info => "info"@,
        Level::Warn => "warn"@,
        Level::Error => "error"@,
    }
}

pub open spec fn parse_level(j: Json) -> Option<Level> {
    match j {
        Json::Str(s) => if s == "trace"@ {
            Some(Level::Trace)
        } else if s == "debug"@ {
            Some(Level::Debug)
        } else if s == "info"@ {
            Some(Level::Info)
        } else if s == "warn"@ {
            Some(Level::Warn)
        } else if s == "error"@ {
            Some(Level::Error)
        } else {
            None
        },
        _ => None,
    }
}

pub open spec fn format_name(f: ConsoleFormat) -> Seq<char> {
    match f {
        ConsoleFormat::Text => "text"@,
        ConsoleFormat::Json => "json"@,
    }
}

pub open spec fn parse_format(j: Json) -> Option<ConsoleFormat> {
    match j {
        Json::Str(s) => if s == "text"@ {
            Some(ConsoleFormat::Text)
        } else if s == "json"@ {
            Some(ConsoleFormat::Json)
        } else {
            None
        },
        _ => None,
    }
}

pub open spec fn level_json(l: Option<Level>) -> Option<Json> {
    match l {
        Some(x) => Some(Json::Str(level_name(x))),
        None => None,
    }
}

pub open spec fn num_json(n: Option<int>) -> Option<Json> {
    match n {
        Some(x) => Some(Json::Num(x)),
        None => None,
    }
}

/// A logging section as plain values.
pub struct SectionModel {
    pub console_level: Option<Level>,
    pub file: Option<(Seq<char>, Option<Level>)>,
    pub console_format: ConsoleFormat,
    pub max_age_days: Option<u32>,
    pub max_backups: Option<u32>,
    pub max_size_mb: Option<u64>,
}

pub open spec fn section_model(s: Section) -> SectionModel {
    SectionModel {
        console_level: s.console_level,
        file: match s.section_file {
            Some(f) => Some((f.file@, f.file_level)),
            None => None,
        },
        console_format: s.console_format,
        max_age_days: s.max_age_days,
        max_backups: s.max_backups,
        max_size_mb: s.max_size_mb,
    }
}

/// A section as a JSON object; absent values have no entry.
pub open spec fn render_section(m: SectionModel) -> Json {
    Json::Obj(
        Seq::empty() + opt_entry("console_level"@, level_json(m.console_level)) + opt_entry(
            "file"@,
            match m.file {
                Some(f) => Some(Json::Str(f.0)),
                None => None,
            },
        ) + opt_entry(
            "file_level"@,
            match m.file {
                Some(f) => level_json(f.1),
                None => None,
            },
        ) + opt_entry("console_format"@, Some(Json::Str(format_name(m.console_format))))
            + opt_entry(
            "max_age_days"@,
            num_json(
                match m.max_age_days {
                    Some(x) => Some(x as int),
                    None => None,
                },
            ),
        ) + opt_entry(
            "max_backups"@,
            num_json(
                match m.max_backups {
                    Some(x) => Some(x as int),
                    None => None,
                },
            ),
        ) + opt_entry(
            "max_size_mb"@,
            num_json(
                match m.max_size_mb {
                    Some(x) => Some(x as int),
                    None => None,
                },
            ),
        ),
    )
}

pub open spec fn parse_opt_level(v: Option<Json>) -> Option<Option<Level>> {
    match v {
        None => Some(None),
        Some(j) => match parse_level(j) {
            Some(l) => Some(Some(l)),
            None => None,
        },
    }
}

pub open spec fn parse_opt_u32(v: Option<Json>) -> Option<Option<u32>> {
    match v {
        None => Some(None),
        Some(Json::Num(i)) => if 0 <= i <= u32::MAX {
            Some(Some(i as u32))
        } else {
            None
        },
        _ => None,
    }
}

pub open spec fn parse_opt_u64(v: Option<Json>) -> Option<Option<u64>> {
    match v {
        None => Some(None),
        Some(Json::Num(i)) => if 0 <= i <= u64::MAX {
            Some(Some(i as u64))
        } else {
            None
        },
        _ => None,
    }
}

/// A section read back from a JSON object: every entry optional, with the
/// console format text by default; a value of the wrong shape spoils it.
pub open spec fn parse_section(j: Json) -> Option<SectionModel> {
    match j {
        Json::Obj(f) => {
            let cl = parse_opt_level(obj_get(f, "console_level"@));
            let file = match obj_get(f, "file"@) {
                None => Some(None),
                Some(Json::Str(p)) => match parse_opt_level(obj_get(f, "file_level"@)) {
                    Some(fl) => Some(Some((p, fl))),
                    None => None,
                },
                _ => None,
            };
            let cf = match obj_get(f, "console_format"@) {
                None => Some(ConsoleFormat::Text),
                Some(x) => parse_format(x),
            };
            let a = parse_opt_u32(obj_get(f, "max_age_days"@));
            let b = parse_opt_u32(obj_get(f, "max_backups"@));
            let c = parse_opt_u64(obj_get(f, "max_size_mb"@));
            if cl is Some && file is Some && cf is Some && a is Some && b is Some && c is Some {
                Some(
                    SectionModel {
                        console_level: cl->0,
                        file: file->0,
                        console_format: cf->0,
                        max_age_days: a->0,
                        max_backups: b->0,
                        max_size_mb: c->0,
                    },
                )
            } else {
                None
            }
        },
        _ => None,
    }
}

/// A lookup past an optional entry.
pub proof fn lemma_get_opt_entry()
    ensures
        forall|a: Seq<(Seq<char>, Json)>, k2: Seq<char>, v: Option<Json>, k: Seq<char>|
            #[trigger] obj_get(a + opt_entry(k2, v), k) == if k2 == k && v is Some {
                v
            } else {
                obj_get(a, k)
            },
        forall|k: Seq<char>| #[trigger] obj_get(Seq::<(Seq<char>, Json)>::empty(), k) is None,
{
    assert forall|a: Seq<(Seq<char>, Json)>, k2: Seq<char>, v: Option<Json>, k: Seq<char>|
        #[trigger] obj_get(a + opt_entry(k2, v), k) == if k2 == k && v is Some {
            v
        } else {
            obj_get(a, k)
        } by {
        crate::json::lemma_obj_get_concat(a, opt_entry(k2, v), k);
        match v {
            Some(x) => {
                crate::json::lemma_obj_get_single(k2, x, k);
            },
            None => {
                assert(key_index(Seq::<(Seq<char>, Json)>::empty(), k) == -1);
            },
        }
    }
    assert forall|k: Seq<char>| #[trigger] obj_get(Seq::<(Seq<char>, Json)>::empty(), k) is None by {
        assert(key_index(Seq::<(Seq<char>, Json)>::empty(), k) == -1);
    }
}

proof fn lemma_section_keys_distinct()
    ensures
        "console_level"@ != "file"@,
        "console_level"@ != "file_level"@,
        "console_level"@ != "console_format"@,
        "console_level"@ != "max_age_days"@,
        "console_level"@ != "max_backups"@,
        "console_level"@ != "max_size_mb"@,
        "file"@ != "file_level"@,
        "file"@ != "console_format"@,
        "file"@ != "max_age_days"@,
        "file"@ != "max_backups"@,
        "file"@ != "max_size_mb"@,
        "file_level"@ != "console_format"@,
        "file_level"@ != "max_age_days"@,
        "file_level"@ != "max_backups"@,
        "file_level"@ != "max_size_mb"@,
        "console_format"@ != "max_age_days"@,
        "console_format"@ != "max_backups"@,
        "console_format"@ != "max_size_mb"@,
        "max_age_days"@ != "max_backups"@,
        "max_age_days"@ != "max_size_mb"@,
        "max_backups"@ != "max_size_mb"@,
{
    reveal_strlit("console_level");
    reveal_strlit("file");
    reveal_strlit("file_level");
    reveal_strlit("console_format");
    reveal_strlit("max_age_days");
    reveal_strlit("max_backups");
    reveal_strlit("max_size_mb");
    assert("max_backups"@[4] != "max_size_mb"@[4]);
    assert("console_level"@.len() == 13);
    assert("file"@.len() == 4);
    assert("file_level"@.len() == 10);
    assert("console_format"@.len() == 14);
    assert("max_age_days"@.len() == 12);
    assert("max_backups"@.len() == 11);
    assert("max_size_mb"@.len() == 11);
}

proof fn lemma_names_distinct()
    ensures
        "trace"@ != "debug"@,
        "trace"@ != "info"@,
        "trace"@ != "warn"@,
        "trace"@ != "error"@,
        "debug"@ != "info"@,
        "debug"@ != "warn"@,
        "debug"@ != "error"@,
        "info"@ != "warn"@,
        "info"@ != "error"@,
        "warn"@ != "error"@,
        "text"@ != "json"@,
{
    reveal_strlit("trace");
    reveal_strlit("debug");
    reveal_strlit("info");
    reveal_strlit("warn");
    reveal_strlit("error");
    reveal_strlit("text");
    reveal_strlit("json");
    assert("trace"@[0] != "debug"@[0]);
    assert("trace"@[0] != "error"@[0]);
    assert("debug"@[0] != "error"@[0]);
    assert("info"@[0] != "warn"@[0]);
    assert("text"@[0] != "json"@[0]);
}

/// The entries of a section's JSON form, one key at a time.
proof fn lemma_section_lookups(m: SectionModel)
    ensures
        ({
            let f = render_section(m)->Obj_0;
            &&& obj_get(f, "console_level"@) == level_json(m.console_level)
            &&& obj_get(f, "file"@) == match m.file {
                Some(x) => Some(Json::Str(x.0)),
                None => None::<Json>,
            }
            &&& obj_get(f, "file_level"@) == match m.file {
                Some(x) => level_json(x.1),
                None => None::<Json>,
            }
            &&& obj_get(f, "console_format"@) == Some(Json::Str(format_name(m.console_format)))
            &&& obj_get(f, "max_age_days"@) == num_json(
                match m.max_age_days {
                    Some(x) => Some(x as int),
                    None => None,
                },
            )
            &&& obj_get(f, "max_backups"@) == num_json(
                match m.max_backups {
                    Some(x) => Some(x as int),
                    None => None,
                },
            )
            &&& obj_get(f, "max_size_mb"@) == num_json(
                match m.max_size_mb {
                    Some(x) => Some(x as int),
                    None => None,
                },
            )
        }),
{
    lemma_get_opt_entry();
    lemma_section_keys_distinct();
}

/// A section read back from its JSON form is the section.
pub proof fn lemma_section_round_trip(m: SectionModel)
    ensures
        parse_section(render_section(m)) == Some(m),
{
    lemma_section_lookups(m);
    lemma_names_distinct();
}


/// The logging table as JSON entries, in table order.
pub open spec fn render_logging_entries(es: Seq<(String, Section)>) -> Seq<(Seq<char>, Json)>
    decreases es.len(),
{
    if es.len() == 0 {
        Seq::empty()
    } else {
        render_logging_entries(es.subrange(0, es.len() - 1)).push(
            (es[es.len() - 1].0@, render_section(section_model(es[es.len() - 1].1))),
        )
    }
}

/// A logging table read back from JSON entries: a later key overrides an
/// earlier one; a malformed section spoils the table.
pub open spec fn parse_logging(es: Seq<(Seq<char>, Json)>) -> Option<Map<Seq<char>, SectionModel>>
    decreases es.len(),
{
    if es.len() == 0 {
        Some(Map::empty())
    } else {
        match parse_logging(es.subrange(0, es.len() - 1)) {
            Some(m) => match parse_section(es[es.len() - 1].1) {
                Some(sm) => Some(m.insert(es[es.len() - 1].0, sm)),
                None => None,
            },
            None => None,
        }
    }
}

pub open spec fn logging_model(m: Map<Seq<char>, Section>) -> Map<Seq<char>, SectionModel> {
    m.map_values(|s: Section| section_model(s))
}

/// A logging table read back from its JSON form is the table.
pub proof fn lemma_logging_round_trip(es: Seq<(String, Section)>)
    ensures
        parse_logging(render_logging_entries(es)) == Some(logging_model(section_map(es))),
    decreases es.len(),
{
    if es.len() == 0 {
        assert(logging_model(section_map(es)) =~= Map::empty());
    } else {
        let p = es.subrange(0, es.len() - 1);
        lemma_logging_round_trip(p);
        let r = render_logging_entries(es);
        assert(r.subrange(0, r.len() - 1) =~= render_logging_entries(p));
        let last = es[es.len() - 1];
        lemma_section_round_trip(section_model(last.1));
        assert(logging_model(section_map(es)) =~= logging_model(section_map(p)).insert(
            last.0@,
            section_model(last.1),
        ));
    }
}

/// A rendered module configuration as plain values.
pub struct RenderedModel {
    pub database: Option<(Option<Json>, Option<Json>)>,
    pub config: Json,
    pub logging: Option<Map<Seq<char>, SectionModel>>,
    pub tracing: Option<Json>,
}

pub open spec fn rendered_model(x: RenderedModuleConfig) -> RenderedModel {
    RenderedModel {
        database: match x.database {
            Some(d) => Some((opt_view(d.global), opt_view(d.module))),
            None => None,
        },
        config: x.config@,
        logging: match x.logging {
            Some(l) => Some(logging_model(l@)),
            None => None,
        },
        tracing: opt_view(x.tracing),
    }
}

pub open spec fn render_db(d: Option<(Option<Json>, Option<Json>)>) -> Option<Json> {
    match d {
        Some(p) => Some(Json::Obj(Seq::empty() + opt_entry("global"@, p.0) + opt_entry("module"@, p.1))),
        None => None,
    }
}

/// A rendered module configuration as one JSON document; absent parts have
/// no entry.
pub open spec fn render_rendered(x: RenderedModuleConfig) -> Json {
    Json::Obj(
        Seq::empty() + opt_entry("database"@, render_db(rendered_model(x).database)) + opt_entry(
            "config"@,
            Some(x.config@),
        ) + opt_entry(
            "logging"@,
            match x.logging {
                Some(l) => Some(Json::Obj(render_logging_entries(l.entries@))),
                None => None,
            },
        ) + opt_entry("tracing"@, opt_view(x.tracing)),
    )
}

/// A rendered module configuration read back from a JSON document: `config`
/// is null where absent, the other parts absent where they have no entry.
pub open spec fn parse_rendered(j: Json) -> Option<RenderedModel> {
    match j {
        Json::Obj(f) => {
            let db = match obj_get(f, "database"@) {
                None => Some(None),
                Some(Json::Obj(df)) => Some(Some((obj_get(df, "global"@), obj_get(df, "module"@)))),
                _ => None,
            };
            let cfg = match obj_get(f, "config"@) {
                Some(c) => c,
                None => Json::Null,
            };
            let lg = match obj_get(f, "logging"@) {
                None => Some(None),
                Some(Json::Obj(le)) => match parse_logging(le) {
                    Some(m) => Some(Some(m)),
                    None => None,
                },
                _ => None,
            };
            if db is Some && lg is Some {
                Some(
                    RenderedModel {
                        database: db->0,
                        config: cfg,
                        logging: lg->0,
                        tracing: obj_get(f, "tracing"@),
                    },
                )
            } else {
                None
            }
        },
        _ => None,
    }
}

proof fn lemma_rendered_keys_distinct()
    ensures
        "database"@ != "config"@,
        "database"@ != "logging"@,
        "database"@ != "tracing"@,
        "config"@ != "logging"@,
        "config"@ != "tracing"@,
        "logging"@ != "tracing"@,
        "global"@ != "module"@,
{
    reveal_strlit("database");
    reveal_strlit("config");
    reveal_strlit("logging");
    reveal_strlit("tracing");
    reveal_strlit("global");
    reveal_strlit("module");
    assert("database"@.len() == 8);
    assert("config"@.len() == 6);
    assert("logging"@.len() == 7);
    assert("tracing"@.len() == 7);
    assert("logging"@[0] != "tracing"@[0]);
    assert("global"@[0] != "module"@[0]);
}

/// A rendered module configuration read back from its JSON document is the
/// configuration.
pub proof fn lemma_rendered_round_trip(x: RenderedModuleConfig)
    ensures
        parse_rendered(render_rendered(x)) == Some(rendered_model(x)),
{
    lemma_get_opt_entry();
    lemma_rendered_keys_distinct();
    match x.logging {
        Some(l) => {
            lemma_logging_round_trip(l.entries@);
        },
        None => {},
    }
}


fn eq_lit(s: &String, lit: &str) -> (r: bool)
    ensures
        r == (s@ == lit@),
{
    *s == lit.to_owned()
}

fn level_to_json(l: Level) -> (r: JsonValue)
    ensures
        r@ == Json::Str(level_name(l)),
{
    let name = match l {
        Level::Trace => "trace",
        Level::Debug => "debug",
        Level::Info => "info",
        Level::Warn => "warn",
        Level::Error => "error",
    };
    JsonValue::Str(name.to_owned())
}

fn level_from_json(v: &JsonValue) -> (r: Option<Level>)
    ensures
        r == parse_level(v@),
{
    match v {
        JsonValue::Str(s) => {
            if eq_lit(s, "trace") {
                Some(Level::Trace)
            } else if eq_lit(s, "debug") {
                Some(Level::Debug)
            } else if eq_lit(s, "info") {
                Some(Level::Info)
            } else if eq_lit(s, "warn") {
                Some(Level::Warn)
            } else if eq_lit(s, "error") {
                Some(Level::Error)
            } else {
                None
            }
        },
        _ => None,
    }
}

fn opt_level_from_json(v: Option<&JsonValue>) -> (r: Option<Option<Level>>)
    ensures
        r == parse_opt_level(crate::oop::ref_view(v)),
{
    match v {
        None => Some(None),
        Some(j) => match level_from_json(j) {
            Some(l) => Some(Some(l)),
            None => None,
        },
    }
}

fn opt_u32_from_json(v: Option<&JsonValue>) -> (r: Option<Option<u32>>)
    ensures
        r == parse_opt_u32(crate::oop::ref_view(v)),
{
    match v {
        None => Some(None),
        Some(JsonValue::Number(n)) => if 0 <= *n && *n <= 4294967295 {
            Some(Some(*n as u32))
        } else {
            None
        },
        Some(JsonValue::Unsigned(n)) => if *n <= 4294967295 {
            Some(Some(*n as u32))
        } else {
            None
        },
        Some(_) => None,
    }
}

fn opt_u64_from_json(v: Option<&JsonValue>) -> (r: Option<Option<u64>>)
    ensures
        r == parse_opt_u64(crate::oop::ref_view(v)),
{
    match v {
        None => Some(None),
        Some(JsonValue::Number(n)) => if 0 <= *n {
            Some(Some(*n as u64))
        } else {
            None
        },
        Some(JsonValue::Unsigned(n)) => Some(Some(*n)),
        Some(_) => None,
    }
}

/// Appends `key: v` where `v` is there.
fn push_opt(out: &mut Vec<(String, JsonValue)>, key: &str, v: Option<JsonValue>)
    ensures
        entries_view(final(out)@) == entries_view(old(out)@) + opt_entry(key@, opt_view(v)),
{
    let ghost before = entries_view(out@);
    proof {
        lemma_entries_view(out@);
    }
    match v {
        Some(x) => {
            let ghost xv = x@;
            out.push((key.to_owned(), x));
            proof {
                lemma_entries_view(out@);
                assert(entries_view(out@) =~= before + seq![(key@, xv)]);
            }
        },
        None => {
            proof {
                assert(before + Seq::<(Seq<char>, Json)>::empty() =~= before);
            }
        },
    }
}

impl Section {
    /// The section as a JSON object.
    pub fn to_json(&self) -> (r: JsonValue)
        ensures
            r@ == render_section(section_model(*self)),
    {
        let mut out: Vec<(String, JsonValue)> = Vec::new();
        proof {
            lemma_entries_view(out@);
            assert(entries_view(out@) =~= Seq::<(Seq<char>, Json)>::empty());
        }
        push_opt(
            &mut out,
            "console_level",
            match self.console_level {
                Some(l) => Some(level_to_json(l)),
                None => None,
            },
        );
        push_opt(
            &mut out,
            "file",
            match &self.section_file {
                Some(f) => Some(JsonValue::Str(f.file.clone())),
                None => None,
            },
        );
        push_opt(
            &mut out,
            "file_level",
            match &self.section_file {
                Some(f) => match f.file_level {
                    Some(l) => Some(level_to_json(l)),
                    None => None,
                },
                None => None,
            },
        );
        let format = match self.console_format {
            ConsoleFormat::Text => "text",
            ConsoleFormat::Json => "json",
        };
        push_opt(&mut out, "console_format", Some(JsonValue::Str(format.to_owned())));
        push_opt(
            &mut out,
            "max_age_days",
            match self.max_age_days {
                Some(n) => Some(JsonValue::Number(n as i64)),
                None => None,
            },
        );
        push_opt(
            &mut out,
            "max_backups",
            match self.max_backups {
                Some(n) => Some(JsonValue::Number(n as i64)),
                None => None,
            },
        );
        push_opt(
            &mut out,
            "max_size_mb",
            match self.max_size_mb {
                Some(n) => Some(JsonValue::Unsigned(n)),
                None => None,
            },
        );
        JsonValue::Object(out)
    }

    /// A section read back from a JSON object, as `parse_section` states it.
    pub fn from_json(v: &JsonValue) -> (r: Option<Section>)
        ensures
            match parse_section(v@) {
                Some(m) => r is Some && section_model(r->0) == m,
                None => r is None,
            },
    {
        let f = match v {
            JsonValue::Object(f) => f,
            _ => {
                return None;
            },
        };
        let console_level = match opt_level_from_json(lookup(f, "console_level")) {
            Some(l) => l,
            None => {
                return None;
            },
        };
        let section_file = match lookup(f, "file") {
            None => None,
            Some(JsonValue::Str(p)) => match opt_level_from_json(lookup(f, "file_level")) {
                Some(fl) => Some(SectionFile { file: p.clone(), file_level: fl }),
                None => {
                    return None;
                },
            },
            Some(_) => {
                return None;
            },
        };
        let console_format = match lookup(f, "console_format") {
            None => ConsoleFormat::Text,
            Some(JsonValue::Str(s)) => {
                if eq_lit(s, "text") {
                    ConsoleFormat::Text
                } else if eq_lit(s, "json") {
                    ConsoleFormat::Json
                } else {
                    return None;
                }
            },
            Some(_) => {
                return None;
            },
        };
        let max_age_days = match opt_u32_from_json(lookup(f, "max_age_days")) {
            Some(x) => x,
            None => {
                return None;
            },
        };
        let max_backups = match opt_u32_from_json(lookup(f, "max_backups")) {
            Some(x) => x,
            None => {
                return None;
            },
        };
        let max_size_mb = match opt_u64_from_json(lookup(f, "max_size_mb")) {
            Some(x) => x,
            None => {
                return None;
            },
        };
        Some(
            Section {
                console_level,
                section_file,
                console_format,
                max_age_days,
                max_backups,
                max_size_mb,
            },
        )
    }
}


proof fn lemma_logging_model_insert(m: Map<Seq<char>, Section>, k: Seq<char>, s: Section)
    ensures
        logging_model(m.insert(k, s)) == logging_model(m).insert(k, section_model(s)),
{
    assert(logging_model(m.insert(k, s)) =~= logging_model(m).insert(k, section_model(s)));
}

impl LoggingConfig {
    /// The table as a JSON object, in table order.
    pub fn to_json(&self) -> (r: JsonValue)
        ensures
            r@ == Json::Obj(render_logging_entries(self.entries@)),
    {
        let mut out: Vec<(String, JsonValue)> = Vec::new();
        let mut i: usize = 0;
        proof {
            lemma_entries_view(out@);
            assert(self.entries@.subrange(0, 0) =~= Seq::<(String, Section)>::empty());
        }
        while i < self.entries.len()
            invariant
                i <= self.entries.len(),
                entries_view(out@) == render_logging_entries(self.entries@.subrange(0, i as int)),
            decreases self.entries.len() - i,
        {
            let ghost before = entries_view(out@);
            let k = self.entries[i].0.clone();
            let v = self.entries[i].1.to_json();
            let ghost kv = (k@, v@);
            proof {
                lemma_entries_view(out@);
            }
            out.push((k, v));
            proof {
                lemma_entries_view(out@);
                assert(entries_view(out@) =~= before.push(kv));
                let sub = self.entries@.subrange(0, i + 1);
                assert(sub.subrange(0, sub.len() - 1) =~= self.entries@.subrange(0, i as int));
                assert(sub[sub.len() - 1] == self.entries@[i as int]);
                assert(entries_view(out@) =~= render_logging_entries(sub));
            }
            i = i + 1;
        }
        proof {
            assert(self.entries@.subrange(0, self.entries.len() as int) =~= self.entries@);
        }
        JsonValue::Object(out)
    }

    /// A table read back from JSON entries, as `parse_logging` states it.
    pub fn from_json_entries(es: &Vec<(String, JsonValue)>) -> (r: Option<LoggingConfig>)
        ensures
            match parse_logging(entries_view(es@)) {
                Some(m) => r is Some && r->0.wf() && logging_model(r->0@) == m,
                None => r is None,
            },
    {
        let ghost ev = entries_view(es@);
        proof {
            lemma_entries_view(es@);
            assert(ev.subrange(0, 0) =~= Seq::<(Seq<char>, Json)>::empty());
            assert(logging_model(Map::<Seq<char>, Section>::empty()) =~= Map::empty());
        }
        let mut acc = LoggingConfig::new();
        let mut i: usize = 0;
        while i < es.len()
            invariant
                i <= es.len(),
                ev == entries_view(es@),
                ev.len() == es.len(),
                forall|j: int| 0 <= j < es.len() ==> #[trigger] ev[j] == (es@[j].0@, es@[j].1@),
                acc.wf(),
                parse_logging(ev.subrange(0, i as int)) == Some(logging_model(acc@)),
            decreases es.len() - i,
        {
            let ghost sub = ev.subrange(0, i + 1);
            proof {
                assert(sub.subrange(0, sub.len() - 1) =~= ev.subrange(0, i as int));
                assert(sub[sub.len() - 1] == ev[i as int]);
            }
            match Section::from_json(&es[i].1) {
                Some(sec) => {
                    let ghost before = acc@;
                    proof {
                        lemma_logging_model_insert(before, es@[i as int].0@, sec);
                    }
                    acc.insert(es[i].0.clone(), sec);
                },
                None => {
                    proof {
                        lemma_parse_logging_prefix(ev, i as int + 1);
                    }
                    return None;
                },
            }
            i = i + 1;
        }
        proof {
            assert(ev.subrange(0, es.len() as int) =~= ev);
        }
        Some(acc)
    }
}

/// A malformed prefix spoils the whole table.
proof fn lemma_parse_logging_prefix(s: Seq<(Seq<char>, Json)>, n: int)
    requires
        0 <= n <= s.len(),
        parse_logging(s.subrange(0, n)) is None,
    ensures
        parse_logging(s) is None,
    decreases s.len() - n,
{
    if n < s.len() {
        let t = s.subrange(0, n + 1);
        assert(t.subrange(0, t.len() - 1) =~= s.subrange(0, n));
        lemma_parse_logging_prefix(s, n + 1);
    } else {
        assert(s.subrange(0, n) =~= s);
    }
}

impl RenderedModuleConfig {
    /// The configuration as one JSON document, as `render_rendered` states it.
    pub fn to_json(&self) -> (r: JsonValue)
        ensures
            r@ == render_rendered(*self),
    {
        let mut out: Vec<(String, JsonValue)> = Vec::new();
        proof {
            lemma_entries_view(out@);
            assert(entries_view(out@) =~= Seq::<(Seq<char>, Json)>::empty());
        }
        let db = match &self.database {
            Some(d) => {
                let mut de: Vec<(String, JsonValue)> = Vec::new();
                proof {
                    lemma_entries_view(de@);
                    assert(entries_view(de@) =~= Seq::<(Seq<char>, Json)>::empty());
                }
                push_opt(&mut de, "global", crate::config::copy_opt(&d.global));
                push_opt(&mut de, "module", crate::config::copy_opt(&d.module));
                Some(JsonValue::Object(de))
            },
            None => None,
        };
        push_opt(&mut out, "database", db);
        push_opt(&mut out, "config", Some(self.config.deep_copy()));
        push_opt(
            &mut out,
            "logging",
            match &self.logging {
                Some(l) => Some(l.to_json()),
                None => None,
            },
        );
        push_opt(&mut out, "tracing", crate::config::copy_opt(&self.tracing));
        JsonValue::Object(out)
    }

    /// A configuration read back from a JSON document, as `parse_rendered`
    /// states it.
    pub fn from_json(v: &JsonValue) -> (r: Option<RenderedModuleConfig>)
        requires
            json_wf(v@),
        ensures
            match parse_rendered(v@) {
                Some(m) => r is Some && rendered_model(r->0) == m && (r->0.logging is Some
                    ==> r->0.logging->0.wf()) && json_wf(r->0.config@) && opt_wf(r->0.tracing) && (
                r->0.database is Some ==> opt_wf(r->0.database->0.global) && opt_wf(
                    r->0.database->0.module,
                )),
                None => r is None,
            },
    {
        let f = match v {
            JsonValue::Object(f) => f,
            _ => {
                return None;
            },
        };
        let database = match lookup(f, "database") {
            None => None,
            Some(JsonValue::Object(df)) => Some(
                RenderedDbConfig::new(
                    match lookup(df, "global") {
                        Some(g) => Some(g.deep_copy()),
                        None => None,
                    },
                    match lookup(df, "module") {
                        Some(m) => Some(m.deep_copy()),
                        None => None,
                    },
                ),
            ),
            Some(_) => {
                return None;
            },
        };
        let config = match lookup(f, "config") {
            Some(c) => c.deep_copy(),
            None => JsonValue::Null,
        };
        let logging = match lookup(f, "logging") {
            None => None,
            Some(JsonValue::Object(le)) => match LoggingConfig::from_json_entries(le) {
                Some(l) => Some(l),
                None => {
                    return None;
                },
            },
            Some(_) => {
                return None;
            },
        };
        let tracing = match lookup(f, "tracing") {
            Some(t) => Some(t.deep_copy()),
            None => None,
        };
        proof {
            let fv = entries_view(f@);
            assert(v@ == Json::Obj(fv));
            if obj_get(fv, "config"@) is Some {
                lemma_obj_get_wf(fv, "config"@);
            }
            if obj_get(fv, "tracing"@) is Some {
                lemma_obj_get_wf(fv, "tracing"@);
            }
            if obj_get(fv, "database"@) is Some {
                lemma_obj_get_wf(fv, "database"@);
                match obj_get(fv, "database"@)->0 {
                    Json::Obj(df) => {
                        if obj_get(df, "global"@) is Some {
                            lemma_obj_get_wf(df, "global"@);
                        }
                        if obj_get(df, "module"@) is Some {
                            lemma_obj_get_wf(df, "module"@);
                        }
                    },
                    _ => {},
                }
            }
        }
        Some(RenderedModuleConfig { database, config, logging, tracing })
    }
}

} // verus!

verus! {

/// Why a configuration document was refused: the part that is malformed.
#[derive(Clone, Copy, Debug, PartialEq, Eq, Structural)]
pub enum ConfigError {
    /// The document is not an object.
    NotAnObject,
    /// An object in the document repeats a key.
    RepeatedKey,
    /// The document has a top-level key that names no part of a
    /// configuration.
    UnknownField,
    /// `server.home_dir` is missing or not a string.
    Server,
    /// `logging` is not an object of well-formed sections.
    Logging,
    /// `modules_dir` is not a string.
    ModulesDir,
    /// `modules` is not an object.
    Modules,
}

pub open spec fn home_dir_of(f: Seq<(Seq<char>, Json)>) -> Option<Seq<char>> {
    match obj_get(f, "server"@) {
        Some(Json::Obj(sf)) => match obj_get(sf, "home_dir"@) {
            Some(Json::Str(h)) => Some(h),
            _ => None,
        },
        _ => None,
    }
}

/// The parts of a configuration document.
pub open spec fn is_config_key(k: Seq<char>) -> bool {
    k == "server"@ || k == "database"@ || k == "logging"@ || k == "tracing"@ || k == "modules_dir"@
        || k == "modules"@
}

/// The first malformed part of a configuration document, if any.
pub open spec fn config_error(j: Json) -> Option<ConfigError> {
    match j {
        Json::Obj(f) => if !json_wf(j) {
            Some(ConfigError::RepeatedKey)
        } else if exists|i: int| 0 <= i < f.len() && !is_config_key(#[trigger] f[i].0) {
            Some(ConfigError::UnknownField)
        } else if home_dir_of(f) is None {
            Some(ConfigError::Server)
        } else if !(obj_get(f, "logging"@) is None || (obj_get(f, "logging"@) matches Some(Json::Obj(le))
            && parse_logging(le) is Some)) {
            Some(ConfigError::Logging)
        } else if !(obj_get(f, "modules_dir"@) is None || obj_get(f, "modules_dir"@)->0 is Str) {
            Some(ConfigError::ModulesDir)
        } else if !(obj_get(f, "modules"@) is None || obj_get(f, "modules"@)->0 is Obj) {
            Some(ConfigError::Modules)
        } else {
            None
        },
        _ => Some(ConfigError::NotAnObject),
    }
}

/// A configuration as one JSON document; absent parts have no entry.
pub open spec fn render_app_config(c: AppConfig) -> Json {
    Json::Obj(
        Seq::empty() + opt_entry(
            "server"@,
            Some(Json::Obj(Seq::empty() + opt_entry("home_dir"@, Some(Json::Str(c.server.home_dir@))))),
        ) + opt_entry("database"@, opt_view(c.database)) + opt_entry(
            "logging"@,
            Some(Json::Obj(render_logging_entries(c.logging.entries@))),
        ) + opt_entry("tracing"@, opt_view(c.tracing)) + opt_entry(
            "modules_dir"@,
            match c.modules_dir {
                Some(d) => Some(Json::Str(d@)),
                None => None,
            },
        ) + opt_entry("modules"@, Some(Json::Obj(c.modules_view()))),
    )
}

impl AppConfig {
    /// The configuration as one JSON document, as `render_app_config` states
    /// it.
    pub fn to_json(&self) -> (r: JsonValue)
        ensures
            r@ == render_app_config(*self),
    {
        let mut server: Vec<(String, JsonValue)> = Vec::new();
        proof {
            lemma_entries_view(server@);
            assert(entries_view(server@) =~= Seq::<(Seq<char>, Json)>::empty());
        }
        push_opt(&mut server, "home_dir", Some(JsonValue::Str(self.server.home_dir.clone())));
        let mut out: Vec<(String, JsonValue)> = Vec::new();
        proof {
            lemma_entries_view(out@);
            assert(entries_view(out@) =~= Seq::<(Seq<char>, Json)>::empty());
        }
        push_opt(&mut out, "server", Some(JsonValue::Object(server)));
        push_opt(&mut out, "database", crate::config::copy_opt(&self.database));
        push_opt(&mut out, "logging", Some(self.logging.to_json()));
        push_opt(&mut out, "tracing", crate::config::copy_opt(&self.tracing));
        push_opt(
            &mut out,
            "modules_dir",
            match &self.modules_dir {
                Some(d) => Some(JsonValue::Str(d.clone())),
                None => None,
            },
        );
        push_opt(&mut out, "modules", Some(JsonValue::Object(crate::json::copy_entries(&self.modules))));
        JsonValue::Object(out)
    }

    /// The configuration that a JSON document describes: `server.home_dir`
    /// is required; `logging` is the built-in table where absent; `modules`
    /// is empty where absent; `database` and `tracing` are taken as they are.
    pub fn from_json(v: &JsonValue) -> (r: Result<AppConfig, ConfigError>)
        ensures
            match config_error(v@) {
                Some(e) => r == Err::<AppConfig, ConfigError>(e),
                None => r is Ok && ({
                    let c = r->Ok_0;
                    let f = v@->Obj_0;
                    &&& c.wf()
                    &&& Some(c.server.home_dir@) == home_dir_of(f)
                    &&& opt_view(c.database) == obj_get(f, "database"@)
                    &&& match obj_get(f, "logging"@) {
                        Some(Json::Obj(le)) => parse_logging(le) == Some(logging_model(c.logging@)),
                        _ => c.logging@ == default_logging_map(),
                    }
                    &&& opt_view(c.tracing) == obj_get(f, "tracing"@)
                    &&& match c.modules_dir {
                        Some(d) => obj_get(f, "modules_dir"@) == Some(Json::Str(d@)),
                        None => obj_get(f, "modules_dir"@) is None,
                    }
                    &&& c.modules_view() == match obj_get(f, "modules"@) {
                        Some(Json::Obj(ms)) => ms,
                        _ => Seq::empty(),
                    }
                }),
            },
    {
        let f = match v {
            JsonValue::Object(f) => f,
            _ => {
                return Err(ConfigError::NotAnObject);
            },
        };
        if !v.well_formed() {
            return Err(ConfigError::RepeatedKey);
        }
        let ghost fv = entries_view(f@);
        proof {
            lemma_entries_view(f@);
            assert(v@ == Json::Obj(fv));
        }
        let mut i: usize = 0;
        while i < f.len()
            invariant
                i <= f.len(),
                fv == entries_view(f@),
                v@ == Json::Obj(fv),
                json_wf(v@),
                fv.len() == f.len(),
                forall|j: int| 0 <= j < f.len() ==> #[trigger] fv[j] == (f@[j].0@, f@[j].1@),
                forall|j: int| 0 <= j < i ==> is_config_key(#[trigger] fv[j].0),
            decreases f.len() - i,
        {
            let k = &f[i].0;
            if !(eq_lit(k, "server") || eq_lit(k, "database") || eq_lit(k, "logging") || eq_lit(
                k,
                "tracing",
            ) || eq_lit(k, "modules_dir") || eq_lit(k, "modules")) {
                proof {
                    assert(v@ == Json::Obj(fv));
                    assert(!is_config_key(fv[i as int].0));
                    assert(exists|j: int| 0 <= j < fv.len() && !is_config_key(#[trigger] fv[j].0));
                }
                return Err(ConfigError::UnknownField);
            }
            i = i + 1;
        }
        let home_dir = match lookup(f, "server") {
            Some(server) => match server.get("home_dir") {
                Some(JsonValue::Str(h)) => h.clone(),
                _ => {
                    return Err(ConfigError::Server);
                },
            },
            None => {
                return Err(ConfigError::Server);
            },
        };
        let logging = match lookup(f, "logging") {
            None => default_logging_config(),
            Some(JsonValue::Object(le)) => match LoggingConfig::from_json_entries(le) {
                Some(l) => l,
                None => {
                    return Err(ConfigError::Logging);
                },
            },
            Some(_) => {
                return Err(ConfigError::Logging);
            },
        };
        let modules_dir = match lookup(f, "modules_dir") {
            None => None,
            Some(JsonValue::Str(d)) => Some(d.clone()),
            Some(_) => {
                return Err(ConfigError::ModulesDir);
            },
        };
        let modules = match lookup(f, "modules") {
            None => {
                let m: Vec<(String, JsonValue)> = Vec::new();
                proof {
                    lemma_entries_view(m@);
                    assert(entries_view(m@) =~= Seq::<(Seq<char>, Json)>::empty());
                }
                m
            },
            Some(JsonValue::Object(ms)) => crate::json::copy_entries(ms),
            Some(_) => {
                return Err(ConfigError::Modules);
            },
        };
        let database = match lookup(f, "database") {
            Some(d) => Some(d.deep_copy()),
            None => None,
        };
        let tracing = match lookup(f, "tracing") {
            Some(t) => Some(t.deep_copy()),
            None => None,
        };
        proof {
            if obj_get(fv, "database"@) is Some {
                lemma_obj_get_wf(fv, "database"@);
            }
            if obj_get(fv, "tracing"@) is Some {
                lemma_obj_get_wf(fv, "tracing"@);
            }
            if obj_get(fv, "modules"@) is Some {
                lemma_obj_get_wf(fv, "modules"@);
            }
        }
        Ok(
            AppConfig {
                server: ServerConfig { home_dir },
                database,
                logging,
                tracing,
                modules_dir,
                modules,
            },
        )
    }
}

} // verus!
