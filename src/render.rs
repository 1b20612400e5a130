use vstd::prelude::*;

use crate::config::{opt_view, AppConfig, RenderedDbConfig, RenderedModuleConfig};
use crate::json::{
    entries_view, lemma_entries_view, lookup, obj_get, obj_set, set_entry, Json, JsonValue,
};
use crate::oop::{module_field, ref_view};

verus! {

/// The global server that module `name` names in its `database.server`.
pub open spec fn referenced_server(mods: Seq<(Seq<char>, Json)>, name: Seq<char>) -> Option<Seq<char>> {
    match module_field(mods, name, "database"@) {
        Some(Json::Obj(d)) => match obj_get(d, "server"@) {
            Some(Json::Str(s)) => Some(s),
            _ => None,
        },
        _ => None,
    }
}

/// The `servers` table of a global database section.
pub open spec fn global_servers(db: Json) -> Seq<(Seq<char>, Json)> {
    match db {
        Json::Obj(g) => match obj_get(g, "servers"@) {
            Some(Json::Obj(ss)) => ss,
            _ => Seq::empty(),
        },
        _ => Seq::empty(),
    }
}

/// The settings of global server `server`.
pub open spec fn server_spec(db: Option<Json>, server: Option<Seq<char>>) -> Option<Json> {
    match db {
        Some(d) => match server {
            Some(n) => obj_get(global_servers(d), n),
            None => None,
        },
        None => None,
    }
}

/// The global database section as one module sees it: the server it
/// references, if the section has it, and `auto_provision`.
pub open spec fn rendered_global(db: Option<Json>, server: Option<Seq<char>>) -> Option<Json> {
    match db {
        None => None,
        Some(d) => Some(
            Json::Obj(
                seq![
                    ("servers"@, Json::Obj(
                        match server_spec(db, server) {
                            Some(x) => seq![(server->0, x)],
                            None => Seq::empty(),
                        },
                    )),
                ] + match d {
                    Json::Obj(g) => match obj_get(g, "auto_provision"@) {
                        Some(a) => seq![("auto_provision"@, a)],
                        None => Seq::empty(),
                    },
                    _ => Seq::empty(),
                },
            ),
        ),
    }
}

/// `base` with each non-null entry of `over` set on it, in order.
pub open spec fn set_non_null(base: Seq<(Seq<char>, Json)>, over: Seq<(Seq<char>, Json)>) -> Seq<
    (Seq<char>, Json),
>
    decreases over.len(),
{
    if over.len() == 0 {
        base
    } else {
        let acc = set_non_null(base, over.subrange(0, over.len() - 1));
        let e = over[over.len() - 1];
        if e.1 is Null {
            acc
        } else {
            obj_set(acc, e.0, e.1)
        }
    }
}

/// The module's own database section laid over the global server that it
/// references, field by field, where non-null fields override.
pub open spec fn rendered_module_db(mods: Seq<(Seq<char>, Json)>, name: Seq<char>, db: Option<Json>) -> Option<
    Json,
> {
    match module_field(mods, name, "database"@) {
        None => None,
        Some(Json::Obj(md)) => Some(
            Json::Obj(
                set_non_null(
                    match server_spec(db, referenced_server(mods, name)) {
                        Some(Json::Obj(sf)) => sf,
                        _ => Seq::empty(),
                    },
                    md,
                ),
            ),
        ),
        Some(other) => Some(other),
    }
}

/// `r` is the configuration rendered for module `name` of `cfg`.
pub open spec fn is_rendered_for(r: RenderedModuleConfig, cfg: AppConfig, name: Seq<char>) -> bool {
    let mods = cfg.modules_view();
    let g = rendered_global(opt_view(cfg.database), referenced_server(mods, name));
    let m = rendered_module_db(mods, name, opt_view(cfg.database));
    &&& (g is None && m is None) ==> r.database is None
    &&& !(g is None && m is None) ==> r.database is Some && opt_view(r.database->0.global) == g
        && opt_view(r.database->0.module) == m
    &&& r.config@ == match module_field(mods, name, "config"@) {
        Some(c) => c,
        None => Json::Null,
    }
    &&& r.logging is Some && r.logging->0.entries@ == cfg.logging.entries@
    &&& opt_view(r.tracing) == opt_view(cfg.tracing)
}

fn server_name_of<'a>(config: &'a AppConfig, module_name: &str) -> (r: Option<&'a String>)
    ensures
        match r {
            Some(s) => referenced_server(config.modules_view(), module_name@) == Some(s@),
            None => referenced_server(config.modules_view(), module_name@) is None,
        },
{
    match lookup(&config.modules, module_name) {
        Some(entry) => match entry.get("database") {
            Some(db) => match db.get("server") {
                Some(JsonValue::Str(s)) => Some(s),
                _ => None,
            },
            None => None,
        },
        None => None,
    }
}

fn servers_of(db: &JsonValue) -> (r: Option<&Vec<(String, JsonValue)>>)
    ensures
        match r {
            Some(es) => global_servers(db@) == entries_view(es@),
            None => global_servers(db@) == Seq::<(Seq<char>, Json)>::empty(),
        },
{
    match db.get("servers") {
        Some(JsonValue::Object(es)) => Some(es),
        _ => None,
    }
}

fn server_spec_of<'a>(config: &'a AppConfig, server: Option<&String>) -> (r: Option<&'a JsonValue>)
    ensures
        ref_view(r) == server_spec(
            opt_view(config.database),
            match server {
                Some(s) => Some(s@),
                None => None,
            },
        ),
{
    match &config.database {
        Some(db) => match server {
            Some(s) => match servers_of(db) {
                Some(es) => lookup(es, s.as_str()),
                None => None,
            },
            None => None,
        },
        None => None,
    }
}

fn render_global(config: &AppConfig, server: Option<&String>) -> (r: Option<JsonValue>)
    ensures
        opt_view(r) == rendered_global(
            opt_view(config.database),
            match server {
                Some(s) => Some(s@),
                None => None,
            },
        ),
{
    match &config.database {
        None => None,
        Some(db) => {
            let mut chosen: Vec<(String, JsonValue)> = Vec::new();
            match server_spec_of(config, server) {
                Some(x) => {
                    let s = server.unwrap();
                    chosen.push((s.clone(), x.deep_copy()));
                },
                None => {},
            }
            let ghost chosen_view = entries_view(chosen@);
            proof {
                lemma_entries_view(chosen@);
                if chosen@.len() == 1 {
                    assert(chosen_view =~= seq![(server->0@, chosen@[0].1@)]);
                } else {
                    assert(chosen_view =~= Seq::<(Seq<char>, Json)>::empty());
                }
            }
            let mut out: Vec<(String, JsonValue)> = Vec::new();
            out.push(("servers".to_owned(), JsonValue::Object(chosen)));
            match db.get("auto_provision") {
                Some(a) => {
                    out.push(("auto_provision".to_owned(), a.deep_copy()));
                },
                None => {},
            }
            proof {
                lemma_entries_view(out@);
                if out@.len() == 2 {
                    assert(entries_view(out@) =~= seq![("servers"@, Json::Obj(chosen_view))] + seq![
                        ("auto_provision"@, out@[1].1@),
                    ]);
                } else {
                    assert(entries_view(out@) =~= seq![("servers"@, Json::Obj(chosen_view))]
                        + Seq::<(Seq<char>, Json)>::empty());
                }
            }
            Some(JsonValue::Object(out))
        },
    }
}

fn overlay_non_null(base: &mut Vec<(String, JsonValue)>, over: &Vec<(String, JsonValue)>)
    ensures
        entries_view(final(base)@) == set_non_null(entries_view(old(base)@), entries_view(over@)),
{
    let ghost b0 = entries_view(base@);
    let ghost ov = entries_view(over@);
    proof {
        lemma_entries_view(over@);
        assert(ov.subrange(0, 0) =~= Seq::<(Seq<char>, Json)>::empty());
    }
    let mut i: usize = 0;
    while i < over.len()
        invariant
            i <= over.len(),
            ov == entries_view(over@),
            ov.len() == over.len(),
            forall|j: int| 0 <= j < over.len() ==> #[trigger] ov[j] == (over@[j].0@, over@[j].1@),
            entries_view(base@) == set_non_null(b0, ov.subrange(0, i as int)),
        decreases over.len() - i,
    {
        let ghost sub = ov.subrange(0, i + 1);
        proof {
            assert(sub.subrange(0, sub.len() - 1) =~= ov.subrange(0, i as int));
            assert(sub[sub.len() - 1] == ov[i as int]);
        }
        if !over[i].1.is_null() {
            set_entry(base, over[i].0.clone(), over[i].1.deep_copy());
        }
        i = i + 1;
    }
    proof {
        assert(ov.subrange(0, over.len() as int) =~= ov);
    }
}

fn render_module_db(config: &AppConfig, module_name: &str, server: Option<&String>) -> (r: Option<
    JsonValue,
>)
    requires
        match server {
            Some(s) => referenced_server(config.modules_view(), module_name@) == Some(s@),
            None => referenced_server(config.modules_view(), module_name@) is None,
        },
    ensures
        opt_view(r) == rendered_module_db(config.modules_view(), module_name@, opt_view(config.database)),
{
    let md = match lookup(&config.modules, module_name) {
        Some(entry) => entry.get("database"),
        None => None,
    };
    match md {
        None => None,
        Some(JsonValue::Object(fields)) => {
            let mut base: Vec<(String, JsonValue)> = match server_spec_of(config, server) {
                Some(JsonValue::Object(sf)) => crate::json::copy_entries(sf),
                _ => Vec::new(),
            };
            proof {
                lemma_entries_view(base@);
            }
            overlay_non_null(&mut base, fields);
            Some(JsonValue::Object(base))
        },
        Some(other) => Some(other.deep_copy()),
    }
}

/// The configuration that out-of-process module `module_name` is given: the
/// global servers it references, its database section over them, its
/// `config` section, and the logging and tracing settings of `config`.
pub fn render_module_config_for_oop(config: &AppConfig, module_name: &str) -> (r:
    RenderedModuleConfig)
    ensures
        is_rendered_for(r, *config, module_name@),
{
    let server = server_name_of(config, module_name);
    let global = render_global(config, server);
    let module = render_module_db(config, module_name, server);
    let database = if global.is_none() && module.is_none() {
        None
    } else {
        Some(RenderedDbConfig::new(global, module))
    };
    let module_config = match lookup(&config.modules, module_name) {
        Some(entry) => match entry.get("config") {
            Some(c) => c.deep_copy(),
            None => JsonValue::Null,
        },
        None => JsonValue::Null,
    };
    RenderedModuleConfig {
        database,
        config: module_config,
        logging: Some(config.logging.copy()),
        tracing: crate::config::copy_opt(&config.tracing),
    }
}

} // verus!
