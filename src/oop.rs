use vstd::prelude::*;

use crate::config::{
    copy_opt, opt_view, AppConfig, DbOptions, DbSettings, RenderedDbConfig, RenderedModuleConfig,
};
use crate::json::{
    copy_entries, entries_view, key_index, lemma_entries_view, lemma_merge_single_nested_field,
    lemma_merge_idempotent, lemma_obj_get_set, lemma_obj_get_single, lemma_obj_set_same, json_wf, lemma_obj_get_wf, lookup, merged, merged_get, obj_get, obj_set, set_entry, Json, JsonValue,
};
use crate::logging::{merge_logging_configs, merged_logging, LoggingConfig};

verus! {

pub open spec fn ref_view(v: Option<&JsonValue>) -> Option<Json> {
    match v {
        Some(x) => Some(x@),
        None => None,
    }
}

/// Field `field` of module `name`'s subtree, where that subtree is an object.
pub open spec fn module_field(mods: Seq<(Seq<char>, Json)>, name: Seq<char>, field: Seq<char>) -> Option<
    Json,
> {
    match obj_get(mods, name) {
        Some(Json::Obj(fs)) => obj_get(fs, field),
        _ => None,
    }
}

/// The `database` entry of a merged database configuration.
pub open spec fn db_part(db: Option<Json>) -> Seq<(Seq<char>, Json)> {
    match db {
        Some(d) => seq![("database"@, d)],
        None => Seq::empty(),
    }
}

/// The `modules.<name>.database` entry of a merged database configuration.
pub open spec fn modules_part(name: Seq<char>, md: Option<Json>) -> Seq<(Seq<char>, Json)> {
    match md {
        Some(m) => seq![("modules"@, Json::Obj(seq![(name, Json::Obj(seq![("database"@, m)]))]))],
        None => Seq::empty(),
    }
}

/// The database configuration of module `name`: the rendered global section
/// and module section, each with its local counterpart merged in; nothing
/// where neither side has either.
pub open spec fn merged_db_config(
    name: Seq<char>,
    rendered_global: Option<Json>,
    rendered_module: Option<Json>,
    local_global: Option<Json>,
    local_module: Option<Json>,
) -> Option<Json> {
    let db = merged_get(rendered_global, local_global);
    let md = merged_get(rendered_module, local_module);
    if db is None && md is None {
        None
    } else {
        Some(Json::Obj(db_part(db) + modules_part(name, md)))
    }
}

pub open spec fn rendered_global_view(r: Option<&RenderedDbConfig>) -> Option<Json> {
    match r {
        Some(d) => opt_view(d.global),
        None => None,
    }
}

pub open spec fn rendered_module_view(r: Option<&RenderedDbConfig>) -> Option<Json> {
    match r {
        Some(d) => opt_view(d.module),
        None => None,
    }
}

/// `r` is what the pool factory gets for `c` under `home_dir`.
pub open spec fn db_options_for(r: DbOptions, home_dir: Seq<char>, c: Option<Json>) -> bool {
    match c {
        None => r is Disabled,
        Some(cfg) => r is Manager && r->Manager_0.config@ == cfg && r->Manager_0.home_dir@
            == home_dir,
    }
}

/// `over` merged into `base`, or whichever of the two is there.
fn overlay(base: Option<&JsonValue>, over: Option<&JsonValue>) -> (r: Option<JsonValue>)
    requires
        over is Some ==> json_wf(over->0@),
    ensures
        opt_view(r) == merged_get(ref_view(base), ref_view(over)),
{
    match over {
        None => match base {
            Some(b) => Some(b.deep_copy()),
            None => None,
        },
        Some(o) => match base {
            None => Some(o.deep_copy()),
            Some(b) => Some(merged(b, o)),
        },
    }
}

/// The database options of an out-of-process module: the rendered database
/// configuration (base) with the local one (override) merged in field by
/// field, handed to the pool factory with the home directory.
pub fn build_merged_db_options(
    home_dir: &str,
    module_name: &str,
    rendered_db: Option<&RenderedDbConfig>,
    local_config: &AppConfig,
) -> (r: DbOptions)
    requires
        local_config.wf(),
    ensures
        db_options_for(
            r,
            home_dir@,
            merged_db_config(
                module_name@,
                rendered_global_view(rendered_db),
                rendered_module_view(rendered_db),
                opt_view(local_config.database),
                module_field(local_config.modules_view(), module_name@, "database"@),
            ),
        ),
{
    let (rg, rm) = match rendered_db {
        Some(d) => (
            match &d.global {
                Some(g) => Some(g),
                None => None,
            },
            match &d.module {
                Some(m) => Some(m),
                None => None,
            },
        ),
        None => (None, None),
    };
    let lg = match &local_config.database {
        Some(g) => Some(g),
        None => None,
    };
    let lm = match lookup(&local_config.modules, module_name) {
        Some(m) => m.get("database"),
        None => None,
    };
    proof {
        let mv = local_config.modules_view();
        if obj_get(mv, module_name@) is Some {
            lemma_obj_get_wf(mv, module_name@);
            match obj_get(mv, module_name@)->0 {
                Json::Obj(fs) => {
                    if obj_get(fs, "database"@) is Some {
                        lemma_obj_get_wf(fs, "database"@);
                    }
                },
                _ => {},
            }
        }
    }
    let db = overlay(rg, lg);
    let md = overlay(rm, lm);
    if db.is_none() && md.is_none() {
        return DbOptions::Disabled;
    }
    let ghost dbv = opt_view(db);
    let ghost mdv = opt_view(md);
    let mut entries: Vec<(String, JsonValue)> = Vec::new();
    match db {
        Some(d) => {
            entries.push(("database".to_owned(), d));
        },
        None => {},
    }
    match md {
        Some(m) => {
            let mut fields: Vec<(String, JsonValue)> = Vec::new();
            fields.push(("database".to_owned(), m));
            let mut mods: Vec<(String, JsonValue)> = Vec::new();
            proof {
                lemma_entries_view(fields@);
                assert(entries_view(fields@) =~= seq![("database"@, mdv->0)]);
            }
            mods.push((module_name.to_owned(), JsonValue::Object(fields)));
            proof {
                lemma_entries_view(mods@);
                assert(entries_view(mods@) =~= seq![
                    (module_name@, Json::Obj(seq![("database"@, mdv->0)])),
                ]);
            }
            entries.push(("modules".to_owned(), JsonValue::Object(mods)));
        },
        None => {},
    }
    proof {
        lemma_entries_view(entries@);
        assert(entries_view(entries@) =~= db_part(dbv) + modules_part(module_name@, mdv));
    }
    DbOptions::Manager(DbSettings { home_dir: home_dir.to_owned(), config: JsonValue::Object(entries) })
}

/// The modules table after the rendered `config` section of module `name`
/// is put in: where the local table has no entry for the module, or its
/// entry has no `config` or a null one, the rendered section stands there;
/// otherwise the local section stays whole.
pub open spec fn final_modules(mods: Seq<(Seq<char>, Json)>, name: Seq<char>, rendered: Option<Json>) -> Seq<
    (Seq<char>, Json),
> {
    match rendered {
        None => mods,
        Some(rc) => match obj_get(mods, name) {
            None => obj_set(mods, name, Json::Obj(seq![("config"@, rc)])),
            Some(Json::Obj(fs)) => if obj_get(fs, "config"@) is None || obj_get(fs, "config"@) == Some(
                Json::Null,
            ) {
                obj_set(mods, name, Json::Obj(obj_set(fs, "config"@, rc)))
            } else {
                mods
            },
            Some(_) => mods,
        },
    }
}

fn with_module_config(mods: &Vec<(String, JsonValue)>, name: &str, rc: &JsonValue) -> (r: Vec<
    (String, JsonValue),
>)
    ensures
        entries_view(r@) == final_modules(entries_view(mods@), name@, Some(rc@)),
{
    let mut out = copy_entries(mods);
    match lookup(mods, name) {
        None => {
            let mut fs: Vec<(String, JsonValue)> = Vec::new();
            fs.push(("config".to_owned(), rc.deep_copy()));
            proof {
                lemma_entries_view(fs@);
                assert(entries_view(fs@) =~= seq![("config"@, rc@)]);
            }
            set_entry(&mut out, name.to_owned(), JsonValue::Object(fs));
        },
        Some(JsonValue::Object(fs)) => {
            let replace = match lookup(fs, "config") {
                None => true,
                Some(c) => c.is_null(),
            };
            if replace {
                let mut fs2 = copy_entries(fs);
                set_entry(&mut fs2, "config".to_owned(), rc.deep_copy());
                set_entry(&mut out, name.to_owned(), JsonValue::Object(fs2));
            }
        },
        Some(_) => {},
    }
    out
}

pub open spec fn rendered_logging_view(r: Option<&RenderedModuleConfig>) -> Option<
    Map<Seq<char>, crate::logging::Section>,
> {
    match r {
        Some(rc) => match rc.logging {
            Some(l) => Some(l@),
            None => None,
        },
        None => None,
    }
}

pub open spec fn rendered_db_of(r: Option<&RenderedModuleConfig>) -> Option<&RenderedDbConfig> {
    match r {
        Some(rc) => match rc.database {
            Some(d) => Some(&d),
            None => None,
        },
        None => None,
    }
}

/// The final configuration, logging settings and database options of an
/// out-of-process module, from its local configuration (override) and the
/// configuration rendered by its parent (base), if any. The module's
/// `config` section is replaced whole, logging merges key by key, the
/// database sections merge field by field, and the rendered tracing
/// settings win where there are any.
pub fn build_oop_config_and_db(
    local_config: &AppConfig,
    module_name: &str,
    rendered_config: Option<&RenderedModuleConfig>,
) -> (r: (AppConfig, LoggingConfig, DbOptions))
    requires
        local_config.wf(),
        rendered_config is Some && rendered_config->0.logging is Some
            ==> rendered_config->0.logging->0.wf(),
    ensures
        r.0.server == local_config.server,
        opt_view(r.0.database) == opt_view(local_config.database),
        r.0.logging.entries@ == local_config.logging.entries@,
        opt_view(r.0.tracing) == match rendered_config {
            Some(rc) => if rc.tracing is Some {
                opt_view(rc.tracing)
            } else {
                opt_view(local_config.tracing)
            },
            None => opt_view(local_config.tracing),
        },
        r.0.modules_dir == local_config.modules_dir,
        r.0.modules_view() == final_modules(
            local_config.modules_view(),
            module_name@,
            match rendered_config {
                Some(rc) => Some(rc.config@),
                None => None,
            },
        ),
        r.1.wf(),
        r.1@ == merged_logging(rendered_logging_view(rendered_config), local_config.logging@),
        db_options_for(
            r.2,
            local_config.server.home_dir@,
            merged_db_config(
                module_name@,
                rendered_global_view(rendered_db_of(rendered_config)),
                rendered_module_view(rendered_db_of(rendered_config)),
                opt_view(local_config.database),
                module_field(local_config.modules_view(), module_name@, "database"@),
            ),
        ),
{
    let mut config = local_config.copy();
    match rendered_config {
        Some(rendered) => {
            config.modules = with_module_config(&local_config.modules, module_name, &rendered.config);
            if rendered.tracing.is_some() {
                config.tracing = copy_opt(&rendered.tracing);
            }
        },
        None => {},
    }
    let master_logging = match rendered_config {
        Some(rc) => match &rc.logging {
            Some(l) => Some(l),
            None => None,
        },
        None => None,
    };
    let final_logging = merge_logging_configs(master_logging, &local_config.logging);
    let rendered_db = match rendered_config {
        Some(rc) => match &rc.database {
            Some(d) => Some(d),
            None => None,
        },
        None => None,
    };
    let db_options = build_merged_db_options(
        local_config.server.home_dir.as_str(),
        module_name,
        rendered_db,
        local_config,
    );
    (config, final_logging, db_options)
}


/// A module's own non-null `config` section wins outright: the merged
/// section is the local one, with nothing of the rendered one in it.
pub proof fn lemma_local_config_section_wins(
    mods: Seq<(Seq<char>, Json)>,
    name: Seq<char>,
    rendered: Json,
    local: Json,
)
    requires
        module_field(mods, name, "config"@) == Some(local),
        local != Json::Null,
    ensures
        final_modules(mods, name, Some(rendered)) == mods,
        module_field(final_modules(mods, name, Some(rendered)), name, "config"@) == Some(local),
{
}

/// Where the module has no entry, or its entry has no `config` or a null
/// one, the merged section is the rendered one.
pub proof fn lemma_rendered_config_section_fills_in(
    mods: Seq<(Seq<char>, Json)>,
    name: Seq<char>,
    rendered: Json,
)
    requires
        obj_get(mods, name) is None || (obj_get(mods, name)->0 is Obj && (module_field(
            mods,
            name,
            "config"@,
        ) is None || module_field(mods, name, "config"@) == Some(Json::Null))),
    ensures
        module_field(final_modules(mods, name, Some(rendered)), name, "config"@) == Some(rendered),
{
    let c = "config"@;
    match obj_get(mods, name) {
        None => {
            let entry = Json::Obj(seq![(c, rendered)]);
            lemma_obj_get_set(mods, name, entry);
            assert(seq![(c, rendered)].subrange(0, 0) =~= Seq::<(Seq<char>, Json)>::empty());
            assert(key_index(seq![(c, rendered)], c) == 0);
        },
        Some(Json::Obj(fs)) => {
            lemma_obj_get_set(fs, c, rendered);
            lemma_obj_get_set(mods, name, Json::Obj(obj_set(fs, c, rendered)));
        },
        Some(_) => {},
    }
}

/// With an empty local side the merger hands on what was rendered: the
/// logging settings as they are, the database sections as they are, and the
/// rendered `config` section.
pub proof fn lemma_empty_local_keeps_rendered(
    name: Seq<char>,
    rendered_logging: Map<Seq<char>, crate::logging::Section>,
    rendered_global: Option<Json>,
    rendered_module: Option<Json>,
    rendered_config: Json,
)
    ensures
        merged_logging(Some(rendered_logging), Map::empty()) == rendered_logging,
        merged_db_config(name, rendered_global, rendered_module, None, None) == if rendered_global is None
            && rendered_module is None {
            None
        } else {
            Some(Json::Obj(db_part(rendered_global) + modules_part(name, rendered_module)))
        },
        module_field(final_modules(Seq::empty(), name, Some(rendered_config)), name, "config"@)
            == Some(rendered_config),
{
    assert(merged_logging(Some(rendered_logging), Map::empty()) =~= rendered_logging);
    lemma_rendered_config_section_fills_in(Seq::empty(), name, rendered_config);
}

/// Where local gives only one nested field of the module's database section
/// (such as `pool.max_conns`), the merged module section is the rendered one
/// with that field set and every other field kept.
pub proof fn lemma_db_single_field_override(
    name: Seq<char>,
    rendered_global: Option<Json>,
    rendered_module: Json,
    k1: Seq<char>,
    k2: Seq<char>,
    v: Json,
)
    requires
        rendered_module is Obj,
        !(v is Obj),
    ensures
        merged_db_config(
            name,
            rendered_global,
            Some(rendered_module),
            None,
            Some(Json::Obj(seq![(k1, Json::Obj(seq![(k2, v)]))])),
        ) == Some(
            Json::Obj(
                db_part(rendered_global) + modules_part(
                    name,
                    Some(
                        Json::Obj(
                            obj_set(
                                rendered_module->Obj_0,
                                k1,
                                Json::Obj(
                                    obj_set(
                                        match obj_get(rendered_module->Obj_0, k1) {
                                            Some(Json::Obj(inner)) => inner,
                                            _ => Seq::empty(),
                                        },
                                        k2,
                                        v,
                                    ),
                                ),
                            ),
                        ),
                    ),
                ),
            ),
        ),
{
    lemma_merge_single_nested_field(rendered_module, k1, k2, v);
}


/// Putting the rendered `config` section in twice gives what putting it in
/// once gives.
pub proof fn lemma_final_modules_idempotent(mods: Seq<(Seq<char>, Json)>, name: Seq<char>, rc: Json)
    ensures
        final_modules(final_modules(mods, name, Some(rc)), name, Some(rc)) == final_modules(
            mods,
            name,
            Some(rc),
        ),
{
    let c = "config"@;
    match obj_get(mods, name) {
        None => {
            let f1 = seq![(c, rc)];
            let m1 = obj_set(mods, name, Json::Obj(f1));
            lemma_obj_get_set(mods, name, Json::Obj(f1));
            lemma_obj_get_single(c, rc, c);
            if rc == Json::Null {
                lemma_obj_set_same(f1, c, rc);
                lemma_obj_set_same(m1, name, Json::Obj(f1));
            }
        },
        Some(Json::Obj(fs)) => {
            if obj_get(fs, c) is None || obj_get(fs, c) == Some(Json::Null) {
                let f1 = obj_set(fs, c, rc);
                let m1 = obj_set(mods, name, Json::Obj(f1));
                lemma_obj_get_set(mods, name, Json::Obj(f1));
                lemma_obj_get_set(fs, c, rc);
                if rc == Json::Null {
                    lemma_obj_set_same(f1, c, rc);
                    lemma_obj_set_same(m1, name, Json::Obj(f1));
                }
            }
        },
        Some(_) => {},
    }
}

/// The merger is idempotent: merging the same local side again into what a
/// merge gave, for the `config` section, each database section and the
/// logging table, changes nothing.
pub proof fn lemma_merger_idempotent(
    mods: Seq<(Seq<char>, Json)>,
    name: Seq<char>,
    rendered_config: Json,
    rendered_db: Option<Json>,
    local_db: Option<Json>,
    rendered_logging: Option<Map<Seq<char>, crate::logging::Section>>,
    local_logging: Map<Seq<char>, crate::logging::Section>,
)
    requires
        local_db is Some ==> json_wf(local_db->0),
    ensures
        final_modules(final_modules(mods, name, Some(rendered_config)), name, Some(rendered_config))
            == final_modules(mods, name, Some(rendered_config)),
        merged_get(merged_get(rendered_db, local_db), local_db) == merged_get(rendered_db, local_db),
        merged_logging(Some(merged_logging(rendered_logging, local_logging)), local_logging)
            == merged_logging(rendered_logging, local_logging),
{
    lemma_final_modules_idempotent(mods, name, rendered_config);
    match (rendered_db, local_db) {
        (Some(r), Some(l)) => {
            lemma_merge_idempotent(r, l);
        },
        (None, Some(l)) => {
            crate::json::lemma_merge_self(l);
        },
        _ => {},
    }
    crate::logging::lemma_logging_merge_idempotent(rendered_logging, local_logging);
}

} // verus!
