use vstd::prelude::*;

use crate::config::{AppConfig, RenderedModuleConfig};
use crate::json::{keys_unique, entries_view, items_view, lemma_entries_view, lemma_items_view, lookup, obj_get, Json, JsonValue};
use crate::oop::module_field;
use crate::render::{is_rendered_for, render_module_config_for_oop};

verus! {

/// Where a module runs.
#[derive(Clone, Copy, Debug, PartialEq, Eq, Structural)]
pub enum RuntimeKind {
    Local,
    Oop,
}

/// Failures in reading the modules' runtime sections.
#[derive(Debug, PartialEq, Eq)]
pub enum BootError {
    /// The module's `runtime` section does not have the expected shape.
    InvalidRuntime(String),
    /// The module is `type = oop` but has no `runtime.execution`.
    MissingExecution(String),
}

/// How an out-of-process module is launched.
#[derive(Debug, PartialEq, Eq)]
pub struct OopModuleSpawnConfig {
    pub module_name: String,
    pub binary: String,
    pub args: Vec<String>,
    pub env: Vec<(String, String)>,
    pub working_directory: Option<String>,
    pub rendered_config: RenderedModuleConfig,
}

/// The strings of a JSON array whose items are all strings.
pub open spec fn str_items(s: Seq<Json>) -> Option<Seq<Seq<char>>>
    decreases s.len(),
{
    if s.len() == 0 {
        Some(Seq::empty())
    } else {
        match str_items(s.subrange(0, s.len() - 1)) {
            Some(p) => match s[s.len() - 1] {
                Json::Str(x) => Some(p.push(x)),
                _ => None,
            },
            None => None,
        }
    }
}

/// The pairs of a JSON object whose values are all strings.
pub open spec fn str_entries(es: Seq<(Seq<char>, Json)>) -> Option<Seq<(Seq<char>, Seq<char>)>>
    decreases es.len(),
{
    if es.len() == 0 {
        Some(Seq::empty())
    } else {
        match str_entries(es.subrange(0, es.len() - 1)) {
            Some(p) => match es[es.len() - 1].1 {
                Json::Str(x) => Some(p.push((es[es.len() - 1].0, x))),
                _ => None,
            },
            None => None,
        }
    }
}

/// The kind that a `runtime` section gives: `type` absent or `inproc` is
/// local, `oop` is out of process; anything else is malformed.
pub open spec fn runtime_kind_of(rt: Json) -> Option<RuntimeKind> {
    match rt {
        Json::Obj(f) => match obj_get(f, "type"@) {
            None => Some(RuntimeKind::Local),
            Some(Json::Str(t)) => if t == "oop"@ {
                Some(RuntimeKind::Oop)
            } else if t == "inproc"@ {
                Some(RuntimeKind::Local)
            } else {
                None
            },
            _ => None,
        },
        _ => None,
    }
}

/// The parts of an `execution` section: the executable's path, its
/// arguments (none where absent), its environment (none where absent) and
/// its working directory (none where absent or null).
pub struct ExecutionSpec {
    pub path: Seq<char>,
    pub args: Seq<Seq<char>>,
    pub env: Seq<(Seq<char>, Seq<char>)>,
    pub working_directory: Option<Seq<char>>,
}

pub open spec fn execution_of(e: Json) -> Option<ExecutionSpec> {
    match e {
        Json::Obj(f) => {
            let path = obj_get(f, "executable_path"@);
            let args = match obj_get(f, "args"@) {
                None => Some(Seq::empty()),
                Some(Json::Arr(items)) => str_items(items),
                _ => None,
            };
            let env = match obj_get(f, "environment"@) {
                None => Some(Seq::empty()),
                Some(Json::Obj(es)) => str_entries(es),
                _ => None,
            };
            let wd = match obj_get(f, "working_directory"@) {
                None => Some(None),
                Some(Json::Null) => Some(None),
                Some(Json::Str(w)) => Some(Some(w)),
                _ => None,
            };
            if path matches Some(Json::Str(p)) && args is Some && env is Some && wd is Some {
                Some(
                    ExecutionSpec {
                        path: path->0->Str_0,
                        args: args->0,
                        env: env->0,
                        working_directory: wd->0,
                    },
                )
            } else {
                None
            }
        },
        _ => None,
    }
}

/// What the modules table says of launching module `name`.
pub enum SpawnDecision {
    /// No runtime section, or a local module.
    Skip,
    Invalid,
    MissingExecution,
    Spawn(ExecutionSpec),
}

pub open spec fn spawn_decision(mods: Seq<(Seq<char>, Json)>, name: Seq<char>) -> SpawnDecision {
    match module_field(mods, name, "runtime"@) {
        None => SpawnDecision::Skip,
        Some(rt) => match runtime_kind_of(rt) {
            None => SpawnDecision::Invalid,
            Some(RuntimeKind::Local) => SpawnDecision::Skip,
            Some(RuntimeKind::Oop) => match obj_get(rt->Obj_0, "execution"@) {
                None => SpawnDecision::MissingExecution,
                Some(Json::Null) => SpawnDecision::MissingExecution,
                Some(e) => match execution_of(e) {
                    None => SpawnDecision::Invalid,
                    Some(x) => SpawnDecision::Spawn(x),
                },
            },
        },
    }
}

pub open spec fn env_view(es: Seq<(String, String)>) -> Seq<(Seq<char>, Seq<char>)> {
    Seq::new(es.len(), |i: int| (es[i].0@, es[i].1@))
}

pub open spec fn strings_view(s: Seq<String>) -> Seq<Seq<char>> {
    Seq::new(s.len(), |i: int| s[i]@)
}

/// `c` launches module `name` of `cfg` as its execution section `x` says,
/// with the configuration rendered for it.
pub open spec fn is_spawn_config_for(c: OopModuleSpawnConfig, cfg: AppConfig, name: Seq<char>, x: ExecutionSpec) -> bool {
    &&& c.module_name@ == name
    &&& c.binary@ == x.path
    &&& strings_view(c.args@) == x.args
    &&& env_view(c.env@) == x.env
    &&& match c.working_directory {
        Some(w) => x.working_directory == Some(w@),
        None => x.working_directory is None,
    }
    &&& is_rendered_for(c.rendered_config, cfg, name)
}

/// `r` is what `try_build_oop_module_config` owes for module `name` of `cfg`.
pub open spec fn spawn_result_for(r: Result<Option<OopModuleSpawnConfig>, BootError>, cfg: AppConfig, name: Seq<char>) -> bool {
    match spawn_decision(cfg.modules_view(), name) {
        SpawnDecision::Skip => r matches Ok(None),
        SpawnDecision::Invalid => r matches Err(BootError::InvalidRuntime(m)) && m@ == name,
        SpawnDecision::MissingExecution => r matches Err(BootError::MissingExecution(m)) && m@ == name,
        SpawnDecision::Spawn(x) => r matches Ok(Some(c)) && is_spawn_config_for(c, cfg, name, x),
    }
}

fn string_items(items: &Vec<JsonValue>) -> (r: Option<Vec<String>>)
    ensures
        match r {
            Some(v) => str_items(items_view(items@)) == Some(strings_view(v@)),
            None => str_items(items_view(items@)) is None,
        },
{
    let ghost iv = items_view(items@);
    proof {
        lemma_items_view(items@);
        assert(iv.subrange(0, 0) =~= Seq::<Json>::empty());
        assert(strings_view(Seq::<String>::empty()) =~= Seq::<Seq<char>>::empty());
    }
    let mut out: Vec<String> = Vec::new();
    let mut i: usize = 0;
    while i < items.len()
        invariant
            i <= items.len(),
            iv == items_view(items@),
            iv.len() == items.len(),
            forall|j: int| 0 <= j < items.len() ==> #[trigger] iv[j] == items@[j]@,
            str_items(iv.subrange(0, i as int)) == Some(strings_view(out@)),
        decreases items.len() - i,
    {
        let ghost sub = iv.subrange(0, i + 1);
        proof {
            assert(sub.subrange(0, sub.len() - 1) =~= iv.subrange(0, i as int));
            assert(sub[sub.len() - 1] == iv[i as int]);
        }
        match &items[i] {
            JsonValue::Str(s) => {
                let ghost before = out@;
                out.push(s.clone());
                proof {
                    assert(strings_view(out@) =~= strings_view(before).push(s@));
                }
            },
            _ => {
                proof {
                    assert(str_items(sub) is None);
                    lemma_str_items_prefix(iv, i as int + 1);
                }
                return None;
            },
        }
        i = i + 1;
    }
    proof {
        assert(iv.subrange(0, items.len() as int) =~= iv);
    }
    Some(out)
}

/// A prefix with a non-string item spoils the whole array.
proof fn lemma_str_items_prefix(s: Seq<Json>, n: int)
    requires
        0 <= n <= s.len(),
        str_items(s.subrange(0, n)) is None,
    ensures
        str_items(s) is None,
    decreases s.len() - n,
{
    if n < s.len() {
        let t = s.subrange(0, n + 1);
        assert(t.subrange(0, t.len() - 1) =~= s.subrange(0, n));
        lemma_str_items_prefix(s, n + 1);
    } else {
        assert(s.subrange(0, n) =~= s);
    }
}

proof fn lemma_str_entries_prefix(s: Seq<(Seq<char>, Json)>, n: int)
    requires
        0 <= n <= s.len(),
        str_entries(s.subrange(0, n)) is None,
    ensures
        str_entries(s) is None,
    decreases s.len() - n,
{
    if n < s.len() {
        let t = s.subrange(0, n + 1);
        assert(t.subrange(0, t.len() - 1) =~= s.subrange(0, n));
        lemma_str_entries_prefix(s, n + 1);
    } else {
        assert(s.subrange(0, n) =~= s);
    }
}

fn string_entries(es: &Vec<(String, JsonValue)>) -> (r: Option<Vec<(String, String)>>)
    ensures
        match r {
            Some(v) => str_entries(entries_view(es@)) == Some(env_view(v@)),
            None => str_entries(entries_view(es@)) is None,
        },
{
    let ghost ev = entries_view(es@);
    proof {
        lemma_entries_view(es@);
        assert(ev.subrange(0, 0) =~= Seq::<(Seq<char>, Json)>::empty());
        assert(env_view(Seq::<(String, String)>::empty()) =~= Seq::<(Seq<char>, Seq<char>)>::empty());
    }
    let mut out: Vec<(String, String)> = Vec::new();
    let mut i: usize = 0;
    while i < es.len()
        invariant
            i <= es.len(),
            ev == entries_view(es@),
            ev.len() == es.len(),
            forall|j: int| 0 <= j < es.len() ==> #[trigger] ev[j] == (es@[j].0@, es@[j].1@),
            str_entries(ev.subrange(0, i as int)) == Some(env_view(out@)),
        decreases es.len() - i,
    {
        let ghost sub = ev.subrange(0, i + 1);
        proof {
            assert(sub.subrange(0, sub.len() - 1) =~= ev.subrange(0, i as int));
            assert(sub[sub.len() - 1] == ev[i as int]);
        }
        match &es[i].1 {
            JsonValue::Str(s) => {
                let ghost before = out@;
                out.push((es[i].0.clone(), s.clone()));
                proof {
                    assert(env_view(out@) =~= env_view(before).push((es@[i as int].0@, s@)));
                }
            },
            _ => {
                proof {
                    assert(str_entries(sub) is None);
                    lemma_str_entries_prefix(ev, i as int + 1);
                }
                return None;
            },
        }
        i = i + 1;
    }
    proof {
        assert(ev.subrange(0, es.len() as int) =~= ev);
    }
    Some(out)
}


fn parse_execution(e: &JsonValue) -> (r: Option<(String, Vec<String>, Vec<(String, String)>, Option<String>)>)
    ensures
        match r {
            Some(t) => execution_of(e@) == Some(
                ExecutionSpec {
                    path: t.0@,
                    args: strings_view(t.1@),
                    env: env_view(t.2@),
                    working_directory: match t.3 {
                        Some(w) => Some(w@),
                        None => None,
                    },
                },
            ),
            None => execution_of(e@) is None,
        },
{
    let f = match e {
        JsonValue::Object(f) => f,
        _ => {
            return None;
        },
    };
    let path = match lookup(f, "executable_path") {
        Some(JsonValue::Str(p)) => p.clone(),
        _ => {
            return None;
        },
    };
    let args = match lookup(f, "args") {
        None => {
            let v: Vec<String> = Vec::new();
            proof {
                assert(strings_view(v@) =~= Seq::<Seq<char>>::empty());
            }
            v
        },
        Some(JsonValue::Array(items)) => match string_items(items) {
            Some(v) => v,
            None => {
                return None;
            },
        },
        _ => {
            return None;
        },
    };
    let env = match lookup(f, "environment") {
        None => {
            let v: Vec<(String, String)> = Vec::new();
            proof {
                assert(env_view(v@) =~= Seq::<(Seq<char>, Seq<char>)>::empty());
            }
            v
        },
        Some(JsonValue::Object(es)) => match string_entries(es) {
            Some(v) => v,
            None => {
                return None;
            },
        },
        _ => {
            return None;
        },
    };
    let wd = match lookup(f, "working_directory") {
        None => None,
        Some(JsonValue::Null) => None,
        Some(JsonValue::Str(w)) => Some(w.clone()),
        _ => {
            return None;
        },
    };
    Some((path, args, env, wd))
}

/// The launch settings of module `module_name`, where its runtime section
/// makes it an out-of-process module; nothing for any other module; an
/// error where the runtime section is malformed or has no execution section.
pub fn try_build_oop_module_config(config: &AppConfig, module_name: &str) -> (r: Result<
    Option<OopModuleSpawnConfig>,
    BootError,
>)
    ensures
        spawn_result_for(r, *config, module_name@),
{
    let rt = match lookup(&config.modules, module_name) {
        Some(entry) => entry.get("runtime"),
        None => None,
    };
    let rt = match rt {
        None => {
            return Ok(None);
        },
        Some(x) => x,
    };
    let fields = match rt {
        JsonValue::Object(f) => f,
        _ => {
            return Err(BootError::InvalidRuntime(module_name.to_owned()));
        },
    };
    let kind = match lookup(fields, "type") {
        None => RuntimeKind::Local,
        Some(JsonValue::Str(t)) => {
            if *t == "oop".to_owned() {
                RuntimeKind::Oop
            } else if *t == "inproc".to_owned() {
                RuntimeKind::Local
            } else {
                return Err(BootError::InvalidRuntime(module_name.to_owned()));
            }
        },
        Some(_) => {
            return Err(BootError::InvalidRuntime(module_name.to_owned()));
        },
    };
    match kind {
        RuntimeKind::Local => {
            return Ok(None);
        },
        RuntimeKind::Oop => {},
    }
    let exec = match lookup(fields, "execution") {
        None => {
            return Err(BootError::MissingExecution(module_name.to_owned()));
        },
        Some(JsonValue::Null) => {
            return Err(BootError::MissingExecution(module_name.to_owned()));
        },
        Some(e) => e,
    };
    let (binary, args, env, working_directory) = match parse_execution(exec) {
        Some(t) => t,
        None => {
            return Err(BootError::InvalidRuntime(module_name.to_owned()));
        },
    };
    let rendered_config = render_module_config_for_oop(config, module_name);
    Ok(
        Some(
            OopModuleSpawnConfig {
                module_name: module_name.to_owned(),
                binary,
                args,
                env,
                working_directory,
                rendered_config,
            },
        ),
    )
}

/// The names, in table order, of the first `n` modules that are launched
/// out of process.
pub open spec fn spawning_names(mods: Seq<(Seq<char>, Json)>, n: int) -> Seq<Seq<char>>
    decreases n,
{
    if n <= 0 {
        Seq::empty()
    } else {
        let p = spawning_names(mods, n - 1);
        if spawn_decision(mods, mods[n - 1].0) is Spawn {
            p.push(mods[n - 1].0)
        } else {
            p
        }
    }
}

/// With unique module names, each name is listed once, and only names of
/// the first `n` modules are.
proof fn lemma_spawning_names_distinct(mods: Seq<(Seq<char>, Json)>, n: int)
    requires
        keys_unique(mods),
        0 <= n <= mods.len(),
    ensures
        forall|a: int|
            0 <= a < spawning_names(mods, n).len() ==> exists|j: int|
                0 <= j < n && #[trigger] spawning_names(mods, n)[a] == mods[j].0,
        forall|a: int, b: int|
            0 <= a < b < spawning_names(mods, n).len() ==> spawning_names(mods, n)[a]
                != spawning_names(mods, n)[b],
    decreases n,
{
    if n > 0 {
        lemma_spawning_names_distinct(mods, n - 1);
        let p = spawning_names(mods, n - 1);
        let q = spawning_names(mods, n);
        if spawn_decision(mods, mods[n - 1].0) is Spawn {
            assert(q == p.push(mods[n - 1].0));
            assert forall|a: int| 0 <= a < q.len() implies exists|j: int|
                0 <= j < n && #[trigger] q[a] == mods[j].0 by {
                if a < p.len() {
                    assert(q[a] == p[a]);
                    let j = choose|j: int| 0 <= j < n - 1 && p[a] == mods[j].0;
                } else {
                    assert(q[a] == mods[n - 1].0);
                }
            }
            assert forall|a: int, b: int| 0 <= a < b < q.len() implies q[a] != q[b] by {
                assert(q[a] == p[a]);
                if b < p.len() {
                    assert(q[b] == p[b]);
                } else {
                    let j = choose|j: int| 0 <= j < n - 1 && #[trigger] p[a] == mods[j].0;
                    assert(mods[j].0 != mods[n - 1].0);
                }
            }
        }
    }
}

pub open spec fn is_error_decision(d: SpawnDecision) -> bool {
    d is Invalid || d is MissingExecution
}

/// The launch settings of every out-of-process module of `config`, in table
/// order; nothing where there is none; the error of the first module whose
/// runtime section is wrong.
pub fn build_oop_spawn_options(config: &AppConfig) -> (r: Result<
    Option<Vec<OopModuleSpawnConfig>>,
    BootError,
>)
    requires
        keys_unique(config.modules_view()),
    ensures
        ({
            let mods = config.modules_view();
            let names = spawning_names(mods, mods.len() as int);
            match r {
                Ok(opt) => (forall|j: int|
                    0 <= j < mods.len() ==> !is_error_decision(#[trigger] spawn_decision(mods, mods[j].0)))
                    && match opt {
                    None => names.len() == 0,
                    Some(v) => v@.len() == names.len() && names.len() > 0 && (forall|k: int|
                        0 <= k < v@.len() ==> #[trigger] v@[k].module_name@ == names[k]
                            && spawn_result_for(Ok(Some(v@[k])), *config, names[k])) && (forall|
                        a: int,
                        b: int,
                    | 0 <= a < b < v@.len() ==> v@[a].module_name@ != v@[b].module_name@),
                },
                Err(e) => exists|j: int|
                    0 <= j < mods.len() && is_error_decision(spawn_decision(mods, mods[j].0))
                        && (forall|i: int| 0 <= i < j ==> !is_error_decision(#[trigger] spawn_decision(mods, mods[i].0)))
                        && spawn_result_for(Err(e), *config, mods[j].0),
            }
        }),
{
    let ghost mods = config.modules_view();
    proof {
        lemma_entries_view(config.modules@);
    }
    let mut out: Vec<OopModuleSpawnConfig> = Vec::new();
    let mut i: usize = 0;
    while i < config.modules.len()
        invariant
            i <= config.modules.len(),
            mods == config.modules_view(),
            mods.len() == config.modules.len(),
            forall|j: int| 0 <= j < config.modules.len() ==> #[trigger] mods[j].0 == config.modules@[j].0@,
            forall|j: int| 0 <= j < i ==> !is_error_decision(#[trigger] spawn_decision(mods, mods[j].0)),
            out@.len() == spawning_names(mods, i as int).len(),
            forall|k: int|
                0 <= k < out@.len() ==> #[trigger] out@[k].module_name@ == spawning_names(mods, i as int)[k]
                    && spawn_result_for(Ok(Some(out@[k])), *config, spawning_names(mods, i as int)[k]),
        decreases config.modules.len() - i,
    {
        let name = config.modules[i].0.as_str();
        let ghost before = out@;
        assert(mods[i as int].0 == name@);
        match try_build_oop_module_config(config, name) {
            Err(e) => {
                return Err(e);
            },
            Ok(None) => {
                assert(spawning_names(mods, i + 1) == spawning_names(mods, i as int));
            },
            Ok(Some(c)) => {
                out.push(c);
                assert(spawning_names(mods, i + 1) == spawning_names(mods, i as int).push(name@));
                assert forall|k: int| 0 <= k < out@.len() implies #[trigger] out@[k].module_name@
                    == spawning_names(mods, i + 1)[k] && spawn_result_for(
                    Ok(Some(out@[k])),
                    *config,
                    spawning_names(mods, i + 1)[k],
                ) by {
                    if k < before.len() {
                        assert(out@[k] == before[k]);
                    }
                }
            },
        }
        i = i + 1;
    }
    proof {
        lemma_spawning_names_distinct(mods, mods.len() as int);
    }
    if out.len() == 0 {
        Ok(None)
    } else {
        Ok(Some(out))
    }
}

} // verus!
