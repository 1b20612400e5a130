use vstd::prelude::*;

verus! {

/// Severity of a log record, from the most verbose to the least.
#[derive(Clone, Copy, Debug, PartialEq, Eq, Structural)]
pub enum Level {
    Trace,
    Debug,
    Info,
    Warn,
    Error,
}

/// How records are written to the console.
#[derive(Clone, Copy, Debug, PartialEq, Eq, Structural)]
pub enum ConsoleFormat {
    Text,
    Json,
}

impl Default for ConsoleFormat {
    fn default() -> (r: ConsoleFormat)
        ensures
            r == ConsoleFormat::Text,
    {
        ConsoleFormat::Text
    }
}

/// A file sink of one logging subsystem.
#[derive(Debug, PartialEq, Eq)]
pub struct SectionFile {
    pub file: String,
    pub file_level: Option<Level>,
}

/// The logging settings of one subsystem: console level, optional file sink
/// and rotation limits.
#[derive(Debug, PartialEq, Eq)]
pub struct Section {
    pub console_level: Option<Level>,
    pub section_file: Option<SectionFile>,
    pub console_format: ConsoleFormat,
    pub max_age_days: Option<u32>,
    pub max_backups: Option<u32>,
    pub max_size_mb: Option<u64>,
}

impl SectionFile {
    pub fn copy(&self) -> (r: SectionFile)
        ensures
            r == *self,
    {
        SectionFile { file: self.file.clone(), file_level: self.file_level }
    }
}

impl Section {
    pub fn copy(&self) -> (r: Section)
        ensures
            r == *self,
    {
        let section_file = match &self.section_file {
            Some(f) => Some(f.copy()),
            None => None,
        };
        Section {
            console_level: self.console_level,
            section_file,
            console_format: self.console_format,
            max_age_days: self.max_age_days,
            max_backups: self.max_backups,
            max_size_mb: self.max_size_mb,
        }
    }

    /// The path of the file sink, if there is one.
    pub fn file(&self) -> (r: Option<&str>)
        ensures
            match self.section_file {
                Some(f) => r is Some && r->0@ == f.file@,
                None => r is None,
            },
    {
        match &self.section_file {
            Some(f) => Some(f.file.as_str()),
            None => None,
        }
    }
}

/// A section with the given console level and a file sink at `file`, logging
/// there at debug level, in text format, kept 7 days, 3 backups of at most
/// 100 MB.
pub fn logging_section(console_level: Option<Level>, file: &str) -> (r: Section)
    ensures
        r.console_level == console_level,
        r.section_file == Some(SectionFile { file: r.section_file->0.file, file_level: Some(Level::Debug) }),
        r.section_file->0.file@ == file@,
        r.console_format == ConsoleFormat::Text,
        r.max_age_days == Some(7u32),
        r.max_backups == Some(3u32),
        r.max_size_mb == Some(100u64),
{
    Section {
        console_level,
        section_file: Some(SectionFile { file: file.to_owned(), file_level: Some(Level::Debug) }),
        console_format: ConsoleFormat::default(),
        max_age_days: Some(7),
        max_backups: Some(3),
        max_size_mb: Some(100),
    }
}

/// What entries say of each key: a later entry overrides an earlier one.
pub open spec fn section_map(es: Seq<(String, Section)>) -> Map<Seq<char>, Section>
    decreases es.len(),
{
    if es.len() == 0 {
        Map::empty()
    } else {
        section_map(es.subrange(0, es.len() - 1)).insert(es[es.len() - 1].0@, es[es.len() - 1].1)
    }
}

pub open spec fn section_keys_unique(es: Seq<(String, Section)>) -> bool {
    forall|i: int, j: int| 0 <= i < j < es.len() ==> es[i].0@ != es[j].0@
}

/// Logging settings keyed by subsystem (`default`, a module's name, ...).
#[derive(Debug, PartialEq, Eq)]
pub struct LoggingConfig {
    pub entries: Vec<(String, Section)>,
}

impl View for LoggingConfig {
    type V = Map<Seq<char>, Section>;

    open spec fn view(&self) -> Map<Seq<char>, Section> {
        section_map(self.entries@)
    }
}

proof fn lemma_section_map(es: Seq<(String, Section)>)
    requires
        section_keys_unique(es),
    ensures
        forall|j: int|
            0 <= j < es.len() ==> #[trigger] section_map(es).contains_key(es[j].0@) && section_map(
                es,
            )[es[j].0@] == es[j].1,
        forall|k: Seq<char>|
            #[trigger] section_map(es).contains_key(k) ==> exists|j: int|
                0 <= j < es.len() && es[j].0@ == k,
    decreases es.len(),
{
    if es.len() > 0 {
        let p = es.subrange(0, es.len() - 1);
        assert(section_keys_unique(p));
        lemma_section_map(p);
        assert forall|j: int|
            0 <= j < es.len() implies #[trigger] section_map(es).contains_key(es[j].0@)
            && section_map(es)[es[j].0@] == es[j].1 by {
            if j < es.len() - 1 {
                assert(p[j] == es[j]);
                assert(es[j].0@ != es[es.len() - 1].0@);
                assert(section_map(p).contains_key(p[j].0@));
            }
        }
        assert forall|k: Seq<char>| #[trigger] section_map(es).contains_key(k) implies exists|
            j: int,
        | 0 <= j < es.len() && es[j].0@ == k by {
            if k != es[es.len() - 1].0@ {
                assert(section_map(p).contains_key(k));
                let j = choose|j: int| 0 <= j < p.len() && p[j].0@ == k;
                assert(es[j] == p[j]);
            }
        }
    }
}

/// Replacing the section of a present key changes that key alone.
proof fn lemma_section_map_update(es: Seq<(String, Section)>, i: int, key: String, s: Section)
    requires
        section_keys_unique(es),
        0 <= i < es.len(),
        es[i].0@ == key@,
    ensures
        section_keys_unique(es.update(i, (key, s))),
        section_map(es.update(i, (key, s))) == section_map(es).insert(key@, s),
{
    let q = es.update(i, (key, s));
    assert(section_keys_unique(q));
    lemma_section_map(es);
    lemma_section_map(q);
    let m = section_map(es).insert(key@, s);
    assert forall|k: Seq<char>| #[trigger] section_map(q).contains_key(k) implies m.contains_key(k)
        && section_map(q)[k] == m[k] by {
        let j = choose|j: int| 0 <= j < q.len() && q[j].0@ == k;
        if j != i {
            assert(q[j] == es[j]);
            assert(section_map(es).contains_key(es[j].0@));
        }
    }
    assert forall|k: Seq<char>| #[trigger] m.contains_key(k) implies section_map(q).contains_key(k) by {
        if k != key@ {
            assert(section_map(es).contains_key(k));
            let j = choose|j: int| 0 <= j < es.len() && es[j].0@ == k;
            assert(q[j] == es[j]);
            assert(section_map(q).contains_key(q[j].0@));
        } else {
            assert(section_map(q).contains_key(q[i].0@));
        }
    }
    assert(section_map(q) =~= m);
}

/// Appending a key that is not present adds that key alone.
proof fn lemma_section_map_push(es: Seq<(String, Section)>, key: String, s: Section)
    requires
        section_keys_unique(es),
        forall|j: int| 0 <= j < es.len() ==> es[j].0@ != key@,
    ensures
        section_keys_unique(es.push((key, s))),
        section_map(es.push((key, s))) == section_map(es).insert(key@, s),
{
    let q = es.push((key, s));
    assert(q.subrange(0, q.len() - 1) =~= es);
}

impl LoggingConfig {
    /// No subsystem key occurs twice.
    pub open spec fn wf(&self) -> bool {
        section_keys_unique(self.entries@)
    }

    /// Whether no subsystem key occurs twice.
    pub fn has_unique_keys(&self) -> (r: bool)
        ensures
            r == self.wf(),
    {
        let mut i: usize = 0;
        while i < self.entries.len()
            invariant
                i <= self.entries.len(),
                forall|a: int, b: int| 0 <= a < b < i ==> self.entries@[a].0@ != self.entries@[b].0@,
            decreases self.entries.len() - i,
        {
            let mut j: usize = 0;
            while j < i
                invariant
                    i < self.entries.len(),
                    j <= i,
                    forall|a: int| 0 <= a < j ==> self.entries@[a].0@ != self.entries@[i as int].0@,
                decreases i - j,
            {
                if self.entries[j].0 == self.entries[i].0 {
                    return false;
                }
                j = j + 1;
            }
            i = i + 1;
        }
        true
    }

    /// No subsystem configured.
    pub fn new() -> (r: LoggingConfig)
        ensures
            r.wf(),
            r@ == Map::<Seq<char>, Section>::empty(),
    {
        LoggingConfig { entries: Vec::new() }
    }

    /// Number of subsystems configured.
    pub fn len(&self) -> (r: usize)
        requires
            self.wf(),
        ensures
            r == self@.dom().len(),
    {
        proof {
            lemma_section_map(self.entries@);
            lemma_key_count(self.entries@);
        }
        self.entries.len()
    }

    fn position(&self, key: &String) -> (r: Option<usize>)
        ensures
            match r {
                Some(j) => j < self.entries.len() && self.entries@[j as int].0@ == key@,
                None => forall|j: int|
                    0 <= j < self.entries.len() ==> self.entries@[j].0@ != key@,
            },
    {
        let mut i: usize = 0;
        while i < self.entries.len()
            invariant
                i <= self.entries.len(),
                forall|j: int| 0 <= j < i ==> self.entries@[j].0@ != key@,
            decreases self.entries.len() - i,
        {
            if self.entries[i].0 == *key {
                return Some(i);
            }
            i = i + 1;
        }
        None
    }

    /// The section of subsystem `key`.
    pub fn get(&self, key: &str) -> (r: Option<&Section>)
        requires
            self.wf(),
        ensures
            match r {
                Some(s) => self@.contains_key(key@) && *s == self@[key@],
                None => !self@.contains_key(key@),
            },
    {
        let k = key.to_owned();
        proof {
            lemma_section_map(self.entries@);
        }
        match self.position(&k) {
            Some(j) => Some(&self.entries[j].1),
            None => None,
        }
    }

    /// Sets the section of subsystem `key`, replacing any earlier one.
    pub fn insert(&mut self, key: String, section: Section)
        requires
            old(self).wf(),
        ensures
            final(self).wf(),
            final(self)@ == old(self)@.insert(key@, section),
    {
        match self.position(&key) {
            Some(j) => {
                proof {
                    lemma_section_map_update(self.entries@, j as int, key, section);
                }
                self.entries[j] = (key, section);
            },
            None => {
                proof {
                    lemma_section_map_push(self.entries@, key, section);
                }
                self.entries.push((key, section));
            },
        }
    }

    pub fn copy(&self) -> (r: LoggingConfig)
        ensures
            r.entries@ == self.entries@,
            r@ == self@,
    {
        let mut out: Vec<(String, Section)> = Vec::new();
        let mut i: usize = 0;
        while i < self.entries.len()
            invariant
                i <= self.entries.len(),
                out@ == self.entries@.subrange(0, i as int),
            decreases self.entries.len() - i,
        {
            let k = self.entries[i].0.clone();
            let s = self.entries[i].1.copy();
            out.push((k, s));
            proof {
                assert(out@ =~= self.entries@.subrange(0, i + 1));
            }
            i = i + 1;
        }
        proof {
            assert(out@ =~= self.entries@);
        }
        LoggingConfig { entries: out }
    }
}

proof fn lemma_key_count(es: Seq<(String, Section)>)
    requires
        section_keys_unique(es),
    ensures
        section_map(es).dom().len() == es.len(),
        section_map(es).dom().finite(),
    decreases es.len(),
{
    if es.len() > 0 {
        let p = es.subrange(0, es.len() - 1);
        assert(section_keys_unique(p));
        lemma_key_count(p);
        lemma_section_map(p);
        let k = es[es.len() - 1].0@;
        assert(!section_map(p).contains_key(k)) by {
            if section_map(p).contains_key(k) {
                let j = choose|j: int| 0 <= j < p.len() && p[j].0@ == k;
                assert(es[j] == p[j]);
            }
        }
        assert(section_map(es).dom() =~= section_map(p).dom().insert(k));
    }
}

/// Master's settings overridden by local's, key by key.
pub open spec fn merged_logging(
    master: Option<Map<Seq<char>, Section>>,
    local: Map<Seq<char>, Section>,
) -> Map<Seq<char>, Section> {
    match master {
        Some(m) => m.union_prefer_right(local),
        None => local,
    }
}

/// The keys of a logging merge are those of either side; a key of local
/// takes local's section, any other key master's.
pub proof fn lemma_logging_merge_keys(
    master: Option<Map<Seq<char>, Section>>,
    local: Map<Seq<char>, Section>,
    k: Seq<char>,
)
    ensures
        merged_logging(master, local).contains_key(k) <==> (local.contains_key(k) || (master is Some
            && master->0.contains_key(k))),
        local.contains_key(k) ==> merged_logging(master, local)[k] == local[k],
        (!local.contains_key(k) && master is Some && master->0.contains_key(k)) ==> merged_logging(
            master,
            local,
        )[k] == master->0[k],
{
}

/// Merging with an empty local side leaves master's settings as they are,
/// and merging the result with the same local side again changes nothing.
pub proof fn lemma_logging_merge_idempotent(
    master: Option<Map<Seq<char>, Section>>,
    local: Map<Seq<char>, Section>,
)
    ensures
        master is Some ==> merged_logging(master, Map::empty()) == master->0,
        merged_logging(Some(merged_logging(master, local)), local) == merged_logging(master, local),
{
    if master is Some {
        assert(merged_logging(master, Map::empty()) =~= master->0);
    }
    assert(merged_logging(Some(merged_logging(master, local)), local) =~= merged_logging(
        master,
        local,
    ));
}

/// Logging settings from a master (base) and a local (override) side, key by
/// key: a key of local takes local's section whole, any other key keeps
/// master's.
pub fn merge_logging_configs(master: Option<&LoggingConfig>, local: &LoggingConfig) -> (r:
    LoggingConfig)
    requires
        master is Some ==> master->0.wf(),
        local.wf(),
    ensures
        r.wf(),
        r@ == merged_logging(
            match master {
                Some(m) => Some(m@),
                None => None,
            },
            local@,
        ),
{
    let ghost base = match master {
        Some(m) => m@,
        None => Map::<Seq<char>, Section>::empty(),
    };
    proof {
        if master is None {
            assert(base.union_prefer_right(local@) =~= local@);
        }
    }
    let mut acc = match master {
        Some(m) => m.copy(),
        None => LoggingConfig::new(),
    };
    let mut i: usize = 0;
    while i < local.entries.len()
        invariant
            i <= local.entries.len(),
            acc.wf(),
            acc@ == base.union_prefer_right(section_map(local.entries@.subrange(0, i as int))),
        decreases local.entries.len() - i,
    {
        let ghost sub = local.entries@.subrange(0, i + 1);
        proof {
            assert(sub.subrange(0, sub.len() - 1) =~= local.entries@.subrange(0, i as int));
        }
        let k = local.entries[i].0.clone();
        let s = local.entries[i].1.copy();
        acc.insert(k, s);
        proof {
            assert(acc@ =~= base.union_prefer_right(section_map(sub)));
        }
        i = i + 1;
    }
    proof {
        assert(local.entries@.subrange(0, local.entries.len() as int) =~= local.entries@);
        if master is None {
            assert(base.union_prefer_right(local@) =~= local@);
        }
    }
    acc
}


/// The built-in logging table: subsystem `default` at info level on the
/// console, with no file sink.
pub open spec fn default_logging_map() -> Map<Seq<char>, Section> {
    map![
        "default"@ => Section {
            console_level: Some(Level::Info),
            section_file: None,
            console_format: ConsoleFormat::Text,
            max_age_days: None,
            max_backups: None,
            max_size_mb: None,
        },
    ]
}

/// The built-in logging settings, as `default_logging_map` states them.
pub fn default_logging_config() -> (r: LoggingConfig)
    ensures
        r.wf(),
        r@ == default_logging_map(),
{
    let mut r = LoggingConfig::new();
    r.insert(
        "default".to_owned(),
        Section {
            console_level: Some(Level::Info),
            section_file: None,
            console_format: ConsoleFormat::Text,
            max_age_days: None,
            max_backups: None,
            max_size_mb: None,
        },
    );
    proof {
        assert(r@ =~= default_logging_map());
    }
    r
}

/// The console level that the verbosity counter selects: warn without a
/// flag, then info, debug, and trace from three on.
pub open spec fn level_for_verbosity(verbose: u8) -> Level {
    if verbose == 0 {
        Level::Warn
    } else if verbose == 1 {
        Level::Info
    } else if verbose == 2 {
        Level::Debug
    } else {
        Level::Trace
    }
}

/// The console level that the verbosity counter selects.
pub fn console_level_for(verbose: u8) -> (r: Level)
    ensures
        r == level_for_verbosity(verbose),
{
    if verbose == 0 {
        Level::Warn
    } else if verbose == 1 {
        Level::Info
    } else if verbose == 2 {
        Level::Debug
    } else {
        Level::Trace
    }
}

impl LoggingConfig {
    /// Sets the console level of subsystem `default` from the verbosity
    /// counter, keeping the rest of its section; a section with no file sink
    /// is added where there is none.
    pub fn apply_verbosity(&mut self, verbose: u8)
        requires
            old(self).wf(),
        ensures
            final(self).wf(),
            final(self)@ == old(self)@.insert(
                "default"@,
                if old(self)@.contains_key("default"@) {
                    Section { console_level: Some(level_for_verbosity(verbose)), ..old(self)@["default"@] }
                } else {
                    Section {
                        console_level: Some(level_for_verbosity(verbose)),
                        section_file: None,
                        console_format: ConsoleFormat::Text,
                        max_age_days: None,
                        max_backups: None,
                        max_size_mb: None,
                    }
                },
            ),
    {
        let level = console_level_for(verbose);
        let section = match self.get("default") {
            Some(s) => {
                let mut c = s.copy();
                c.console_level = Some(level);
                c
            },
            None => Section {
                console_level: Some(level),
                section_file: None,
                console_format: ConsoleFormat::Text,
                max_age_days: None,
                max_backups: None,
                max_size_mb: None,
            },
        };
        self.insert("default".to_owned(), section);
    }
}

} // verus!
