use vstd::prelude::*;
use vstd::string::StrSliceExecFns;

verus! {

/// Settings of the file parser module.
#[derive(Debug, PartialEq, Eq)]
pub struct FileParserConfig {
    /// Largest file accepted, in megabytes.
    pub max_file_size_mb: u64,
    /// Base directory for local file parsing. Only files under it, after
    /// symlink resolution, are accepted; the module refuses to start without
    /// it.
    pub allowed_local_base_dir: Option<String>,
}

/// Default upper bound, in megabytes, on a file handed to the file parser.
pub fn default_max_file_size_mb() -> (r: u64)
    ensures
        r == 100,
{
    100
}

impl Default for FileParserConfig {
    fn default() -> (r: FileParserConfig)
        ensures
            r.max_file_size_mb == 100,
            r.allowed_local_base_dir is None,
    {
        FileParserConfig { max_file_size_mb: default_max_file_size_mb(), allowed_local_base_dir: None }
    }
}


/// Why a local path was refused.
#[derive(Debug, PartialEq, Eq)]
pub enum PathError {
    /// The requested path has a `..` component.
    DotDot { path: String },
    /// The file resolves to a place outside the base directory. The base
    /// directory is not part of the error, so that no message can show it.
    OutsideBase,
    /// The file does not exist.
    NotFound { path: String },
}

/// `s` has a component `..`: two dots between separators or the ends.
pub open spec fn has_dotdot(s: Seq<char>) -> bool {
    exists|i: int|
        0 <= i && i + 2 <= s.len() && #[trigger] s[i] == '.' && s[i + 1] == '.' && (i == 0 || s[i - 1]
            == '/') && (i + 2 == s.len() || s[i + 2] == '/')
}

/// `target` is `base` or lies under it, component-wise.
pub open spec fn is_within(base: Seq<char>, target: Seq<char>) -> bool {
    target == base || (base.len() < target.len() && target.subrange(0, base.len() as int) == base && (
    (base.len() > 0 && base[base.len() - 1] == '/') || target[base.len() as int] == '/'))
}

fn chars_of(s: &str) -> (r: Vec<char>)
    ensures
        r@ == s@,
{
    let n = s.unicode_len();
    let mut out: Vec<char> = Vec::new();
    let mut i: usize = 0;
    while i < n
        invariant
            n == s@.len(),
            i <= n,
            out@ == s@.subrange(0, i as int),
        decreases n - i,
    {
        out.push(s.get_char(i));
        proof {
            assert(out@ =~= s@.subrange(0, i + 1));
        }
        i = i + 1;
    }
    proof {
        assert(s@.subrange(0, n as int) =~= s@);
    }
    out
}

/// Whether `path` has a `..` component.
pub fn path_has_dotdot(path: &str) -> (r: bool)
    ensures
        r == has_dotdot(path@),
{
    let cs = chars_of(path);
    let n = cs.len();
    let mut i: usize = 0;
    while i < n && n - i >= 2
        invariant
            cs@ == path@,
            n == cs@.len(),
            i <= n,
            forall|j: int|
                0 <= j < i && j + 2 <= n ==> !(#[trigger] cs@[j] == '.' && cs@[j + 1] == '.' && (j == 0
                    || cs@[j - 1] == '/') && (j + 2 == n || cs@[j + 2] == '/')),
        decreases n - i,
    {
        if cs[i] == '.' && cs[i + 1] == '.' && (i == 0 || cs[i - 1] == '/') && (i + 2 == n || cs[i + 2]
            == '/') {
            return true;
        }
        i = i + 1;
    }
    false
}

/// Whether `target` is `base` or lies under it.
pub fn path_is_within(base: &str, target: &str) -> (r: bool)
    ensures
        r == is_within(base@, target@),
{
    let b = chars_of(base);
    let t = chars_of(target);
    if b.len() > t.len() {
        return false;
    }
    let mut i: usize = 0;
    while i < b.len()
        invariant
            b@ == base@,
            t@ == target@,
            b.len() <= t.len(),
            i <= b.len(),
            forall|j: int| 0 <= j < i ==> #[trigger] t@[j] == b@[j],
        decreases b.len() - i,
    {
        if b[i] != t[i] {
            proof {
                assert(target@.subrange(0, base@.len() as int)[i as int] != base@[i as int]);
                assert(target@ != base@);
            }
            return false;
        }
        i = i + 1;
    }
    proof {
        assert(target@.subrange(0, base@.len() as int) =~= base@);
    }
    if b.len() == t.len() {
        proof {
            assert(target@ =~= base@);
        }
        return true;
    }
    (b.len() > 0 && b[b.len() - 1] == '/') || t[b.len()] == '/'
}

/// The verdict on a local file request: refused where the requested path has
/// a `..` component; not found where it does not resolve
/// (`canonical_target` absent); refused where it resolves outside the
/// canonical base directory; accepted otherwise.
pub fn check_local_path(requested: &str, canonical_base: &str, canonical_target: Option<&str>) -> (r:
    Result<(), PathError>)
    ensures
        has_dotdot(requested@) ==> (r matches Err(PathError::DotDot { path }) && path@ == requested@),
        !has_dotdot(requested@) && canonical_target is None ==> (r matches Err(
            PathError::NotFound { path },
        ) && path@ == requested@),
        !has_dotdot(requested@) && canonical_target is Some ==> (r == Err::<(), PathError>(
            PathError::OutsideBase,
        ) <==> !is_within(canonical_base@, canonical_target->0@)),
        r is Ok <==> (!has_dotdot(requested@) && canonical_target is Some && is_within(
            canonical_base@,
            canonical_target->0@,
        )),
{
    if path_has_dotdot(requested) {
        return Err(PathError::DotDot { path: requested.to_owned() });
    }
    match canonical_target {
        None => Err(PathError::NotFound { path: requested.to_owned() }),
        Some(t) => {
            if path_is_within(canonical_base, t) {
                Ok(())
            } else {
                Err(PathError::OutsideBase)
            }
        },
    }
}

} // verus!
