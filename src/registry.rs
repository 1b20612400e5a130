use vstd::prelude::*;
use vstd::string::StrSliceExecFns;

verus! {

/// A module as the registry sees it: its name and the names of the modules
/// it depends on.
#[derive(Debug, PartialEq, Eq)]
pub struct ModuleDecl {
    pub name: String,
    pub deps: Vec<String>,
}

/// Why the registry could not order the modules.
#[derive(Debug, PartialEq, Eq)]
pub enum RegistryError {
    /// `module` depends on `dependency`, which no module is called.
    UnknownDependency { module: String, dependency: String },
    /// The dependencies form a cycle.
    DependencyCycle,
}

/// Strict lexicographic order on names, by character code.
pub open spec fn name_less(a: Seq<char>, b: Seq<char>) -> bool
    decreases a.len(),
{
    if b.len() == 0 {
        false
    } else if a.len() == 0 {
        true
    } else if (a[0] as u32) < (b[0] as u32) {
        true
    } else if (a[0] as u32) > (b[0] as u32) {
        false
    } else {
        name_less(a.subrange(1, a.len() as int), b.subrange(1, b.len() as int))
    }
}

pub proof fn lemma_name_less_transitive(a: Seq<char>, b: Seq<char>, c: Seq<char>)
    requires
        name_less(a, b),
        name_less(b, c),
    ensures
        name_less(a, c),
    decreases a.len(),
{
    if a.len() > 0 && b.len() > 0 && c.len() > 0 {
        if (a[0] as u32) == (b[0] as u32) && (b[0] as u32) == (c[0] as u32) {
            lemma_name_less_transitive(
                a.subrange(1, a.len() as int),
                b.subrange(1, b.len() as int),
                c.subrange(1, c.len() as int),
            );
        }
    }
}

pub proof fn lemma_name_less_irreflexive(a: Seq<char>)
    ensures
        !name_less(a, a),
    decreases a.len(),
{
    if a.len() > 0 {
        lemma_name_less_irreflexive(a.subrange(1, a.len() as int));
    }
}

pub open spec fn names_unique(ms: Seq<ModuleDecl>) -> bool {
    forall|i: int, j: int| 0 <= i < j < ms.len() ==> ms[i].name@ != ms[j].name@
}

/// Module `i` names module `j` among its dependencies.
pub open spec fn depends_on(ms: Seq<ModuleDecl>, i: int, j: int) -> bool {
    exists|k: int| 0 <= k < ms[i].deps@.len() && #[trigger] ms[i].deps@[k]@ == ms[j].name@
}

/// No module is called `name`.
pub open spec fn is_unknown(ms: Seq<ModuleDecl>, name: Seq<char>) -> bool {
    forall|j: int| 0 <= j < ms.len() ==> #[trigger] ms[j].name@ != name
}

/// Some module names a dependency that no module is called.
pub open spec fn has_unknown_dependency(ms: Seq<ModuleDecl>) -> bool {
    exists|i: int, k: int|
        0 <= i < ms.len() && 0 <= k < ms[i].deps@.len() && is_unknown(ms, #[trigger] ms[i].deps@[k]@)
}

/// A non-empty set of modules each of which depends on one of the set: the
/// dependencies have a cycle.
pub open spec fn is_cyclic_set(ms: Seq<ModuleDecl>, s: Set<int>) -> bool {
    &&& exists|i: int| #[trigger] s.contains(i)
    &&& forall|i: int|
        #[trigger] s.contains(i) ==> 0 <= i < ms.len() && exists|j: int|
            s.contains(j) && #[trigger] depends_on(ms, i, j)
}

pub open spec fn has_cycle(ms: Seq<ModuleDecl>) -> bool {
    exists|s: Set<int>| #[trigger] is_cyclic_set(ms, s)
}

pub open spec fn in_prefix(order: Seq<usize>, p: int, j: int) -> bool {
    exists|q: int| 0 <= q < p && order[q] == j
}

/// Module `j` may start at step `p`: it is not placed yet and all its
/// dependencies are.
pub open spec fn ready_at(ms: Seq<ModuleDecl>, order: Seq<usize>, p: int, j: int) -> bool {
    &&& 0 <= j < ms.len()
    &&& !in_prefix(order, p, j)
    &&& forall|d: int| 0 <= d < ms.len() && depends_on(ms, j, d) ==> in_prefix(order, p, d)
}

/// `order` lists every module once, each after its dependencies, and each
/// step takes the ready module with the least name.
pub open spec fn is_registry_order(ms: Seq<ModuleDecl>, order: Seq<usize>) -> bool {
    &&& forall|i: int| 0 <= i < ms.len() ==> #[trigger] in_prefix(order, order.len() as int, i)
    &&& forall|p: int| 0 <= p < order.len() ==> order[p] < ms.len()
    &&& forall|p: int, q: int| 0 <= p < q < order.len() ==> order[p] != order[q]
    &&& forall|p: int| 0 <= p < order.len() ==> #[trigger] ready_at(ms, order, p, order[p] as int)
    &&& forall|p: int, j: int|
        0 <= p < order.len() && #[trigger] ready_at(ms, order, p, j) ==> !name_less(
            ms[j].name@,
            ms[order[p] as int].name@,
        )
}


/// No position before `p` holds a member of a cyclic set.
proof fn lemma_prefix_avoids_cycle(ms: Seq<ModuleDecl>, order: Seq<usize>, s: Set<int>, p: int)
    requires
        0 <= p <= order.len(),
        forall|q: int| 0 <= q < order.len() ==> #[trigger] ready_at(ms, order, q, order[q] as int),
        forall|q: int| 0 <= q < order.len() ==> order[q] < ms.len(),
        is_cyclic_set(ms, s),
    ensures
        forall|q: int| 0 <= q < p ==> !s.contains(order[q] as int),
    decreases p,
{
    if p > 0 {
        lemma_prefix_avoids_cycle(ms, order, s, p - 1);
        let i = order[p - 1] as int;
        if s.contains(i) {
            let j = choose|j: int| s.contains(j) && #[trigger] depends_on(ms, i, j);
            assert(ready_at(ms, order, p - 1, i));
            assert(0 <= j < ms.len());
            assert(in_prefix(order, p - 1, j));
            let q = choose|q: int| 0 <= q < p - 1 && order[q] == j;
            assert(!s.contains(order[q] as int));
        }
    }
}

/// A registry order leaves no room for a cycle.
pub proof fn lemma_order_excludes_cycle(ms: Seq<ModuleDecl>, order: Seq<usize>)
    requires
        is_registry_order(ms, order),
    ensures
        !has_cycle(ms),
{
    if has_cycle(ms) {
        let s = choose|s: Set<int>| #[trigger] is_cyclic_set(ms, s);
        lemma_prefix_avoids_cycle(ms, order, s, order.len() as int);
        let i = choose|i: int| #[trigger] s.contains(i);
        assert(in_prefix(order, order.len() as int, i));
        let q = choose|q: int| 0 <= q < order.len() && order[q] == i;
        assert(!s.contains(order[q] as int));
    }
}

pub open spec fn count_unplaced(s: Seq<bool>) -> nat
    decreases s.len(),
{
    if s.len() == 0 {
        0
    } else {
        count_unplaced(s.subrange(0, s.len() - 1)) + if s[s.len() - 1] {
            0nat
        } else {
            1nat
        }
    }
}

proof fn lemma_count_unplaced_mark(s: Seq<bool>, b: int)
    requires
        0 <= b < s.len(),
        !s[b],
    ensures
        count_unplaced(s.update(b, true)) + 1 == count_unplaced(s),
    decreases s.len(),
{
    let t = s.update(b, true);
    let sp = s.subrange(0, s.len() - 1);
    let tp = t.subrange(0, t.len() - 1);
    if b < s.len() - 1 {
        assert(tp =~= sp.update(b, true));
        lemma_count_unplaced_mark(sp, b);
    } else {
        assert(tp =~= sp);
    }
}

fn name_lt(a: &String, b: &String) -> (r: bool)
    ensures
        r == name_less(a@, b@),
{
    let sa = a.as_str();
    let sb = b.as_str();
    let la = sa.unicode_len();
    let lb = sb.unicode_len();
    let mut i: usize = 0;
    proof {
        assert(a@.subrange(0, a@.len() as int) =~= a@);
        assert(b@.subrange(0, b@.len() as int) =~= b@);
    }
    while i < la && i < lb
        invariant
            sa@ == a@,
            sb@ == b@,
            la == a@.len(),
            lb == b@.len(),
            i <= la,
            i <= lb,
            name_less(a@, b@) == name_less(a@.subrange(i as int, la as int), b@.subrange(i as int, lb as int)),
        decreases la - i,
    {
        let ca = sa.get_char(i);
        let cb = sb.get_char(i);
        let ghost ra = a@.subrange(i as int, la as int);
        let ghost rb = b@.subrange(i as int, lb as int);
        proof {
            assert(ra[0] == ca);
            assert(rb[0] == cb);
            assert(ra.subrange(1, ra.len() as int) =~= a@.subrange(i + 1, la as int));
            assert(rb.subrange(1, rb.len() as int) =~= b@.subrange(i + 1, lb as int));
        }
        if (ca as u32) < (cb as u32) {
            return true;
        }
        if (ca as u32) > (cb as u32) {
            return false;
        }
        i = i + 1;
    }
    i == la && i < lb
}

fn find_module(ms: &Vec<ModuleDecl>, name: &String) -> (r: Option<usize>)
    ensures
        match r {
            Some(j) => j < ms.len() && ms@[j as int].name@ == name@,
            None => is_unknown(ms@, name@),
        },
{
    let mut j: usize = 0;
    while j < ms.len()
        invariant
            j <= ms.len(),
            forall|x: int| 0 <= x < j ==> #[trigger] ms@[x].name@ != name@,
        decreases ms.len() - j,
    {
        if ms[j].name == *name {
            return Some(j);
        }
        j = j + 1;
    }
    None
}

/// Each module's dependencies as positions in the table.
pub open spec fn resolves(ms: Seq<ModuleDecl>, d: Seq<Vec<usize>>) -> bool {
    &&& d.len() == ms.len()
    &&& forall|i: int| 0 <= i < ms.len() ==> #[trigger] d[i]@.len() == ms[i].deps@.len()
    &&& forall|i: int, k: int|
        0 <= i < ms.len() && 0 <= k < ms[i].deps@.len() ==> #[trigger] d[i]@[k] < ms.len()
            && ms[d[i]@[k] as int].name@ == ms[i].deps@[k]@
}

fn resolve_deps(ms: &Vec<ModuleDecl>) -> (r: Result<Vec<Vec<usize>>, RegistryError>)
    ensures
        match r {
            Ok(d) => resolves(ms@, d@) && !has_unknown_dependency(ms@),
            Err(RegistryError::UnknownDependency { module, dependency }) => exists|i: int, k: int|
                0 <= i < ms.len() && 0 <= k < ms@[i].deps@.len() && ms@[i].name@ == module@
                    && #[trigger] ms@[i].deps@[k]@ == dependency@ && is_unknown(ms@, dependency@),
            Err(RegistryError::DependencyCycle) => false,
        },
{
    let mut out: Vec<Vec<usize>> = Vec::new();
    let mut i: usize = 0;
    while i < ms.len()
        invariant
            i <= ms.len(),
            out@.len() == i,
            forall|x: int| 0 <= x < i ==> #[trigger] out@[x]@.len() == ms@[x].deps@.len(),
            forall|x: int, k: int|
                0 <= x < i && 0 <= k < ms@[x].deps@.len() ==> #[trigger] out@[x]@[k] < ms.len()
                    && ms@[out@[x]@[k] as int].name@ == ms@[x].deps@[k]@,
        decreases ms.len() - i,
    {
        let deps = &ms[i].deps;
        let mut row: Vec<usize> = Vec::new();
        let mut k: usize = 0;
        while k < deps.len()
            invariant
                k <= deps.len(),
                i < ms.len(),
                deps@ == ms@[i as int].deps@,
                row@.len() == k,
                forall|y: int| 0 <= y < k ==> #[trigger] row@[y] < ms.len() && ms@[row@[y] as int].name@
                    == deps@[y]@,
            decreases deps.len() - k,
        {
            match find_module(ms, &deps[k]) {
                Some(j) => {
                    row.push(j);
                },
                None => {
                    return Err(
                        RegistryError::UnknownDependency {
                            module: ms[i].name.clone(),
                            dependency: deps[k].clone(),
                        },
                    );
                },
            }
            k = k + 1;
        }
        out.push(row);
        i = i + 1;
    }
    proof {
        if has_unknown_dependency(ms@) {
            let (x, k) = choose|x: int, k: int|
                0 <= x < ms.len() && 0 <= k < ms@[x].deps@.len() && is_unknown(ms@, #[trigger] ms@[x].deps@[k]@);
            assert(ms@[out@[x]@[k] as int].name@ == ms@[x].deps@[k]@);
        }
    }
    Ok(out)
}


fn all_deps_placed(di: &Vec<usize>, placed: &Vec<bool>) -> (r: bool)
    requires
        forall|k: int| 0 <= k < di@.len() ==> #[trigger] di@[k] < placed@.len(),
    ensures
        r == forall|k: int| 0 <= k < di@.len() ==> #[trigger] placed@[di@[k] as int],
{
    let mut k: usize = 0;
    while k < di.len()
        invariant
            k <= di@.len(),
            forall|x: int| 0 <= x < di@.len() ==> #[trigger] di@[x] < placed@.len(),
            forall|x: int| 0 <= x < k ==> #[trigger] placed@[di@[x] as int],
        decreases di.len() - k,
    {
        if !placed[di[k]] {
            return false;
        }
        k = k + 1;
    }
    true
}

proof fn lemma_in_prefix_push(order: Seq<usize>, b: usize, p: int, j: int)
    requires
        0 <= p <= order.len(),
    ensures
        in_prefix(order.push(b), p, j) == in_prefix(order, p, j),
        in_prefix(order.push(b), order.len() + 1int, j) == (in_prefix(order, order.len() as int, j) || j
            == b),
{
    let o2 = order.push(b);
    if in_prefix(order, p, j) {
        let q = choose|q: int| 0 <= q < p && order[q] == j;
        assert(o2[q] == order[q]);
    }
    if in_prefix(o2, p, j) {
        let q = choose|q: int| 0 <= q < p && o2[q] == j;
        assert(o2[q] == order[q]);
    }
    if in_prefix(order, order.len() as int, j) {
        let q = choose|q: int| 0 <= q < order.len() && order[q] == j;
        assert(o2[q] == order[q]);
    }
    if j == b {
        assert(o2[order.len() as int] == b);
    }
    if in_prefix(o2, order.len() + 1int, j) && j != b {
        let q = choose|q: int| 0 <= q < order.len() + 1 && o2[q] == j;
        assert(q < order.len());
        assert(o2[q] == order[q]);
    }
}

proof fn lemma_ready_at_push(ms: Seq<ModuleDecl>, order: Seq<usize>, b: usize, p: int, j: int)
    requires
        0 <= p <= order.len(),
    ensures
        ready_at(ms, order.push(b), p, j) == ready_at(ms, order, p, j),
{
    lemma_in_prefix_push(order, b, p, j);
    assert forall|d: int| 0 <= d < ms.len() implies in_prefix(order.push(b), p, d) == in_prefix(order, p, d) by {
        lemma_in_prefix_push(order, b, p, d);
    }
}

/// Module `i` is ready exactly when it is not placed and every resolved
/// dependency is.
proof fn lemma_ready_iff(ms: Seq<ModuleDecl>, d: Seq<Vec<usize>>, placed: Seq<bool>, order: Seq<usize>, i: int)
    requires
        resolves(ms, d),
        names_unique(ms),
        placed.len() == ms.len(),
        forall|x: int| 0 <= x < ms.len() ==> (placed[x] <==> #[trigger] in_prefix(order, order.len() as int, x)),
        0 <= i < ms.len(),
    ensures
        ready_at(ms, order, order.len() as int, i) == (!placed[i] && forall|k: int|
            0 <= k < d[i]@.len() ==> #[trigger] placed[d[i]@[k] as int]),
{
    let n = order.len() as int;
    assert(d[i]@.len() == ms[i].deps@.len());
    if !placed[i] && forall|k: int| 0 <= k < d[i]@.len() ==> #[trigger] placed[d[i]@[k] as int] {
        assert forall|x: int| 0 <= x < ms.len() && depends_on(ms, i, x) implies in_prefix(order, n, x) by {
            let k = choose|k: int| 0 <= k < ms[i].deps@.len() && #[trigger] ms[i].deps@[k]@ == ms[x].name@;
            let y = d[i]@[k] as int;
            assert(y < ms.len() && ms[y].name@ == ms[i].deps@[k]@);
            assert(placed[y]);
            if y != x {
                if y < x {
                    assert(ms[y].name@ != ms[x].name@);
                } else {
                    assert(ms[x].name@ != ms[y].name@);
                }
            }
        }
    }
    if ready_at(ms, order, n, i) {
        assert forall|k: int| 0 <= k < d[i]@.len() implies #[trigger] placed[d[i]@[k] as int] by {
            let y = d[i]@[k] as int;
            assert(y < ms.len() && ms[y].name@ == ms[i].deps@[k]@);
            assert(depends_on(ms, i, y));
        }
    }
}

/// What holds of a partial registry order: positions in range, no module
/// twice, each placed when ready, and with the least name of those ready.
pub open spec fn is_partial_order(ms: Seq<ModuleDecl>, order: Seq<usize>) -> bool {
    &&& forall|p: int| 0 <= p < order.len() ==> order[p] < ms.len()
    &&& forall|p: int, q: int| 0 <= p < q < order.len() ==> order[p] != order[q]
    &&& forall|p: int| 0 <= p < order.len() ==> #[trigger] ready_at(ms, order, p, order[p] as int)
    &&& forall|p: int, j: int|
        0 <= p < order.len() && #[trigger] ready_at(ms, order, p, j) ==> !name_less(
            ms[j].name@,
            ms[order[p] as int].name@,
        )
}

/// Placing the least-named ready module keeps a partial order one.
proof fn lemma_place_next(ms: Seq<ModuleDecl>, order: Seq<usize>, b: usize)
    requires
        is_partial_order(ms, order),
        ready_at(ms, order, order.len() as int, b as int),
        forall|j: int| #[trigger] ready_at(ms, order, order.len() as int, j) ==> !name_less(ms[j].name@, ms[b as int].name@),
    ensures
        is_partial_order(ms, order.push(b)),
{
    let len = order.len() as int;
    let o2 = order.push(b);
    assert forall|p: int, q: int| 0 <= p < q < o2.len() implies o2[p] != o2[q] by {
        assert(o2[p] == order[p]);
        if q == len {
            if order[p] == b {
                assert(in_prefix(order, len, b as int));
            }
        } else {
            assert(o2[q] == order[q]);
        }
    }
    assert forall|p: int| 0 <= p < o2.len() implies #[trigger] ready_at(ms, o2, p, o2[p] as int) by {
        lemma_ready_at_push(ms, order, b, p, o2[p] as int);
        if p < len {
            assert(o2[p] == order[p]);
        }
    }
    assert forall|p: int, j: int|
        0 <= p < o2.len() && #[trigger] ready_at(ms, o2, p, j) implies !name_less(
        ms[j].name@,
        ms[o2[p] as int].name@,
    ) by {
        lemma_ready_at_push(ms, order, b, p, j);
        if p < len {
            assert(o2[p] == order[p]);
        }
    }
}

/// Where unplaced modules remain and none is ready, the unplaced modules
/// form a cyclic set.
proof fn lemma_stuck_means_cycle(ms: Seq<ModuleDecl>, placed: Seq<bool>, order: Seq<usize>)
    requires
        placed.len() == ms.len(),
        forall|x: int| 0 <= x < ms.len() ==> (placed[x] <==> #[trigger] in_prefix(order, order.len() as int, x)),
        forall|j: int| 0 <= j < ms.len() ==> !#[trigger] ready_at(ms, order, order.len() as int, j),
        exists|j: int| 0 <= j < ms.len() && !#[trigger] placed[j],
    ensures
        has_cycle(ms),
{
    let len = order.len() as int;
    let s = Set::new(|x: int| 0 <= x < ms.len() && !placed[x]);
    let w = choose|j: int| 0 <= j < ms.len() && !#[trigger] placed[j];
    assert(s.contains(w));
    assert forall|x: int| #[trigger] s.contains(x) implies 0 <= x < ms.len() && exists|y: int|
        s.contains(y) && #[trigger] depends_on(ms, x, y) by {
        assert(!ready_at(ms, order, len, x));
        assert(!in_prefix(order, len, x));
        let y = choose|y: int| 0 <= y < ms.len() && depends_on(ms, x, y) && !in_prefix(order, len, y);
        assert(s.contains(y));
    }
    assert(is_cyclic_set(ms, s));
}

/// The ready module with the least name, if any, and whether any module is
/// still unplaced.
fn pick_next(ms: &Vec<ModuleDecl>, d: &Vec<Vec<usize>>, placed: &Vec<bool>, order: &Vec<usize>) -> (r: (
    Option<usize>,
    bool,
))
    requires
        resolves(ms@, d@),
        names_unique(ms@),
        placed@.len() == ms.len(),
        forall|x: int| 0 <= x < ms.len() ==> (placed@[x] <==> #[trigger] in_prefix(order@, order@.len() as int, x)),
    ensures
        match r.0 {
            Some(b) => b < ms.len() && ready_at(ms@, order@, order@.len() as int, b as int) && forall|j: int|
                #[trigger] ready_at(ms@, order@, order@.len() as int, j) ==> !name_less(ms@[j].name@, ms@[b as int].name@),
            None => forall|j: int| 0 <= j < ms.len() ==> !#[trigger] ready_at(ms@, order@, order@.len() as int, j),
        },
        r.1 == exists|j: int| 0 <= j < ms.len() && !#[trigger] placed@[j],
{
    let ghost len = order@.len() as int;
    let n = ms.len();
    let mut best: Option<usize> = None;
    let mut any_unplaced = false;
    let mut i: usize = 0;
    while i < n
        invariant
            i <= n,
            n == ms.len(),
            resolves(ms@, d@),
            names_unique(ms@),
            placed@.len() == n,
            forall|x: int| 0 <= x < n ==> (placed@[x] <==> #[trigger] in_prefix(order@, len, x)),
            len == order@.len(),
            match best {
                Some(b) => b < i && ready_at(ms@, order@, len, b as int) && forall|j: int|
                    0 <= j < i && #[trigger] ready_at(ms@, order@, len, j) ==> !name_less(
                        ms@[j].name@,
                        ms@[b as int].name@,
                    ),
                None => forall|j: int| 0 <= j < i ==> !#[trigger] ready_at(ms@, order@, len, j),
            },
            any_unplaced ==> exists|j: int| 0 <= j < n && !#[trigger] placed@[j],
            !any_unplaced ==> forall|j: int| 0 <= j < i ==> #[trigger] placed@[j],
        decreases n - i,
    {
        proof {
            lemma_ready_iff(ms@, d@, placed@, order@, i as int);
            assert(d@[i as int]@.len() == ms@[i as int].deps@.len());
        }
        if !placed[i] {
            any_unplaced = true;
            if all_deps_placed(&d[i], placed) {
                match best {
                    None => {
                        best = Some(i);
                        proof {
                            lemma_name_less_irreflexive(ms@[i as int].name@);
                        }
                    },
                    Some(b) => {
                        if name_lt(&ms[i].name, &ms[b].name) {
                            proof {
                                lemma_name_less_irreflexive(ms@[i as int].name@);
                                assert forall|j: int|
                                    0 <= j < i + 1 && #[trigger] ready_at(ms@, order@, len, j) implies !name_less(
                                    ms@[j].name@,
                                    ms@[i as int].name@,
                                ) by {
                                    if j < i && name_less(ms@[j].name@, ms@[i as int].name@) {
                                        lemma_name_less_transitive(
                                            ms@[j].name@,
                                            ms@[i as int].name@,
                                            ms@[b as int].name@,
                                        );
                                    }
                                }
                            }
                            best = Some(i);
                        }
                    },
                }
            }
        }
        i = i + 1;
    }
    (best, any_unplaced)
}

/// The modules in the order in which they go through each phase: every
/// module after the modules it depends on, and of the modules that could go
/// next the one with the least name. An error where a dependency names no
/// module, or where the dependencies have a cycle.
pub fn order_modules(ms: &Vec<ModuleDecl>) -> (r: Result<Vec<usize>, RegistryError>)
    requires
        names_unique(ms@),
    ensures
        match r {
            Ok(order) => is_registry_order(ms@, order@) && !has_unknown_dependency(ms@) && !has_cycle(
                ms@,
            ),
            Err(RegistryError::UnknownDependency { module, dependency }) => exists|i: int, k: int|
                0 <= i < ms.len() && 0 <= k < ms@[i].deps@.len() && ms@[i].name@ == module@
                    && #[trigger] ms@[i].deps@[k]@ == dependency@ && is_unknown(ms@, dependency@),
            Err(RegistryError::DependencyCycle) => !has_unknown_dependency(ms@) && has_cycle(ms@),
        },
{
    let d = match resolve_deps(ms) {
        Ok(d) => d,
        Err(e) => {
            return Err(e);
        },
    };
    let n = ms.len();
    let mut placed: Vec<bool> = Vec::new();
    let mut i: usize = 0;
    while i < n
        invariant
            i <= n,
            placed@.len() == i,
            forall|x: int| 0 <= x < i ==> !#[trigger] placed@[x],
        decreases n - i,
    {
        placed.push(false);
        i = i + 1;
    }
    let mut order: Vec<usize> = Vec::new();
    proof {
        assert forall|x: int| 0 <= x < n implies (placed@[x] <==> #[trigger] in_prefix(order@, order@.len() as int, x)) by {}
    }
    loop
        invariant
            placed@.len() == n,
            n == ms.len(),
            names_unique(ms@),
            resolves(ms@, d@),
            !has_unknown_dependency(ms@),
            forall|x: int| 0 <= x < n ==> (placed@[x] <==> #[trigger] in_prefix(order@, order@.len() as int, x)),
            is_partial_order(ms@, order@),
        decreases count_unplaced(placed@),
    {
        let (best, any_unplaced) = pick_next(ms, &d, &placed, &order);
        match best {
            None => {
                if any_unplaced {
                    proof {
                        lemma_stuck_means_cycle(ms@, placed@, order@);
                    }
                    return Err(RegistryError::DependencyCycle);
                } else {
                    proof {
                        assert forall|x: int| 0 <= x < ms.len() implies #[trigger] in_prefix(
                            order@,
                            order@.len() as int,
                            x,
                        ) by {
                            assert(placed@[x]);
                        }
                        lemma_order_excludes_cycle(ms@, order@);
                    }
                    return Ok(order);
                }
            },
            Some(b) => {
                let ghost old_order = order@;
                let ghost len = order@.len() as int;
                proof {
                    lemma_count_unplaced_mark(placed@, b as int);
                    lemma_place_next(ms@, order@, b);
                }
                placed.set(b, true);
                order.push(b);
                proof {
                    assert(order@ == old_order.push(b));
                    assert forall|x: int| 0 <= x < n implies (placed@[x] <==> #[trigger] in_prefix(
                        order@,
                        order@.len() as int,
                        x,
                    )) by {
                        lemma_in_prefix_push(old_order, b, len, x);
                    }
                }
            },
        }
    }
}

} // verus!
