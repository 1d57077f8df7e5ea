//! Dependency ordering of managed apps: `depends_on` names must name apps,
//! app names must be unique, and apps start in an order where every
//! dependency comes before its dependents (and stop in the reverse order).
use vstd::prelude::*;
use crate::config::AppConfig;
use crate::interpolate::names;
use crate::text::{join_strings, join_with, str_eq};

verus! {

/// Indices of the apps each app depends on.
pub type DepGraph = Seq<Seq<int>>;

/// Whether app `i` may be placed after `placed`: not placed yet, and every
/// app it depends on placed already.
pub open spec fn ready(g: DepGraph, placed: Seq<int>, i: int) -> bool {
    &&& !placed.contains(i)
    &&& forall|k: int| 0 <= k < g[i].len() ==> placed.contains(#[trigger] g[i][k])
}

/// The smallest index at or after `from` of an app that is ready.
pub open spec fn next_ready(g: DepGraph, placed: Seq<int>, from: int) -> Option<int>
    decreases g.len() - from,
{
    if from < 0 || from >= g.len() {
        None
    } else if ready(g, placed, from) {
        Some(from)
    } else {
        next_ready(g, placed, from + 1)
    }
}

/// The start order after `placed`: repeatedly the smallest-index app whose
/// dependencies are all placed. `Err` holds what was placed when no app was
/// ready while some remained.
pub open spec fn order_from(g: DepGraph, placed: Seq<int>) -> Result<Seq<int>, Seq<int>>
    decreases g.len() - placed.len(),
{
    if placed.len() >= g.len() {
        Ok(placed)
    } else {
        match next_ready(g, placed, 0) {
            None => Err(placed),
            Some(i) => order_from(g, placed.push(i)),
        }
    }
}

/// The start order of the graph `g`.
pub open spec fn start_order(g: DepGraph) -> Result<Seq<int>, Seq<int>> {
    order_from(g, seq![])
}

/// Every dependency index of `g` names an app.
pub open spec fn well_indexed(g: DepGraph) -> bool {
    forall|i: int, k: int| 0 <= i < g.len() && 0 <= k < g[i].len() ==> 0 <= #[trigger] g[i][k] < g.len()
}

/// `o` lists each app of `g` exactly once, every dependency before its dependent.
pub open spec fn is_valid_order(g: DepGraph, o: Seq<int>) -> bool {
    &&& o.len() == g.len()
    &&& o.no_duplicates()
    &&& forall|j: int| 0 <= j < g.len() ==> o.contains(j)
    &&& forall|p: int| 0 <= p < o.len() ==> 0 <= #[trigger] o[p] < g.len()
    &&& forall|p: int, k: int|
        0 <= p < o.len() && 0 <= k < g[o[p]].len() ==> o.take(p).contains(#[trigger] g[o[p]][k])
}

/// What the ordering keeps while it places apps.
pub open spec fn placed_ok(g: DepGraph, placed: Seq<int>) -> bool {
    &&& placed.no_duplicates()
    &&& forall|p: int| 0 <= p < placed.len() ==> 0 <= #[trigger] placed[p] < g.len()
    &&& forall|p: int, k: int|
        0 <= p < placed.len() && 0 <= k < g[placed[p]].len() ==> placed.take(p).contains(#[trigger] g[placed[p]][k])
}

proof fn lemma_next_ready(g: DepGraph, placed: Seq<int>, from: int)
    ensures
        next_ready(g, placed, from) matches Some(i) ==> from <= i < g.len() && ready(g, placed, i),
        next_ready(g, placed, from) is None && 0 <= from ==> forall|i: int| from <= i < g.len() ==> !ready(g, placed, i),
    decreases g.len() - from,
{
    if from >= 0 && from < g.len() && !ready(g, placed, from) {
        lemma_next_ready(g, placed, from + 1);
    }
}

/// A list without repeats of numbers in `[0, n)` is at most `n` long, and
/// exactly `n` long only if it holds all of them.
proof fn lemma_range_cover(o: Seq<int>, n: int)
    requires
        0 <= n,
        o.no_duplicates(),
        forall|p: int| 0 <= p < o.len() ==> 0 <= #[trigger] o[p] < n,
    ensures
        o.len() <= n,
        o.len() == n ==> forall|j: int| 0 <= j < n ==> o.contains(j),
        (forall|j: int| 0 <= j < n ==> o.contains(j)) ==> o.len() == n,
{
    let r = vstd::set_lib::set_int_range(0, n);
    vstd::set_lib::lemma_int_range(0, n);
    o.unique_seq_to_set();
    assert(o.to_set().subset_of(r));
    vstd::set_lib::lemma_len_subset(o.to_set(), r);
    if forall|j: int| 0 <= j < n ==> o.contains(j) {
        assert(r.subset_of(o.to_set()));
        vstd::seq_lib::seq_to_set_is_finite(o);
        vstd::set_lib::lemma_len_subset(r, o.to_set());
    }
    if o.len() == n {
        assert forall|j: int| 0 <= j < n implies o.contains(j) by {
            if !o.contains(j) {
                let s = o.push(j);
                assert(s.no_duplicates()) by {
                    assert forall|a: int, b: int| 0 <= a < s.len() && 0 <= b < s.len() && a != b implies s[a] != s[b] by {
                        if a == o.len() {
                            assert(o[b] == s[b]);
                        } else if b == o.len() {
                            assert(o[a] == s[a]);
                        }
                    }
                }
                s.unique_seq_to_set();
                assert(s.to_set().subset_of(r));
                vstd::set_lib::lemma_len_subset(s.to_set(), r);
            }
        }
    }
}

proof fn lemma_push_ready(g: DepGraph, placed: Seq<int>, i: int)
    requires
        placed_ok(g, placed),
        0 <= i < g.len(),
        ready(g, placed, i),
    ensures
        placed_ok(g, placed.push(i)),
{
    let np = placed.push(i);
    assert(np.no_duplicates()) by {
        assert forall|a: int, b: int| 0 <= a < np.len() && 0 <= b < np.len() && a != b implies np[a] != np[b] by {
            if a == placed.len() {
                assert(placed[b] == np[b]);
            } else if b == placed.len() {
                assert(placed[a] == np[a]);
            } else {
                assert(placed[a] == np[a] && placed[b] == np[b]);
            }
        }
    }
    assert forall|p: int| 0 <= p < np.len() implies 0 <= #[trigger] np[p] < g.len() by {
        if p < placed.len() {
            assert(np[p] == placed[p]);
        }
    }
    assert forall|p: int, k: int| 0 <= p < np.len() && 0 <= k < g[np[p]].len() implies np.take(p).contains(#[trigger] g[np[p]][k]) by {
        if p == placed.len() {
            assert(np[p] == i);
            assert(np.take(p) =~= placed);
        } else {
            assert(np[p] == placed[p]);
            assert(np.take(p) =~= placed.take(p));
        }
    }
}

proof fn lemma_order_from_ok(g: DepGraph, placed: Seq<int>)
    requires
        placed_ok(g, placed),
    ensures
        order_from(g, placed) matches Ok(o) ==> is_valid_order(g, o) && o.subrange(0, placed.len() as int) == placed,
    decreases g.len() - placed.len(),
{
    lemma_range_cover(placed, g.len() as int);
    if placed.len() >= g.len() {
        assert(placed.subrange(0, placed.len() as int) =~= placed);
    } else {
        lemma_next_ready(g, placed, 0);
        match next_ready(g, placed, 0) {
            None => {},
            Some(i) => {
                let np = placed.push(i);
                lemma_push_ready(g, placed, i);
                lemma_order_from_ok(g, np);
                if order_from(g, np) is Ok {
                    let o = order_from(g, np)->Ok_0;
                    assert(o.subrange(0, placed.len() as int) =~= o.subrange(0, np.len() as int).subrange(0, placed.len() as int));
                    assert(np.subrange(0, placed.len() as int) =~= placed);
                }
            },
        }
    }
}

/// The apps left when the ordering is stuck: not placed, in index order.
pub open spec fn unplaced(g: DepGraph, placed: Seq<int>) -> Set<int> {
    Set::new(|i: int| 0 <= i < g.len() && !placed.contains(i))
}

proof fn lemma_order_from_err(g: DepGraph, placed: Seq<int>)
    requires
        placed_ok(g, placed),
    ensures
        order_from(g, placed) matches Err(stuck) ==> {
            &&& placed_ok(g, stuck)
            &&& stuck.len() < g.len()
            &&& forall|i: int| 0 <= i < g.len() && !stuck.contains(i) ==> !ready(g, stuck, i)
        },
    decreases g.len() - placed.len(),
{
    if placed.len() >= g.len() {
    } else {
        lemma_next_ready(g, placed, 0);
        match next_ready(g, placed, 0) {
            None => {},
            Some(i) => {
                let np = placed.push(i);
                lemma_push_ready(g, placed, i);
                lemma_order_from_err(g, np);
            },
        }
    }
}

/// When the ordering succeeds, it lists every app exactly once and each
/// dependency before the apps that depend on it.
pub proof fn start_order_is_valid(g: DepGraph)
    ensures
        start_order(g) matches Ok(o) ==> is_valid_order(g, o),
{
    lemma_order_from_ok(g, seq![]);
}

#[verifier::spinoff_prover]
#[verifier::rlimit(30)]
proof fn lemma_descend(g: DepGraph, stuck: Seq<int>, o: Seq<int>, p: int)
    requires
        0 <= p < o.len(),
        0 <= o[p] < g.len(),
        !stuck.contains(o[p]),
        forall|i: int| 0 <= i < g.len() && !stuck.contains(i) ==> !ready(g, stuck, i),
    ensures
        !is_valid_order(g, o),
    decreases p,
{
    if is_valid_order(g, o) {
        let r = o[p];
        assert(!ready(g, stuck, r));
        let k = choose|k: int| 0 <= k < g[r].len() && !stuck.contains(#[trigger] g[r][k]);
        let d = g[r][k];
        assert(o.take(p).contains(g[o[p]][k]));
        let q = choose|q: int| 0 <= q < o.take(p).len() && o.take(p)[q] == d;
        assert(o[q] == d);
        lemma_descend(g, stuck, o, q);
    }
}

/// An app left over when the ordering is stuck exists.
proof fn lemma_some_unplaced(g: DepGraph, stuck: Seq<int>)
    requires
        placed_ok(g, stuck),
        stuck.len() < g.len(),
    ensures
        exists|i: int| #[trigger] unplaced(g, stuck).contains(i),
{
    lemma_range_cover(stuck, g.len() as int);
    let j = choose|j: int| 0 <= j < g.len() && !stuck.contains(j);
    assert(unplaced(g, stuck).contains(j));
}

/// Every app left over when the ordering is stuck depends on another one left over.
proof fn lemma_unplaced_closed(g: DepGraph, stuck: Seq<int>)
    requires
        well_indexed(g),
        forall|i: int| 0 <= i < g.len() && !stuck.contains(i) ==> !ready(g, stuck, i),
    ensures
        forall|i: int| #[trigger] unplaced(g, stuck).contains(i) ==> exists|k: int|
            0 <= k < g[i].len() && 0 <= #[trigger] g[i][k] < g.len() && !stuck.contains(g[i][k]),
{
    assert forall|i: int| #[trigger] unplaced(g, stuck).contains(i) implies exists|k: int|
        0 <= k < g[i].len() && 0 <= #[trigger] g[i][k] < g.len() && !stuck.contains(g[i][k]) by {
        assert(!ready(g, stuck, i));
        let k = choose|k: int| 0 <= k < g[i].len() && !stuck.contains(#[trigger] g[i][k]);
        assert(0 <= g[i][k] < g.len());
    }
}

/// When the ordering gets stuck, no start order exists at all: some apps are
/// left over (not placed), and every app left over depends on another app
/// left over, so there is a cycle.
pub proof fn stuck_order_has_no_valid_order(g: DepGraph, o: Seq<int>)
    requires
        well_indexed(g),
        start_order(g) is Err,
    ensures
        !is_valid_order(g, o),
        exists|i: int| #[trigger] unplaced(g, start_order(g)->Err_0).contains(i),
        forall|i: int| #[trigger] unplaced(g, start_order(g)->Err_0).contains(i) ==> exists|k: int|
            0 <= k < g[i].len() && 0 <= #[trigger] g[i][k] < g.len() && !start_order(g)->Err_0.contains(g[i][k]),
{
    lemma_order_from_err(g, seq![]);
    let stuck = start_order(g)->Err_0;
    lemma_some_unplaced(g, stuck);
    lemma_unplaced_closed(g, stuck);
    if is_valid_order(g, o) {
        let r = choose|i: int| #[trigger] unplaced(g, stuck).contains(i);
        assert(o.contains(r));
        let p = choose|p: int| 0 <= p < o.len() && o[p] == r;
        lemma_descend(g, stuck, o, p);
    }
}


/// The names of a list of apps.
pub open spec fn app_names(apps: Seq<AppConfig>) -> Seq<Seq<char>> {
    apps.map_values(|a: AppConfig| a.name@)
}

/// The dependency names of each app of a list.
pub open spec fn app_deps(apps: Seq<AppConfig>) -> Seq<Seq<Seq<char>>> {
    apps.map_values(|a: AppConfig| names(a.depends_on@))
}

/// Index of the first `n` in `ns` at or after `from` (`ns.len()` if none).
pub open spec fn first_index(ns: Seq<Seq<char>>, n: Seq<char>, from: int) -> int
    decreases ns.len() - from,
{
    if from < 0 || from >= ns.len() {
        ns.len() as int
    } else if ns[from] == n {
        from
    } else {
        first_index(ns, n, from + 1)
    }
}

/// Whether the name at `j` was used by an earlier app.
pub open spec fn repeats_earlier(ns: Seq<Seq<char>>, j: int) -> bool {
    exists|i: int| 0 <= i < j && ns[i] == ns[j]
}

/// The first app at or after `from` whose name an earlier app already has.
pub open spec fn first_repeat(ns: Seq<Seq<char>>, from: int) -> Option<int>
    decreases ns.len() - from,
{
    if from < 0 || from >= ns.len() {
        None
    } else if repeats_earlier(ns, from) {
        Some(from)
    } else {
        first_repeat(ns, from + 1)
    }
}

/// The first dependency at or after `from` of the list `ds` that names no app.
pub open spec fn first_missing(ns: Seq<Seq<char>>, ds: Seq<Seq<char>>, from: int) -> Option<int>
    decreases ds.len() - from,
{
    if from < 0 || from >= ds.len() {
        None
    } else if !ns.contains(ds[from]) {
        Some(from)
    } else {
        first_missing(ns, ds, from + 1)
    }
}

/// The first (app, dependency) at or after app `from` whose dependency names no app.
pub open spec fn first_unknown(ns: Seq<Seq<char>>, deps: Seq<Seq<Seq<char>>>, from: int) -> Option<(int, int)>
    decreases deps.len() - from,
{
    if from < 0 || from >= deps.len() {
        None
    } else {
        match first_missing(ns, deps[from], 0) {
            Some(k) => Some((from, k)),
            None => first_unknown(ns, deps, from + 1),
        }
    }
}

/// The dependency graph: each dependency name replaced by the index of the app it names.
pub open spec fn dep_graph(ns: Seq<Seq<char>>, deps: Seq<Seq<Seq<char>>>) -> DepGraph {
    Seq::new(deps.len(), |i: int| Seq::new(deps[i].len(), |k: int| first_index(ns, deps[i][k], 0)))
}

/// The names of the apps from index `from` on that `stuck` does not hold, in order.
pub open spec fn left_over_names(ns: Seq<Seq<char>>, stuck: Seq<int>, from: int) -> Seq<Seq<char>>
    decreases ns.len() - from,
{
    if from < 0 || from >= ns.len() {
        seq![]
    } else if stuck.contains(from) {
        left_over_names(ns, stuck, from + 1)
    } else {
        seq![ns[from]] + left_over_names(ns, stuck, from + 1)
    }
}

/// Why apps cannot be ordered, over character sequences.
pub enum DependencyFault {
    /// Two apps share this name.
    DuplicateApp(Seq<char>),
    /// The app (first) depends on a name (second) that no app has.
    UnknownDependency(Seq<char>, Seq<char>),
    /// These apps (in config order) depend on each other in a cycle.
    Cycle(Seq<Seq<char>>),
}

/// Why apps cannot be ordered.
#[derive(Debug, Clone, PartialEq, Eq)]
pub enum DependencyError {
    DuplicateApp { name: String },
    UnknownDependency { app: String, dependency: String },
    Cycle { apps: Vec<String> },
}

impl DependencyError {
    /// The failure this error reports.
    pub open spec fn fault(&self) -> DependencyFault {
        match self {
            DependencyError::DuplicateApp { name } => DependencyFault::DuplicateApp(name@),
            DependencyError::UnknownDependency { app, dependency } => DependencyFault::UnknownDependency(app@, dependency@),
            DependencyError::Cycle { apps } => DependencyFault::Cycle(names(apps@)),
        }
    }
}

/// The start order of apps with names `ns` and dependency names `deps`:
/// names must be unique and dependencies must name apps; then apps come in
/// `start_order` of their dependency graph.
pub open spec fn dependency_outcome(ns: Seq<Seq<char>>, deps: Seq<Seq<Seq<char>>>) -> Result<Seq<int>, DependencyFault> {
    match first_repeat(ns, 0) {
        Some(j) => Err(DependencyFault::DuplicateApp(ns[j])),
        None => match first_unknown(ns, deps, 0) {
            Some((i, k)) => Err(DependencyFault::UnknownDependency(ns[i], deps[i][k])),
            None => match start_order(dep_graph(ns, deps)) {
                Ok(o) => Ok(o),
                Err(stuck) => Err(DependencyFault::Cycle(left_over_names(ns, stuck, 0))),
            },
        },
    }
}

/// The indices of a list of positions.
pub open spec fn index_view(v: Seq<usize>) -> Seq<int> {
    v.map_values(|x: usize| x as int)
}


proof fn lemma_first_index(ns: Seq<Seq<char>>, n: Seq<char>, from: int)
    requires
        0 <= from <= ns.len(),
    ensures
        from <= first_index(ns, n, from) <= ns.len(),
        first_index(ns, n, from) < ns.len() ==> ns[first_index(ns, n, from)] == n,
        forall|q: int| from <= q < first_index(ns, n, from) ==> ns[q] != n,
    decreases ns.len() - from,
{
    if from < ns.len() && ns[from] != n {
        lemma_first_index(ns, n, from + 1);
    }
}

/// Index of the first app named `n` (the number of apps if none is).
fn find_app(apps: &Vec<AppConfig>, n: &String) -> (r: usize)
    ensures
        r == first_index(app_names(apps@), n@, 0),
        r <= apps.len(),
        r < apps.len() <==> app_names(apps@).contains(n@),
{
    let ghost ns = app_names(apps@);
    let mut i: usize = 0;
    while i < apps.len()
        invariant
            i <= apps.len(),
            ns == app_names(apps@),
            first_index(ns, n@, 0) == first_index(ns, n@, i as int),
        decreases apps.len() - i,
    {
        if str_eq(apps[i].name.as_str(), n.as_str()) {
            proof {
                lemma_first_index(ns, n@, 0);
            }
            return i;
        }
        i = i + 1;
    }
    proof {
        lemma_first_index(ns, n@, 0);
        if ns.contains(n@) {
            let q = choose|q: int| 0 <= q < ns.len() && ns[q] == n@;
            assert(ns[q] != n@);
        }
    }
    i
}

/// The first app whose name an earlier app already has.
fn find_repeat(apps: &Vec<AppConfig>) -> (r: Option<usize>)
    ensures
        match r {
            Some(j) => first_repeat(app_names(apps@), 0) == Some(j as int) && j < apps.len(),
            None => first_repeat(app_names(apps@), 0) is None,
        },
{
    let ghost ns = app_names(apps@);
    let mut j: usize = 0;
    while j < apps.len()
        invariant
            j <= apps.len(),
            ns == app_names(apps@),
            first_repeat(ns, 0) == first_repeat(ns, j as int),
        decreases apps.len() - j,
    {
        let mut i: usize = 0;
        while i < j
            invariant
                i <= j < apps.len(),
                ns == app_names(apps@),
                first_repeat(ns, 0) == first_repeat(ns, j as int),
                forall|q: int| 0 <= q < i ==> ns[q] != ns[j as int],
            decreases j - i,
        {
            if str_eq(apps[i].name.as_str(), apps[j].name.as_str()) {
                assert(ns[i as int] == ns[j as int]);
                assert(repeats_earlier(ns, j as int));
                return Some(j);
            }
            i = i + 1;
        }
        assert(!repeats_earlier(ns, j as int));
        j = j + 1;
    }
    None
}

/// The first dependency of `deps` that names no app.
fn find_missing(apps: &Vec<AppConfig>, deps: &Vec<String>) -> (r: Option<usize>)
    ensures
        match r {
            Some(k) => first_missing(app_names(apps@), names(deps@), 0) == Some(k as int) && k < deps.len(),
            None => first_missing(app_names(apps@), names(deps@), 0) is None,
        },
{
    let ghost ns = app_names(apps@);
    let ghost ds = names(deps@);
    let mut k: usize = 0;
    while k < deps.len()
        invariant
            k <= deps.len(),
            ns == app_names(apps@),
            ds == names(deps@),
            first_missing(ns, ds, 0) == first_missing(ns, ds, k as int),
        decreases deps.len() - k,
    {
        let at = find_app(apps, &deps[k]);
        if at == apps.len() {
            return Some(k);
        }
        k = k + 1;
    }
    None
}

/// The first app with a dependency that names no app, and that dependency.
fn find_unknown(apps: &Vec<AppConfig>) -> (r: Option<(usize, usize)>)
    ensures
        match r {
            Some((i, k)) => first_unknown(app_names(apps@), app_deps(apps@), 0) == Some((i as int, k as int))
                && i < apps.len() && k < apps@[i as int].depends_on.len(),
            None => first_unknown(app_names(apps@), app_deps(apps@), 0) is None,
        },
{
    let ghost ns = app_names(apps@);
    let ghost deps = app_deps(apps@);
    let mut i: usize = 0;
    while i < apps.len()
        invariant
            i <= apps.len(),
            ns == app_names(apps@),
            deps == app_deps(apps@),
            first_unknown(ns, deps, 0) == first_unknown(ns, deps, i as int),
        decreases apps.len() - i,
    {
        assert(deps[i as int] == names(apps@[i as int].depends_on@));
        match find_missing(apps, &apps[i].depends_on) {
            Some(k) => {
                return Some((i, k));
            },
            None => {},
        }
        i = i + 1;
    }
    None
}

/// The view of a graph of app positions.
pub open spec fn graph_view(g: Seq<Vec<usize>>) -> DepGraph {
    g.map_values(|row: Vec<usize>| index_view(row@))
}

/// The dependency graph of the apps, by position.
fn build_graph(apps: &Vec<AppConfig>) -> (g: Vec<Vec<usize>>)
    ensures
        graph_view(g@) == dep_graph(app_names(apps@), app_deps(apps@)),
{
    let ghost ns = app_names(apps@);
    let ghost deps = app_deps(apps@);
    let ghost dg = dep_graph(ns, deps);
    let mut g: Vec<Vec<usize>> = Vec::new();
    let mut i: usize = 0;
    while i < apps.len()
        invariant
            i <= apps.len(),
            g.len() == i,
            ns == app_names(apps@),
            deps == app_deps(apps@),
            dg == dep_graph(ns, deps),
            forall|q: int| 0 <= q < i ==> index_view(#[trigger] g@[q]@) == dg[q],
        decreases apps.len() - i,
    {
        let ds = &apps[i].depends_on;
        assert(deps[i as int] == names(ds@));
        let mut row: Vec<usize> = Vec::new();
        let mut k: usize = 0;
        while k < ds.len()
            invariant
                k <= ds.len(),
                row.len() == k,
                i < apps.len(),
                ds == apps@[i as int].depends_on,
                ns == app_names(apps@),
                deps == app_deps(apps@),
                dg == dep_graph(ns, deps),
                deps[i as int] == names(ds@),
                forall|q: int| 0 <= q < k ==> row@[q] as int == dg[i as int][q],
            decreases ds.len() - k,
        {
            let at = find_app(apps, &ds[k]);
            row.push(at);
            k = k + 1;
        }
        assert(index_view(row@) =~= dg[i as int]);
        g.push(row);
        i = i + 1;
    }
    assert(graph_view(g@) =~~= dg);
    g
}


/// `done` marks exactly the apps that `placed` holds, and `placed` holds positions of apps.
pub open spec fn marks(done: Seq<bool>, placed: Seq<int>) -> bool {
    &&& forall|j: int| 0 <= j < done.len() ==> (done[j] <==> placed.contains(j))
    &&& forall|p: int| 0 <= p < placed.len() ==> 0 <= #[trigger] placed[p] < done.len()
}

/// The smallest-position app that is ready to be placed.
fn find_ready(g: &Vec<Vec<usize>>, done: &Vec<bool>, Ghost(placed): Ghost<Seq<int>>) -> (r: Option<usize>)
    requires
        done.len() == g.len(),
        marks(done@, placed),
    ensures
        match r {
            Some(i) => next_ready(graph_view(g@), placed, 0) == Some(i as int) && i < g.len(),
            None => next_ready(graph_view(g@), placed, 0) is None,
        },
{
    let ghost dg = graph_view(g@);
    let n = g.len();
    let mut i: usize = 0;
    while i < n
        invariant
            i <= n == g.len() == done.len(),
            dg == graph_view(g@),
            marks(done@, placed),
            next_ready(dg, placed, 0) == next_ready(dg, placed, i as int),
        decreases n - i,
    {
        if !done[i] {
            let row = &g[i];
            assert(dg[i as int] == index_view(row@));
            let mut k: usize = 0;
            let mut all: bool = true;
            while k < row.len()
                invariant
                    k <= row.len(),
                    i < n == g.len() == done.len(),
                    row == g@[i as int],
                    dg == graph_view(g@),
                    dg[i as int] == index_view(row@),
                    marks(done@, placed),
                    all <==> forall|q: int| 0 <= q < k ==> placed.contains(#[trigger] dg[i as int][q]),
                decreases row.len() - k,
            {
                let d = row[k];
                let here: bool = d < n && done[d];
                proof {
                    assert(dg[i as int][k as int] == d as int);
                    if placed.contains(d as int) {
                        let p = choose|p: int| 0 <= p < placed.len() && placed[p] == d as int;
                        assert(0 <= placed[p] < done.len());
                    }
                    assert(here <==> placed.contains(dg[i as int][k as int]));
                }
                all = all && here;
                k = k + 1;
            }
            if all {
                assert(ready(dg, placed, i as int));
                return Some(i);
            }
            assert(!ready(dg, placed, i as int));
        } else {
            assert(placed.contains(i as int));
        }
        i = i + 1;
    }
    None
}

/// The names of the apps `done` leaves unmarked, in order.
fn left_over(apps: &Vec<AppConfig>, done: &Vec<bool>, Ghost(placed): Ghost<Seq<int>>) -> (r: Vec<String>)
    requires
        done.len() == apps.len(),
        marks(done@, placed),
    ensures
        names(r@) == left_over_names(app_names(apps@), placed, 0),
{
    let ghost ns = app_names(apps@);
    let mut out: Vec<String> = Vec::new();
    let mut i: usize = 0;
    while i < apps.len()
        invariant
            i <= apps.len() == done.len(),
            ns == app_names(apps@),
            marks(done@, placed),
            names(out@) + left_over_names(ns, placed, i as int) == left_over_names(ns, placed, 0),
        decreases apps.len() - i,
    {
        if !done[i] {
            let ghost before = out@;
            out.push(apps[i].name.clone());
            assert(names(out@) =~= names(before).push(ns[i as int]));
            assert(names(out@) + left_over_names(ns, placed, i + 1) =~= names(before) + left_over_names(ns, placed, i as int));
        }
        i = i + 1;
    }
    assert(names(out@) + left_over_names(ns, placed, i as int) =~= names(out@));
    out
}

/// The order in which apps start: every app after the apps it depends on,
/// the lowest position first among the apps that are ready. Fails when two
/// apps share a name, when a dependency names no app, or when apps depend on
/// each other in a cycle (naming the apps that could not be placed).
pub fn dependency_start_order(apps: &Vec<AppConfig>) -> (r: Result<Vec<usize>, DependencyError>)
    ensures
        match r {
            Ok(v) => dependency_outcome(app_names(apps@), app_deps(apps@)) == Ok::<Seq<int>, DependencyFault>(index_view(v@)),
            Err(e) => dependency_outcome(app_names(apps@), app_deps(apps@)) == Err::<Seq<int>, DependencyFault>(e.fault()),
        },
{
    let ghost ns = app_names(apps@);
    let ghost deps = app_deps(apps@);
    match find_repeat(apps) {
        Some(j) => {
            return Err(DependencyError::DuplicateApp { name: apps[j].name.clone() });
        },
        None => {},
    }
    match find_unknown(apps) {
        Some((i, k)) => {
            assert(deps[i as int] == names(apps@[i as int].depends_on@));
            return Err(DependencyError::UnknownDependency {
                app: apps[i].name.clone(),
                dependency: apps[i].depends_on[k].clone(),
            });
        },
        None => {},
    }
    let g = build_graph(apps);
    let ghost dg = graph_view(g@);
    let n = apps.len();
    let mut done: Vec<bool> = Vec::new();
    while done.len() < n
        invariant
            done.len() <= n,
            forall|j: int| 0 <= j < done.len() ==> !done@[j],
        decreases n - done.len(),
    {
        done.push(false);
    }
    let mut placed: Vec<usize> = Vec::new();
    assert(index_view(placed@) =~= seq![]);
    while placed.len() < n
        invariant
            n == apps.len() == g.len() == done.len(),
            dg == graph_view(g@),
            dg == dep_graph(ns, deps),
            ns == app_names(apps@),
            deps == app_deps(apps@),
            placed.len() <= n,
            marks(done@, index_view(placed@)),
            start_order(dg) == order_from(dg, index_view(placed@)),
            first_repeat(ns, 0) is None,
            first_unknown(ns, deps, 0) is None,
        decreases n - placed.len(),
    {
        let ghost pv = index_view(placed@);
        match find_ready(&g, &done, Ghost(pv)) {
            Some(i) => {
                placed.push(i);
                done.set(i, true);
                proof {
                    assert(index_view(placed@) =~= pv.push(i as int));
                    assert forall|j: int| 0 <= j < done.len() implies (done@[j] <==> index_view(placed@).contains(j)) by {
                        if j == i as int {
                            assert(index_view(placed@)[pv.len() as int] == j);
                        } else if pv.contains(j) {
                            let p = choose|p: int| 0 <= p < pv.len() && pv[p] == j;
                            assert(index_view(placed@)[p] == j);
                        } else if index_view(placed@).contains(j) {
                            let p = choose|p: int| 0 <= p < index_view(placed@).len() && index_view(placed@)[p] == j;
                            if p < pv.len() {
                                assert(pv[p] == j);
                            }
                        }
                    }
                }
            },
            None => {
                let apps_left = left_over(apps, &done, Ghost(pv));
                assert(order_from(dg, pv) == Err::<Seq<int>, Seq<int>>(pv));
                assert(start_order(dep_graph(ns, deps)) == Err::<Seq<int>, Seq<int>>(pv));
                assert(dependency_outcome(ns, deps) == Err::<Seq<int>, DependencyFault>(DependencyFault::Cycle(left_over_names(ns, pv, 0))));
                let e = DependencyError::Cycle { apps: apps_left };
                assert(e.fault() == DependencyFault::Cycle(left_over_names(ns, pv, 0)));
                return Err(e);
            },
        }
    }
    proof {
        assert(order_from(dg, index_view(placed@)) == Ok::<Seq<int>, Seq<int>>(index_view(placed@)));
    }
    Ok(placed)
}


/// The order in which apps stop: the start order reversed, so that every app
/// stops before the apps it depends on. Fails exactly as the start order does.
pub fn dependency_stop_order(apps: &Vec<AppConfig>) -> (r: Result<Vec<usize>, DependencyError>)
    ensures
        match r {
            Ok(v) => dependency_outcome(app_names(apps@), app_deps(apps@)) == Ok::<Seq<int>, DependencyFault>(index_view(v@).reverse()),
            Err(e) => dependency_outcome(app_names(apps@), app_deps(apps@)) == Err::<Seq<int>, DependencyFault>(e.fault()),
        },
{
    match dependency_start_order(apps) {
        Ok(start) => {
            let mut out: Vec<usize> = Vec::new();
            let mut i: usize = start.len();
            while i > 0
                invariant
                    i <= start.len(),
                    out.len() == start.len() - i,
                    forall|q: int| 0 <= q < out.len() ==> out@[q] == start@[start.len() - 1 - q],
                decreases i,
            {
                i = i - 1;
                out.push(start[i]);
            }
            assert(index_view(out@).reverse() =~= index_view(start@));
            Ok(out)
        },
        Err(e) => Err(e),
    }
}

/// Some app before position `p` of `o` is named `d`.
pub open spec fn named_before(ns: Seq<Seq<char>>, o: Seq<int>, p: int, d: Seq<char>) -> bool {
    exists|q: int| 0 <= q < p && #[trigger] ns[o[q]] == d
}

/// Some app after position `p` of `s` is named `d`.
pub open spec fn named_after(ns: Seq<Seq<char>>, s: Seq<int>, p: int, d: Seq<char>) -> bool {
    exists|q: int| p < q < s.len() && #[trigger] ns[s[q]] == d
}

/// `o` starts apps named `ns` (with dependency names `deps`) each exactly
/// once, every app after an app named by each of its dependencies.
pub open spec fn is_start_order(ns: Seq<Seq<char>>, deps: Seq<Seq<Seq<char>>>, o: Seq<int>) -> bool {
    &&& o.len() == ns.len()
    &&& o.no_duplicates()
    &&& forall|p: int| 0 <= p < o.len() ==> 0 <= #[trigger] o[p] < ns.len()
    &&& forall|p: int, k: int| 0 <= p < o.len() && 0 <= k < deps[o[p]].len() ==>
        named_before(ns, o, p, #[trigger] deps[o[p]][k])
}

/// `s` stops apps named `ns` each exactly once, every app before the apps
/// named by its dependencies.
pub open spec fn is_stop_order(ns: Seq<Seq<char>>, deps: Seq<Seq<Seq<char>>>, s: Seq<int>) -> bool {
    &&& s.len() == ns.len()
    &&& s.no_duplicates()
    &&& forall|p: int| 0 <= p < s.len() ==> 0 <= #[trigger] s[p] < ns.len()
    &&& forall|p: int, k: int| 0 <= p < s.len() && 0 <= k < deps[s[p]].len() ==>
        named_after(ns, s, p, #[trigger] deps[s[p]][k])
}

proof fn lemma_no_repeat(ns: Seq<Seq<char>>, from: int)
    requires
        0 <= from,
        first_repeat(ns, from) is None,
    ensures
        forall|i: int, j: int| 0 <= i < j < ns.len() && from <= j ==> ns[i] != ns[j],
    decreases ns.len() - from,
{
    if from < ns.len() {
        lemma_no_repeat(ns, from + 1);
        assert forall|i: int, j: int| 0 <= i < j < ns.len() && from <= j implies ns[i] != ns[j] by {
            if j == from {
                assert(!repeats_earlier(ns, from));
            }
        }
    }
}

proof fn lemma_no_missing(ns: Seq<Seq<char>>, ds: Seq<Seq<char>>, from: int)
    requires
        0 <= from,
        first_missing(ns, ds, from) is None,
    ensures
        forall|k: int| from <= k < ds.len() ==> ns.contains(ds[k]),
    decreases ds.len() - from,
{
    if from < ds.len() {
        lemma_no_missing(ns, ds, from + 1);
    }
}

proof fn lemma_no_unknown(ns: Seq<Seq<char>>, deps: Seq<Seq<Seq<char>>>, from: int)
    requires
        0 <= from,
        first_unknown(ns, deps, from) is None,
    ensures
        forall|i: int, k: int| from <= i < deps.len() && 0 <= k < deps[i].len() ==> ns.contains(#[trigger] deps[i][k]),
    decreases deps.len() - from,
{
    if from < deps.len() {
        lemma_no_missing(ns, deps[from], 0);
        lemma_no_unknown(ns, deps, from + 1);
    }
}

/// With unique names and known dependencies, a dependency name resolves to
/// the one app that has it.
proof fn lemma_resolved(ns: Seq<Seq<char>>, deps: Seq<Seq<Seq<char>>>, i: int, k: int)
    requires
        first_repeat(ns, 0) is None,
        first_unknown(ns, deps, 0) is None,
        0 <= i < deps.len(),
        0 <= k < deps[i].len(),
    ensures
        0 <= dep_graph(ns, deps)[i][k] < ns.len(),
        ns[dep_graph(ns, deps)[i][k]] == deps[i][k],
        forall|j: int| 0 <= j < ns.len() && ns[j] == deps[i][k] ==> j == dep_graph(ns, deps)[i][k],
{
    lemma_no_repeat(ns, 0);
    lemma_no_unknown(ns, deps, 0);
    let d = deps[i][k];
    assert(ns.contains(d));
    lemma_first_index(ns, d, 0);
    let w = choose|w: int| 0 <= w < ns.len() && ns[w] == d;
    assert(first_index(ns, d, 0) <= w);
    assert(dep_graph(ns, deps)[i][k] == first_index(ns, d, 0));
}

/// The start order lists every app once and starts each app after the apps
/// its `depends_on` names.
pub proof fn start_order_respects_dependencies(ns: Seq<Seq<char>>, deps: Seq<Seq<Seq<char>>>)
    requires
        deps.len() == ns.len(),
        dependency_outcome(ns, deps) is Ok,
    ensures
        is_start_order(ns, deps, dependency_outcome(ns, deps)->Ok_0),
{
    let g = dep_graph(ns, deps);
    let o = dependency_outcome(ns, deps)->Ok_0;
    assert(start_order(g) == Ok::<Seq<int>, Seq<int>>(o));
    start_order_is_valid(g);
    assert forall|p: int, k: int| 0 <= p < o.len() && 0 <= k < deps[o[p]].len() implies
        named_before(ns, o, p, #[trigger] deps[o[p]][k]) by {
        lemma_resolved(ns, deps, o[p], k);
        assert(g[o[p]][k] == dep_graph(ns, deps)[o[p]][k]);
        assert(o.take(p).contains(g[o[p]][k]));
        let q = choose|q: int| 0 <= q < o.take(p).len() && o.take(p)[q] == g[o[p]][k];
        assert(o[q] == g[o[p]][k]);
        assert(ns[o[q]] == deps[o[p]][k]);
    }
}

/// The stop order lists every app once and stops each app before the apps
/// its `depends_on` names.
pub proof fn stop_order_respects_dependencies(ns: Seq<Seq<char>>, deps: Seq<Seq<Seq<char>>>)
    requires
        deps.len() == ns.len(),
        dependency_outcome(ns, deps) is Ok,
    ensures
        is_stop_order(ns, deps, dependency_outcome(ns, deps)->Ok_0.reverse()),
{
    let o = dependency_outcome(ns, deps)->Ok_0;
    let s = o.reverse();
    start_order_respects_dependencies(ns, deps);
    let n = o.len();
    assert(s.no_duplicates()) by {
        assert forall|a: int, b: int| 0 <= a < s.len() && 0 <= b < s.len() && a != b implies s[a] != s[b] by {
            assert(s[a] == o[n - 1 - a] && s[b] == o[n - 1 - b]);
        }
    }
    assert forall|p: int| 0 <= p < s.len() implies 0 <= #[trigger] s[p] < ns.len() by {
        assert(s[p] == o[n - 1 - p]);
    }
    assert forall|p: int, k: int| 0 <= p < s.len() && 0 <= k < deps[s[p]].len() implies
        named_after(ns, s, p, #[trigger] deps[s[p]][k]) by {
        let pp = n - 1 - p;
        assert(s[p] == o[pp]);
        assert(named_before(ns, o, pp, deps[o[pp]][k]));
        let q = choose|q: int| 0 <= q < pp && #[trigger] ns[o[q]] == deps[o[pp]][k];
        assert(s[n - 1 - q] == o[q]);
        assert(ns[s[n - 1 - q]] == deps[s[p]][k]);
    }
}

/// When apps depend on each other in a cycle, no order of the apps starts
/// every app after the apps it depends on.
pub proof fn cycle_has_no_start_order(ns: Seq<Seq<char>>, deps: Seq<Seq<Seq<char>>>, o: Seq<int>)
    requires
        deps.len() == ns.len(),
        dependency_outcome(ns, deps) matches Err(DependencyFault::Cycle(_)),
    ensures
        !is_start_order(ns, deps, o),
{
    let g = dep_graph(ns, deps);
    assert(first_repeat(ns, 0) is None);
    assert(first_unknown(ns, deps, 0) is None);
    assert(start_order(g) is Err);
    assert forall|i: int, k: int| 0 <= i < g.len() && 0 <= k < g[i].len() implies 0 <= #[trigger] g[i][k] < g.len() by {
        lemma_resolved(ns, deps, i, k);
    }
    if is_start_order(ns, deps, o) {
        lemma_range_cover(o, ns.len() as int);
        assert forall|p: int, k: int| 0 <= p < o.len() && 0 <= k < g[o[p]].len() implies o.take(p).contains(#[trigger] g[o[p]][k]) by {
            lemma_resolved(ns, deps, o[p], k);
            assert(named_before(ns, o, p, deps[o[p]][k]));
            let q = choose|q: int| 0 <= q < p && #[trigger] ns[o[q]] == deps[o[p]][k];
            assert(o.take(p)[q] == o[q]);
        }
        assert(is_valid_order(g, o));
        stuck_order_has_no_valid_order(g, o);
    }
}


proof fn lemma_repeat_found(ns: Seq<Seq<char>>, from: int, i: int, j: int)
    requires
        0 <= from <= j,
        0 <= i < j < ns.len(),
        ns[i] == ns[j],
    ensures
        first_repeat(ns, from) is Some,
    decreases j - from,
{
    if from < j && !repeats_earlier(ns, from) {
        lemma_repeat_found(ns, from + 1, i, j);
    } else if from == j {
        assert(repeats_earlier(ns, j));
    }
}

proof fn lemma_unknown_found(ns: Seq<Seq<char>>, deps: Seq<Seq<Seq<char>>>, from: int, i: int, k: int)
    requires
        0 <= from <= i < deps.len(),
        0 <= k < deps[i].len(),
        !ns.contains(deps[i][k]),
    ensures
        first_unknown(ns, deps, from) is Some,
    decreases i - from,
{
    if first_missing(ns, deps[from], 0) is None {
        if from == i {
            lemma_no_missing(ns, deps[i], 0);
        } else {
            lemma_unknown_found(ns, deps, from + 1, i, k);
        }
    }
}

/// Two apps with one name are refused, whatever they depend on.
pub proof fn duplicate_names_are_refused(ns: Seq<Seq<char>>, deps: Seq<Seq<Seq<char>>>, i: int, j: int)
    requires
        0 <= i < j < ns.len(),
        ns[i] == ns[j],
    ensures
        dependency_outcome(ns, deps) matches Err(DependencyFault::DuplicateApp(n))
            && exists|a: int, b: int| 0 <= a < b < ns.len() && #[trigger] ns[a] == n && #[trigger] ns[b] == n,
{
    lemma_repeat_found(ns, 0, i, j);
    let r = first_repeat(ns, 0)->Some_0;
    lemma_first_repeat_bounds(ns, 0);
    assert(repeats_earlier(ns, r));
    let q = choose|q: int| 0 <= q < r && ns[q] == ns[r];
    assert(0 <= q < r < ns.len() && ns[q] == ns[r] && ns[r] == ns[r]);
}

proof fn lemma_first_repeat_bounds(ns: Seq<Seq<char>>, from: int)
    requires
        0 <= from,
    ensures
        first_repeat(ns, from) matches Some(r) ==> from <= r < ns.len() && repeats_earlier(ns, r),
    decreases ns.len() - from,
{
    if from < ns.len() && !repeats_earlier(ns, from) {
        lemma_first_repeat_bounds(ns, from + 1);
    }
}

/// With unique names, a dependency that names no app is refused.
pub proof fn unknown_dependencies_are_refused(ns: Seq<Seq<char>>, deps: Seq<Seq<Seq<char>>>, i: int, k: int)
    requires
        forall|a: int, b: int| 0 <= a < b < ns.len() ==> ns[a] != ns[b],
        0 <= i < deps.len(),
        0 <= k < deps[i].len(),
        !ns.contains(deps[i][k]),
    ensures
        dependency_outcome(ns, deps) is Err,
        dependency_outcome(ns, deps) matches Err(DependencyFault::UnknownDependency(_, _)),
{
    if first_repeat(ns, 0) is Some {
        lemma_first_repeat_bounds(ns, 0);
        let r = first_repeat(ns, 0)->Some_0;
        let q = choose|q: int| 0 <= q < r && ns[q] == ns[r];
        assert(ns[q] != ns[r]);
    }
    lemma_unknown_found(ns, deps, 0, i, k);
}

/// With unique names and known dependencies, apps that can be started each
/// after its dependencies do get a start order: only a cycle is refused.
pub proof fn acyclic_apps_get_an_order(ns: Seq<Seq<char>>, deps: Seq<Seq<Seq<char>>>, o: Seq<int>)
    requires
        deps.len() == ns.len(),
        forall|a: int, b: int| 0 <= a < b < ns.len() ==> ns[a] != ns[b],
        forall|a: int, k: int| 0 <= a < deps.len() && 0 <= k < deps[a].len() ==> ns.contains(#[trigger] deps[a][k]),
        is_start_order(ns, deps, o),
    ensures
        dependency_outcome(ns, deps) is Ok,
{
    if first_repeat(ns, 0) is Some {
        lemma_first_repeat_bounds(ns, 0);
        let r = first_repeat(ns, 0)->Some_0;
        let q = choose|q: int| 0 <= q < r && ns[q] == ns[r];
        assert(ns[q] != ns[r]);
    }
    if first_unknown(ns, deps, 0) is Some {
        lemma_first_unknown_bounds(ns, deps, 0);
    }
    if dependency_outcome(ns, deps) is Err {
        cycle_has_no_start_order(ns, deps, o);
    }
}

proof fn lemma_first_unknown_bounds(ns: Seq<Seq<char>>, deps: Seq<Seq<Seq<char>>>, from: int)
    requires
        0 <= from,
    ensures
        first_unknown(ns, deps, from) matches Some((i, k)) ==> from <= i < deps.len() && 0 <= k < deps[i].len()
            && !ns.contains(deps[i][k]),
    decreases deps.len() - from,
{
    if from < deps.len() {
        lemma_first_missing_bounds(ns, deps[from], 0);
        if first_missing(ns, deps[from], 0) is None {
            lemma_first_unknown_bounds(ns, deps, from + 1);
        }
    }
}

proof fn lemma_first_missing_bounds(ns: Seq<Seq<char>>, ds: Seq<Seq<char>>, from: int)
    requires
        0 <= from,
    ensures
        first_missing(ns, ds, from) matches Some(k) ==> from <= k < ds.len() && !ns.contains(ds[k]),
    decreases ds.len() - from,
{
    if from < ds.len() && ns.contains(ds[from]) {
        lemma_first_missing_bounds(ns, ds, from + 1);
    }
}

/// The message of apps that cannot be ordered.
pub open spec fn dependency_message(f: DependencyFault) -> Seq<char> {
    match f {
        DependencyFault::DuplicateApp(name) => "Duplicate app name "@ + name,
        DependencyFault::UnknownDependency(app, dep) => "App "@ + app + " depends on unknown app "@ + dep,
        DependencyFault::Cycle(apps) => "Dependency cycle detected among apps: "@ + join_with(apps, ", "@),
    }
}

impl DependencyError {
    /// The message of this error.
    pub fn message(&self) -> (m: String)
        ensures
            m@ == dependency_message(self.fault()),
    {
        match self {
            DependencyError::DuplicateApp { name } => {
                let mut m = String::from_str("Duplicate app name ");
                m.append(name.as_str());
                m
            },
            DependencyError::UnknownDependency { app, dependency } => {
                let mut m = String::from_str("App ");
                m.append(app.as_str());
                m.append(" depends on unknown app ");
                m.append(dependency.as_str());
                m
            },
            DependencyError::Cycle { apps } => {
                let mut m = String::from_str("Dependency cycle detected among apps: ");
                let joined = join_strings(apps, ", ");
                m.append(joined.as_str());
                m
            },
        }
    }
}

} // verus!
