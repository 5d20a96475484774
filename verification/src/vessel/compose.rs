//! Compose files: multi-container service definitions, and the order in
//! which their services are brought up.

use vstd::prelude::*;

use std::collections::HashMap;

use crate::text::{str_eq, views};

verus! {

/// Compose file representation.
#[derive(Debug, Clone)]
pub struct ComposeFile {
    /// Compose file version.
    pub version: Option<String>,
    /// Services defined, by name.
    pub services: HashMap<String, ComposeService>,
    /// Networks defined.
    pub networks: Option<HashMap<String, NetworkConfig>>,
    /// Volumes defined.
    pub volumes: Option<HashMap<String, VolumeConfig>>,
}

/// Configuration for a compose service.
#[derive(Debug, Clone, Default)]
pub struct ComposeService {
    /// Image to use.
    pub image: Option<String>,
    /// Build configuration.
    pub build: Option<BuildConfig>,
    /// Container name.
    pub container_name: Option<String>,
    /// Environment variables.
    pub environment: Option<HashMap<String, String>>,
    /// Port mappings.
    pub ports: Option<Vec<String>>,
    /// Volume mounts.
    pub volumes: Option<Vec<String>>,
    /// Names of the services this one depends on.
    pub depends_on: Option<Vec<String>>,
    /// Restart policy.
    pub restart: Option<String>,
    /// Command to run.
    pub command: Option<String>,
    /// Working directory.
    pub working_dir: Option<String>,
}

/// Build configuration.
#[derive(Debug, Clone)]
pub struct BuildConfig {
    /// Build context.
    pub context: Option<String>,
    /// Dockerfile path.
    pub dockerfile: Option<String>,
    /// Build args.
    pub args: Option<HashMap<String, String>>,
}

/// Network configuration.
#[derive(Debug, Clone)]
pub struct NetworkConfig {
    pub driver: Option<String>,
    pub external: Option<bool>,
}

/// Volume configuration.
#[derive(Debug, Clone)]
pub struct VolumeConfig {
    pub driver: Option<String>,
    pub external: Option<bool>,
}

/// The services that a service map holds, each under the text of its name.
pub uninterp spec fn compose_services(m: HashMap<String, ComposeService>) -> Map<
    Seq<char>,
    ComposeService,
>;

/// `HashMap::keys` on a service map, collected. The order of the walk depends
/// on the map's per-process hash seed and is not stated: only that every
/// service name comes out exactly once.
#[verifier::external_body]
fn service_keys(m: &HashMap<String, ComposeService>) -> (r: Vec<&String>)
    ensures
        r@.map_values(|s: &String| s@).no_duplicates(),
        r@.map_values(|s: &String| s@).to_set() == compose_services(*m).dom(),
{
    m.keys().collect()
}

/// `HashMap::get` on a service map: the service stored under the name, if
/// any. A map holds finitely many services.
#[verifier::external_body]
fn service_get<'a>(m: &'a HashMap<String, ComposeService>, k: &str) -> (r: Option<
    &'a ComposeService,
>)
    ensures
        match r {
            Some(v) => compose_services(*m).dom().finite() && compose_services(*m).contains_key(k@)
                && compose_services(*m)[k@] == *v,
            None => compose_services(*m).dom().finite() && !compose_services(*m).contains_key(k@),
        },
{
    m.get(k)
}

/// A finite map of `n` services.
pub open spec fn counts_services(m: Map<Seq<char>, ComposeService>, n: usize) -> bool {
    m.dom().finite() && m.dom().len() == n
}

/// `HashMap::len` on a service map: how many services it holds (finitely many).
#[verifier::external_body]
fn service_count(m: &HashMap<String, ComposeService>) -> (r: usize)
    ensures
        counts_services(compose_services(*m), r),
{
    m.len()
}

/// The names a service depends on.
pub open spec fn service_deps(s: ComposeService) -> Seq<Seq<char>> {
    match s.depends_on {
        Some(v) => views(v@),
        None => Seq::empty(),
    }
}

/// The state of a depth-first walk: the names seen so far, and the services
/// finished so far, in the order they finished.
pub struct DfsState {
    pub visited: Set<Seq<char>>,
    pub order: Seq<Seq<char>>,
}

/// Visits `n`: a name seen before is skipped; an unknown name is only marked
/// seen; a service is marked seen, its dependencies are visited in their
/// listed order, and then it finishes. `fuel` bounds the nesting, and is
/// never exhausted when it exceeds the number of services not yet seen.
pub open spec fn dfs_visit(
    m: Map<Seq<char>, ComposeService>,
    n: Seq<char>,
    st: DfsState,
    fuel: nat,
) -> DfsState
    decreases fuel, 0nat,
{
    if st.visited.contains(n) {
        st
    } else if !m.contains_key(n) {
        DfsState { visited: st.visited.insert(n), order: st.order }
    } else if fuel == 0 {
        st
    } else {
        let inner = dfs_visit_all(
            m,
            service_deps(m[n]),
            DfsState { visited: st.visited.insert(n), order: st.order },
            (fuel - 1) as nat,
        );
        DfsState { visited: inner.visited, order: inner.order.push(n) }
    }
}

/// Visits each of `ns` in turn.
pub open spec fn dfs_visit_all(
    m: Map<Seq<char>, ComposeService>,
    ns: Seq<Seq<char>>,
    st: DfsState,
    fuel: nat,
) -> DfsState
    decreases fuel, ns.len() + 1,
{
    if ns.len() == 0 {
        st
    } else {
        dfs_visit_all(m, ns.drop_first(), dfs_visit(m, ns[0], st, fuel), fuel)
    }
}

/// The names of the services of `m`, in the order a depth-first walk from
/// `roots` finishes them: each service after the dependencies it reaches.
pub open spec fn dependency_order(m: Map<Seq<char>, ComposeService>, roots: Seq<Seq<char>>) -> Seq<
    Seq<char>,
> {
    dfs_visit_all(
        m,
        roots,
        DfsState { visited: Set::empty(), order: Seq::empty() },
        m.dom().len() + 1,
    ).order
}

fn contains_name(v: &Vec<String>, n: &str) -> (r: bool)
    ensures
        r == views(v@).contains(n@),
{
    let mut i: usize = 0;
    while i < v.len()
        invariant
            i <= v@.len(),
            forall|j: int| 0 <= j < i ==> v@[j]@ != n@,
        decreases v@.len() - i,
    {
        if str_eq(v[i].as_str(), n) {
            assert(views(v@)[i as int] == n@);
            return true;
        }
        i = i + 1;
    }
    assert(!views(v@).contains(n@)) by {
        if views(v@).contains(n@) {
            let j = choose|j: int| 0 <= j < views(v@).len() && views(v@)[j] == n@;
            assert(v@[j]@ == n@);
        }
    }
    false
}

proof fn lemma_unseen_fuel(m: Map<Seq<char>, ComposeService>, vis: Set<Seq<char>>, n: Seq<char>)
    requires
        m.dom().finite(),
        m.contains_key(n),
        !vis.contains(n),
    ensures
        m.dom().difference(vis).len() >= 1,
        m.dom().difference(vis.insert(n)).len() == m.dom().difference(vis).len() - 1,
{
    let d = m.dom().difference(vis);
    assert(d.contains(n));
    assert(m.dom().difference(vis.insert(n)) =~= d.remove(n));
    vstd::set::axiom_set_difference_finite(m.dom(), vis);
    vstd::set::axiom_set_remove_len(d, n);
    if d.len() == 0 {
        vstd::set_lib::lemma_set_empty_equivalency_len(d);
    }
}

proof fn lemma_more_seen_fuel(
    m: Map<Seq<char>, ComposeService>,
    vis: Set<Seq<char>>,
    more: Set<Seq<char>>,
)
    requires
        m.dom().finite(),
        vis.subset_of(more),
    ensures
        m.dom().difference(more).len() <= m.dom().difference(vis).len(),
{
    vstd::set::axiom_set_difference_finite(m.dom(), vis);
    vstd::set_lib::lemma_len_subset(m.dom().difference(more), m.dom().difference(vis));
}

fn visit(
    services: &HashMap<String, ComposeService>,
    name: &str,
    visited: &mut Vec<String>,
    order: &mut Vec<String>,
    Ghost(fuel): Ghost<nat>,
)
    requires
        fuel >= compose_services(*services).dom().difference(views(old(visited)@).to_set()).len()
            + 1,
        compose_services(*services).dom().finite(),
    ensures
        views(old(visited)@).to_set().subset_of(views(final(visited)@).to_set()),
        ({
            let st = dfs_visit(
                compose_services(*services),
                name@,
                DfsState { visited: views(old(visited)@).to_set(), order: views(old(order)@) },
                fuel,
            );
            st.visited == views(final(visited)@).to_set() && st.order == views(final(order)@)
        }),
    decreases fuel,
{
    let ghost m = compose_services(*services);
    let ghost vis0 = views(visited@).to_set();
    if contains_name(visited, name) {
        return;
    }
    let ghost before = visited@;
    visited.push(String::from_str(name));
    assert(views(visited@) =~= views(before).push(name@));
    proof {
        views(before).lemma_push_to_set_commute(name@);
    }
    assert(views(visited@).to_set() =~= vis0.insert(name@));
    let found = service_get(services, name);
    match found {
        None => {},
        Some(svc) => {
            proof {
                lemma_unseen_fuel(m, vis0, name@);
            }
            let ghost deps = service_deps(m[name@]);
            let ghost inner_fuel: nat = (fuel - 1) as nat;
            let ghost start = DfsState { visited: vis0.insert(name@), order: views(order@) };
            match &svc.depends_on {
                None => {
                    assert(deps =~= Seq::<Seq<char>>::empty());
                },
                Some(ds) => {
                    assert(deps == views(ds@));
                    assert(deps.skip(0) =~= deps);
                    let mut j: usize = 0;
                    while j < ds.len()
                        invariant
                            m == compose_services(*services),
                            m.dom().finite(),
                            fuel >= 1,
                            inner_fuel == fuel - 1,
                            deps == views(ds@),
                            j <= ds@.len(),
                            vis0.subset_of(views(visited@).to_set()),
                            inner_fuel >= m.dom().difference(views(visited@).to_set()).len() + 1,
                            dfs_visit_all(m, deps, start, inner_fuel) == dfs_visit_all(
                                m,
                                deps.skip(j as int),
                                DfsState {
                                    visited: views(visited@).to_set(),
                                    order: views(order@),
                                },
                                inner_fuel,
                            ),
                        decreases ds@.len() - j,
                    {
                        let ghost vis_before = views(visited@).to_set();
                        let ghost order_before = views(order@);
                        visit(services, ds[j].as_str(), visited, order, Ghost(inner_fuel));
                        proof {
                            lemma_more_seen_fuel(m, vis_before, views(visited@).to_set());
                            assert(deps.skip(j as int).drop_first() =~= deps.skip(j + 1));
                            assert(deps.skip(j as int)[0] == ds@[j as int]@);
                        }
                        j = j + 1;
                    }
                    assert(deps.skip(j as int) =~= Seq::<Seq<char>>::empty());
                },
            }
            let ghost o = order@;
            order.push(String::from_str(name));
            assert(views(order@) =~= views(o).push(name@));
        },
    }
}

impl ComposeFile {
    /// All service names, each exactly once, in the order the map walks them.
    pub fn service_names(&self) -> (r: Vec<&String>)
        ensures
            r@.map_values(|s: &String| s@).no_duplicates(),
            r@.map_values(|s: &String| s@).to_set() == compose_services(self.services).dom(),
    {
        service_keys(&self.services)
    }
}

// ---------------------------------------------------------------------------
// What the walk guarantees
// ---------------------------------------------------------------------------

/// The bookkeeping that a walk keeps: finished services appear once each and
/// are not in progress, and the services seen are exactly those finished or
/// in progress (`stack`).
pub open spec fn dfs_inv(
    m: Map<Seq<char>, ComposeService>,
    st: DfsState,
    stack: Set<Seq<char>>,
) -> bool {
    &&& st.order.no_duplicates()
    &&& forall|i: int| 0 <= i < st.order.len() ==> !stack.contains(#[trigger] st.order[i])
    &&& forall|k: Seq<char>|
        (#[trigger] st.visited.contains(k) && m.contains_key(k)) <==> (st.order.contains(k)
            || stack.contains(k))
}

/// Every dependency of a listed service that is itself a service is listed
/// before it.
pub open spec fn deps_before(m: Map<Seq<char>, ComposeService>, order: Seq<Seq<char>>) -> bool {
    forall|i: int, d: Seq<char>|
        0 <= i < order.len() && #[trigger] service_deps(m[order[i]]).contains(d)
            && m.contains_key(d) ==> exists|j: int| 0 <= j < i && #[trigger] order[j] == d
}

/// `rank` strictly decreases from every service to each of its dependencies:
/// the dependencies have no cycle.
pub open spec fn ranked(m: Map<Seq<char>, ComposeService>, rank: spec_fn(Seq<char>) -> nat) -> bool {
    forall|k: Seq<char>, d: Seq<char>|
        m.contains_key(k) && #[trigger] service_deps(m[k]).contains(d) ==> rank(d) < rank(k)
}

/// Enough fuel for a walk from `st`: more than the services not yet seen.
pub open spec fn enough_fuel(m: Map<Seq<char>, ComposeService>, st: DfsState, fuel: nat) -> bool {
    fuel >= m.dom().difference(st.visited).len() + 1
}

proof fn lemma_visit(
    m: Map<Seq<char>, ComposeService>,
    n: Seq<char>,
    st: DfsState,
    stack: Set<Seq<char>>,
    fuel: nat,
    rank: spec_fn(Seq<char>) -> nat,
)
    requires
        m.dom().finite(),
        dfs_inv(m, st, stack),
        enough_fuel(m, st, fuel),
    ensures
        ({
            let r = dfs_visit(m, n, st, fuel);
            &&& dfs_inv(m, r, stack)
            &&& st.visited.subset_of(r.visited)
            &&& r.visited.contains(n)
            &&& st.order.len() <= r.order.len()
            &&& r.order.subrange(0, st.order.len() as int) == st.order
            &&& enough_fuel(m, r, fuel)
            &&& (ranked(m, rank) && deps_before(m, st.order) && (forall|p: Seq<char>|
                #[trigger] stack.contains(p) ==> rank(n) < rank(p))) ==> deps_before(m, r.order)
        }),
    decreases fuel, 0nat,
{
    let r = dfs_visit(m, n, st, fuel);
    if st.visited.contains(n) {
        assert(r.order.subrange(0, st.order.len() as int) =~= st.order);
    } else if !m.contains_key(n) {
        assert(r.order.subrange(0, st.order.len() as int) =~= st.order);
        lemma_more_seen_fuel(m, st.visited, r.visited);
    } else {
        lemma_unseen_fuel(m, st.visited, n);
        let st1 = DfsState { visited: st.visited.insert(n), order: st.order };
        let stack1 = stack.insert(n);
        let deps = service_deps(m[n]);
        assert(dfs_inv(m, st1, stack1)) by {
            assert forall|i: int| 0 <= i < st1.order.len() implies !stack1.contains(
                #[trigger] st1.order[i],
            ) by {
                assert(st.order.contains(st.order[i]));
                assert(st.visited.contains(st.order[i]));
            }
            assert forall|k: Seq<char>|
                (#[trigger] st1.visited.contains(k) && m.contains_key(k)) <==> (st1.order.contains(
                    k,
                ) || stack1.contains(k)) by {
                if k != n {
                    assert(st1.visited.contains(k) == st.visited.contains(k));
                    assert(stack1.contains(k) == stack.contains(k));
                }
            }
        }
        let inner_fuel = (fuel - 1) as nat;
        lemma_visit_all(m, deps, st1, stack1, inner_fuel, rank);
        let inner = dfs_visit_all(m, deps, st1, inner_fuel);
        assert(r.order == inner.order.push(n));
        assert(!inner.order.contains(n)) by {
            if inner.order.contains(n) {
                let i = choose|i: int| 0 <= i < inner.order.len() && inner.order[i] == n;
                assert(stack1.contains(inner.order[i]));
            }
        }
        assert(st1.visited.contains(n));
        assert(inner.visited.contains(n));
        assert(r.order.no_duplicates()) by {
            assert forall|i: int, j: int|
                0 <= i < r.order.len() && 0 <= j < r.order.len() && i != j implies r.order[i]
                != r.order[j] by {
                if i < inner.order.len() && j < inner.order.len() {
                    assert(r.order[i] == inner.order[i]);
                    assert(r.order[j] == inner.order[j]);
                } else if i == inner.order.len() {
                    assert(r.order[j] == inner.order[j]);
                    assert(inner.order.contains(inner.order[j]));
                } else {
                    assert(r.order[i] == inner.order[i]);
                    assert(inner.order.contains(inner.order[i]));
                }
            }
        }
        assert forall|i: int| 0 <= i < r.order.len() implies !stack.contains(
            #[trigger] r.order[i],
        ) by {
            if i < inner.order.len() {
                assert(r.order[i] == inner.order[i]);
                assert(!stack1.contains(inner.order[i]));
            } else {
                assert(r.order[i] == n);
            }
        }
        assert forall|k: Seq<char>|
            (#[trigger] r.visited.contains(k) && m.contains_key(k)) <==> (r.order.contains(k)
                || stack.contains(k)) by {
            if r.order.contains(k) {
                let i = choose|i: int| 0 <= i < r.order.len() && r.order[i] == k;
                if i < inner.order.len() {
                    assert(inner.order[i] == k);
                    assert(inner.order.contains(k));
                } else {
                    assert(k == n);
                }
            }
            if inner.order.contains(k) {
                let i = choose|i: int| 0 <= i < inner.order.len() && inner.order[i] == k;
                assert(r.order[i] == k);
                assert(r.order.contains(k));
            }
            if k == n {
                assert(r.order[inner.order.len() as int] == n);
                assert(r.order.contains(k));
            }
            if stack.contains(k) {
                assert(stack1.contains(k));
            }
        }
        assert(dfs_inv(m, r, stack));
        assert(r.order.subrange(0, st.order.len() as int) =~= st.order) by {
            assert(inner.order.subrange(0, st1.order.len() as int) == st1.order);
            assert forall|i: int| 0 <= i < st.order.len() implies r.order[i] == st.order[i] by {
                assert(inner.order.subrange(0, st1.order.len() as int)[i] == st1.order[i]);
            }
        }
        if ranked(m, rank) && deps_before(m, st.order) && (forall|p: Seq<char>|
            #[trigger] stack.contains(p) ==> rank(n) < rank(p)) {
            assert forall|x: Seq<char>, p: Seq<char>|
                #[trigger] deps.contains(x) && #[trigger] stack1.contains(p) implies rank(x) < rank(p) by {
                assert(rank(x) < rank(n));
            }
            assert(deps_before(m, inner.order));
            assert forall|i: int, d: Seq<char>|
                0 <= i < r.order.len() && #[trigger] service_deps(m[r.order[i]]).contains(d)
                    && m.contains_key(d) implies exists|j: int|
                0 <= j < i && #[trigger] r.order[j] == d by {
                if i < inner.order.len() {
                    assert(r.order[i] == inner.order[i]);
                    let j = choose|j: int| 0 <= j < i && #[trigger] inner.order[j] == d;
                    assert(r.order[j] == d);
                } else {
                    assert(r.order[i] == n);
                    assert(inner.visited.contains(d));
                    assert(rank(d) < rank(n));
                    assert(!stack1.contains(d)) by {
                        if stack1.contains(d) {
                            assert(rank(d) < rank(d));
                        }
                    }
                    assert(inner.order.contains(d));
                    let j = choose|j: int| 0 <= j < inner.order.len() && inner.order[j] == d;
                    assert(r.order[j] == d);
                }
            }
        }
    }
}

proof fn lemma_visit_all(
    m: Map<Seq<char>, ComposeService>,
    ns: Seq<Seq<char>>,
    st: DfsState,
    stack: Set<Seq<char>>,
    fuel: nat,
    rank: spec_fn(Seq<char>) -> nat,
)
    requires
        m.dom().finite(),
        dfs_inv(m, st, stack),
        enough_fuel(m, st, fuel),
    ensures
        ({
            let r = dfs_visit_all(m, ns, st, fuel);
            &&& dfs_inv(m, r, stack)
            &&& st.visited.subset_of(r.visited)
            &&& forall|x: Seq<char>| #[trigger] ns.contains(x) ==> r.visited.contains(x)
            &&& st.order.len() <= r.order.len()
            &&& r.order.subrange(0, st.order.len() as int) == st.order
            &&& enough_fuel(m, r, fuel)
            &&& (ranked(m, rank) && deps_before(m, st.order) && (forall|x: Seq<char>, p: Seq<char>|
                #[trigger] ns.contains(x) && #[trigger] stack.contains(p) ==> rank(x) < rank(p)))
                ==> deps_before(m, r.order)
        }),
    decreases fuel, ns.len() + 1,
{
    if ns.len() > 0 {
        let st1 = dfs_visit(m, ns[0], st, fuel);
        lemma_visit(m, ns[0], st, stack, fuel, rank);
        lemma_visit_all(m, ns.drop_first(), st1, stack, fuel, rank);
        let r = dfs_visit_all(m, ns, st, fuel);
        assert(r == dfs_visit_all(m, ns.drop_first(), st1, fuel));
        assert forall|x: Seq<char>| #[trigger] ns.contains(x) implies r.visited.contains(x) by {
            let i = choose|i: int| 0 <= i < ns.len() && ns[i] == x;
            if i > 0 {
                assert(ns.drop_first()[i - 1] == x);
                assert(ns.drop_first().contains(x));
            } else {
                assert(st1.visited.contains(x));
            }
        }
        assert(r.order.subrange(0, st.order.len() as int) =~= st.order) by {
            assert forall|i: int| 0 <= i < st.order.len() implies r.order[i] == st.order[i] by {
                assert(r.order.subrange(0, st1.order.len() as int)[i] == st1.order[i]);
                assert(st1.order.subrange(0, st.order.len() as int)[i] == st.order[i]);
            }
        }
        if ranked(m, rank) && deps_before(m, st.order) && (forall|x: Seq<char>, p: Seq<char>|
            #[trigger] ns.contains(x) && #[trigger] stack.contains(p) ==> rank(x) < rank(p)) {
            assert forall|p: Seq<char>| #[trigger] stack.contains(p) implies rank(ns[0]) < rank(
                p,
            ) by {
                assert(ns.contains(ns[0]));
            }
            assert forall|x: Seq<char>, p: Seq<char>|
                #[trigger] ns.drop_first().contains(x) && #[trigger] stack.contains(p) implies rank(x) < rank(
                p,
            ) by {
                let i = choose|i: int| 0 <= i < ns.drop_first().len() && ns.drop_first()[i] == x;
                assert(ns[i + 1] == x);
                assert(ns.contains(x));
            }
        }
    } else {
        assert(st.order.subrange(0, st.order.len() as int) =~= st.order);
    }
}

/// From roots that name every service, the dependency order lists every
/// service exactly once.
pub proof fn lemma_dependency_order_lists_each_service_once(
    m: Map<Seq<char>, ComposeService>,
    roots: Seq<Seq<char>>,
)
    requires
        m.dom().finite(),
        m.dom().subset_of(roots.to_set()),
    ensures
        dependency_order(m, roots).no_duplicates(),
        dependency_order(m, roots).to_set() == m.dom(),
{
    let st0 = DfsState { visited: Set::empty(), order: Seq::empty() };
    let fuel = m.dom().len() + 1;
    assert(m.dom().difference(st0.visited) =~= m.dom());
    lemma_visit_all(m, roots, st0, Set::empty(), fuel, |x: Seq<char>| 0nat);
    let r = dfs_visit_all(m, roots, st0, fuel);
    assert forall|k: Seq<char>| r.order.to_set().contains(k) <==> m.dom().contains(k) by {
        if m.dom().contains(k) {
            assert(roots.to_set().contains(k));
            assert(roots.contains(k));
            assert(r.visited.contains(k));
        }
        if r.order.to_set().contains(k) {
            assert(r.order.contains(k));
            assert(r.visited.contains(k) ==> m.contains_key(k));
            assert(r.visited.contains(k));
        }
    }
    assert(r.order.to_set() =~= m.dom());
}

/// When the dependencies have no cycle (some rank decreases from every
/// service to each of its dependencies), every dependency that is itself a
/// service comes before the services that depend on it.
pub proof fn lemma_dependency_order_respects_dependencies(
    m: Map<Seq<char>, ComposeService>,
    roots: Seq<Seq<char>>,
    rank: spec_fn(Seq<char>) -> nat,
)
    requires
        m.dom().finite(),
        ranked(m, rank),
    ensures
        deps_before(m, dependency_order(m, roots)),
{
    let st0 = DfsState { visited: Set::empty(), order: Seq::empty() };
    let fuel = m.dom().len() + 1;
    assert(m.dom().difference(st0.visited) =~= m.dom());
    lemma_visit_all(m, roots, st0, Set::empty(), fuel, rank);
}

/// The services in the listed order.
pub open spec fn services_in(m: Map<Seq<char>, ComposeService>, names: Seq<Seq<char>>) -> Seq<
    ComposeService,
> {
    names.map_values(|n: Seq<char>| m[n])
}

impl ComposeFile {
    /// The services in dependency order, walking from `roots` in the given
    /// order: each service after the dependencies it reaches, each at most once.
    pub fn ordered_services_from<'a>(&'a self, roots: &Vec<&String>) -> (r: Vec<&'a ComposeService>)
        ensures
            r@.map_values(|s: &ComposeService| *s) == services_in(
                compose_services(self.services),
                dependency_order(
                    compose_services(self.services),
                    roots@.map_values(|s: &String| s@),
                ),
            ),
    {
        let ghost m = compose_services(self.services);
        let ghost rv = roots@.map_values(|s: &String| s@);
        let count = service_count(&self.services);
        let ghost fuel: nat = m.dom().len() + 1;
        let ghost st0 = DfsState { visited: Set::empty(), order: Seq::empty() };
        let mut visited: Vec<String> = Vec::new();
        let mut order: Vec<String> = Vec::new();
        proof {
            assert(views(visited@).to_set() =~= Set::<Seq<char>>::empty());
            assert(views(order@) =~= Seq::<Seq<char>>::empty());
            assert(m.dom().difference(st0.visited) =~= m.dom());
            assert(rv.skip(0) =~= rv);
        }
        let mut i: usize = 0;
        while i < roots.len()
            invariant
                m == compose_services(self.services),
                m.dom().finite(),
                rv == roots@.map_values(|s: &String| s@),
                fuel == m.dom().len() + 1,
                i <= roots@.len(),
                fuel >= m.dom().difference(views(visited@).to_set()).len() + 1,
                dfs_visit_all(m, rv, st0, fuel) == dfs_visit_all(
                    m,
                    rv.skip(i as int),
                    DfsState { visited: views(visited@).to_set(), order: views(order@) },
                    fuel,
                ),
            decreases roots@.len() - i,
        {
            let ghost vis_before = views(visited@).to_set();
            visit(&self.services, roots[i].as_str(), &mut visited, &mut order, Ghost(fuel));
            proof {
                lemma_more_seen_fuel(m, vis_before, views(visited@).to_set());
                assert(rv.skip(i as int).drop_first() =~= rv.skip(i + 1));
                assert(rv.skip(i as int)[0] == roots@[i as int]@);
            }
            i = i + 1;
        }
        proof {
            assert(rv.skip(i as int) =~= Seq::<Seq<char>>::empty());
            assert(m.dom().difference(st0.visited) =~= m.dom());
            lemma_visit_all(m, rv, st0, Set::empty(), fuel, |x: Seq<char>| 0nat);
        }
        let ghost names = views(order@);
        let ghost fin = dfs_visit_all(m, rv, st0, fuel);
        assert(names == dependency_order(m, rv));
        assert(fin.order == names);
        let mut r: Vec<&'a ComposeService> = Vec::new();
        let mut j: usize = 0;
        while j < order.len()
            invariant
                m == compose_services(self.services),
                names == views(order@),
                dfs_inv(m, fin, Set::empty()),
                fin.order == names,
                j <= order@.len(),
                r@.map_values(|s: &ComposeService| *s) == services_in(m, names.take(j as int)),
            decreases order@.len() - j,
        {
            assert(names.contains(names[j as int]));
            assert(fin.order.contains(names[j as int]));
            assert(fin.visited.contains(names[j as int]));
            let found = service_get(&self.services, order[j].as_str());
            match found {
                Some(svc) => {
                    let ghost before = r@;
                    r.push(svc);
                    assert(names.take(j + 1) =~= names.take(j as int).push(names[j as int]));
                    assert(r@.map_values(|s: &ComposeService| *s) =~= before.map_values(
                        |s: &ComposeService| *s,
                    ).push(m[names[j as int]]));
                },
                None => {
                    assert(false);
                },
            }
            j = j + 1;
        }
        assert(names.take(order@.len() as int) =~= names);
        r
    }

    /// The services in dependency order: each service exactly once, after
    /// the dependencies it reaches. The walk starts from the service names in
    /// the order the map yields them, which depends on the map's hash seed.
    pub fn ordered_services(&self) -> (r: Vec<&ComposeService>)
        ensures
            exists|roots: Seq<Seq<char>>|
                {
                    &&& roots.no_duplicates()
                    &&& roots.to_set() == compose_services(self.services).dom()
                    &&& r@.map_values(|s: &ComposeService| *s) == services_in(
                        compose_services(self.services),
                        dependency_order(compose_services(self.services), roots),
                    )
                },
            r@.len() == compose_services(self.services).dom().len(),
    {
        let keys = service_keys(&self.services);
        let r = self.ordered_services_from(&keys);
        proof {
            let m = compose_services(self.services);
            let rv = keys@.map_values(|s: &String| s@);
            lemma_dependency_order_lists_each_service_once(m, rv);
            rv.unique_seq_to_set();
            dependency_order(m, rv).unique_seq_to_set();
            assert(r@.map_values(|s: &ComposeService| *s).len() == r@.len());
            assert(services_in(m, dependency_order(m, rv)).len() == dependency_order(m, rv).len());
        }
        r
    }
}

} // verus!
