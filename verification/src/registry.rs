//! The plugin registry: registration, lookup and statistics for VCS and
//! storage adapters, with a one-way switch that closes registration.

use vstd::prelude::*;

use crate::error::{PluginError, PluginResult};
use crate::text::{concat3, str_eq};
use crate::traits::AdapterPlugin;

verus! {

/// The names of a sequence of registry entries, in order.
pub open spec fn entry_names<P>(es: Seq<(Seq<char>, P)>) -> Seq<Seq<char>> {
    es.map_values(|e: (Seq<char>, P)| e.0)
}

/// The plugin of the first entry named `n`, if any.
pub open spec fn lookup_entry<P>(es: Seq<(Seq<char>, P)>, n: Seq<char>) -> Option<P>
    decreases es.len(),
{
    if es.len() == 0 {
        None
    } else if es[0].0 == n {
        Some(es[0].1)
    } else {
        lookup_entry(es.drop_first(), n)
    }
}

/// The message of the error returned when registering into a finalized registry.
pub open spec fn finalized_message() -> Seq<char> {
    "Registry is finalized, cannot register new plugins"@
}

/// The message of the error returned for a VCS name that is already taken.
pub open spec fn vcs_taken_message(name: Seq<char>) -> Seq<char> {
    "VCS plugin '"@ + name + "' already registered"@
}

/// The message of the error returned for a storage name that is already taken.
pub open spec fn storage_taken_message(name: Seq<char>) -> Seq<char> {
    "Storage plugin '"@ + name + "' already registered"@
}

/// The outcome of registering plugin `p` under the name `n`: when the name
/// is taken the registration is refused with the `taken` message and the
/// entries stay as they were; otherwise it succeeds and the plugin is
/// appended under that name.
pub open spec fn registration<P>(
    before: Seq<(Seq<char>, P)>,
    after: Seq<(Seq<char>, P)>,
    n: Seq<char>,
    p: P,
    r: PluginResult<()>,
    taken: Seq<char>,
) -> bool {
    if entry_names(before).contains(n) {
        &&& r matches Err(PluginError::AlreadyRegistered(m)) && m@ == taken
        &&& after == before
    } else {
        &&& r is Ok
        &&& after == before.push((n, p))
    }
}

/// A lookup finds a name exactly when the name is among the entries' names.
pub proof fn lemma_lookup_some_iff_named<P>(es: Seq<(Seq<char>, P)>, n: Seq<char>)
    ensures
        lookup_entry(es, n) is Some <==> entry_names(es).contains(n),
    decreases es.len(),
{
    if es.len() > 0 {
        lemma_lookup_some_iff_named(es.drop_first(), n);
        assert(entry_names(es.drop_first()) =~= entry_names(es).drop_first());
        if entry_names(es).contains(n) && es[0].0 != n {
            let i = choose|i: int| 0 <= i < entry_names(es).len() && entry_names(es)[i] == n;
            assert(entry_names(es.drop_first())[i - 1] == n);
        }
        if entry_names(es.drop_first()).contains(n) {
            let i = choose|i: int|
                0 <= i < entry_names(es.drop_first()).len() && entry_names(es.drop_first())[i]
                    == n;
            assert(entry_names(es)[i + 1] == n);
        }
        if es[0].0 == n {
            assert(entry_names(es)[0] == n);
        }
    }
}

/// What a lookup gives back of a registration: once a plugin has been added
/// under a name not yet taken, looking that name up finds that plugin, and
/// every other name finds what it found before.
pub proof fn lemma_lookup_after_push<P>(es: Seq<(Seq<char>, P)>, n: Seq<char>, p: P, m: Seq<char>)
    requires
        !entry_names(es).contains(n),
    ensures
        lookup_entry(es.push((n, p)), m) == if m == n {
            Some(p)
        } else {
            lookup_entry(es, m)
        },
    decreases es.len(),
{
    if es.len() == 0 {
        let pushed = es.push((n, p));
        assert(pushed.drop_first() =~= Seq::<(Seq<char>, P)>::empty());
        assert(pushed[0] == (n, p));
        assert(lookup_entry(pushed.drop_first(), m) is None);
        assert(lookup_entry(es, m) is None);
    } else {
        assert(es.push((n, p)).drop_first() =~= es.drop_first().push((n, p)));
        assert(entry_names(es.drop_first()) =~= entry_names(es).drop_first());
        if entry_names(es.drop_first()).contains(n) {
            let i = choose|i: int|
                0 <= i < entry_names(es.drop_first()).len() && entry_names(es.drop_first())[i]
                    == n;
            assert(entry_names(es)[i + 1] == n);
        }
        assert(entry_names(es)[0] == es[0].0);
        lemma_lookup_after_push(es.drop_first(), n, p, m);
        let pushed = es.push((n, p));
        assert(pushed[0] == es[0]);
        assert(pushed.len() > 0);
        if es[0].0 == m {
            assert(m != n);
            assert(lookup_entry(pushed, m) == Some(es[0].1));
            assert(lookup_entry(es, m) == Some(es[0].1));
        } else {
            assert(lookup_entry(pushed, m) == lookup_entry(pushed.drop_first(), m));
            assert(lookup_entry(es, m) == lookup_entry(es.drop_first(), m));
        }
    }
}

/// What a lookup gives back after a registration: when it succeeded, the
/// registered name finds the registered plugin and every other name finds
/// what it found before; when it was refused, every name finds what it found
/// before.
pub proof fn lemma_lookup_after_registration<P>(
    before: Seq<(Seq<char>, P)>,
    after: Seq<(Seq<char>, P)>,
    n: Seq<char>,
    p: P,
    r: PluginResult<()>,
    taken: Seq<char>,
    m: Seq<char>,
)
    requires
        registration(before, after, n, p, r, taken),
    ensures
        r is Ok ==> lookup_entry(after, m) == if m == n {
            Some(p)
        } else {
            lookup_entry(before, m)
        },
        r is Err ==> lookup_entry(after, m) == lookup_entry(before, m),
{
    if !entry_names(before).contains(n) {
        lemma_lookup_after_push(before, n, p, m);
    }
}

/// Finds the position of the entry named `name`.
fn find_entry<P>(es: &Vec<(String, P)>, name: &str) -> (r: Option<usize>)
    ensures
        match r {
            Some(i) => i < es@.len() && es@[i as int].0@ == name@,
            None => forall|i: int| 0 <= i < es@.len() ==> es@[i].0@ != name@,
        },
{
    let mut i: usize = 0;
    while i < es.len()
        invariant
            i <= es@.len(),
            forall|j: int| 0 <= j < i ==> es@[j].0@ != name@,
        decreases es@.len() - i,
    {
        if str_eq(es[i].0.as_str(), name) {
            return Some(i);
        }
        i = i + 1;
    }
    None
}

/// The view of stored entries: each name as text, with its plugin.
pub open spec fn entries_view<P>(es: Seq<(String, P)>) -> Seq<(Seq<char>, P)> {
    es.map_values(|e: (String, P)| (e.0@, e.1))
}

proof fn lemma_find_matches_lookup<P>(es: Seq<(String, P)>, n: Seq<char>, k: Option<usize>)
    requires
        entry_names(entries_view(es)).no_duplicates(),
        match k {
            Some(i) => i < es.len() && es[i as int].0@ == n,
            None => forall|i: int| 0 <= i < es.len() ==> es[i].0@ != n,
        },
    ensures
        lookup_entry(entries_view(es), n) == match k {
            Some(i) => Some(es[i as int].1),
            None => None::<P>,
        },
    decreases es.len(),
{
    let v = entries_view(es);
    if es.len() > 0 {
        let rest = es.drop_first();
        assert(entries_view(rest) =~= v.drop_first());
        assert(entry_names(entries_view(rest)) =~= entry_names(v).drop_first());
        match k {
            Some(i) => {
                if i == 0 {
                } else {
                    assert(es[0].0@ != n) by {
                        assert(entry_names(v)[0] == es[0].0@);
                        assert(entry_names(v)[i as int] == es[i as int].0@);
                    }
                    lemma_find_matches_lookup(rest, n, Some((i - 1) as usize));
                }
            },
            None => {
                assert(es[0].0@ != n);
                assert forall|i: int| 0 <= i < rest.len() implies rest[i].0@ != n by {
                    assert(rest[i] == es[i + 1]);
                }
                lemma_find_matches_lookup(rest, n, None);
            },
        }
    }
}

/// Each of the first `upto` adapters answered its health check with `Ok`.
pub open spec fn healthy_prefix<P: AdapterPlugin>(es: Seq<(Seq<char>, P)>, upto: int) -> bool {
    forall|j: int|
        0 <= j < upto ==> call_ensures(
            P::health_check,
            (&(#[trigger] es[j]).1,),
            Ok::<(), PluginError>(()),
        )
}

/// Statistics about the plugin registry.
#[derive(Debug, Clone)]
pub struct RegistryStats {
    pub vcs_count: usize,
    pub storage_count: usize,
    pub finalized: bool,
}

/// Registry of VCS adapters (`V`) and storage adapters (`S`), each kind keyed
/// by plugin name. Once finalized, no further plugin can be registered.
pub struct PluginRegistry<V, S> {
    vcs: Vec<(String, V)>,
    storage: Vec<(String, S)>,
    initialized: bool,
}

impl<V, S> PluginRegistry<V, S> {
    /// Plugin names are unique within each kind.
    #[verifier::type_invariant]
    spec fn names_unique(self) -> bool {
        &&& entry_names(entries_view(self.vcs@)).no_duplicates()
        &&& entry_names(entries_view(self.storage@)).no_duplicates()
    }

    /// The registered VCS adapters, in registration order, with their names.
    pub closed spec fn vcs_entries(&self) -> Seq<(Seq<char>, V)> {
        entries_view(self.vcs@)
    }

    /// The registered storage adapters, in registration order, with their names.
    pub closed spec fn storage_entries(&self) -> Seq<(Seq<char>, S)> {
        entries_view(self.storage@)
    }

    /// Whether registration has been closed.
    pub closed spec fn finalized(&self) -> bool {
        self.initialized
    }
}

/// The calls that change a registry. Every other call takes the registry by
/// shared reference and leaves it as it is.
pub enum RegistryCall {
    RegisterVcs,
    RegisterStorage,
    Finalize,
}

/// What one changing call does to the registration switch and, once it is
/// closed, to the entries: finalizing succeeds and closes it, keeping every
/// entry; a registration leaves the switch as it was, leaves the other
/// kind's entries alone, and on a closed registry is refused with the
/// finalized error and changes nothing.
pub open spec fn registry_step<V, S>(
    call: RegistryCall,
    before: PluginRegistry<V, S>,
    after: PluginRegistry<V, S>,
    r: PluginResult<()>,
) -> bool {
    match call {
        RegistryCall::Finalize => {
            &&& r is Ok
            &&& after.finalized()
            &&& after.vcs_entries() == before.vcs_entries()
            &&& after.storage_entries() == before.storage_entries()
        },
        RegistryCall::RegisterVcs => {
            &&& after.finalized() == before.finalized()
            &&& after.storage_entries() == before.storage_entries()
            &&& before.finalized() ==> refused_unchanged(before, after, r)
        },
        RegistryCall::RegisterStorage => {
            &&& after.finalized() == before.finalized()
            &&& after.vcs_entries() == before.vcs_entries()
            &&& before.finalized() ==> refused_unchanged(before, after, r)
        },
    }
}

/// The call was refused because the registry is finalized, and the entries
/// are as they were.
pub open spec fn refused_unchanged<V, S>(
    before: PluginRegistry<V, S>,
    after: PluginRegistry<V, S>,
    r: PluginResult<()>,
) -> bool {
    &&& r matches Err(PluginError::Initialization(m)) && m@ == finalized_message()
    &&& after.vcs_entries() == before.vcs_entries()
    &&& after.storage_entries() == before.storage_entries()
}

/// Some call among the first `k` is `Finalize`.
pub open spec fn finalized_by(calls: Seq<RegistryCall>, k: int) -> bool {
    exists|i: int| 0 <= i < k && #[trigger] calls[i] is Finalize
}

/// `states` are the registry before and after each of `calls`, which
/// returned `results`.
pub open spec fn is_trace<V, S>(
    states: Seq<PluginRegistry<V, S>>,
    calls: Seq<RegistryCall>,
    results: Seq<PluginResult<()>>,
) -> bool {
    &&& states.len() == calls.len() + 1
    &&& results.len() == calls.len()
    &&& forall|i: int|
        0 <= i < calls.len() ==> registry_step(#[trigger] calls[i], states[i], states[i + 1], results[i])
}

proof fn lemma_finalized_iff_called<V, S>(
    states: Seq<PluginRegistry<V, S>>,
    calls: Seq<RegistryCall>,
    results: Seq<PluginResult<()>>,
    k: int,
)
    requires
        is_trace(states, calls, results),
        !states[0].finalized(),
        0 <= k < states.len(),
    ensures
        states[k].finalized() <==> finalized_by(calls, k),
    decreases k,
{
    if k > 0 {
        lemma_finalized_iff_called(states, calls, results, k - 1);
        assert(registry_step(calls[k - 1], states[k - 1], states[k], results[k - 1]));
        if calls[k - 1] is Finalize {
            assert(finalized_by(calls, k));
        } else {
            if finalized_by(calls, k) {
                let i = choose|i: int| 0 <= i < k && #[trigger] calls[i] is Finalize;
                assert(i < k - 1);
                assert(finalized_by(calls, k - 1));
            }
            if finalized_by(calls, k - 1) {
                let i = choose|i: int| 0 <= i < k - 1 && #[trigger] calls[i] is Finalize;
                assert(finalized_by(calls, k));
            }
        }
    } else {
        assert(!finalized_by(calls, 0));
    }
}

proof fn lemma_finalized_stays<V, S>(
    states: Seq<PluginRegistry<V, S>>,
    calls: Seq<RegistryCall>,
    results: Seq<PluginResult<()>>,
    i: int,
    j: int,
)
    requires
        is_trace(states, calls, results),
        0 <= i <= j < states.len(),
        states[i].finalized(),
    ensures
        states[j].finalized(),
    decreases j - i,
{
    if i < j {
        lemma_finalized_stays(states, calls, results, i, j - 1);
        assert(registry_step(calls[j - 1], states[j - 1], states[j], results[j - 1]));
    }
}

/// Finalization is permanent. Along any sequence of changing calls that
/// starts from a fresh registry (as `new` and `default` make it), the
/// registry is finalized exactly once some `finalize` has been called, and
/// from then on it stays finalized and every registration is refused with
/// the finalized error, leaving the entries unchanged.
pub proof fn lemma_finalization_is_permanent<V, S>(
    states: Seq<PluginRegistry<V, S>>,
    calls: Seq<RegistryCall>,
    results: Seq<PluginResult<()>>,
)
    requires
        is_trace(states, calls, results),
        !states[0].finalized(),
    ensures
        forall|k: int|
            0 <= k < states.len() ==> (#[trigger] states[k].finalized() <==> finalized_by(
                calls,
                k,
            )),
        forall|i: int, j: int|
            0 <= i <= j < states.len() && #[trigger] states[i].finalized() ==> #[trigger] states[j].finalized(),
        forall|j: int|
            0 <= j < calls.len() && #[trigger] states[j].finalized() && !(calls[j] is Finalize)
                ==> refused_unchanged(states[j], states[j + 1], results[j]),
{
    assert forall|k: int| 0 <= k < states.len() implies (#[trigger] states[k].finalized()
        <==> finalized_by(calls, k)) by {
        lemma_finalized_iff_called(states, calls, results, k);
    }
    assert forall|i: int, j: int|
        0 <= i <= j < states.len() && #[trigger] states[i].finalized() implies #[trigger] states[j].finalized() by {
        lemma_finalized_stays(states, calls, results, i, j);
    }
    assert forall|j: int|
        0 <= j < calls.len() && #[trigger] states[j].finalized() && !(calls[j] is Finalize)
            implies refused_unchanged(states[j], states[j + 1], results[j]) by {
        assert(registry_step(calls[j], states[j], states[j + 1], results[j]));
    }
}

impl<V: AdapterPlugin, S: AdapterPlugin> PluginRegistry<V, S> {
    /// Creates a new empty registry.
    pub fn new() -> (r: Self)
        ensures
            r.vcs_entries() == Seq::<(Seq<char>, V)>::empty(),
            r.storage_entries() == Seq::<(Seq<char>, S)>::empty(),
            !r.finalized(),
    {
        let r = PluginRegistry { vcs: Vec::new(), storage: Vec::new(), initialized: false };
        assert(entries_view(r.vcs@) =~= Seq::<(Seq<char>, V)>::empty());
        assert(entries_view(r.storage@) =~= Seq::<(Seq<char>, S)>::empty());
        r
    }

    /// Marks the registry as finalized; after this, no new plugins can be registered.
    pub fn finalize(&mut self) -> (r: PluginResult<()>)
        ensures
            registry_step(RegistryCall::Finalize, *old(self), *final(self), r),
            r is Ok,
            final(self).finalized(),
            final(self).vcs_entries() == old(self).vcs_entries(),
            final(self).storage_entries() == old(self).storage_entries(),
    {
        proof {
            use_type_invariant(&*self);
        }
        self.initialized = true;
        Ok(())
    }

    /// Whether the registry is finalized.
    pub fn is_finalized(&self) -> (r: bool)
        ensures
            r == self.finalized(),
    {
        self.initialized
    }

    /// Registers a VCS adapter under the name it reports: refused once the
    /// registry is finalized, and refused when that name is already taken.
    pub fn register_vcs(&mut self, plugin: V) -> (r: PluginResult<()>)
        ensures
            registry_step(RegistryCall::RegisterVcs, *old(self), *final(self), r),
            old(self).finalized() ==> (r matches Err(PluginError::Initialization(m)) && m@
                == finalized_message()) && final(self).vcs_entries() == old(self).vcs_entries(),
            !old(self).finalized() ==> exists|n: &str|
                call_ensures(V::name, (&plugin,), n) && #[trigger] registration(
                    old(self).vcs_entries(),
                    final(self).vcs_entries(),
                    n@,
                    plugin,
                    r,
                    vcs_taken_message(n@),
                ),
            final(self).storage_entries() == old(self).storage_entries(),
            final(self).finalized() == old(self).finalized(),
    {
        proof {
            use_type_invariant(&*self);
            reveal_strlit("Registry is finalized, cannot register new plugins");
        }
        if self.initialized {
            let m = String::from_str("Registry is finalized, cannot register new plugins");
            return Err(PluginError::Initialization(m));
        }
        let reported = plugin.name();
        assert(call_ensures(V::name, (&plugin,), reported));
        let name = String::from_str(reported);
        let found = find_entry(&self.vcs, name.as_str());
        if found.is_some() {
            proof {
                let i = found.unwrap() as int;
                assert(entry_names(entries_view(self.vcs@))[i] == name@);
            }
            let m = concat3("VCS plugin '", name.as_str(), "' already registered");
            let result = Err(PluginError::AlreadyRegistered(m));
            assert(registration(old(self).vcs_entries(), self.vcs_entries(), reported@, plugin, result, vcs_taken_message(reported@)));
            return result;
        }
        proof {
            assert(!entry_names(entries_view(self.vcs@)).contains(name@)) by {
                if entry_names(entries_view(self.vcs@)).contains(name@) {
                    let i = choose|i: int|
                        0 <= i < entry_names(entries_view(self.vcs@)).len() && entry_names(
                            entries_view(self.vcs@),
                        )[i] == name@;
                    assert(self.vcs@[i].0@ == name@);
                }
            }
        }
        let ghost before = self.vcs@;
        let mut vcs: Vec<(String, V)> = Vec::new();
        std::mem::swap(&mut vcs, &mut self.vcs);
        vcs.push((name, plugin));
        assert(entries_view(vcs@) =~= entries_view(before).push((reported@, plugin)));
        assert(entry_names(entries_view(vcs@)) =~= entry_names(entries_view(before)).push(
            reported@,
        ));
        self.vcs = vcs;
        let result = Ok(());
        assert(registration(old(self).vcs_entries(), self.vcs_entries(), reported@, plugin, result, vcs_taken_message(reported@)));
        result
    }

    /// Looks up a VCS adapter by name.
    pub fn vcs(&self, name: &str) -> (r: Option<&V>)
        ensures
            r == match lookup_entry(self.vcs_entries(), name@) {
                Some(p) => Some(&p),
                None => None::<&V>,
            },
    {
        proof {
            use_type_invariant(self);
        }
        let found = find_entry(&self.vcs, name);
        proof {
            lemma_find_matches_lookup(self.vcs@, name@, found);
        }
        match found {
            Some(i) => Some(&self.vcs[i].1),
            None => None,
        }
    }

    /// The names of all registered VCS adapters, in registration order.
    pub fn vcs_adapters(&self) -> (r: Vec<String>)
        ensures
            crate::text::views(r@) == entry_names(self.vcs_entries()),
            crate::text::views(r@).no_duplicates(),
    {
        proof {
            use_type_invariant(self);
        }
        names_of(&self.vcs)
    }

    /// Registers a storage adapter under the name it reports: refused once
    /// the registry is finalized, and refused when that name is already taken.
    pub fn register_storage(&mut self, plugin: S) -> (r: PluginResult<()>)
        ensures
            registry_step(RegistryCall::RegisterStorage, *old(self), *final(self), r),
            old(self).finalized() ==> (r matches Err(PluginError::Initialization(m)) && m@
                == finalized_message()) && final(self).storage_entries() == old(
                self,
            ).storage_entries(),
            !old(self).finalized() ==> exists|n: &str|
                call_ensures(S::name, (&plugin,), n) && #[trigger] registration(
                    old(self).storage_entries(),
                    final(self).storage_entries(),
                    n@,
                    plugin,
                    r,
                    storage_taken_message(n@),
                ),
            final(self).vcs_entries() == old(self).vcs_entries(),
            final(self).finalized() == old(self).finalized(),
    {
        proof {
            use_type_invariant(&*self);
            reveal_strlit("Registry is finalized, cannot register new plugins");
        }
        if self.initialized {
            let m = String::from_str("Registry is finalized, cannot register new plugins");
            return Err(PluginError::Initialization(m));
        }
        let reported = plugin.name();
        assert(call_ensures(S::name, (&plugin,), reported));
        let name = String::from_str(reported);
        let found = find_entry(&self.storage, name.as_str());
        if found.is_some() {
            proof {
                let i = found.unwrap() as int;
                assert(entry_names(entries_view(self.storage@))[i] == name@);
            }
            let m = concat3("Storage plugin '", name.as_str(), "' already registered");
            let result = Err(PluginError::AlreadyRegistered(m));
            assert(registration(old(self).storage_entries(), self.storage_entries(), reported@, plugin, result, storage_taken_message(reported@)));
            return result;
        }
        proof {
            assert(!entry_names(entries_view(self.storage@)).contains(name@)) by {
                if entry_names(entries_view(self.storage@)).contains(name@) {
                    let i = choose|i: int|
                        0 <= i < entry_names(entries_view(self.storage@)).len() && entry_names(
                            entries_view(self.storage@),
                        )[i] == name@;
                    assert(self.storage@[i].0@ == name@);
                }
            }
        }
        let ghost before = self.storage@;
        let mut storage: Vec<(String, S)> = Vec::new();
        std::mem::swap(&mut storage, &mut self.storage);
        storage.push((name, plugin));
        assert(entries_view(storage@) =~= entries_view(before).push((reported@, plugin)));
        assert(entry_names(entries_view(storage@)) =~= entry_names(entries_view(before)).push(
            reported@,
        ));
        self.storage = storage;
        let result = Ok(());
        assert(registration(old(self).storage_entries(), self.storage_entries(), reported@, plugin, result, storage_taken_message(reported@)));
        result
    }

    /// Looks up a storage adapter by name.
    pub fn storage(&self, name: &str) -> (r: Option<&S>)
        ensures
            r == match lookup_entry(self.storage_entries(), name@) {
                Some(p) => Some(&p),
                None => None::<&S>,
            },
    {
        proof {
            use_type_invariant(self);
        }
        let found = find_entry(&self.storage, name);
        proof {
            lemma_find_matches_lookup(self.storage@, name@, found);
        }
        match found {
            Some(i) => Some(&self.storage[i].1),
            None => None,
        }
    }

    /// The names of all registered storage adapters, in registration order.
    pub fn storage_adapters(&self) -> (r: Vec<String>)
        ensures
            crate::text::views(r@) == entry_names(self.storage_entries()),
            crate::text::views(r@).no_duplicates(),
    {
        proof {
            use_type_invariant(self);
        }
        names_of(&self.storage)
    }

    /// Runs every adapter's health check, VCS adapters first, each kind in
    /// registration order, and stops at the first failure.
    pub fn health_check(&self) -> (r: PluginResult<()>)
        ensures
            r is Ok ==> healthy_prefix(self.vcs_entries(), self.vcs_entries().len() as int)
                && healthy_prefix(self.storage_entries(), self.storage_entries().len() as int),
            r is Err ==> {
                ||| exists|i: int|
                    0 <= i < self.vcs_entries().len() && healthy_prefix(self.vcs_entries(), i)
                        && call_ensures(V::health_check, (&(#[trigger] self.vcs_entries()[i]).1,), r)
                ||| healthy_prefix(self.vcs_entries(), self.vcs_entries().len() as int) && exists|k: int|
                    0 <= k < self.storage_entries().len() && healthy_prefix(
                        self.storage_entries(),
                        k,
                    ) && call_ensures(
                        S::health_check,
                        (&(#[trigger] self.storage_entries()[k]).1,),
                        r,
                    )
            },
    {
        let ghost ve = self.vcs_entries();
        let ghost se = self.storage_entries();
        let mut i: usize = 0;
        while i < self.vcs.len()
            invariant
                i <= self.vcs@.len(),
                ve == entries_view(self.vcs@),
                healthy_prefix(ve, i as int),
            decreases self.vcs@.len() - i,
        {
            let checked = self.vcs[i].1.health_check();
            assert(call_ensures(V::health_check, (&self.vcs@[i as int].1,), checked));
            assert(ve[i as int].1 == self.vcs@[i as int].1);
            match checked {
                Err(e) => {
                    assert(healthy_prefix(self.vcs_entries(), i as int));
                    assert(call_ensures(
                        V::health_check,
                        (&self.vcs_entries()[i as int].1,),
                        Err::<(), PluginError>(e),
                    ));
                    return Err(e);
                },
                Ok(u) => {
                    assert(u == ());
                },
            }
            assert(checked == Ok::<(), PluginError>(()));
            assert(call_ensures(V::health_check, (&ve[i as int].1,), Ok::<(), PluginError>(())));
            assert(healthy_prefix(ve, i + 1)) by {
                assert forall|q: int| 0 <= q < i + 1 implies call_ensures(
                    V::health_check,
                    (&(#[trigger] ve[q]).1,),
                    Ok::<(), PluginError>(()),
                ) by {
                    if q < i {
                        assert(healthy_prefix(ve, i as int));
                    }
                }
            }
            i = i + 1;
        }
        let mut j: usize = 0;
        while j < self.storage.len()
            invariant
                j <= self.storage@.len(),
                se == entries_view(self.storage@),
                ve == self.vcs_entries(),
                se == self.storage_entries(),
                healthy_prefix(ve, ve.len() as int),
                healthy_prefix(se, j as int),
            decreases self.storage@.len() - j,
        {
            let checked = self.storage[j].1.health_check();
            assert(call_ensures(S::health_check, (&self.storage@[j as int].1,), checked));
            assert(se[j as int].1 == self.storage@[j as int].1);
            match checked {
                Err(e) => {
                    assert(healthy_prefix(self.storage_entries(), j as int));
                    assert(call_ensures(
                        S::health_check,
                        (&self.storage_entries()[j as int].1,),
                        Err::<(), PluginError>(e),
                    ));
                    return Err(e);
                },
                Ok(u) => {
                    assert(u == ());
                },
            }
            assert(checked == Ok::<(), PluginError>(()));
            assert(call_ensures(S::health_check, (&se[j as int].1,), Ok::<(), PluginError>(())));
            assert(healthy_prefix(se, j + 1)) by {
                assert forall|q: int| 0 <= q < j + 1 implies call_ensures(
                    S::health_check,
                    (&(#[trigger] se[q]).1,),
                    Ok::<(), PluginError>(()),
                ) by {
                    if q < j {
                        assert(healthy_prefix(se, j as int));
                    }
                }
            }
            j = j + 1;
        }
        Ok(())
    }

    /// Registry statistics: how many adapters of each kind, and whether
    /// registration is closed.
    pub fn stats(&self) -> (r: RegistryStats)
        ensures
            r.vcs_count == self.vcs_entries().len(),
            r.storage_count == self.storage_entries().len(),
            r.finalized == self.finalized(),
    {
        RegistryStats {
            vcs_count: self.vcs.len(),
            storage_count: self.storage.len(),
            finalized: self.initialized,
        }
    }
}

impl<V: AdapterPlugin, S: AdapterPlugin> Default for PluginRegistry<V, S> {
    fn default() -> (r: Self)
        ensures
            r.vcs_entries() == Seq::<(Seq<char>, V)>::empty(),
            r.storage_entries() == Seq::<(Seq<char>, S)>::empty(),
            !r.finalized(),
    {
        Self::new()
    }
}

fn names_of<P>(es: &Vec<(String, P)>) -> (r: Vec<String>)
    ensures
        crate::text::views(r@) == entry_names(entries_view(es@)),
{
    let mut r: Vec<String> = Vec::new();
    let mut i: usize = 0;
    while i < es.len()
        invariant
            i <= es@.len(),
            crate::text::views(r@) == entry_names(entries_view(es@.take(i as int))),
        decreases es@.len() - i,
    {
        let ghost before = r@;
        r.push(es[i].0.clone());
        assert(es@.take(i + 1) =~= es@.take(i as int).push(es@[i as int]));
        assert(crate::text::views(r@) =~= crate::text::views(before).push(es@[i as int].0@));
        assert(entry_names(entries_view(es@.take(i + 1))) =~= entry_names(
            entries_view(es@.take(i as int)),
        ).push(es@[i as int].0@));
        i = i + 1;
    }
    assert(es@.take(es@.len() as int) =~= es@);
    r
}

} // verus!
