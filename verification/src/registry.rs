//! The bridge's object index and deletion policy.
//!
//! Every attached object has an entry keyed by the address of its Rust value.
//! An entry names the address of its Rust proxy, the address of its `QObject`,
//! an observer of the Rust value (`V`, a weak reference in the runtime) and
//! its [`Owner`]. The registry counts the entries it owns itself and decides,
//! from what the runtime observes of each entry, which objects a garbage
//! collection frees and which it hands over to the QML engine.
use std::collections::HashMap;
use vstd::prelude::*;
use vstd::std_specs::iter::IteratorSpec;

verus! {

broadcast use vstd::std_specs::hash::group_hash_axioms;

/// The minimum number of registry-owned objects that triggers a collection
/// on registration.
pub const MIN_COLLECT_THRESHOLD: usize = 64;

/// Ownership indicator of an entry.
#[derive(Clone, Copy, PartialEq, Eq, Structural, Debug)]
pub enum Owner {
    /// Rust-created: pinned to `CppOwnership` while Rust holds a handle,
    /// handed to the engine by a collection once Rust interest is gone.
    RustRegistry,
    /// QML-created: the engine (or a parent) deletes the `QObject`; the
    /// registry never does.
    Engine,
}

/// One attached object.
pub struct Entry<V> {
    /// Address of the object's Rust proxy.
    pub proxy: u64,
    /// Address of the attached `QObject`.
    pub qobject: u64,
    /// Observer of the Rust value.
    pub value: V,
    /// Initiator of the deletion of this entry.
    pub owner: Owner,
}

/// What the runtime observed of one registry-owned entry before a sweep.
#[derive(Clone, Copy, Debug)]
pub struct Observation {
    /// The key of the observed entry.
    pub key: u64,
    /// Strong references to the Rust value; the proxy holds one of them.
    pub strong_count: usize,
    /// Whether the `QObject` is already flagged `JavaScriptOwnership`.
    pub javascript_owned: bool,
    /// Whether a QML engine holds a JS wrapper of the `QObject`.
    pub has_live_wrapper: bool,
}

/// The fate of an entry in a sweep.
#[derive(Clone, Copy, PartialEq, Eq, Structural, Debug)]
pub enum Verdict {
    /// The entry stays as it is.
    Spare,
    /// The entry stays; its `QObject` is handed to the engine
    /// (`JavaScriptOwnership`), whose next collection decides.
    HandOver,
    /// The entry leaves the registry and its `QObject` is deleted.
    Collect,
}

/// What a registration asks of the runtime.
#[derive(Clone, Copy, PartialEq, Eq, Structural, Debug)]
pub struct Registration {
    /// Set `CppOwnership` on the new `QObject`.
    pub pin_to_cpp: bool,
    /// The owned count has reached the threshold: run a collection.
    pub collect_now: bool,
}

/// The result of one sweep over the observed entries.
pub struct Sweep<V> {
    /// Values and `QObject` addresses of the entries that left the registry.
    pub doomed: Vec<(V, u64)>,
    /// `QObject` addresses to be handed over to the engine.
    pub hand_over: Vec<u64>,
}

/// The keys of the entries that the registry owns.
pub open spec fn owned_keys<V>(m: Map<u64, Entry<V>>) -> Set<u64> {
    m.dom().filter(|k: u64| m[k].owner == Owner::RustRegistry)
}

/// The fate of an entry with the given owner and observation.
pub open spec fn spec_verdict(owner: Owner, strong_count: usize, javascript_owned: bool, has_live_wrapper: bool) -> Verdict {
    if owner == Owner::Engine {
        Verdict::Spare
    } else if strong_count > 1 {
        Verdict::Spare
    } else if javascript_owned {
        Verdict::Spare
    } else if has_live_wrapper {
        Verdict::HandOver
    } else {
        Verdict::Collect
    }
}

/// The collection threshold after a sweep that left `owned` owned entries.
pub open spec fn spec_next_threshold(owned: int) -> int {
    if owned * 2 > MIN_COLLECT_THRESHOLD as int {
        owned * 2
    } else {
        MIN_COLLECT_THRESHOLD as int
    }
}

/// The fate of an observed entry of `m`; an observation of a key that `m`
/// does not hold changes nothing.
pub open spec fn observed_verdict<V>(m: Map<u64, Entry<V>>, o: Observation) -> Verdict {
    if m.contains_key(o.key) {
        spec_verdict(m[o.key].owner, o.strong_count, o.javascript_owned, o.has_live_wrapper)
    } else {
        Verdict::Spare
    }
}

/// The keys that a sweep over `obs` removes from `m`.
pub open spec fn collected_keys<V>(m: Map<u64, Entry<V>>, obs: Seq<Observation>) -> Set<u64> {
    Set::new(
        |k: u64|
            exists|j: int|
                0 <= j < obs.len() && #[trigger] obs[j].key == k && observed_verdict(m, obs[j])
                    == Verdict::Collect,
    )
}

/// What a sweep over `obs` leaves of `m`.
pub open spec fn spec_sweep<V>(m: Map<u64, Entry<V>>, obs: Seq<Observation>) -> Map<u64, Entry<V>> {
    m.remove_keys(collected_keys(m, obs))
}

/// The value and `QObject` of an observed entry that a sweep collects.
pub open spec fn doomed_of<V>(m: Map<u64, Entry<V>>) -> spec_fn(Observation) -> Option<(V, u64)> {
    |o: Observation|
        if observed_verdict(m, o) == Verdict::Collect {
            Some((m[o.key].value, m[o.key].qobject))
        } else {
            None
        }
}

/// The `QObject` of an observed entry that a sweep hands over to the engine.
pub open spec fn handed_over_of<V>(m: Map<u64, Entry<V>>) -> spec_fn(Observation) -> Option<u64> {
    |o: Observation|
        if observed_verdict(m, o) == Verdict::HandOver {
            Some(m[o.key].qobject)
        } else {
            None
        }
}

/// No key is observed twice.
pub open spec fn distinct_keys(obs: Seq<Observation>) -> bool {
    forall|i: int, j: int| 0 <= i < j < obs.len() ==> obs[i].key != obs[j].key
}

/// Whether `q` is the `QObject` of an entry that `m` owns.
pub open spec fn is_owned_qobject<V>(m: Map<u64, Entry<V>>, q: u64) -> bool {
    exists|k: u64| #[trigger] owned_keys(m).contains(k) && m[k].qobject == q
}

/// The proxy address for `key`, 0 when `m` has no entry for it.
pub open spec fn spec_proxy_ptr<V>(m: Map<u64, Entry<V>>, key: u64) -> u64 {
    if m.contains_key(key) {
        m[key].proxy
    } else {
        0
    }
}

/// The fate of an entry, decided from what the runtime observed of it.
pub fn verdict(owner: Owner, obs: &Observation) -> (v: Verdict)
    ensures
        v == spec_verdict(owner, obs.strong_count, obs.javascript_owned, obs.has_live_wrapper),
{
    if owner == Owner::Engine {
        Verdict::Spare
    } else if obs.strong_count > 1 {
        Verdict::Spare
    } else if obs.javascript_owned {
        Verdict::Spare
    } else if obs.has_live_wrapper {
        Verdict::HandOver
    } else {
        Verdict::Collect
    }
}

proof fn lemma_owned_keys_insert<V>(m: Map<u64, Entry<V>>, k: u64, e: Entry<V>)
    requires
        !m.contains_key(k),
    ensures
        owned_keys(m.insert(k, e)) == (if e.owner == Owner::RustRegistry {
            owned_keys(m).insert(k)
        } else {
            owned_keys(m)
        }),
{
    assert(owned_keys(m.insert(k, e)) =~= (if e.owner == Owner::RustRegistry {
        owned_keys(m).insert(k)
    } else {
        owned_keys(m)
    }));
}

proof fn lemma_owned_keys_remove<V>(m: Map<u64, Entry<V>>, k: u64)
    ensures
        owned_keys(m.remove(k)) == owned_keys(m).remove(k),
{
    assert(owned_keys(m.remove(k)) =~= owned_keys(m).remove(k));
}

proof fn lemma_owned_keys_finite<V>(m: Map<u64, Entry<V>>)
    requires
        m.dom().finite(),
    ensures
        owned_keys(m).finite(),
        owned_keys(m).len() <= m.dom().len(),
{
    m.dom().lemma_len_filter(|k: u64| m[k].owner == Owner::RustRegistry);
}

/// A registered object is found: after registering `key`, the proxy lookup
/// for `key` gives the registered proxy.
pub proof fn law_lookup_after_register<V>(m: Map<u64, Entry<V>>, key: u64, e: Entry<V>)
    ensures
        spec_proxy_ptr(m.insert(key, e), key) == e.proxy,
{
}

/// An unregistered object is gone: after unregistering `key`, the proxy
/// lookup for `key` gives 0, and no other entry changes.
pub proof fn law_lookup_after_unregister<V>(m: Map<u64, Entry<V>>, key: u64, other: u64)
    requires
        other != key,
    ensures
        spec_proxy_ptr(m.remove(key), key) == 0,
        spec_proxy_ptr(m.remove(key), other) == spec_proxy_ptr(m, other),
{
}

/// Unregistering undoes registering: registering a new key and then
/// unregistering it gives back the registry as it was.
pub proof fn law_unregister_undoes_register<V>(m: Map<u64, Entry<V>>, key: u64, e: Entry<V>)
    requires
        !m.contains_key(key),
    ensures
        m.insert(key, e).remove(key) == m,
{
    assert(m.insert(key, e).remove(key) =~= m);
}

/// The live count goes up by one exactly when a registry-owned object is
/// registered; registering an engine-owned object leaves it unchanged.
pub proof fn law_live_count_after_register<V>(m: Map<u64, Entry<V>>, key: u64, e: Entry<V>)
    requires
        m.dom().finite(),
        !m.contains_key(key),
    ensures
        owned_keys(m.insert(key, e)).len() == owned_keys(m).len() + (if e.owner
            == Owner::RustRegistry {
            1int
        } else {
            0
        }),
{
    lemma_owned_keys_finite(m);
    lemma_owned_keys_insert(m, key, e);
}

/// The live count goes down by one exactly when a registry-owned object is
/// unregistered.
pub proof fn law_live_count_after_unregister<V>(m: Map<u64, Entry<V>>, key: u64)
    requires
        m.dom().finite(),
    ensures
        owned_keys(m.remove(key)).len() + (if m.contains_key(key) && m[key].owner
            == Owner::RustRegistry {
            1int
        } else {
            0
        }) == owned_keys(m).len(),
{
    lemma_owned_keys_finite(m);
    lemma_owned_keys_remove(m, key);
}

/// A sweep never frees an engine-owned object, nor one that Rust still
/// references (strong count above the proxy's own), nor one that was not
/// observed; every entry it keeps is unchanged.
pub proof fn law_sweep_spares<V>(m: Map<u64, Entry<V>>, obs: Seq<Observation>, key: u64)
    requires
        m.contains_key(key),
        m[key].owner == Owner::Engine || forall|j: int|
            0 <= j < obs.len() && #[trigger] obs[j].key == key ==> obs[j].strong_count > 1,
    ensures
        spec_sweep(m, obs).contains_key(key),
        spec_sweep(m, obs)[key] == m[key],
{
    assert(!collected_keys(m, obs).contains(key));
}

/// A sweep frees exactly the registry-owned objects that an observation shows
/// without Rust interest, not flagged `JavaScriptOwnership` and without a JS
/// wrapper.
pub proof fn law_sweep_collects<V>(m: Map<u64, Entry<V>>, obs: Seq<Observation>, j: int)
    requires
        0 <= j < obs.len(),
        m.contains_key(obs[j].key),
        m[obs[j].key].owner == Owner::RustRegistry,
        obs[j].strong_count <= 1,
        !obs[j].javascript_owned,
        !obs[j].has_live_wrapper,
    ensures
        !spec_sweep(m, obs).contains_key(obs[j].key),
{
    assert(collected_keys(m, obs).contains(obs[j].key));
}

/// What a sweep removes were registry-owned entries with the garbage
/// signature.
pub proof fn law_sweep_removes_only_garbage<V>(m: Map<u64, Entry<V>>, obs: Seq<Observation>, key: u64)
    requires
        m.contains_key(key),
        !spec_sweep(m, obs).contains_key(key),
    ensures
        m[key].owner == Owner::RustRegistry,
        exists|j: int|
            0 <= j < obs.len() && #[trigger] obs[j].key == key && obs[j].strong_count <= 1
                && !obs[j].javascript_owned && !obs[j].has_live_wrapper,
{
    let j = choose|j: int|
        0 <= j < obs.len() && #[trigger] obs[j].key == key && observed_verdict(m, obs[j])
            == Verdict::Collect;
    assert(obs[j].key == key);
}

/// The collection threshold after a sweep is the larger of its minimum and
/// twice the remaining owned count.
pub proof fn law_next_threshold(owned: int)
    requires
        owned >= 0,
    ensures
        spec_next_threshold(owned) >= MIN_COLLECT_THRESHOLD,
        spec_next_threshold(owned) >= 2 * owned,
        spec_next_threshold(owned) == MIN_COLLECT_THRESHOLD || spec_next_threshold(owned) == 2
            * owned,
{
}

proof fn lemma_distinct_keys_count(r: Seq<(u64, u64)>, keys: Set<u64>)
    requires
        forall|i: int| 0 <= i < r.len() ==> keys.contains(#[trigger] r[i].0),
        forall|k: u64| #[trigger] keys.contains(k) ==> exists|i: int| 0 <= i < r.len() && r[i].0 == k,
        forall|i: int, j: int| 0 <= i < j < r.len() ==> r[i].0 != r[j].0,
    ensures
        r.len() == keys.len(),
{
    let ks = r.map_values(|p: (u64, u64)| p.0);
    assert(ks.no_duplicates()) by {
        assert forall|i: int, j: int| 0 <= i < ks.len() && 0 <= j < ks.len() && i != j implies ks[i]
            != ks[j] by {
            if i < j {
                assert(r[i].0 != r[j].0);
            } else {
                assert(r[j].0 != r[i].0);
            }
        }
    }
    assert(ks.to_set() =~= keys) by {
        assert forall|k: u64| keys.contains(k) implies ks.to_set().contains(k) by {
            let i = choose|i: int| 0 <= i < r.len() && r[i].0 == k;
            assert(ks[i] == k);
        }
        assert forall|k: u64| ks.to_set().contains(k) implies keys.contains(k) by {
            let i = choose|i: int| 0 <= i < ks.len() && ks[i] == k;
            assert(keys.contains(r[i].0));
        }
    }
    ks.unique_seq_to_set();
}

/// The fate of an entry follows the garbage signature: it is collected
/// exactly when the registry owns it, Rust holds no reference besides the
/// proxy's, it is not `JavaScriptOwnership` and QML holds no wrapper; it is
/// handed over to the engine exactly when all of that holds but QML holds a
/// wrapper; otherwise it is spared. In particular an object that Rust still
/// references is never handed over nor freed.
pub proof fn law_verdict_follows_signature(
    owner: Owner,
    strong_count: usize,
    javascript_owned: bool,
    has_live_wrapper: bool,
)
    ensures
        spec_verdict(owner, strong_count, javascript_owned, has_live_wrapper) == Verdict::Collect
            <==> (owner == Owner::RustRegistry && strong_count <= 1 && !javascript_owned
            && !has_live_wrapper),
        spec_verdict(owner, strong_count, javascript_owned, has_live_wrapper) == Verdict::HandOver
            <==> (owner == Owner::RustRegistry && strong_count <= 1 && !javascript_owned
            && has_live_wrapper),
        spec_verdict(owner, strong_count, javascript_owned, has_live_wrapper) == Verdict::Spare
            <==> (owner == Owner::Engine || strong_count > 1 || javascript_owned),
{
}

/// A sweep hands over to the engine exactly the `QObject`s of observed
/// registry-owned entries that Rust no longer references, that are not yet
/// `JavaScriptOwnership` and that QML wraps; and frees exactly those of
/// such entries that QML does not wrap.
pub proof fn law_sweep_outputs_follow_signature<V>(m: Map<u64, Entry<V>>, o: Observation)
    ensures
        handed_over_of(m)(o) is Some <==> (m.contains_key(o.key) && m[o.key].owner
            == Owner::RustRegistry && o.strong_count <= 1 && !o.javascript_owned
            && o.has_live_wrapper),
        handed_over_of(m)(o) matches Some(q) ==> q == m[o.key].qobject,
        doomed_of(m)(o) is Some <==> (m.contains_key(o.key) && m[o.key].owner
            == Owner::RustRegistry && o.strong_count <= 1 && !o.javascript_owned
            && !o.has_live_wrapper),
        doomed_of(m)(o) matches Some(d) ==> d == (m[o.key].value, m[o.key].qobject),
{
}

/// Registering one object leaves the lookup of every other object as it was.
pub proof fn law_register_keeps_others<V>(m: Map<u64, Entry<V>>, key: u64, e: Entry<V>, other: u64)
    requires
        other != key,
    ensures
        spec_proxy_ptr(m.insert(key, e), other) == spec_proxy_ptr(m, other),
{
}

/// Unregistering is idempotent: unregistering a key a second time changes
/// nothing.
pub proof fn law_unregister_twice<V>(m: Map<u64, Entry<V>>, key: u64)
    ensures
        m.remove(key).remove(key) == m.remove(key),
{
    assert(m.remove(key).remove(key) =~= m.remove(key));
}

/// Whatever a sweep kept is, under the same observations, not collected by
/// a second sweep.
proof fn lemma_kept_not_collected<V>(m: Map<u64, Entry<V>>, obs: Seq<Observation>, j: int)
    requires
        0 <= j < obs.len(),
    ensures
        observed_verdict(spec_sweep(m, obs), obs[j]) != Verdict::Collect,
        spec_sweep(m, obs).contains_key(obs[j].key) ==> observed_verdict(m, obs[j])
            != Verdict::Collect && spec_sweep(m, obs)[obs[j].key] == m[obs[j].key],
{
    let k = obs[j].key;
    if observed_verdict(m, obs[j]) == Verdict::Collect {
        assert(collected_keys(m, obs).contains(k));
    }
}

/// A sweep settles the registry: a second sweep over the same observations
/// collects nothing more.
pub proof fn law_sweep_settles<V>(m: Map<u64, Entry<V>>, obs: Seq<Observation>)
    ensures
        spec_sweep(spec_sweep(m, obs), obs) == spec_sweep(m, obs),
        forall|j: int|
            0 <= j < obs.len() ==> observed_verdict(spec_sweep(m, obs), #[trigger] obs[j])
                != Verdict::Collect,
{
    let m1 = spec_sweep(m, obs);
    assert forall|j: int| 0 <= j < obs.len() implies observed_verdict(m1, #[trigger] obs[j])
        != Verdict::Collect by {
        lemma_kept_not_collected(m, obs, j);
    }
    assert forall|k: u64| #[trigger] collected_keys(m1, obs).contains(k) implies !m1.contains_key(k) by {
        let j = choose|j: int|
            0 <= j < obs.len() && #[trigger] obs[j].key == k && observed_verdict(m1, obs[j])
                == Verdict::Collect;
        lemma_kept_not_collected(m, obs, j);
    }
    assert(m1.remove_keys(collected_keys(m1, obs)) =~= m1);
}

/// What a sweep leaves is quiet: once the objects it handed over are flagged
/// `JavaScriptOwnership`, and nothing else changed, a second sweep spares
/// every observed entry: it removes no entry (so both counts stay), frees
/// nothing and hands nothing over.
pub proof fn law_second_sweep_spares_all<V>(
    m: Map<u64, Entry<V>>,
    obs: Seq<Observation>,
    later: Seq<Observation>,
)
    requires
        later.len() == obs.len(),
        forall|j: int|
            0 <= j < obs.len() ==> (#[trigger] later[j]).key == obs[j].key && later[j].strong_count
                == obs[j].strong_count && later[j].has_live_wrapper == obs[j].has_live_wrapper
                && later[j].javascript_owned == (obs[j].javascript_owned || observed_verdict(
                m,
                obs[j],
            ) == Verdict::HandOver),
    ensures
        forall|j: int|
            0 <= j < later.len() ==> observed_verdict(spec_sweep(m, obs), #[trigger] later[j])
                == Verdict::Spare,
        spec_sweep(spec_sweep(m, obs), later) == spec_sweep(m, obs),
        later.filter_map(doomed_of(spec_sweep(m, obs))) == Seq::<(V, u64)>::empty(),
        later.filter_map(handed_over_of(spec_sweep(m, obs))) == Seq::<u64>::empty(),
{
    let m1 = spec_sweep(m, obs);
    assert forall|j: int| 0 <= j < later.len() implies observed_verdict(
        m1,
        #[trigger] later[j],
    ) == Verdict::Spare by {
        lemma_kept_not_collected(m, obs, j);
    }
    assert(collected_keys(m1, later) =~= Set::<u64>::empty());
    assert(m1.remove_keys(Set::<u64>::empty()) =~= m1);
    let d = later.filter_map(doomed_of(m1));
    if d.len() > 0 {
        assert(d.contains(d[0]));
        later.lemma_filter_map_contains(doomed_of(m1), d[0]);
        let t = choose|t: Observation| #[trigger] later.contains(t) && doomed_of(m1)(t) == Some(d[0]);
        let i = choose|i: int| 0 <= i < later.len() && later[i] == t;
        assert(observed_verdict(m1, later[i]) == Verdict::Spare);
    }
    assert(d =~= Seq::<(V, u64)>::empty());
    let h = later.filter_map(handed_over_of(m1));
    if h.len() > 0 {
        assert(h.contains(h[0]));
        later.lemma_filter_map_contains(handed_over_of(m1), h[0]);
        let t = choose|t: Observation| #[trigger] later.contains(t) && handed_over_of(m1)(t) == Some(h[0]);
        let i = choose|i: int| 0 <= i < later.len() && later[i] == t;
        assert(observed_verdict(m1, later[i]) == Verdict::Spare);
    }
    assert(h =~= Seq::<u64>::empty());
}

/// The registry: entries keyed by the address of the user value, the number
/// of entries it owns, and the owned count at which a registration triggers
/// a collection.
pub struct Entries<V> {
    map: HashMap<u64, Entry<V>>,
    owned: usize,
    threshold: usize,
}

impl<V> Entries<V> {
    /// The entries, by key.
    pub closed spec fn view(&self) -> Map<u64, Entry<V>> {
        self.map@
    }

    /// The registry holds finitely many entries.
    pub proof fn lemma_view_finite(&self)
        ensures
            self.view().dom().finite(),
    {
    }

    /// The owned count at which a registration triggers a collection.
    pub closed spec fn spec_threshold(&self) -> nat {
        self.threshold as nat
    }

    /// The registry's invariant: the owned count is the number of entries
    /// owned by the registry, and the threshold never drops below its minimum.
    pub closed spec fn wf(&self) -> bool {
        &&& self.owned as nat == owned_keys(self.map@).len()
        &&& self.threshold >= MIN_COLLECT_THRESHOLD
    }

    /// An empty registry.
    pub fn new() -> (r: Self)
        ensures
            r.wf(),
            r.view() == Map::<u64, Entry<V>>::empty(),
            r.spec_threshold() == MIN_COLLECT_THRESHOLD,
    {
        let r = Entries { map: HashMap::new(), owned: 0, threshold: MIN_COLLECT_THRESHOLD };
        assert(owned_keys(r.map@) =~= Set::<u64>::empty());
        r
    }

    /// The number of entries owned by the registry.
    pub fn owned_count(&self) -> (n: usize)
        requires
            self.wf(),
        ensures
            n as nat == owned_keys(self.view()).len(),
    {
        self.owned
    }

    /// The number of objects the registry currently owns. Useful for leak
    /// checks.
    pub fn live_count(&self) -> (n: usize)
        requires
            self.wf(),
        ensures
            n as nat == owned_keys(self.view()).len(),
    {
        self.owned_count()
    }

    /// The number of objects the registry currently owns. Useful for leak
    /// checks.
    pub fn live_proxy_count(&self) -> (n: usize)
        requires
            self.wf(),
        ensures
            n as nat == owned_keys(self.view()).len(),
    {
        self.owned
    }

    /// The owned count at which a registration triggers a collection.
    pub fn collect_threshold(&self) -> (t: usize)
        ensures
            t as nat == self.spec_threshold(),
    {
        self.threshold
    }

    /// The entry for `key`, if any.
    pub fn get(&self, key: u64) -> (e: Option<&Entry<V>>)
        ensures
            e matches Some(x) ==> self.view().contains_key(key) && *x == self.view()[key],
            e is None ==> !self.view().contains_key(key),
    {
        self.map.get(&key)
    }

    /// Registers an attached object. An object is registered once.
    pub fn register(&mut self, key: u64, proxy: u64, qobject: u64, value: V, owner: Owner) -> (r: Registration)
        requires
            old(self).wf(),
            !old(self).view().contains_key(key),
        ensures
            final(self).wf(),
            final(self).view() == old(self).view().insert(
                key,
                Entry { proxy, qobject, value, owner },
            ),
            final(self).spec_threshold() == old(self).spec_threshold(),
            owned_keys(final(self).view()).len() == owned_keys(old(self).view()).len() + (if owner
                == Owner::RustRegistry {
                1int
            } else {
                0
            }),
            r.pin_to_cpp == (owner == Owner::RustRegistry),
            r.collect_now == (owner == Owner::RustRegistry && owned_keys(final(self).view()).len()
                >= final(self).spec_threshold()),
    {
        proof {
            lemma_owned_keys_finite(self.map@);
            lemma_owned_keys_insert(self.map@, key, Entry { proxy, qobject, value, owner });
        }
        let registry_owned = owner == Owner::RustRegistry;
        let ghost e = Entry { proxy, qobject, value, owner };
        self.map.insert(key, Entry { proxy, qobject, value, owner });
        assert(self.map@ == old(self).map@.insert(key, e));
        // The map's length fits in a `usize`, and bounds the owned count.
        let size: usize = self.map.len();
        proof {
            lemma_owned_keys_finite(self.map@);
            assert(owned_keys(self.map@).len() <= size);
        }
        if registry_owned {
            self.owned = self.owned + 1;
        }
        Registration {
            pin_to_cpp: registry_owned,
            collect_now: registry_owned && self.owned >= self.threshold,
        }
    }

    /// The `QObject` whose ownership must go back to C++ because the object
    /// re-enters Rust: that of a registry-owned entry for `key`.
    pub fn repin(&self, key: u64) -> (q: Option<u64>)
        ensures
            q == (if self.view().contains_key(key) && self.view()[key].owner == Owner::RustRegistry {
                Some(self.view()[key].qobject)
            } else {
                None
            }),
    {
        match self.map.get(&key) {
            Some(entry) => {
                if entry.owner == Owner::RustRegistry {
                    Some(entry.qobject)
                } else {
                    None
                }
            },
            None => None,
        }
    }

    /// Drops the entry for `key`, if there is one.
    pub fn unregister(&mut self, key: u64) -> (removed: Option<Entry<V>>)
        requires
            old(self).wf(),
        ensures
            final(self).wf(),
            final(self).view() == old(self).view().remove(key),
            final(self).spec_threshold() == old(self).spec_threshold(),
            owned_keys(final(self).view()).len() + (if old(self).view().contains_key(key)
                && old(self).view()[key].owner == Owner::RustRegistry {
                1int
            } else {
                0
            }) == owned_keys(old(self).view()).len(),
            removed matches Some(e) ==> old(self).view().contains_key(key) && e == old(self).view()[key],
            removed is None ==> !old(self).view().contains_key(key),
    {
        proof {
            lemma_owned_keys_finite(self.map@);
            lemma_owned_keys_remove(self.map@, key);
        }
        let removed = self.map.remove(&key);
        match &removed {
            Some(entry) => {
                if entry.owner == Owner::RustRegistry {
                    assert(owned_keys(old(self).map@).contains(key));
                    self.owned = self.owned - 1;
                }
            },
            None => {},
        }
        removed
    }

    /// The proxy address for `key`, or 0 when the object has no attached
    /// `QObject`.
    pub fn proxy_ptr(&self, key: u64) -> (p: u64)
        ensures
            p == spec_proxy_ptr(self.view(), key),
    {
        match self.map.get(&key) {
            Some(entry) => entry.proxy,
            None => 0,
        }
    }

    /// Keys and `QObject` addresses of the entries the registry owns: those
    /// a sweep needs observations of.
    pub fn owned_entries(&self) -> (r: Vec<(u64, u64)>)
        requires
            self.wf(),
        ensures
            forall|i: int| 0 <= i < r@.len() ==> owned_keys(self.view()).contains(#[trigger] r@[i].0)
                && r@[i].1 == self.view()[r@[i].0].qobject,
            forall|k: u64| #[trigger] owned_keys(self.view()).contains(k) ==> exists|i: int|
                0 <= i < r@.len() && r@[i].0 == k,
            forall|i: int, j: int| 0 <= i < j < r@.len() ==> r@[i].0 != r@[j].0,
            r@.len() == owned_keys(self.view()).len(),
    {
        let mut r: Vec<(u64, u64)> = Vec::new();
        let ghost m = self.map@;
        let ghost keys_seq = vstd::std_specs::hash::spec_keys_iter(&self.map).remaining();
        let ghost mut done: int = 0;
        proof {
            vstd::std_specs::hash::axiom_spec_keys_iter(&self.map);
        }
        for k in it: self.map.keys()
            invariant
                m == self.map@,
                it.seq() == keys_seq,
                done == it.index(),
                0 <= done <= keys_seq.len(),
                keys_seq.unref().to_set() == m.dom(),
                keys_seq.no_duplicates(),
                forall|i: int| 0 <= i < r@.len() ==> owned_keys(m).contains(#[trigger] r@[i].0)
                    && r@[i].1 == m[r@[i].0].qobject,
                forall|i: int| 0 <= i < r@.len() ==> exists|j: int| 0 <= j < done && *keys_seq[j] == #[trigger] r@[i].0,
                forall|j: int| 0 <= j < done && owned_keys(m).contains(*keys_seq[j])
                    ==> exists|i: int| 0 <= i < r@.len() && r@[i].0 == *keys_seq[j],
                forall|i: int, j: int| 0 <= i < j < r@.len() ==> r@[i].0 != r@[j].0,
        {
            let key = *k;
            let ghost idx = it.index();
            let ghost r_before = r@;
            assert(*it.seq()[idx] == key);
            assert(it.seq().unref()[idx] == key);
            assert(m.dom().contains(key));
            match self.map.get(&key) {
                Some(entry) => {
                    if entry.owner == Owner::RustRegistry {
                        proof {
                            assert forall|i: int| 0 <= i < r@.len() implies r@[i].0 != key by {
                                let j = choose|j: int| 0 <= j < idx && *it.seq()[j] == r@[i].0;
                                assert(it.seq()[j] != it.seq()[idx]);
                            }
                        }
                        r.push((key, entry.qobject));
                        assert(r@[r@.len() - 1].0 == *it.seq()[idx]);
                    }
                },
                None => {},
            }
            proof {
                let ghost r_now = r@;
                assert forall|j: int| 0 <= j < idx + 1 && owned_keys(m).contains(*keys_seq[j])
                    implies exists|i: int| 0 <= i < r_now.len() && r_now[i].0 == *keys_seq[j] by {
                    if j == idx {
                        assert(r_now[r_now.len() - 1].0 == *keys_seq[j]);
                    } else {
                        let i0 = choose|i: int| 0 <= i < r_before.len() && r_before[i].0 == *keys_seq[j];
                        assert(r_now[i0] == r_before[i0]);
                    }
                }
                done = it.index() + 1;
            }
        }
        assert(done == keys_seq.len());
        proof {
            assert forall|k: u64| #[trigger] owned_keys(m).contains(k) implies exists|i: int|
                0 <= i < r@.len() && r@[i].0 == k by {
                assert(keys_seq.unref().to_set().contains(k));
                let j = choose|j: int| 0 <= j < keys_seq.unref().len() && keys_seq.unref()[j] == k;
                assert(*keys_seq[j] == k);
            }
            lemma_distinct_keys_count(r@, owned_keys(m));
        }
        r
    }

    /// One sweep of a collection: decides the fate of every observed entry,
    /// removes the collected ones and returns them, with the `QObject`s that
    /// are handed over to the engine.
    pub fn extract_doomed(&mut self, observed: &[Observation]) -> (s: Sweep<V>)
        requires
            old(self).wf(),
            distinct_keys(observed@),
            forall|i: int| 0 <= i < observed@.len() ==> #[trigger] observed@[i].strong_count >= 1,
        ensures
            final(self).wf(),
            final(self).view() == spec_sweep(old(self).view(), observed@),
            final(self).spec_threshold() == old(self).spec_threshold(),
            s.doomed@ == observed@.filter_map(doomed_of(old(self).view())),
            s.hand_over@ == observed@.filter_map(handed_over_of(old(self).view())),
    {
        let ghost m0 = self.map@;
        let ghost obs = observed@;
        let mut doomed: Vec<(V, u64)> = Vec::new();
        let mut hand_over: Vec<u64> = Vec::new();
        assert(collected_keys(m0, obs.take(0)) =~= Set::<u64>::empty());
        assert(m0.remove_keys(Set::<u64>::empty()) =~= m0);
        for i in 0..observed.len()
            invariant
                self.wf(),
                obs == observed@,
                distinct_keys(obs),
                self.threshold == old(self).threshold,
                self.map@ == m0.remove_keys(collected_keys(m0, obs.take(i as int))),
                doomed@ == obs.take(i as int).filter_map(doomed_of(m0)),
                hand_over@ == obs.take(i as int).filter_map(handed_over_of(m0)),
        {
            let o = observed[i];
            let key = o.key;
            proof {
                obs.lemma_filter_map_take_succ(doomed_of(m0), i as int);
                obs.lemma_filter_map_take_succ(handed_over_of(m0), i as int);
                assert(!collected_keys(m0, obs.take(i as int)).contains(key)) by {
                    if collected_keys(m0, obs.take(i as int)).contains(key) {
                        let j = choose|j: int| 0 <= j < obs.take(i as int).len()
                            && #[trigger] obs.take(i as int)[j].key == key
                            && observed_verdict(m0, obs.take(i as int)[j]) == Verdict::Collect;
                        assert(obs[j].key == obs[i as int].key);
                    }
                }
                assert(self.map@.contains_key(key) == m0.contains_key(key));
            }
            let mut owner_and_qobject: Option<(Owner, u64)> = None;
            match self.map.get(&key) {
                Some(entry) => { owner_and_qobject = Some((entry.owner, entry.qobject)); },
                None => {},
            }
            match owner_and_qobject {
                Some((owner, qobject)) => {
                    let v = verdict(owner, &o);
                    if v == Verdict::Collect {
                        let removed = self.unregister(key);
                        match removed {
                            Some(entry) => { doomed.push((entry.value, entry.qobject)); },
                            None => {},
                        }
                        proof {
                            assert(collected_keys(m0, obs.take(i + 1)) =~= collected_keys(m0, obs.take(i as int)).insert(key));
                        }
                    } else {
                        if v == Verdict::HandOver {
                            hand_over.push(qobject);
                        }
                        proof {
                            assert(collected_keys(m0, obs.take(i + 1)) =~= collected_keys(m0, obs.take(i as int)));
                        }
                    }
                },
                None => {
                    proof {
                        assert(collected_keys(m0, obs.take(i + 1)) =~= collected_keys(m0, obs.take(i as int)));
                    }
                },
            }
        }
        assert(obs.take(obs.len() as int) =~= obs);
        Sweep { doomed, hand_over }
    }

    /// Ends a collection: the next registration-triggered collection comes
    /// at twice the owned count, and never below the minimum threshold.
    pub fn finish_collection(&mut self)
        requires
            old(self).wf(),
            owned_keys(old(self).view()).len() * 2 <= usize::MAX,
        ensures
            final(self).wf(),
            final(self).view() == old(self).view(),
            final(self).spec_threshold() == spec_next_threshold(owned_keys(old(self).view()).len() as int),
    {
        let doubled = self.owned * 2;
        self.threshold = if doubled > MIN_COLLECT_THRESHOLD { doubled } else { MIN_COLLECT_THRESHOLD };
    }

    /// Empties the registry and returns the `QObject`s it owned, which the
    /// runtime deletes (together with their proxies) when the registry is
    /// torn down. Engine-owned `QObject`s are left to the engine.
    pub fn teardown(&mut self) -> (q: Vec<u64>)
        requires
            old(self).wf(),
        ensures
            final(self).wf(),
            final(self).view() == Map::<u64, Entry<V>>::empty(),
            final(self).spec_threshold() == old(self).spec_threshold(),
            q@.len() == owned_keys(old(self).view()).len(),
            forall|i: int| 0 <= i < q@.len() ==> is_owned_qobject(old(self).view(), #[trigger] q@[i]),
            forall|k: u64| #[trigger] owned_keys(old(self).view()).contains(k) ==> exists|i: int|
                0 <= i < q@.len() && q@[i] == old(self).view()[k].qobject,
    {
        let owned = self.owned_entries();
        let mut q: Vec<u64> = Vec::new();
        for i in 0..owned.len()
            invariant
                q@.len() == i,
                forall|j: int| 0 <= j < i ==> q@[j] == #[trigger] owned@[j].1,
        {
            q.push(owned[i].1);
        }
        proof {
            assert forall|i: int| 0 <= i < q@.len() implies is_owned_qobject(old(self).view(), #[trigger] q@[i]) by {
                assert(owned_keys(old(self).view()).contains(owned@[i].0));
            }
            assert forall|k: u64| #[trigger] owned_keys(old(self).view()).contains(k) implies exists|i: int|
                0 <= i < q@.len() && q@[i] == old(self).view()[k].qobject by {
                let i = choose|i: int| 0 <= i < owned@.len() && owned@[i].0 == k;
                assert(q@[i] == owned@[i].1);
            }
        }
        self.map.clear();
        self.owned = 0;
        assert(owned_keys(self.map@) =~= Set::<u64>::empty());
        q
    }
}

} // verus!
