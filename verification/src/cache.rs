//! TTL cache for accessibility tree snapshots.
//!
//! A [`TreeCache`] is an explicit handle created once and passed to every
//! component that needs it. Entries are keyed by (bus identifier, object
//! path, traversal depth) and become stale [`TTL_MS`] milliseconds after
//! insertion; a stale entry reads as absent. The caller supplies the
//! current time in milliseconds to every time-dependent operation, so the
//! whole table is a pure function of the calls made on it.

use vstd::prelude::*;

use crate::tree::{forest_view, A11yNode, NodeView};

verus! {

/// Age in milliseconds at which a cached snapshot becomes stale.
pub const TTL_MS: u64 = 5000;

/// Cache key as a mathematical value: bus identifier, object path, depth.
pub type CacheKeyV = (Seq<char>, Seq<char>, u32);

/// Ghost image of one cache entry: the stored snapshot and the time it was
/// stored.
pub struct CacheEntryView {
    pub nodes: Seq<NodeView>,
    pub at: u64,
}

/// An entry is fresh at `now` while its age is below [`TTL_MS`].
pub open spec fn cache_fresh(e: CacheEntryView, now: u64) -> bool {
    now < e.at + TTL_MS
}

/// What a lookup at time `now` returns on the table `m`: the stored
/// snapshot if the key is present and fresh, absent otherwise.
pub open spec fn cache_lookup(
    m: Map<CacheKeyV, CacheEntryView>,
    k: CacheKeyV,
    now: u64,
) -> Option<Seq<NodeView>> {
    if m.dom().contains(k) && cache_fresh(m[k], now) {
        Some(m[k].nodes)
    } else {
        None
    }
}

/// Which entries a rebuild of the table keeps.
enum KeepRule {
    /// Keep every entry whose key differs from the given one.
    NotKey(String, String, u32),
    /// Keep every entry whose key carries a different bus identifier.
    NotBus(String),
    /// Keep every entry that is fresh at the given time.
    FreshAt(u64),
}

spec fn rule_holds(rule: KeepRule, k: CacheKeyV, e: CacheEntryView) -> bool {
    match rule {
        KeepRule::NotKey(b, p, d) => k != (b.view(), p.view(), d),
        KeepRule::NotBus(b) => k.0 != b.view(),
        KeepRule::FreshAt(now) => cache_fresh(e, now),
    }
}

/// One stored snapshot together with its key and timestamp.
struct CacheSlot {
    bus_name: String,
    path: String,
    depth: u32,
    nodes: Vec<A11yNode>,
    at: u64,
}

spec fn slot_key(s: CacheSlot) -> CacheKeyV {
    (s.bus_name.view(), s.path.view(), s.depth)
}

spec fn slot_entry(s: CacheSlot) -> CacheEntryView {
    CacheEntryView { nodes: forest_view(s.nodes.view()), at: s.at }
}

/// The table described by a sequence of slots; a later slot with the same
/// key would win, though the invariant keeps keys distinct.
spec fn map_of(s: Seq<CacheSlot>) -> Map<CacheKeyV, CacheEntryView>
    decreases s.len(),
{
    if s.len() == 0 {
        Map::empty()
    } else {
        map_of(s.drop_last()).insert(slot_key(s.last()), slot_entry(s.last()))
    }
}

spec fn distinct_keys(s: Seq<CacheSlot>) -> bool {
    forall|i: int, j: int|
        0 <= i < j < s.len() ==> slot_key(#[trigger] s[i]) != slot_key(#[trigger] s[j])
}

/// The slots of `s` whose key and entry satisfy `q`, in order.
spec fn slots_kept(s: Seq<CacheSlot>, q: spec_fn(CacheKeyV, CacheEntryView) -> bool) -> Seq<
    CacheSlot,
>
    decreases s.len(),
{
    if s.len() == 0 {
        s
    } else {
        let rest = slots_kept(s.drop_last(), q);
        if q(slot_key(s.last()), slot_entry(s.last())) {
            rest.push(s.last())
        } else {
            rest
        }
    }
}

/// The restriction of a table to the keys and entries satisfying `q`.
pub open spec fn restrict_entries(
    m: Map<CacheKeyV, CacheEntryView>,
    q: spec_fn(CacheKeyV, CacheEntryView) -> bool,
) -> Map<CacheKeyV, CacheEntryView> {
    Map::new(|k: CacheKeyV| m.dom().contains(k) && q(k, m[k]), |k: CacheKeyV| m[k])
}

proof fn lemma_map_of_contains(s: Seq<CacheSlot>, k: CacheKeyV)
    ensures
        map_of(s).dom().contains(k) <==> exists|i: int|
            0 <= i < s.len() && slot_key(#[trigger] s[i]) == k,
        map_of(s).dom().finite(),
    decreases s.len(),
{
    if s.len() > 0 {
        lemma_map_of_contains(s.drop_last(), k);
        if map_of(s).dom().contains(k) {
            if slot_key(s.last()) == k {
                assert(slot_key(s[s.len() - 1]) == k);
            } else {
                let i = choose|i: int|
                    0 <= i < s.drop_last().len() && slot_key(#[trigger] s.drop_last()[i]) == k;
                assert(slot_key(s[i]) == k);
            }
        }
        if exists|i: int| 0 <= i < s.len() && slot_key(#[trigger] s[i]) == k {
            let i = choose|i: int| 0 <= i < s.len() && slot_key(#[trigger] s[i]) == k;
            if i < s.len() - 1 {
                assert(slot_key(s.drop_last()[i]) == k);
            }
        }
    }
}

proof fn lemma_map_of_get(s: Seq<CacheSlot>, i: int)
    requires
        distinct_keys(s),
        0 <= i < s.len(),
    ensures
        map_of(s).dom().contains(slot_key(s[i])),
        map_of(s)[slot_key(s[i])] == slot_entry(s[i]),
    decreases s.len(),
{
    if i == s.len() - 1 {
    } else {
        assert(distinct_keys(s.drop_last()));
        assert(s.drop_last()[i] == s[i]);
        lemma_map_of_get(s.drop_last(), i);
        assert(slot_key(s[i]) != slot_key(s[s.len() - 1]));
    }
}

proof fn lemma_slots_kept(s: Seq<CacheSlot>, q: spec_fn(CacheKeyV, CacheEntryView) -> bool)
    requires
        distinct_keys(s),
    ensures
        distinct_keys(slots_kept(s, q)),
        map_of(slots_kept(s, q)) == restrict_entries(map_of(s), q),
    decreases s.len(),
{
    if s.len() == 0 {
        assert(map_of(slots_kept(s, q)) =~= restrict_entries(map_of(s), q));
    } else {
        let s0 = s.drop_last();
        let x = s.last();
        assert(distinct_keys(s0));
        lemma_slots_kept(s0, q);
        lemma_map_of_contains(s0, slot_key(x));
        assert(forall|i: int| 0 <= i < s0.len() ==> s0[i] == #[trigger] s[i]);
        assert(!map_of(s0).dom().contains(slot_key(x)));
        let kept0 = slots_kept(s0, q);
        if q(slot_key(x), slot_entry(x)) {
            assert forall|i: int, j: int| 0 <= i < j < kept0.push(x).len() implies slot_key(
                #[trigger] kept0.push(x)[i],
            ) != slot_key(#[trigger] kept0.push(x)[j]) by {
                if j == kept0.len() {
                    lemma_map_of_get(kept0, i);
                }
            }
            assert(kept0.push(x).drop_last() =~= kept0);
            assert(kept0.push(x).last() == x);
            assert(map_of(kept0.push(x)) =~= restrict_entries(map_of(s), q));
        } else {
            assert(map_of(kept0) =~= restrict_entries(map_of(s), q));
        }
    }
}

proof fn lemma_map_of_dom_len(s: Seq<CacheSlot>)
    requires
        distinct_keys(s),
    ensures
        map_of(s).dom().finite(),
        map_of(s).dom().len() == s.len(),
    decreases s.len(),
{
    if s.len() > 0 {
        assert(distinct_keys(s.drop_last()));
        lemma_map_of_dom_len(s.drop_last());
        lemma_map_of_contains(s.drop_last(), slot_key(s.last()));
        assert(!map_of(s.drop_last()).dom().contains(slot_key(s.last())));
        assert(map_of(s).dom() =~= map_of(s.drop_last()).dom().insert(slot_key(s.last())));
    }
}

/// The TTL table of tree snapshots.
pub struct TreeCache {
    slots: Vec<CacheSlot>,
}

impl View for TreeCache {
    type V = Map<CacheKeyV, CacheEntryView>;

    closed spec fn view(&self) -> Map<CacheKeyV, CacheEntryView> {
        map_of(self.slots.view())
    }
}

impl TreeCache {
    #[verifier::type_invariant]
    spec fn wf(&self) -> bool {
        distinct_keys(self.slots.view())
    }

    /// An empty cache.
    pub fn new() -> (c: TreeCache)
        ensures
            c.view() == Map::<CacheKeyV, CacheEntryView>::empty(),
    {
        TreeCache { slots: Vec::new() }
    }

    /// Look up a cached snapshot: the entry stored under the key, provided
    /// it is younger than [`TTL_MS`]; a stale or missing entry reads as
    /// absent.
    #[verifier::loop_isolation(false)]
    pub fn get(&self, bus_name: &str, path: &str, max_depth: u32, now: u64) -> (res: Option<
        Vec<A11yNode>,
    >)
        ensures
            match res {
                Some(nodes) => cache_lookup(
                    self.view(),
                    (bus_name.view(), path.view(), max_depth),
                    now,
                ) == Some(forest_view(nodes.view())),
                None => cache_lookup(
                    self.view(),
                    (bus_name.view(), path.view(), max_depth),
                    now,
                ) is None,
            },
    {
        proof {
            use_type_invariant(self);
        }
        let ghost k: CacheKeyV = (bus_name.view(), path.view(), max_depth);
        let bus: String = bus_name.to_owned();
        let p: String = path.to_owned();
        let mut i: usize = 0;
        while i < self.slots.len()
            invariant
                distinct_keys(self.slots.view()),
                i <= self.slots.view().len(),
                bus.view() == bus_name.view(),
                p.view() == path.view(),
                forall|j: int| 0 <= j < i ==> slot_key(#[trigger] self.slots.view()[j]) != k,
            decreases self.slots.view().len() - i,
        {
            let slot = &self.slots[i];
            if slot.bus_name == bus && slot.path == p && slot.depth == max_depth {
                proof {
                    lemma_map_of_get(self.slots.view(), i as int);
                }
                let fresh_now = slot.at <= now && now - slot.at < TTL_MS || slot.at > now;
                if fresh_now {
                    return Some(crate::tree::clone_nodes(&slot.nodes));
                } else {
                    return None;
                }
            }
            i = i + 1;
        }
        proof {
            lemma_map_of_contains(self.slots.view(), k);
        }
        None
    }

    /// Store a snapshot under the key, overwriting any prior entry and
    /// stamping it with the given time.
    pub fn put(&mut self, bus_name: &str, path: &str, max_depth: u32, nodes: Vec<A11yNode>, now: u64)
        ensures
            final(self).view() == old(self).view().insert(
                (bus_name.view(), path.view(), max_depth),
                CacheEntryView { nodes: forest_view(nodes.view()), at: now },
            ),
    {
        proof {
            use_type_invariant(&*self);
        }
        let ghost k: CacheKeyV = (bus_name.view(), path.view(), max_depth);
        let bus: String = bus_name.to_owned();
        let pth: String = path.to_owned();
        self.retain_by(KeepRule::NotKey(bus.clone(), pth.clone(), max_depth));
        let slot = CacheSlot { bus_name: bus, path: pth, depth: max_depth, nodes, at: now };
        proof {
            use_type_invariant(&*self);
            lemma_map_of_contains(self.slots.view(), k);
        }
        assert(slot_key(slot) == k);
        let mut slots: Vec<CacheSlot> = Vec::new();
        std::mem::swap(&mut slots, &mut self.slots);
        let ghost before = slots.view();
        slots.push(slot);
        proof {
            assert(slots.view().drop_last() =~= before);
            assert(map_of(slots.view()) =~= old(self).view().insert(
                k,
                CacheEntryView { nodes: forest_view(nodes.view()), at: now },
            ));
        }
        self.slots = slots;
    }

    /// Remove every entry whose key carries the given bus identifier, and
    /// only those.
    pub fn invalidate_bus(&mut self, bus_name: &str)
        ensures
            final(self).view() == restrict_entries(
                old(self).view(),
                |k: CacheKeyV, e: CacheEntryView| k.0 != bus_name.view(),
            ),
    {
        let bus: String = bus_name.to_owned();
        self.retain_by(KeepRule::NotBus(bus));
        proof {
            assert(self.view() =~= restrict_entries(
                old(self).view(),
                (|k: CacheKeyV, e: CacheEntryView| k.0 != bus_name.view()),
            ));
        }
    }

    /// Remove every entry.
    pub fn clear(&mut self)
        ensures
            final(self).view() == Map::<CacheKeyV, CacheEntryView>::empty(),
    {
        self.slots = Vec::new();
    }

    /// Remove every entry that is stale at the given time, and only those.
    pub fn evict_expired(&mut self, now: u64)
        ensures
            final(self).view() == restrict_entries(
                old(self).view(),
                |k: CacheKeyV, e: CacheEntryView| cache_fresh(e, now),
            ),
    {
        self.retain_by(KeepRule::FreshAt(now));
        proof {
            assert(self.view() =~= restrict_entries(
                old(self).view(),
                (|k: CacheKeyV, e: CacheEntryView| cache_fresh(e, now)),
            ));
        }
    }

    /// Number of entries currently stored, fresh or stale.
    pub fn len(&self) -> (n: usize)
        ensures
            self.view().dom().finite(),
            n == self.view().dom().len(),
    {
        proof {
            use_type_invariant(self);
            lemma_map_of_dom_len(self.slots.view());
        }
        self.slots.len()
    }

    /// Rebuild the table, keeping exactly the entries the rule accepts.
    #[verifier::loop_isolation(false)]
    fn retain_by(&mut self, rule: KeepRule)
        ensures
            final(self).view() == restrict_entries(
                old(self).view(),
                (|k: CacheKeyV, e: CacheEntryView| rule_holds(rule, k, e)),
            ),
    {
        proof {
            use_type_invariant(&*self);
        }
        let ghost q = (|k: CacheKeyV, e: CacheEntryView| rule_holds(rule, k, e));
        let mut slots: Vec<CacheSlot> = Vec::new();
        std::mem::swap(&mut slots, &mut self.slots);
        let ghost s = slots.view();
        let n = slots.len();
        let mut kept: Vec<CacheSlot> = Vec::new();
        let mut i: usize = 0;
        while slots.len() > 0
            invariant
                n == s.len(),
                i + slots.view().len() == s.len(),
                slots.view() =~= s.subrange(i as int, s.len() as int),
                distinct_keys(s),
                kept.view() =~= slots_kept(s.subrange(0, i as int), q),
            decreases slots.view().len(),
        {
            let slot = slots.remove(0);
            proof {
                assert(slot == s[i as int]);
                assert(s.subrange(0, i + 1).drop_last() =~= s.subrange(0, i as int));
                assert(s.subrange(0, i + 1).last() == s[i as int]);
                assert(slots.view() =~= s.subrange(i + 1, s.len() as int));
            }
            let keep = match &rule {
                KeepRule::NotKey(b, p, d) => !(slot.bus_name == *b && slot.path == *p
                    && slot.depth == *d),
                KeepRule::NotBus(b) => !(slot.bus_name == *b),
                KeepRule::FreshAt(t) => slot.at <= *t && *t - slot.at < TTL_MS || slot.at > *t,
            };
            assert(keep == q(slot_key(s[i as int]), slot_entry(s[i as int])));
            if keep {
                kept.push(slot);
            }
            i = i + 1;
        }
        proof {
            assert(s.subrange(0, s.len() as int) =~= s);
            lemma_slots_kept(s, q);
        }
        self.slots = kept;
    }
}

/// Law: a snapshot stored at time `now` reads back unchanged at any time
/// before its TTL elapses, and reads as absent from the moment the TTL has
/// elapsed.
pub proof fn lemma_cache_round_trip(
    m: Map<CacheKeyV, CacheEntryView>,
    k: CacheKeyV,
    nodes: Seq<NodeView>,
    now: u64,
    later: u64,
)
    ensures
        later < now + TTL_MS ==> cache_lookup(
            m.insert(k, CacheEntryView { nodes, at: now }),
            k,
            later,
        ) == Some(nodes),
        later >= now + TTL_MS ==> cache_lookup(
            m.insert(k, CacheEntryView { nodes, at: now }),
            k,
            later,
        ) is None,
{
}

/// Law: removing a bus from the table removes exactly the keys that carry
/// that bus identifier; every other entry is kept unchanged.
pub proof fn lemma_invalidate_exact(
    m: Map<CacheKeyV, CacheEntryView>,
    bus: Seq<char>,
    k: CacheKeyV,
)
    ensures
        k.0 == bus ==> !restrict_entries(
            m,
            |kk: CacheKeyV, e: CacheEntryView| kk.0 != bus,
        ).dom().contains(k),
        k.0 != bus && m.dom().contains(k) ==> restrict_entries(
            m,
            |kk: CacheKeyV, e: CacheEntryView| kk.0 != bus,
        ).dom().contains(k) && restrict_entries(
            m,
            |kk: CacheKeyV, e: CacheEntryView| kk.0 != bus,
        )[k] == m[k],
{
}

} // verus!

