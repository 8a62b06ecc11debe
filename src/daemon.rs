//! The update loop's decisions: which entries changed, which provider serves
//! them, and what, if anything, to write to the provider.
use vstd::prelude::*;

use crate::assoc::{
    assoc_map, keys_unique, lemma_absent, lemma_found, lemma_push, lemma_update,
};
use crate::config::{DnsEntry, IpSource};
use crate::dns::{create_provider, lower_of, DnsRecord, ProviderClient, ProviderError, DEFAULT_TTL};
use crate::secrets::{get_credentials, CredentialsFile};
use crate::ip::{IpAddress, ResolvedIp};

verus! {

/// The cache key of an entry: its address source, domain and record name.
pub type KeyView = (IpSource, Seq<char>, Seq<char>);

/// Identifies one (source, domain, record name) triple; distinct triples give
/// distinct keys.
#[derive(Clone, Debug)]
pub struct CacheKey {
    pub source: IpSource,
    pub domain: String,
    pub record_name: String,
}

impl View for CacheKey {
    type V = KeyView;

    open spec fn view(&self) -> KeyView {
        (self.source, self.domain@, self.record_name@)
    }
}

pub open spec fn entry_key(entry: DnsEntry) -> KeyView {
    (entry.ip_source, entry.domain@, entry.record_name@)
}

pub fn cache_key(entry: &DnsEntry) -> (r: CacheKey)
    ensures
        r@ == entry_key(*entry),
{
    CacheKey {
        source: entry.ip_source,
        domain: entry.domain.clone(),
        record_name: entry.record_name.clone(),
    }
}

fn same_key(a: &CacheKey, b: &CacheKey) -> (r: bool)
    ensures
        r == (a@ == b@),
{
    a.source == b.source && a.domain == b.domain && a.record_name == b.record_name
}

pub open spec fn cache_pair_view(p: (CacheKey, IpAddress)) -> (KeyView, IpAddress) {
    (p.0@, p.1)
}

/// The last address seen for each key.
pub struct IpCache {
    entries: Vec<(CacheKey, IpAddress)>,
}

impl IpCache {
    closed spec fn pairs(&self) -> Seq<(KeyView, IpAddress)> {
        self.entries@.map_values(|p: (CacheKey, IpAddress)| cache_pair_view(p))
    }

    #[verifier::type_invariant]
    closed spec fn inv(&self) -> bool {
        keys_unique(self.pairs())
    }

    pub fn new() -> (r: IpCache)
        ensures
            r@ == Map::<KeyView, IpAddress>::empty(),
    {
        let r = IpCache { entries: Vec::new() };
        assert(r.pairs() =~= Seq::empty());
        r
    }

    fn find(&self, key: &CacheKey) -> (r: Option<usize>)
        ensures
            match r {
                Some(i) => i < self.pairs().len() && self.pairs()[i as int].0 == key@,
                None => forall|i: int| 0 <= i < self.pairs().len() ==> self.pairs()[i].0 != key@,
            },
    {
        let mut i: usize = 0;
        while i < self.entries.len()
            invariant
                i <= self.entries@.len(),
                forall|j: int| 0 <= j < i ==> self.pairs()[j].0 != key@,
            decreases self.entries@.len() - i,
        {
            if same_key(&self.entries[i].0, key) {
                return Some(i);
            }
            i = i + 1;
        }
        None
    }

    /// The address last seen for `key`.
    pub fn get(&self, key: &CacheKey) -> (r: Option<IpAddress>)
        ensures
            r == (if self@.contains_key(key@) {
                Some(self@[key@])
            } else {
                None
            }),
    {
        proof {
            use_type_invariant(self);
        }
        match self.find(key) {
            Some(i) => {
                proof {
                    lemma_found(self.pairs(), i as int);
                }
                Some(self.entries[i].1)
            },
            None => {
                proof {
                    lemma_absent(self.pairs(), key@);
                }
                None
            },
        }
    }

    /// Records `ip` as the address last seen for `key`.
    pub fn insert(&mut self, key: CacheKey, ip: IpAddress)
        ensures
            final(self)@ == old(self)@.insert(key@, ip),
    {
        proof {
            use_type_invariant(&*self);
        }
        let ghost s = self.pairs();
        let found = self.find(&key);
        let mut taken = IpCache::new();
        std::mem::swap(self, &mut taken);
        let mut entries = taken.entries;
        match found {
            Some(i) => {
                proof {
                    lemma_update(s, i as int, ip);
                }
                entries.set(i, (key, ip));
                assert(entries@.map_values(|p: (CacheKey, IpAddress)| cache_pair_view(p))
                    =~= s.update(i as int, (s[i as int].0, ip)));
            },
            None => {
                let ghost k = key@;
                proof {
                    lemma_push(s, k, ip);
                }
                entries.push((key, ip));
                assert(entries@.map_values(|p: (CacheKey, IpAddress)| cache_pair_view(p))
                    =~= s.push((k, ip)));
            },
        }
        *self = IpCache { entries };
    }
}

impl View for IpCache {
    type V = Map<KeyView, IpAddress>;

    closed spec fn view(&self) -> Map<KeyView, IpAddress> {
        assoc_map(self.pairs())
    }
}

pub open spec fn registry_pair_view(p: (String, ProviderClient)) -> (Seq<char>, ProviderClient) {
    (p.0@, p.1)
}

/// The provider clients of a daemon run, by the provider name that entries
/// use.
pub struct ProviderRegistry {
    providers: Vec<(String, ProviderClient)>,
}

impl ProviderRegistry {
    closed spec fn pairs(&self) -> Seq<(Seq<char>, ProviderClient)> {
        self.providers@.map_values(|p: (String, ProviderClient)| registry_pair_view(p))
    }

    #[verifier::type_invariant]
    closed spec fn inv(&self) -> bool {
        keys_unique(self.pairs())
    }

    pub fn new() -> (r: ProviderRegistry)
        ensures
            r@ == Map::<Seq<char>, ProviderClient>::empty(),
    {
        let r = ProviderRegistry { providers: Vec::new() };
        assert(r.pairs() =~= Seq::empty());
        r
    }

    fn find(&self, name: &str) -> (r: Option<usize>)
        ensures
            match r {
                Some(i) => i < self.pairs().len() && self.pairs()[i as int].0 == name@,
                None => forall|i: int| 0 <= i < self.pairs().len() ==> self.pairs()[i].0 != name@,
            },
    {
        let key = String::from_str(name);
        let mut i: usize = 0;
        while i < self.providers.len()
            invariant
                i <= self.providers@.len(),
                key@ == name@,
                forall|j: int| 0 <= j < i ==> self.pairs()[j].0 != name@,
            decreases self.providers@.len() - i,
        {
            if self.providers[i].0 == key {
                return Some(i);
            }
            i = i + 1;
        }
        None
    }

    pub fn contains(&self, name: &str) -> (r: bool)
        ensures
            r == self@.contains_key(name@),
    {
        proof {
            use_type_invariant(self);
        }
        match self.find(name) {
            Some(i) => {
                proof {
                    lemma_found(self.pairs(), i as int);
                }
                true
            },
            None => {
                proof {
                    lemma_absent(self.pairs(), name@);
                }
                false
            },
        }
    }

    /// The client registered under `name`.
    pub fn get(&self, name: &str) -> (r: Option<&ProviderClient>)
        ensures
            self@.contains_key(name@) ==> r == Some(&self@[name@]),
            !self@.contains_key(name@) ==> r is None,
    {
        proof {
            use_type_invariant(self);
        }
        match self.find(name) {
            Some(i) => {
                proof {
                    lemma_found(self.pairs(), i as int);
                }
                Some(&self.providers[i].1)
            },
            None => {
                proof {
                    lemma_absent(self.pairs(), name@);
                }
                None
            },
        }
    }

    /// Registers `client` under `name`, replacing any client it had.
    pub fn insert(&mut self, name: &str, client: ProviderClient)
        ensures
            final(self)@ == old(self)@.insert(name@, client),
    {
        proof {
            use_type_invariant(&*self);
        }
        let ghost s = self.pairs();
        let found = self.find(name);
        let mut taken = ProviderRegistry::new();
        std::mem::swap(self, &mut taken);
        let mut providers = taken.providers;
        match found {
            Some(i) => {
                proof {
                    lemma_update(s, i as int, client);
                }
                providers.set(i, (String::from_str(name), client));
                assert(providers@.map_values(|p: (String, ProviderClient)| registry_pair_view(p))
                    =~= s.update(i as int, (s[i as int].0, client)));
            },
            None => {
                proof {
                    lemma_push(s, name@, client);
                }
                providers.push((String::from_str(name), client));
                assert(providers@.map_values(|p: (String, ProviderClient)| registry_pair_view(p))
                    =~= s.push((name@, client)));
            },
        }
        *self = ProviderRegistry { providers };
    }
}

impl View for ProviderRegistry {
    type V = Map<Seq<char>, ProviderClient>;

    closed spec fn view(&self) -> Map<Seq<char>, ProviderClient> {
        assoc_map(self.pairs())
    }
}

/// Why no client could be built for a provider at startup.
#[derive(Clone, Debug)]
pub enum StartupFailure {
    /// No credentials are stored for it.
    MissingCredentials(String),
    /// No client is known for its name.
    UnknownProvider(String),
}

impl StartupFailure {
    pub open spec fn provider_spec(self) -> Seq<char> {
        match self {
            StartupFailure::MissingCredentials(p) => p@,
            StartupFailure::UnknownProvider(p) => p@,
        }
    }
}

/// A client can be built for `name` from `creds`.
pub open spec fn loadable(creds: Map<Seq<char>, (Seq<char>, Seq<char>)>, name: Seq<char>) -> bool {
    creds.contains_key(name) && lower_of(name) == "godaddy"@
}

pub open spec fn names_provider(entries: Seq<DnsEntry>, n: int, name: Seq<char>) -> bool {
    exists|j: int| 0 <= j < n && #[trigger] entries[j].provider@ == name
}

/// Builds the client of each distinct provider that `entries` name, with the
/// stored credentials. A provider whose client cannot be built is left out of
/// the registry, and a failure names it for each entry that tried it.
pub fn build_registry(entries: &Vec<DnsEntry>, creds: &CredentialsFile) -> (r: (
    ProviderRegistry,
    Vec<StartupFailure>,
))
    ensures
        forall|name: Seq<char>|
            #![trigger r.0@.contains_key(name)]
            r.0@.contains_key(name) <==> names_provider(entries@, entries@.len() as int, name)
                && loadable(creds@, name),
        forall|name: Seq<char>|
            #[trigger] r.0@.contains_key(name) ==> r.0@[name].credentials_spec() == creds@[name],
        forall|k: int|
            0 <= k < r.1.len() ==> {
                let name = (#[trigger] r.1[k]).provider_spec();
                names_provider(entries@, entries@.len() as int, name) && !loadable(creds@, name) && (
                r.1[k] is MissingCredentials <==> !creds@.contains_key(name))
            },
        forall|j: int|
            0 <= j < entries@.len() && !loadable(creds@, #[trigger] entries@[j].provider@) ==> exists|
                k: int,
            |
                0 <= k < r.1.len() && (#[trigger] r.1[k]).provider_spec() == entries@[j].provider@,
{
    let mut registry = ProviderRegistry::new();
    let mut failures: Vec<StartupFailure> = Vec::new();
    let mut i: usize = 0;
    while i < entries.len()
        invariant
            i <= entries@.len(),
            forall|name: Seq<char>|
                #![trigger registry@.contains_key(name)]
                registry@.contains_key(name) <==> names_provider(entries@, i as int, name)
                    && loadable(creds@, name),
            forall|name: Seq<char>|
                #[trigger] registry@.contains_key(name) ==> registry@[name].credentials_spec()
                    == creds@[name],
            forall|k: int|
                0 <= k < failures.len() ==> {
                    let name = (#[trigger] failures[k]).provider_spec();
                    names_provider(entries@, i as int, name) && !loadable(creds@, name) && (
                    failures[k] is MissingCredentials <==> !creds@.contains_key(name))
                },
            forall|j: int|
                0 <= j < i && !loadable(creds@, #[trigger] entries@[j].provider@) ==> exists|k: int|
                    0 <= k < failures.len() && (#[trigger] failures[k]).provider_spec()
                        == entries@[j].provider@,
        decreases entries@.len() - i,
    {
        let entry = &entries[i];
        let ghost name = entry.provider@;
        let ghost old_failures = failures@;
        assert(names_provider(entries@, i + 1, name)) by {
            assert(entries@[i as int].provider@ == name);
        }
        assert forall|nm: Seq<char>| names_provider(entries@, i as int, nm) implies names_provider(
            entries@,
            i + 1,
            nm,
        ) by {
            let j = choose|j: int| 0 <= j < i && #[trigger] entries@[j].provider@ == nm;
            assert(entries@[j].provider@ == nm);
        }
        assert forall|nm: Seq<char>| names_provider(entries@, i + 1, nm) && nm != name implies names_provider(
            entries@,
            i as int,
            nm,
        ) by {
            let j = choose|j: int| 0 <= j < i + 1 && #[trigger] entries@[j].provider@ == nm;
            assert(entries@[j].provider@ == nm);
        }
        if !registry.contains(entry.provider.as_str()) {
            match get_credentials(creds, entry.provider.as_str()) {
                Ok(c) => match create_provider(entry.provider.as_str(), c) {
                    Ok(client) => {
                        registry.insert(entry.provider.as_str(), client);
                    },
                    Err(_) => {
                        failures.push(StartupFailure::UnknownProvider(entry.provider.clone()));
                        assert(failures[failures.len() - 1].provider_spec() == name);
                    },
                },
                Err(_) => {
                    failures.push(StartupFailure::MissingCredentials(entry.provider.clone()));
                    assert(failures[failures.len() - 1].provider_spec() == name);
                },
            }
        }
        assert forall|k: int| 0 <= k < old_failures.len() implies #[trigger] failures@[k]
            == old_failures[k] by {}
        assert forall|j: int|
            0 <= j < i + 1 && !loadable(creds@, #[trigger] entries@[j].provider@) implies exists|k: int|
                0 <= k < failures.len() && (#[trigger] failures[k]).provider_spec()
                    == entries@[j].provider@ by {
            if j == i {
                assert(!registry@.contains_key(name));
                assert(failures[failures.len() - 1].provider_spec() == name);
            } else {
                let k = choose|k: int|
                    0 <= k < old_failures.len() && (#[trigger] old_failures[k]).provider_spec()
                        == entries@[j].provider@;
                assert(failures[k] == old_failures[k]);
            }
        }
        i = i + 1;
    }
    (registry, failures)
}

/// What a freshly resolved address means for an entry.
#[derive(Clone, Copy, Debug, PartialEq, Eq, Structural)]
pub enum Observation {
    /// The address is the one last seen: nothing to do.
    Unchanged,
    /// The address changed, but no client serves the entry's provider.
    ProviderMissing,
    /// The address changed: read the remote record.
    Check,
}

/// Whether `current` differs from what the cache holds for `key`; a key never
/// seen counts as changed.
pub open spec fn is_changed(cache: Map<KeyView, IpAddress>, key: KeyView, current: IpAddress) -> bool {
    !(cache.contains_key(key) && cache[key] == current)
}

/// The cache after an observation, and its outcome. A changed address is
/// cached before any provider is contacted, whether or not one is available.
pub open spec fn observe_spec(
    cache: Map<KeyView, IpAddress>,
    registry: Map<Seq<char>, ProviderClient>,
    entry: DnsEntry,
    current: IpAddress,
) -> (Map<KeyView, IpAddress>, Observation) {
    let key = entry_key(entry);
    if !is_changed(cache, key, current) {
        (cache, Observation::Unchanged)
    } else if !registry.contains_key(entry.provider@) {
        (cache.insert(key, current), Observation::ProviderMissing)
    } else {
        (cache.insert(key, current), Observation::Check)
    }
}

/// Takes in the address just resolved for `entry`.
pub fn observe(
    cache: &mut IpCache,
    registry: &ProviderRegistry,
    entry: &DnsEntry,
    current: IpAddress,
) -> (r: Observation)
    ensures
        (final(cache)@, r) == observe_spec(old(cache)@, registry@, *entry, current),
{
    let key = cache_key(entry);
    let changed = match cache.get(&key) {
        Some(cached) => cached != current,
        None => true,
    };
    if !changed {
        return Observation::Unchanged;
    }
    cache.insert(key, current);
    if registry.contains(entry.provider.as_str()) {
        Observation::Check
    } else {
        Observation::ProviderMissing
    }
}

pub open spec fn ttl_or(ttl: Option<u32>, fallback: u32) -> u32 {
    match ttl {
        Some(t) => t,
        None => fallback,
    }
}

/// The record to write for `entry` once the remote record was read, as
/// (name, type, data, time-to-live); `None` when the provider already holds
/// the address. A failed read stands for a record that holds the address with
/// the entry's time-to-live or the default, and is written all the same.
pub open spec fn planned_update(
    entry: DnsEntry,
    text: Seq<char>,
    fetched: Result<DnsRecord, ProviderError>,
) -> Option<(Seq<char>, Seq<char>, Seq<char>, u32)> {
    match fetched {
        Err(_) => Some((entry.record_name@, entry.record_type@, text, ttl_or(entry.ttl, DEFAULT_TTL))),
        Ok(remote) => if remote.data@ == text {
            None
        } else {
            Some((entry.record_name@, entry.record_type@, text, ttl_or(entry.ttl, remote.ttl)))
        },
    }
}

/// Decides what to write for `entry`, whose address changed to `current`,
/// given what reading the remote record gave.
pub fn plan_update(
    entry: &DnsEntry,
    current: &ResolvedIp,
    fetched: Result<DnsRecord, ProviderError>,
) -> (r: Option<DnsRecord>)
    ensures
        r is None <==> planned_update(*entry, current.text@, fetched) is None,
        r matches Some(rec) ==> planned_update(*entry, current.text@, fetched) == Some(rec@),
{
    match fetched {
        Err(_) => {
            let ttl = match entry.ttl {
                Some(t) => t,
                None => DEFAULT_TTL,
            };
            Some(DnsRecord::new(entry.record_name.as_str(), entry.record_type.as_str(), current, ttl))
        },
        Ok(remote) => {
            if remote.data == current.text {
                None
            } else {
                let ttl = match entry.ttl {
                    Some(t) => t,
                    None => remote.ttl,
                };
                Some(
                    DnsRecord::new(entry.record_name.as_str(), entry.record_type.as_str(), current, ttl),
                )
            }
        },
    }
}

/// One pass over `entries` as the cache sees it: `addrs[i]` is what resolving
/// the address of `entries[i]` gave (`None`: it failed, and the entry is
/// skipped). Gives the cache after the pass and each entry's observation.
pub open spec fn tick_spec(
    cache: Map<KeyView, IpAddress>,
    registry: Map<Seq<char>, ProviderClient>,
    entries: Seq<DnsEntry>,
    addrs: Seq<Option<IpAddress>>,
) -> (Map<KeyView, IpAddress>, Seq<Option<Observation>>)
    decreases entries.len(),
{
    if entries.len() == 0 || addrs.len() == 0 {
        (cache, Seq::empty())
    } else {
        let (c, obs) = tick_spec(cache, registry, entries.drop_last(), addrs.drop_last());
        match addrs.last() {
            None => (c, obs.push(None)),
            Some(a) => {
                let (c2, o) = observe_spec(c, registry, entries.last(), a);
                (c2, obs.push(Some(o)))
            },
        }
    }
}

/// Entries that share a key were resolved to the same address.
pub open spec fn consistent(entries: Seq<DnsEntry>, addrs: Seq<IpAddress>) -> bool {
    forall|i: int, j: int|
        0 <= i < entries.len() && 0 <= j < entries.len() && entry_key(entries[i]) == entry_key(
            entries[j],
        ) ==> addrs[i] == addrs[j]
}

pub open spec fn as_resolved(addrs: Seq<IpAddress>) -> Seq<Option<IpAddress>> {
    addrs.map_values(|a: IpAddress| Some(a))
}

/// Seeing one address twice for an entry: the second observation finds it
/// unchanged and leaves the cache as the first left it, so the provider is
/// contacted at most after the first.
pub proof fn law_same_address_observed_once(
    cache: Map<KeyView, IpAddress>,
    registry: Map<Seq<char>, ProviderClient>,
    entry: DnsEntry,
    a: IpAddress,
)
    ensures
        ({
            let (c1, o1) = observe_spec(cache, registry, entry, a);
            let (c2, o2) = observe_spec(c1, registry, entry, a);
            o2 == Observation::Unchanged && c2 == c1
        }),
{
}

proof fn lemma_tick_len(
    cache: Map<KeyView, IpAddress>,
    registry: Map<Seq<char>, ProviderClient>,
    entries: Seq<DnsEntry>,
    addrs: Seq<Option<IpAddress>>,
)
    requires
        entries.len() == addrs.len(),
    ensures
        tick_spec(cache, registry, entries, addrs).1.len() == entries.len(),
    decreases entries.len(),
{
    if entries.len() > 0 {
        lemma_tick_len(cache, registry, entries.drop_last(), addrs.drop_last());
    }
}

/// After a pass in which every entry resolved, the cache holds each entry's
/// address under its key.
proof fn lemma_tick_records(
    cache: Map<KeyView, IpAddress>,
    registry: Map<Seq<char>, ProviderClient>,
    entries: Seq<DnsEntry>,
    addrs: Seq<IpAddress>,
)
    requires
        entries.len() == addrs.len(),
        consistent(entries, addrs),
    ensures
        ({
            let c = tick_spec(cache, registry, entries, as_resolved(addrs)).0;
            forall|i: int|
                0 <= i < entries.len() ==> c.contains_key(entry_key(#[trigger] entries[i]))
                    && c[entry_key(entries[i])] == addrs[i]
        }),
    decreases entries.len(),
{
    if entries.len() > 0 {
        let n = entries.len() - 1;
        assert(as_resolved(addrs).drop_last() =~= as_resolved(addrs.drop_last()));
        assert(consistent(entries.drop_last(), addrs.drop_last()));
        lemma_tick_records(cache, registry, entries.drop_last(), addrs.drop_last());
        let prev = tick_spec(cache, registry, entries.drop_last(), as_resolved(addrs.drop_last())).0;
        assert(as_resolved(addrs).last() == Some(addrs[n]));
        let c = observe_spec(prev, registry, entries[n], addrs[n]).0;
        assert(tick_spec(cache, registry, entries, as_resolved(addrs)).0 == c);
        assert forall|i: int| 0 <= i < entries.len() implies c.contains_key(
            entry_key(#[trigger] entries[i]),
        ) && c[entry_key(entries[i])] == addrs[i] by {
            if entry_key(entries[i]) == entry_key(entries[n]) {
                assert(addrs[i] == addrs[n]);
            } else {
                assert(entries.drop_last()[i] == entries[i]);
                assert(addrs.drop_last()[i] == addrs[i]);
            }
        }
    }
}

/// A pass over a cache that already holds each entry's address changes
/// nothing and observes every entry as unchanged.
proof fn lemma_tick_quiet(
    cache: Map<KeyView, IpAddress>,
    registry: Map<Seq<char>, ProviderClient>,
    entries: Seq<DnsEntry>,
    addrs: Seq<IpAddress>,
)
    requires
        entries.len() == addrs.len(),
        forall|i: int|
            0 <= i < entries.len() ==> cache.contains_key(entry_key(#[trigger] entries[i]))
                && cache[entry_key(entries[i])] == addrs[i],
    ensures
        tick_spec(cache, registry, entries, as_resolved(addrs)).0 == cache,
        forall|i: int|
            0 <= i < entries.len() ==> tick_spec(cache, registry, entries, as_resolved(addrs)).1[i]
                == Some(Observation::Unchanged),
    decreases entries.len(),
{
    lemma_tick_len(cache, registry, entries, as_resolved(addrs));
    if entries.len() > 0 {
        let n = entries.len() - 1;
        assert(as_resolved(addrs).drop_last() =~= as_resolved(addrs.drop_last()));
        assert forall|i: int| 0 <= i < entries.drop_last().len() implies cache.contains_key(
            entry_key(#[trigger] entries.drop_last()[i]),
        ) && cache[entry_key(entries.drop_last()[i])] == addrs.drop_last()[i] by {
            assert(entries.drop_last()[i] == entries[i]);
            assert(addrs.drop_last()[i] == addrs[i]);
        }
        lemma_tick_quiet(cache, registry, entries.drop_last(), addrs.drop_last());
        let obs = tick_spec(cache, registry, entries, as_resolved(addrs)).1;
        let prev = tick_spec(cache, registry, entries.drop_last(), as_resolved(addrs.drop_last())).1;
        assert forall|i: int| 0 <= i < entries.len() implies obs[i] == Some(Observation::Unchanged) by {
            if i < n {
                assert(obs[i] == prev[i]);
            }
        }
    }
}

/// Two passes in which every entry resolves to the same address as before
/// (entries that share a key sharing an address): the second pass observes
/// every entry as unchanged and leaves the cache as it was, so it reads and
/// writes no record.
pub proof fn law_repeated_tick_is_quiet(
    cache: Map<KeyView, IpAddress>,
    registry: Map<Seq<char>, ProviderClient>,
    entries: Seq<DnsEntry>,
    addrs: Seq<IpAddress>,
)
    requires
        entries.len() == addrs.len(),
        consistent(entries, addrs),
    ensures
        ({
            let (c1, obs1) = tick_spec(cache, registry, entries, as_resolved(addrs));
            let (c2, obs2) = tick_spec(c1, registry, entries, as_resolved(addrs));
            c2 == c1 && obs2.len() == entries.len() && forall|i: int|
                0 <= i < entries.len() ==> obs2[i] == Some(Observation::Unchanged)
        }),
{
    let c1 = tick_spec(cache, registry, entries, as_resolved(addrs)).0;
    lemma_tick_records(cache, registry, entries, addrs);
    lemma_tick_quiet(c1, registry, entries, addrs);
    lemma_tick_len(c1, registry, entries, as_resolved(addrs));
}

/// An address that changed from `a` to `b`: the entry is checked again, the
/// cache takes `b`, and unless the provider already holds `b` exactly one
/// record is written, whose data is the text of `b`.
pub proof fn law_changed_address_written_once(
    cache: Map<KeyView, IpAddress>,
    registry: Map<Seq<char>, ProviderClient>,
    entry: DnsEntry,
    a: IpAddress,
    b: IpAddress,
    b_text: Seq<char>,
    fetched: Result<DnsRecord, ProviderError>,
)
    requires
        a != b,
        cache.contains_key(entry_key(entry)),
        cache[entry_key(entry)] == a,
        registry.contains_key(entry.provider@),
        fetched matches Ok(remote) ==> remote.data@ != b_text,
    ensures
        ({
            let (c, o) = observe_spec(cache, registry, entry, b);
            o == Observation::Check && c == cache.insert(entry_key(entry), b)
        }),
        planned_update(entry, b_text, fetched) matches Some(rec) && rec.2 == b_text,
{
}

} // verus!
