use ipdnsd::config::{DnsEntry, IpSource};
use ipdnsd::daemon::{
    build_registry, cache_key, observe, plan_update, IpCache, Observation, ProviderRegistry,
    StartupFailure,
};
use ipdnsd::dns::{create_provider, Credentials, DnsRecord, ProviderError};
use ipdnsd::ip::{IpAddress, ResolvedIp};
use ipdnsd::secrets::{store_credentials, CredentialsFile};

/// A dotted-quad IPv4 address with its value.
fn resolved(text: &str) -> ResolvedIp {
    let mut value: u32 = 0;
    for part in text.split('.') {
        value = value * 256 + part.parse::<u32>().unwrap();
    }
    ResolvedIp { addr: IpAddress::V4(value), text: text.to_string() }
}

fn entry(provider: &str, name: &str, source: IpSource, ttl: Option<u32>) -> DnsEntry {
    DnsEntry {
        provider: provider.to_string(),
        domain: "example.com".to_string(),
        record_name: name.to_string(),
        record_type: "A".to_string(),
        ip_source: source,
        ttl,
    }
}

fn registry_with(name: &str) -> ProviderRegistry {
    let mut registry = ProviderRegistry::new();
    let client = create_provider(
        "godaddy",
        Credentials { api_key: "k".to_string(), api_secret: "s".to_string() },
    )
    .unwrap();
    registry.insert(name, client);
    registry
}

fn remote(data: &str, ttl: u32) -> DnsRecord {
    DnsRecord { name: "@".to_string(), record_type: "A".to_string(), data: data.to_string(), ttl }
}

#[test]
fn end_to_end_two_ticks() {
    let e = entry("x", "@", IpSource::External, None);
    let registry = registry_with("x");
    let mut cache = IpCache::new();
    let ip = resolved("203.0.113.5");

    // First tick: changed, the remote record is read and replaced.
    assert_eq!(observe(&mut cache, &registry, &e, ip.addr), Observation::Check);
    let update = plan_update(&e, &ip, Ok(remote("203.0.113.1", 600))).unwrap();
    assert_eq!(update.data, "203.0.113.5");
    assert_eq!(update.ttl, 600);
    assert_eq!(update.name, "@");
    assert_eq!(update.record_type, "A");

    // Second tick: the same address, nothing to do.
    assert_eq!(observe(&mut cache, &registry, &e, ip.addr), Observation::Unchanged);
}

#[test]
fn failed_read_still_writes_with_default_ttl() {
    let e = entry("x", "@", IpSource::External, None);
    let ip = resolved("203.0.113.5");
    let update =
        plan_update(&e, &ip, Err(ProviderError::Network("connection refused".to_string())))
            .unwrap();
    assert_eq!(update.data, "203.0.113.5");
    assert_eq!(update.ttl, 600);

    let e = entry("x", "@", IpSource::External, Some(3600));
    let update = plan_update(&e, &ip, Err(ProviderError::Decode("bad".to_string()))).unwrap();
    assert_eq!(update.data, "203.0.113.5");
    assert_eq!(update.ttl, 3600);
}

#[test]
fn remote_already_correct_is_not_written() {
    let e = entry("x", "@", IpSource::External, None);
    let registry = registry_with("x");
    let mut cache = IpCache::new();
    let ip = resolved("198.51.100.7");
    // Cold start: the cache says changed, the provider already holds it.
    assert_eq!(observe(&mut cache, &registry, &e, ip.addr), Observation::Check);
    assert!(plan_update(&e, &ip, Ok(remote("198.51.100.7", 600))).is_none());
}

#[test]
fn entry_ttl_overrides_remote_ttl() {
    let ip = resolved("198.51.100.7");
    let e = entry("x", "@", IpSource::External, Some(120));
    assert_eq!(plan_update(&e, &ip, Ok(remote("198.51.100.1", 900))).unwrap().ttl, 120);
    let e = entry("x", "@", IpSource::External, None);
    assert_eq!(plan_update(&e, &ip, Ok(remote("198.51.100.1", 900))).unwrap().ttl, 900);
}

#[test]
fn repeated_address_is_observed_once() {
    let registry = registry_with("x");
    let mut cache = IpCache::new();
    let a = resolved("10.0.0.1");
    let entries = vec![
        entry("x", "@", IpSource::External, None),
        entry("x", "home", IpSource::Internal, None),
    ];
    for e in &entries {
        assert_eq!(observe(&mut cache, &registry, e, a.addr), Observation::Check);
    }
    for _ in 0..3 {
        for e in &entries {
            assert_eq!(observe(&mut cache, &registry, e, a.addr), Observation::Unchanged);
        }
    }
}

#[test]
fn changed_address_is_written_once_with_new_text() {
    let e = entry("x", "@", IpSource::External, None);
    let registry = registry_with("x");
    let mut cache = IpCache::new();
    let a = resolved("203.0.113.5");
    let b = resolved("203.0.113.9");
    assert_eq!(observe(&mut cache, &registry, &e, a.addr), Observation::Check);
    assert_eq!(observe(&mut cache, &registry, &e, b.addr), Observation::Check);
    assert_eq!(cache.get(&cache_key(&e)), Some(b.addr));
    let update = plan_update(&e, &b, Ok(remote("203.0.113.5", 600))).unwrap();
    assert_eq!(update.data, b.text);
    assert_eq!(observe(&mut cache, &registry, &e, b.addr), Observation::Unchanged);
}

#[test]
fn address_equality_is_by_value() {
    // 2001:db8::1 as read from three spellings.
    let value: u128 = 0x2001_0db8_0000_0000_0000_0000_0000_0001;
    let upper = ResolvedIp { addr: IpAddress::V6(value), text: "2001:DB8::1".to_string() };
    let lower = ResolvedIp { addr: IpAddress::V6(value), text: "2001:db8::1".to_string() };
    let long = ResolvedIp {
        addr: IpAddress::V6(value),
        text: "2001:0db8:0000:0000:0000:0000:0000:0001".to_string(),
    };
    assert_eq!(upper.addr, lower.addr);
    assert_ne!(IpAddress::V6(value), IpAddress::V6(value + 1));
    assert_ne!(IpAddress::V4(1), IpAddress::V6(1));

    let e = entry("x", "@", IpSource::External, None);
    let registry = registry_with("x");
    let mut cache = IpCache::new();
    assert_eq!(observe(&mut cache, &registry, &e, upper.addr), Observation::Check);
    assert_eq!(observe(&mut cache, &registry, &e, lower.addr), Observation::Unchanged);
    assert_eq!(observe(&mut cache, &registry, &e, long.addr), Observation::Unchanged);
}

#[test]
fn missing_provider_still_updates_cache() {
    let e = entry("nobody", "@", IpSource::External, None);
    let registry = registry_with("x");
    let mut cache = IpCache::new();
    let a = resolved("203.0.113.5");
    assert_eq!(observe(&mut cache, &registry, &e, a.addr), Observation::ProviderMissing);
    assert_eq!(cache.get(&cache_key(&e)), Some(a.addr));
    assert_eq!(observe(&mut cache, &registry, &e, a.addr), Observation::Unchanged);
}

#[test]
fn cache_keys_keep_triples_apart() {
    let registry = registry_with("x");
    let mut cache = IpCache::new();
    let a = resolved("203.0.113.5");
    let mut first = entry("x", "b:c", IpSource::External, None);
    first.domain = "a".to_string();
    let mut second = entry("x", "c", IpSource::External, None);
    second.domain = "a:b".to_string();
    let third = entry("x", "b:c", IpSource::Internal, None);
    assert_eq!(observe(&mut cache, &registry, &first, a.addr), Observation::Check);
    assert_eq!(observe(&mut cache, &registry, &second, a.addr), Observation::Check);
    assert_eq!(observe(&mut cache, &registry, &third, a.addr), Observation::Check);
}

#[test]
fn registry_built_once_per_provider() {
    let mut file = CredentialsFile::new();
    store_credentials(&mut file, "godaddy", "k", "s");
    store_credentials(&mut file, "acme", "k", "s");
    let entries = vec![
        entry("godaddy", "@", IpSource::External, None),
        entry("godaddy", "www", IpSource::External, None),
        entry("acme", "@", IpSource::External, None),
        entry("nokey", "@", IpSource::External, None),
    ];
    let (registry, failures) = build_registry(&entries, &file);
    assert!(registry.contains("godaddy"));
    assert!(!registry.contains("acme"));
    assert!(!registry.contains("nokey"));
    assert_eq!(registry.get("godaddy").unwrap().provider_name(), "godaddy");
    assert_eq!(failures.len(), 2);
    assert!(matches!(&failures[0], StartupFailure::UnknownProvider(p) if p == "acme"));
    assert!(matches!(&failures[1], StartupFailure::MissingCredentials(p) if p == "nokey"));
}
