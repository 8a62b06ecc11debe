use ipdnsd::dns::{
    create_provider, provider_from_lowered, ApiRecord, Credentials, DnsRecord, GoDaddyProvider,
    ProviderClient, ProviderError,
};

fn creds(key: &str, secret: &str) -> Credentials {
    Credentials { api_key: key.to_string(), api_secret: secret.to_string() }
}

fn provider() -> GoDaddyProvider {
    GoDaddyProvider::new(creds("k", "s"))
}

#[test]
fn test_auth_header() {
    let provider = GoDaddyProvider::new(Credentials {
        api_key: "test_key".to_string(),
        api_secret: "test_secret".to_string(),
    });

    assert_eq!(provider.auth_header(), "sso-key test_key:test_secret");
}

#[test]
fn record_url_names_domain_type_and_name() {
    assert_eq!(
        provider().record_url("example.com", "A", "@"),
        "https://api.godaddy.com/v1/domains/example.com/records/A/@"
    );
}

#[test]
fn provider_name_is_godaddy() {
    assert_eq!(provider().provider_name(), "godaddy");
    let client = create_provider("godaddy", creds("k", "s")).unwrap();
    assert_eq!(client.provider_name(), "godaddy");
}

#[test]
fn read_record_takes_first_record() {
    let list = vec![
        ApiRecord { data: "203.0.113.1".to_string(), name: None, ttl: Some(1200), record_type: None },
        ApiRecord { data: "203.0.113.2".to_string(), name: None, ttl: Some(60), record_type: None },
    ];
    let r = provider().read_record("example.com", "A", "@", 200, String::new(), Ok(list)).unwrap();
    assert_eq!(r.name, "@");
    assert_eq!(r.record_type, "A");
    assert_eq!(r.data, "203.0.113.1");
    assert_eq!(r.ttl, 1200);
}

#[test]
fn read_record_defaults_ttl_to_600() {
    let list = vec![ApiRecord {
        data: "203.0.113.1".to_string(),
        name: Some("@".to_string()),
        ttl: None,
        record_type: Some("A".to_string()),
    }];
    let r = provider().read_record("example.com", "A", "@", 204, String::new(), Ok(list)).unwrap();
    assert_eq!(r.ttl, 600);
}

#[test]
fn read_record_empty_list_is_not_found() {
    let r = provider().read_record("example.com", "A", "www", 200, String::new(), Ok(vec![]));
    match r {
        Err(ProviderError::NotFound { name, domain }) => {
            assert_eq!(name, "www");
            assert_eq!(domain, "example.com");
        }
        other => panic!("unexpected {:?}", other),
    }
}

#[test]
fn read_record_error_status_keeps_body() {
    let r = provider().read_record(
        "example.com",
        "A",
        "@",
        401,
        "unauthorized".to_string(),
        Ok(vec![]),
    );
    match r {
        Err(ProviderError::HttpStatus { status, body }) => {
            assert_eq!(status, 401);
            assert_eq!(body, "unauthorized");
        }
        other => panic!("unexpected {:?}", other),
    }
    let r = provider().read_record("example.com", "A", "@", 300, String::new(), Ok(vec![]));
    assert!(matches!(r, Err(ProviderError::HttpStatus { status: 300, .. })));
}

#[test]
fn read_record_malformed_body_is_decode_error() {
    let r = provider().read_record(
        "example.com",
        "A",
        "@",
        200,
        "<html>".to_string(),
        Err("expected value".to_string()),
    );
    match r {
        Err(ProviderError::Decode(msg)) => assert_eq!(msg, "expected value"),
        other => panic!("unexpected {:?}", other),
    }
}

#[test]
fn update_payload_holds_data_and_ttl_only() {
    let record = DnsRecord {
        name: "@".to_string(),
        record_type: "A".to_string(),
        data: "192.168.1.1".to_string(),
        ttl: 600,
    };
    let payload = provider().update_payload(&record);
    assert_eq!(payload.len(), 1);
    assert_eq!(payload[0].data, "192.168.1.1");
    assert_eq!(payload[0].ttl, Some(600));
    assert!(payload[0].name.is_none());
    assert!(payload[0].record_type.is_none());
}

#[test]
fn read_update_by_status() {
    assert!(provider().read_update(200, String::new()).is_ok());
    assert!(provider().read_update(299, String::new()).is_ok());
    assert!(matches!(
        provider().read_update(500, "down".to_string()),
        Err(ProviderError::HttpStatus { status: 500, .. })
    ));
    assert!(matches!(
        provider().read_update(199, String::new()),
        Err(ProviderError::HttpStatus { status: 199, .. })
    ));
}

#[test]
fn factory_matches_name_without_case() {
    for name in ["godaddy", "GoDaddy", "GODADDY"] {
        match create_provider(name, creds("k", "s")) {
            Ok(ProviderClient::GoDaddy(p)) => assert_eq!(p.auth_header(), "sso-key k:s"),
            Err(e) => panic!("refused {}", e.name),
        }
    }
}

#[test]
fn factory_refuses_unknown_provider() {
    match create_provider("cloudflare", creds("k", "s")) {
        Err(e) => assert_eq!(e.name, "cloudflare"),
        Ok(_) => panic!("built a client for an unknown provider"),
    }
    assert!(create_provider("", creds("k", "s")).is_err());
    assert!(create_provider("go-daddy", creds("k", "s")).is_err());
}

#[test]
fn provider_from_lowered_compares_exactly() {
    assert!(provider_from_lowered("godaddy", "GoDaddy", creds("k", "s")).is_ok());
    match provider_from_lowered("GoDaddy", "GoDaddy", creds("k", "s")) {
        Err(e) => assert_eq!(e.name, "GoDaddy"),
        Ok(_) => panic!("upper case must not match"),
    }
}
