use ipinfo::{IpDetails, IpErrorKind, IpInfo, IpInfoConfig, ReferenceData, ReferenceSources, Reply};

fn sources() -> ReferenceSources {
    ReferenceSources {
        countries: r#"{"US": "United States"}"#.to_string(),
        eu: r#"[]"#.to_string(),
        country_flags: r#"{"US": {"emoji": "🇺🇸", "unicode": "U+1F1FA U+1F1F8"}}"#.to_string(),
        country_currencies: r#"{"US": {"code": "USD", "symbol": "$"}}"#.to_string(),
        continents: r#"{"US": {"code": "NA", "name": "North America"}}"#.to_string(),
    }
}

fn engine(cache_size: usize) -> IpInfo {
    let config = IpInfoConfig {
        cache_size,
        ..Default::default()
    };
    let reference = ReferenceData::parse(&sources()).expect("should parse");
    IpInfo::with_reference(config, reference)
}

fn bare(ip: &str, country: &str) -> IpDetails {
    IpDetails {
        ip: ip.to_string(),
        hostname: None,
        city: String::new(),
        region: String::new(),
        country: country.to_string(),
        country_name: None,
        is_eu: None,
        country_flag: None,
        country_currency: None,
        continent: None,
        loc: String::new(),
        postal: None,
        timezone: None,
    }
}

#[test]
fn new_engine_has_an_empty_cache() {
    let mut ipinfo = engine(3);
    let parts = ipinfo.partition(&["1.1.1.1", "2.2.2.2", "1.1.1.1"]);
    assert!(parts.hits.is_empty());
    assert_eq!(
        parts.misses,
        vec![
            "1.1.1.1".to_string(),
            "2.2.2.2".to_string(),
            "1.1.1.1".to_string()
        ]
    );
}

#[test]
fn request_names_endpoint_token_and_addresses() {
    let ipinfo = engine(3);
    let request = ipinfo.request(vec!["1.1.1.1".to_string()]);
    assert_eq!(request.method, "POST");
    assert_eq!(request.url, "https://ipinfo.io/batch");
    assert_eq!(request.token, "");
    assert_eq!(request.addresses, vec!["1.1.1.1".to_string()]);
    assert_eq!(request.headers.len(), 3);

    let config = IpInfoConfig {
        token: Some("abc".to_string()),
        ..Default::default()
    };
    let with_token =
        IpInfo::with_reference(config, ReferenceData::parse(&sources()).expect("should parse"));
    assert_eq!(with_token.request(vec![]).token, "abc");
}

#[test]
fn merge_enriches_stores_and_joins() {
    let mut ipinfo = engine(3);
    let hit = {
        let mut record = bare("9.9.9.9", "");
        record.city = "cached".to_string();
        record
    };
    let map = ipinfo.merge(
        vec![("9.9.9.9".to_string(), hit.clone())],
        vec![
            ("1.1.1.1".to_string(), bare("1.1.1.1", "US")),
            ("2.2.2.2".to_string(), bare("2.2.2.2", "")),
        ],
    );
    assert_eq!(map.len(), 3);
    assert_eq!(map.get("9.9.9.9"), Some(&hit));
    assert_eq!(
        map.get("1.1.1.1").unwrap().country_name,
        Some("United States".to_string())
    );
    assert_eq!(map.get("2.2.2.2"), Some(&bare("2.2.2.2", "")));
    // The batch is cached, the hit is not stored again.
    let parts = ipinfo.partition(&["1.1.1.1", "2.2.2.2", "9.9.9.9"]);
    assert_eq!(parts.misses, vec!["9.9.9.9".to_string()]);
    assert_eq!(parts.hits.len(), 2);
    assert_eq!(parts.hits[0].1, *map.get("1.1.1.1").unwrap());
}

#[test]
fn a_hit_counts_before_the_batch() {
    let mut ipinfo = engine(3);
    let mut hit = bare("1.1.1.1", "");
    hit.city = "from the cache".to_string();
    let map = ipinfo.merge(
        vec![("1.1.1.1".to_string(), hit.clone())],
        vec![("1.1.1.1".to_string(), bare("1.1.1.1", "US"))],
    );
    assert_eq!(map.len(), 1);
    assert_eq!(map.get("1.1.1.1"), Some(&hit));
}

#[test]
fn later_record_of_a_batch_replaces_the_earlier() {
    let mut ipinfo = engine(3);
    let mut later = bare("1.1.1.1", "");
    later.city = "later".to_string();
    let map = ipinfo.merge(
        vec![],
        vec![
            ("1.1.1.1".to_string(), bare("1.1.1.1", "")),
            ("1.1.1.1".to_string(), later.clone()),
        ],
    );
    assert_eq!(map.len(), 1);
    assert_eq!(map.get("1.1.1.1"), Some(&later));
    let parts = ipinfo.partition(&["1.1.1.1"]);
    assert_eq!(parts.hits[0].1, later);
}

#[test]
fn batch_larger_than_the_cache_keeps_its_last_records() {
    let mut ipinfo = engine(2);
    let map = ipinfo.merge(
        vec![],
        vec![
            ("1.1.1.1".to_string(), bare("1.1.1.1", "")),
            ("2.2.2.2".to_string(), bare("2.2.2.2", "")),
            ("3.3.3.3".to_string(), bare("3.3.3.3", "")),
        ],
    );
    assert_eq!(map.len(), 3);
    let parts = ipinfo.partition(&["1.1.1.1", "2.2.2.2", "3.3.3.3"]);
    assert_eq!(parts.misses, vec!["1.1.1.1".to_string()]);
    let hits: Vec<&str> = parts.hits.iter().map(|hit| hit.0.as_str()).collect();
    assert_eq!(hits, vec!["2.2.2.2", "3.3.3.3"]);
}

#[test]
fn resolve_goes_by_status_then_body() {
    let mut ipinfo = engine(3);
    let reply = |status: u16, body: &str| Reply {
        status,
        body: body.to_string(),
    };
    let error = ipinfo
        .resolve(vec![], &reply(429, r#"{"error": "quota"}"#))
        .err()
        .unwrap();
    assert_eq!(error.kind(), IpErrorKind::RateLimitExceededError);
    assert_eq!(error.status(), None);

    let error = ipinfo
        .resolve(vec![], &reply(401, r#"{"error": "token"}"#))
        .err()
        .unwrap();
    assert_eq!(error.kind(), IpErrorKind::IpRequestError);
    assert_eq!(error.status(), Some(401));
    assert_eq!(error.description(), None);

    let error = ipinfo
        .resolve(vec![], &reply(200, r#"{"error": "token"}"#))
        .err()
        .unwrap();
    assert_eq!(error.kind(), IpErrorKind::IpRequestError);
    assert_eq!(error.status(), None);
    assert_eq!(error.description(), Some("token".to_string()));

    let error = ipinfo.resolve(vec![], &reply(200, "oops")).err().unwrap();
    assert_eq!(error.kind(), IpErrorKind::ParseError);

    let error = ipinfo
        .resolve(vec![], &reply(200, r#"{"1.1.1.1": {"country": "XX"}}"#))
        .err()
        .unwrap();
    assert_eq!(error.kind(), IpErrorKind::ReferenceDataError);

    // None of the failures touched the cache.
    assert_eq!(ipinfo.partition(&["1.1.1.1"]).hits.len(), 0);

    let map = ipinfo
        .resolve(vec![], &reply(200, r#"{"1.1.1.1": {"country": "US"}}"#))
        .expect("should resolve");
    assert_eq!(map.len(), 1);
    assert_eq!(ipinfo.partition(&["1.1.1.1"]).hits.len(), 1);
}

#[test]
fn resolve_document_reads_what_was_parsed() {
    let mut ipinfo = engine(3);
    let doc = serde_json::from_str(r#"{"1.1.1.1": {"ip": "1.1.1.1", "country": "US"}}"#).unwrap();
    let map = ipinfo
        .resolve_document(vec![], &doc)
        .expect("should resolve");
    assert_eq!(map.get("1.1.1.1").unwrap().is_eu, Some(false));

    let doc = serde_json::from_str(r#"{"error": "Unknown token"}"#).unwrap();
    let error = ipinfo.resolve_document(vec![], &doc).err().unwrap();
    assert_eq!(error.kind(), IpErrorKind::IpRequestError);
    assert_eq!(error.description(), Some("Unknown token".to_string()));

    let doc = serde_json::from_str(r#"[1, 2]"#).unwrap();
    let error = ipinfo.resolve_document(vec![], &doc).err().unwrap();
    assert_eq!(error.kind(), IpErrorKind::ParseError);
}
