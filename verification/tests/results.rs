use ipinfo::{DetailsMap, IpDetails};

fn record(ip: &str, city: &str) -> IpDetails {
    IpDetails {
        ip: ip.to_string(),
        hostname: None,
        city: city.to_string(),
        region: String::new(),
        country: String::new(),
        country_name: None,
        is_eu: None,
        country_flag: None,
        country_currency: None,
        continent: None,
        loc: String::new(),
        postal: None,
        timezone: None,
    }
}

#[test]
fn empty_map_has_nothing() {
    let map = DetailsMap::new();
    assert_eq!(map.len(), 0);
    assert!(map.is_empty());
    assert!(!map.contains_key("8.8.8.8"));
    assert_eq!(map.get("8.8.8.8"), None);
    assert!(map.entries().is_empty());
}

#[test]
fn insert_adds_or_replaces() {
    let mut map = DetailsMap::new();
    map.insert("8.8.8.8".to_string(), record("8.8.8.8", "Mountain View"));
    map.insert("4.2.2.4".to_string(), record("4.2.2.4", "Monroe"));
    assert_eq!(map.len(), 2);
    assert!(!map.is_empty());
    assert_eq!(map.get("8.8.8.8"), Some(&record("8.8.8.8", "Mountain View")));
    assert_eq!(map.get("4.2.2.4"), Some(&record("4.2.2.4", "Monroe")));
    assert_eq!(map.get("1.1.1.1"), None);

    map.insert("8.8.8.8".to_string(), record("8.8.8.8", "Elsewhere"));
    assert_eq!(map.len(), 2);
    assert_eq!(map.get("8.8.8.8"), Some(&record("8.8.8.8", "Elsewhere")));
    assert_eq!(map.get("4.2.2.4"), Some(&record("4.2.2.4", "Monroe")));
    assert!(map.contains_key("8.8.8.8"));
    assert!(!map.contains_key("8.8.8.9"));
}

#[test]
fn entries_hold_each_address_once() {
    let mut map = DetailsMap::new();
    for ip in ["1.1.1.1", "2.2.2.2", "1.1.1.1", "3.3.3.3", "2.2.2.2"] {
        map.insert(ip.to_string(), record(ip, ""));
    }
    let mut keys: Vec<&str> = map.entries().iter().map(|e| e.0.as_str()).collect();
    keys.sort();
    assert_eq!(keys, vec!["1.1.1.1", "2.2.2.2", "3.3.3.3"]);
}
