use ipinfo::wire::{read_batch, read_error, read_optional, read_plain, read_record, read_required};
use serde_json::Value;

fn doc(text: &str) -> Value {
    serde_json::from_str(text).expect("should parse")
}

#[test]
fn plain_member_defaults_to_empty() {
    let value = doc(r#"{"city": "Paris", "count": 3, "none": null}"#);
    assert_eq!(read_plain(&value, "city"), Some("Paris".to_string()));
    assert_eq!(read_plain(&value, "region"), Some(String::new()));
    assert_eq!(read_plain(&value, "count"), None);
    assert_eq!(read_plain(&value, "none"), None);
}

#[test]
fn optional_member_may_be_missing_or_null() {
    let value = doc(r#"{"postal": "75001", "count": 3, "none": null}"#);
    assert_eq!(
        read_optional(&value, "postal"),
        Some(Some("75001".to_string()))
    );
    assert_eq!(read_optional(&value, "timezone"), Some(None));
    assert_eq!(read_optional(&value, "none"), Some(None));
    assert_eq!(read_optional(&value, "count"), None);
}

#[test]
fn required_member_must_be_a_string() {
    let value = doc(r#"{"code": "EUR", "count": 3, "none": null}"#);
    assert_eq!(read_required(&value, "code"), Some("EUR".to_string()));
    assert_eq!(read_required(&value, "symbol"), None);
    assert_eq!(read_required(&value, "count"), None);
    assert_eq!(read_required(&value, "none"), None);
}

#[test]
fn members_of_what_is_no_object_are_missing() {
    for text in ["[]", "null", "3", r#""ip""#, "true"] {
        let value = doc(text);
        assert_eq!(read_plain(&value, "ip"), Some(String::new()));
        assert_eq!(read_optional(&value, "ip"), Some(None));
        assert_eq!(read_required(&value, "ip"), None);
        assert_eq!(read_error(&value), None);
    }
}

#[test]
fn record_is_read_field_by_field() {
    let value = doc(
        r#"{
            "ip": "8.8.8.8",
            "hostname": "dns.google",
            "city": "Mountain View",
            "region": "California",
            "country": "US",
            "loc": "37.4056,-122.0775",
            "postal": "94043",
            "timezone": "America/Los_Angeles"
        }"#,
    );
    let record = read_record(&value).expect("should read");
    assert_eq!(record.ip, "8.8.8.8");
    assert_eq!(record.hostname, Some("dns.google".to_string()));
    assert_eq!(record.city, "Mountain View");
    assert_eq!(record.region, "California");
    assert_eq!(record.country, "US");
    assert_eq!(record.loc, "37.4056,-122.0775");
    assert_eq!(record.postal, Some("94043".to_string()));
    assert_eq!(record.timezone, Some("America/Los_Angeles".to_string()));
}

#[test]
fn derived_fields_are_never_read() {
    let value = doc(
        r#"{
            "ip": "8.8.8.8",
            "country": "US",
            "country_name": "Somewhere",
            "is_eu": true,
            "country_flag": {"emoji": "x", "unicode": "y"},
            "country_currency": {"code": "x", "symbol": "y"},
            "continent": {"code": "x", "name": "y"}
        }"#,
    );
    let record = read_record(&value).expect("should read");
    assert_eq!(record.country, "US");
    assert_eq!(record.country_name, None);
    assert_eq!(record.is_eu, None);
    assert_eq!(record.country_flag, None);
    assert_eq!(record.country_currency, None);
    assert_eq!(record.continent, None);
}

#[test]
fn empty_object_is_the_empty_record() {
    let record = read_record(&doc("{}")).expect("should read");
    assert_eq!(record.ip, "");
    assert_eq!(record.country, "");
    assert_eq!(record.hostname, None);
}

#[test]
fn record_must_be_an_object_of_strings() {
    for text in [
        "[]",
        "null",
        "3",
        r#""8.8.8.8""#,
        r#"{"ip": 1}"#,
        r#"{"ip": "8.8.8.8", "loc": [37.4, -122.0]}"#,
        r#"{"ip": "8.8.8.8", "country": null}"#,
        r#"{"ip": "8.8.8.8", "postal": 94043}"#,
        r#"{"ip": "8.8.8.8", "timezone": {}}"#,
    ] {
        assert_eq!(read_record(&doc(text)), None);
    }
}

#[test]
fn error_report_is_the_string_member_error() {
    assert_eq!(
        read_error(&doc(r#"{"error": "Unknown token"}"#)),
        Some("Unknown token".to_string())
    );
    assert_eq!(read_error(&doc(r#"{"error": ""}"#)), Some(String::new()));
    assert_eq!(read_error(&doc(r#"{"error": 404}"#)), None);
    assert_eq!(read_error(&doc(r#"{"error": {"title": "x"}}"#)), None);
    assert_eq!(read_error(&doc(r#"{"errors": "x"}"#)), None);
    assert_eq!(read_error(&doc("{}")), None);
}

#[test]
fn batch_has_one_record_for_each_member() {
    let value = doc(
        r#"{
            "8.8.8.8": {"ip": "8.8.8.8", "country": "US"},
            "4.2.2.4": {"ip": "4.2.2.4", "city": "Monroe"}
        }"#,
    );
    let mut batch = read_batch(&value).expect("should read");
    batch.sort_by(|a, b| a.0.cmp(&b.0));
    assert_eq!(batch.len(), 2);
    assert_eq!(batch[0].0, "4.2.2.4");
    assert_eq!(batch[0].1.ip, "4.2.2.4");
    assert_eq!(batch[0].1.city, "Monroe");
    assert_eq!(batch[1].0, "8.8.8.8");
    assert_eq!(batch[1].1.country, "US");
}

#[test]
fn batch_keeps_the_address_it_is_keyed_by() {
    let value = doc(r#"{"asked": {"ip": "answered"}}"#);
    let batch = read_batch(&value).expect("should read");
    assert_eq!(batch.len(), 1);
    assert_eq!(batch[0].0, "asked");
    assert_eq!(batch[0].1.ip, "answered");
}

#[test]
fn batch_must_be_an_object_of_records() {
    assert_eq!(read_batch(&doc("{}")), Some(vec![]));
    for text in [
        "[]",
        "null",
        r#"{"8.8.8.8": "US"}"#,
        r#"{"8.8.8.8": {"ip": "8.8.8.8"}, "4.2.2.4": {"ip": 4}}"#,
        r#"{"error": "Unknown token"}"#,
    ] {
        assert_eq!(read_batch(&doc(text)), None);
    }
}
