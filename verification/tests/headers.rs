use ipinfo::{IpInfo, VERSION};
use reqwest::header::{ACCEPT, CONTENT_TYPE, USER_AGENT};

fn header<'a>(headers: &'a [(String, String)], name: &str) -> &'a str {
    let mut found: Vec<&'a str> = Vec::new();
    for (key, value) in headers {
        if key == name {
            found.push(value.as_str());
        }
    }
    assert_eq!(found.len(), 1);
    found[0]
}

#[test]
fn request_headers_are_canonical() {
    let headers = IpInfo::construct_headers();

    assert_eq!(
        header(&headers, USER_AGENT.as_str()),
        format!("IPinfoClient/Rust/{VERSION}")
    );
    assert_eq!(header(&headers, CONTENT_TYPE.as_str()), "application/json");
    assert_eq!(header(&headers, ACCEPT.as_str()), "application/json");
}

#[test]
fn request_headers_are_exactly_three() {
    let headers = IpInfo::construct_headers();
    assert_eq!(
        headers,
        vec![
            (
                "user-agent".to_string(),
                "IPinfoClient/Rust/0.1.0".to_string()
            ),
            ("content-type".to_string(), "application/json".to_string()),
            ("accept".to_string(), "application/json".to_string()),
        ]
    );
}
