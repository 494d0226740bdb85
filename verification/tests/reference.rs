use ipinfo::{
    Continent, CountryCurrency, CountryFlag, IpDetails, IpErrorKind, ReferenceData,
    ReferenceSources,
};

fn sources() -> ReferenceSources {
    ReferenceSources {
        countries: r#"{"US": "United States", "DE": "Germany"}"#.to_string(),
        eu: r#"["DE", "FR"]"#.to_string(),
        country_flags: r#"{"US": {"emoji": "🇺🇸", "unicode": "U+1F1FA U+1F1F8"}}"#.to_string(),
        country_currencies: r#"{
            "US": {"code": "USD", "symbol": "$"},
            "DE": {"code": "EUR", "symbol": "€"}
        }"#
        .to_string(),
        continents: r#"{"US": {"code": "NA", "name": "North America", "area": 24709000}}"#
            .to_string(),
    }
}

fn record(country: &str) -> IpDetails {
    IpDetails {
        ip: "8.8.8.8".to_string(),
        hostname: None,
        city: "Mountain View".to_string(),
        region: "California".to_string(),
        country: country.to_string(),
        country_name: None,
        is_eu: None,
        country_flag: None,
        country_currency: None,
        continent: None,
        loc: "37.4056,-122.0775".to_string(),
        postal: None,
        timezone: None,
    }
}

#[test]
fn tables_answer_by_country_code() {
    let data = ReferenceData::parse(&sources()).expect("should parse");
    assert_eq!(data.country_name("US"), Some("United States".to_string()));
    assert_eq!(data.country_name("DE"), Some("Germany".to_string()));
    assert_eq!(data.country_name("FR"), None);
    assert_eq!(data.country_name("us"), None);
    assert_eq!(
        data.country_flag("US"),
        Some(CountryFlag {
            emoji: "🇺🇸".to_string(),
            unicode: "U+1F1FA U+1F1F8".to_string()
        })
    );
    assert_eq!(data.country_flag("DE"), None);
    assert_eq!(
        data.country_currency("DE"),
        Some(CountryCurrency {
            code: "EUR".to_string(),
            symbol: "€".to_string()
        })
    );
    assert_eq!(data.country_currency("FR"), None);
    assert_eq!(
        data.continent("US"),
        Some(Continent {
            code: "NA".to_string(),
            name: "North America".to_string()
        })
    );
    assert_eq!(data.continent("DE"), None);
}

#[test]
fn membership_of_the_union_is_a_set() {
    let data = ReferenceData::parse(&sources()).expect("should parse");
    assert!(data.is_eu("DE"));
    assert!(data.is_eu("FR"));
    assert!(!data.is_eu("US"));
    assert!(!data.is_eu(""));
}

#[test]
fn country_is_covered_when_all_four_tables_know_it() {
    let data = ReferenceData::parse(&sources()).expect("should parse");
    assert!(data.covers("US"));
    assert!(!data.covers("DE"));
    assert!(!data.covers("FR"));
    assert!(data.can_enrich(&record("US")));
    assert!(data.can_enrich(&record("")));
    assert!(!data.can_enrich(&record("DE")));
}

#[test]
fn enrichment_sets_every_derived_field() {
    let data = ReferenceData::parse(&sources()).expect("should parse");
    let mut enriched = record("US");
    data.enrich(&mut enriched);
    let mut expected = record("US");
    expected.country_name = Some("United States".to_string());
    expected.is_eu = Some(false);
    expected.country_flag = Some(CountryFlag {
        emoji: "🇺🇸".to_string(),
        unicode: "U+1F1FA U+1F1F8".to_string(),
    });
    expected.country_currency = Some(CountryCurrency {
        code: "USD".to_string(),
        symbol: "$".to_string(),
    });
    expected.continent = Some(Continent {
        code: "NA".to_string(),
        name: "North America".to_string(),
    });
    assert_eq!(enriched, expected);
}

#[test]
fn enrichment_leaves_a_record_without_country_alone() {
    let data = ReferenceData::parse(&sources()).expect("should parse");
    let mut enriched = record("");
    data.enrich(&mut enriched);
    assert_eq!(enriched, record(""));
}

#[test]
fn empty_tables_are_tables() {
    let empty = ReferenceSources {
        countries: "{}".to_string(),
        eu: "[]".to_string(),
        country_flags: "{}".to_string(),
        country_currencies: "{}".to_string(),
        continents: "{}".to_string(),
    };
    let data = ReferenceData::parse(&empty).expect("should parse");
    assert_eq!(data.country_name("US"), None);
    assert!(!data.is_eu("DE"));
    assert!(!data.covers("US"));
}

#[test]
fn malformed_tables_are_refused() {
    let cases: Vec<(usize, &str)> = vec![
        (0, ""),
        (0, "[]"),
        (0, r#"{"US": 1}"#),
        (0, r#"{"US": {"name": "United States"}}"#),
        (1, "{}"),
        (1, r#"["DE", 3]"#),
        (1, r#""DE""#),
        (2, "[]"),
        (2, r#"{"US": "flag"}"#),
        (2, r#"{"US": {"emoji": "x"}}"#),
        (2, r#"{"US": {"emoji": "x", "unicode": null}}"#),
        (3, r#"{"US": {"code": "USD"}}"#),
        (3, r#"{"US": {"symbol": "$"}}"#),
        (4, r#"{"US": {"code": "NA", "name": ["North America"]}}"#),
        (4, "{"),
    ];
    for (which, text) in cases {
        let mut broken = sources();
        match which {
            0 => broken.countries = text.to_string(),
            1 => broken.eu = text.to_string(),
            2 => broken.country_flags = text.to_string(),
            3 => broken.country_currencies = text.to_string(),
            _ => broken.continents = text.to_string(),
        }
        let error = ReferenceData::parse(&broken).err().unwrap();
        assert_eq!(error.kind(), IpErrorKind::ReferenceDataError);
    }
}

#[test]
fn tables_are_filled_from_documents() {
    let countries = serde_json::from_str(r#"{"US": "United States"}"#).unwrap();
    let eu = serde_json::from_str(r#"["DE"]"#).unwrap();
    let flags = serde_json::from_str(r#"{"US": {"emoji": "e", "unicode": "u"}}"#).unwrap();
    let currencies = serde_json::from_str(r#"{"US": {"code": "USD", "symbol": "$"}}"#).unwrap();
    let continents =
        serde_json::from_str(r#"{"US": {"code": "NA", "name": "North America"}}"#).unwrap();
    let data = ReferenceData::from_documents(&countries, &eu, &flags, &currencies, &continents)
        .expect("should read");
    assert!(data.covers("US"));
    assert!(data.is_eu("DE"));
    assert!(ReferenceData::from_documents(&eu, &eu, &flags, &currencies, &continents).is_none());
    assert!(
        ReferenceData::from_documents(&countries, &countries, &flags, &currencies, &continents)
            .is_none()
    );
    assert!(
        ReferenceData::from_documents(&countries, &eu, &countries, &currencies, &continents)
            .is_none()
    );
}

#[test]
fn tables_are_given_by_their_rows() {
    let data = ReferenceData::from_tables(
        vec![
            ("US".to_string(), "United States".to_string()),
            ("DE".to_string(), "Deutschland".to_string()),
            ("DE".to_string(), "Germany".to_string()),
        ],
        vec!["DE".to_string(), "DE".to_string()],
        vec![(
            "US".to_string(),
            CountryFlag {
                emoji: "🇺🇸".to_string(),
                unicode: "U+1F1FA U+1F1F8".to_string(),
            },
        )],
        vec![
            (
                "US".to_string(),
                CountryCurrency {
                    code: "USD".to_string(),
                    symbol: "US$".to_string(),
                },
            ),
            (
                "US".to_string(),
                CountryCurrency {
                    code: "USD".to_string(),
                    symbol: "$".to_string(),
                },
            ),
        ],
        vec![(
            "US".to_string(),
            Continent {
                code: "NA".to_string(),
                name: "North America".to_string(),
            },
        )],
    );
    assert_eq!(data.country_name("US"), Some("United States".to_string()));
    // Of two rows for one country the later counts.
    assert_eq!(data.country_name("DE"), Some("Germany".to_string()));
    assert_eq!(
        data.country_currency("US"),
        Some(CountryCurrency {
            code: "USD".to_string(),
            symbol: "$".to_string()
        })
    );
    assert!(data.is_eu("DE"));
    assert!(!data.is_eu("US"));
    assert!(data.covers("US"));
    assert!(!data.covers("DE"));
    assert_eq!(data.country_flag("DE"), None);
    assert_eq!(data.continent("DE"), None);
}

#[test]
fn store_without_rows_knows_nothing() {
    let data = ReferenceData::from_tables(vec![], vec![], vec![], vec![], vec![]);
    assert_eq!(data.country_name("US"), None);
    assert_eq!(data.country_flag("US"), None);
    assert_eq!(data.country_currency("US"), None);
    assert_eq!(data.continent("US"), None);
    assert!(!data.is_eu("US"));
    assert!(!data.covers("US"));
    assert!(data.can_enrich(&record("")));
    assert!(!data.can_enrich(&record("US")));
}

#[test]
fn values_of_the_tables_are_read_one_by_one() {
    let name = serde_json::from_str(r#""Germany""#).unwrap();
    let flag =
        serde_json::from_str(r#"{"emoji": "🇩🇪", "unicode": "U+1F1E9 U+1F1EA"}"#).unwrap();
    let money = serde_json::from_str(r#"{"code": "EUR", "symbol": "€"}"#).unwrap();
    let place = serde_json::from_str(r#"{"code": "EU", "name": "Europe"}"#).unwrap();
    assert_eq!(
        ipinfo::reference::read_name(&name),
        Some("Germany".to_string())
    );
    assert_eq!(ipinfo::reference::read_name(&flag), None);
    assert_eq!(
        ipinfo::reference::read_flag(&flag),
        Some(CountryFlag {
            emoji: "🇩🇪".to_string(),
            unicode: "U+1F1E9 U+1F1EA".to_string()
        })
    );
    assert_eq!(ipinfo::reference::read_flag(&money), None);
    assert_eq!(ipinfo::reference::read_flag(&name), None);
    assert_eq!(
        ipinfo::reference::read_currency(&money),
        Some(CountryCurrency {
            code: "EUR".to_string(),
            symbol: "€".to_string()
        })
    );
    assert_eq!(ipinfo::reference::read_currency(&place), None);
    assert_eq!(
        ipinfo::reference::read_continent(&place),
        Some(Continent {
            code: "EU".to_string(),
            name: "Europe".to_string()
        })
    );
    assert_eq!(ipinfo::reference::read_continent(&money), None);
}

#[test]
fn codes_are_an_array_of_strings() {
    let read = |text: &str| {
        let value = serde_json::from_str(text).unwrap();
        ipinfo::reference::read_codes(&value)
    };
    assert_eq!(
        read(r#"["DE", "FR"]"#),
        Some(vec!["DE".to_string(), "FR".to_string()])
    );
    assert_eq!(read("[]"), Some(vec![]));
    assert_eq!(read(r#"["DE", 1]"#), None);
    assert_eq!(read(r#"["DE", null]"#), None);
    assert_eq!(read(r#"{"DE": "FR"}"#), None);
    assert_eq!(read(r#""DE""#), None);
}
