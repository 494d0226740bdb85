use ipinfo::IpInfoConfig;
use std::time::Duration;

#[test]
fn ipinfo_config_defaults_reasonable() {
    let ipinfo_config = IpInfoConfig::default();

    assert_eq!(ipinfo_config.timeout, Duration::from_secs(3));
    assert_eq!(ipinfo_config.cache_size, 100);
}

#[test]
fn ipinfo_config_defaults_to_the_bundled_data() {
    let ipinfo_config = IpInfoConfig::default();

    assert_eq!(ipinfo_config.token, None);
    assert_eq!(ipinfo_config.countries_file_path, None);
    assert_eq!(ipinfo_config.eu_file_path, None);
    assert_eq!(ipinfo_config.country_flags_file_path, None);
    assert_eq!(ipinfo_config.country_currencies_file_path, None);
    assert_eq!(ipinfo_config.continents_file_path, None);
}
