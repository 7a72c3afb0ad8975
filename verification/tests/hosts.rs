use cf_ddns::config::{parse_flag, ConfigError, Endpoints, RawSettings, Settings};
use cf_ddns::decimal::parse_unsigned;
use cf_ddns::hosts::parse_hosts;
use cf_ddns::text::{char_is_white_space, trim};
use cf_ddns::record_type::RecordType;

#[test]
fn duplicate_hosts_collapse_to_one() {
    assert_eq!(parse_hosts("a.com;a.com;b.com"), vec!["a.com".to_string(), "b.com".to_string()]);
}

#[test]
fn hosts_keep_the_order_of_first_occurrence() {
    assert_eq!(
        parse_hosts("c.com;a.com;b.com;a.com;c.com"),
        vec!["c.com".to_string(), "a.com".to_string(), "b.com".to_string()]
    );
}

#[test]
fn empty_host_entries_are_dropped() {
    assert_eq!(parse_hosts(""), Vec::<String>::new());
    assert_eq!(parse_hosts(";"), Vec::<String>::new());
    assert_eq!(parse_hosts(";;;"), Vec::<String>::new());
    assert_eq!(parse_hosts(";a.com;;b.com;"), vec!["a.com".to_string(), "b.com".to_string()]);
    assert_eq!(parse_hosts("a.com"), vec!["a.com".to_string()]);
}

#[test]
fn host_list_is_trimmed_as_a_whole() {
    assert_eq!(parse_hosts("  a.com;b.com\n"), vec!["a.com".to_string(), "b.com".to_string()]);
    assert_eq!(parse_hosts(" \t\r\n"), Vec::<String>::new());
    // White space inside the list belongs to the names.
    assert_eq!(parse_hosts("a.com; b.com"), vec!["a.com".to_string(), " b.com".to_string()]);
    assert_eq!(parse_hosts(" a.com ;a.com"), vec!["a.com ".to_string(), "a.com".to_string()]);
}

#[test]
fn host_names_may_hold_any_characters() {
    assert_eq!(
        parse_hosts("bücher.example;日本語.example;bücher.example"),
        vec!["bücher.example".to_string(), "日本語.example".to_string()]
    );
}

#[test]
fn trim_agrees_with_the_standard_library() {
    for text in [
        "",
        " ",
        "a",
        " a",
        "a ",
        "  a b  ",
        "\t\n\u{b}\u{c}\r x \u{85}\u{a0}",
        "\u{1680}\u{2000}\u{2005}\u{200a}x\u{2028}\u{2029}\u{202f}\u{205f}\u{3000}",
        "\u{200b}x\u{200b}",
        "\u{180e}x\u{feff}",
        " \u{3000} ",
    ] {
        assert_eq!(trim(text), text.trim(), "{:?}", text);
    }
}

#[test]
fn white_space_is_the_unicode_property() {
    let mut code = 0u32;
    while code <= 0x3100 {
        if let Some(c) = char::from_u32(code) {
            assert_eq!(char_is_white_space(c), c.is_whitespace(), "U+{:04X}", code);
        }
        code += 1;
    }
    assert!(!char_is_white_space('\u{feff}'));
    assert!(!char_is_white_space('\u{10ffff}'));
}

#[test]
fn endpoints_need_one_family_at_least() {
    assert_eq!(Endpoints::new(None, None), Err(ConfigError::NoEndpoint));
    assert!(Endpoints::new(Some("https://v4.example/ip".to_string()), None).is_ok());
    assert!(Endpoints::new(None, Some("https://v6.example/ip".to_string())).is_ok());
}

#[test]
fn endpoints_are_walked_in_type_order() {
    let both = Endpoints::new(
        Some("https://v4.example/ip".to_string()),
        Some("https://v6.example/ip".to_string()),
    )
    .unwrap();
    assert_eq!(both.families(), vec![RecordType::A, RecordType::AAAA]);
    assert_eq!(both.get(RecordType::A), Some(&"https://v4.example/ip".to_string()));
    assert_eq!(both.get(RecordType::AAAA), Some(&"https://v6.example/ip".to_string()));

    let only_v6 = Endpoints::new(None, Some("https://v6.example/ip".to_string())).unwrap();
    assert_eq!(only_v6.families(), vec![RecordType::AAAA]);
    assert_eq!(only_v6.get(RecordType::A), None);

    let only_v4 = Endpoints::new(Some("https://v4.example/ip".to_string()), None).unwrap();
    assert_eq!(only_v4.families(), vec![RecordType::A]);
    assert_eq!(only_v4.get(RecordType::AAAA), None);
}

fn raw(interval: Option<&str>, create: Option<&str>) -> RawSettings {
    RawSettings {
        zone_id: Some("zone-1".to_string()),
        api_token: Some("token-1".to_string()),
        hosts: Some("a.com;a.com;b.com".to_string()),
        ipv4_endpoint: Some("https://v4.example/ip".to_string()),
        ipv6_endpoint: None,
        repeat_interval: interval.map(str::to_string),
        create_records: create.map(str::to_string),
    }
}

#[test]
fn unsigned_numbers_are_read_as_the_standard_library_reads_them() {
    for text in [
        "", "0", "7", "60", "007", "+5", "+", "-", "-0", "-5", "++5", "+-5", " 5", "5 ", "5\n",
        "1_000", "0x10", "1e3", "1.0", "٣", "18446744073709551615", "18446744073709551616",
        "+18446744073709551615", "000018446744073709551615", "99999999999999999999",
        "184467440737095516150", "12a", "a12",
    ] {
        assert_eq!(parse_unsigned(text), text.parse::<u64>().ok(), "{:?}", text);
    }
    assert_eq!(parse_unsigned("86400"), Some(86400));
    assert_eq!(parse_unsigned("18446744073709551615"), Some(u64::MAX));
    assert_eq!(parse_unsigned("18446744073709551616"), None);
}

#[test]
fn flags_are_true_or_false_written_exactly() {
    assert_eq!(parse_flag("true"), Some(true));
    assert_eq!(parse_flag("false"), Some(false));
    for text in ["", "True", "FALSE", "1", "0", "yes", " true", "true ", "truefalse"] {
        assert_eq!(parse_flag(text), None, "{:?}", text);
        assert_eq!(parse_flag(text), text.parse::<bool>().ok(), "{:?}", text);
    }
}

#[test]
fn settings_take_defaults_for_interval_and_creation() {
    let settings = Settings::from_raw(raw(None, None)).unwrap();
    assert_eq!(settings.zone_id, "zone-1");
    assert_eq!(settings.api_token, "token-1");
    assert_eq!(settings.hosts, vec!["a.com".to_string(), "b.com".to_string()]);
    assert_eq!(settings.endpoints.families(), vec![RecordType::A]);
    assert_eq!(settings.repeat_interval, 0);
    assert!(!settings.create_records_allowed);

    let settings = Settings::from_raw(raw(Some("300"), Some("true"))).unwrap();
    assert_eq!(settings.repeat_interval, 300);
    assert!(settings.create_records_allowed);
}

#[test]
fn settings_name_the_first_fault() {
    let mut given = raw(Some("x"), Some("x"));
    given.zone_id = None;
    given.api_token = None;
    assert_eq!(Settings::from_raw(given), Err(ConfigError::MissingZone));

    let mut given = raw(None, None);
    given.api_token = None;
    given.hosts = None;
    assert_eq!(Settings::from_raw(given), Err(ConfigError::MissingToken));

    let mut given = raw(None, None);
    given.hosts = None;
    given.ipv4_endpoint = None;
    assert_eq!(Settings::from_raw(given), Err(ConfigError::MissingHosts));

    let mut given = raw(Some("x"), None);
    given.ipv4_endpoint = None;
    assert_eq!(Settings::from_raw(given), Err(ConfigError::NoEndpoint));

    assert_eq!(Settings::from_raw(raw(Some("-1"), Some("maybe"))), Err(ConfigError::BadInterval));
    assert_eq!(Settings::from_raw(raw(Some(""), None)), Err(ConfigError::BadInterval));
    assert_eq!(Settings::from_raw(raw(Some("60"), Some("maybe"))), Err(ConfigError::BadCreateFlag));
    assert_eq!(Settings::from_raw(raw(None, Some(""))), Err(ConfigError::BadCreateFlag));
}
