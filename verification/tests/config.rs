use gemini_server::config::{ConfigError, GeminiConfig, Settings};
use gemini_server::decimal::parse_number;
use gemini_server::redirect::RedirectEntry;

fn settings(pairs: &[(&str, &str)]) -> Settings {
    let mut s = Settings::new();
    for (key, value) in pairs {
        s.insert(key, value);
    }
    s
}

#[test]
fn settings_keep_the_last_value_of_a_key() {
    let mut s = Settings::new();
    assert_eq!(s.get("port"), None);
    s.insert("port", "1");
    s.insert("hostname", "h");
    s.insert("port", "2");
    assert_eq!(s.get("port"), Some("2"));
    assert_eq!(s.get("hostname"), Some("h"));
    assert_eq!(s.get("Port"), None);
    assert_eq!(s.get(""), None);
}

#[test]
fn defaults_apply_without_settings() {
    let config = GeminiConfig::new(Settings::new(), 7).unwrap();
    assert_eq!(config.port(), 1965);
    assert_eq!(config.content_folder(), "content");
    assert_eq!(config.hostname(), "localhost");
    assert_eq!(config.index(), "index.gmi");
    assert_eq!(config.certificate_file(), "cert.pem");
    assert_eq!(config.private_key_file(), "key.pem");
    assert_eq!(config.redirects_file(), None);
    assert_eq!(config.redirects_due(u64::MAX), None);
}

#[test]
fn settings_override_defaults() {
    let config = GeminiConfig::new(
        settings(&[
            ("port", "8000"),
            ("content_root", "/srv/gemini"),
            ("hostname", "example.com"),
            ("index", "home.gmi"),
            ("cert_chain_file", "chain.pem"),
            ("private_key_file", "secret.pem"),
            ("redirects_file", "redirects.ini"),
            ("redirects_ttl", "60"),
        ]),
        0,
    )
    .unwrap();
    assert_eq!(config.port(), 8000);
    assert_eq!(config.content_folder(), "/srv/gemini");
    assert_eq!(config.hostname(), "example.com");
    assert_eq!(config.index(), "home.gmi");
    assert_eq!(config.certificate_file(), "chain.pem");
    assert_eq!(config.private_key_file(), "secret.pem");
    assert_eq!(config.redirects_file(), Some("redirects.ini"));
    assert_eq!(config.redirects_due(60), None);
    assert_eq!(config.redirects_due(61), Some("redirects.ini"));
}

#[test]
fn bad_port_is_refused() {
    for port in ["", "x", "65536", "-1", "80 ", " 80", "8_0", "+", "1e3"] {
        let got = GeminiConfig::new(settings(&[("port", port)]), 0);
        assert_eq!(got.err(), Some(ConfigError::Port));
    }
    assert_eq!(GeminiConfig::new(settings(&[("port", "65535")]), 0).unwrap().port(), 65535);
    assert_eq!(GeminiConfig::new(settings(&[("port", "+0080")]), 0).unwrap().port(), 80);
    assert_eq!(GeminiConfig::new(settings(&[("port", "0")]), 0).unwrap().port(), 0);
}

#[test]
fn bad_ttl_is_refused() {
    let got = GeminiConfig::new(settings(&[("redirects_ttl", "soon")]), 0);
    assert_eq!(got.err(), Some(ConfigError::RedirectsTtl));
    let got = GeminiConfig::new(settings(&[("redirects_ttl", "18446744073709551616")]), 0);
    assert_eq!(got.err(), Some(ConfigError::RedirectsTtl));
    let got = GeminiConfig::new(settings(&[("port", "x"), ("redirects_ttl", "soon")]), 0);
    assert_eq!(got.err(), Some(ConfigError::Port));
    assert!(GeminiConfig::new(settings(&[("redirects_ttl", "18446744073709551615")]), 0).is_ok());
}

#[test]
fn numbers_parse_exactly() {
    assert_eq!(parse_number("0", 10), Some(0));
    assert_eq!(parse_number("10", 10), Some(10));
    assert_eq!(parse_number("11", 10), None);
    assert_eq!(parse_number("007", 10), Some(7));
    assert_eq!(parse_number("+7", 10), Some(7));
    assert_eq!(parse_number("++7", 10), None);
    assert_eq!(parse_number("-7", 10), None);
    assert_eq!(parse_number("", 10), None);
    assert_eq!(parse_number("7a", 10), None);
    assert_eq!(parse_number("\u{0667}", 10), None);
    assert_eq!(parse_number("1965", 65535), Some(1965));
    assert_eq!(parse_number("18446744073709551615", u64::MAX), Some(u64::MAX));
    assert_eq!(parse_number("18446744073709551616", u64::MAX), None);
    assert_eq!(parse_number("99999999999999999999999999", u64::MAX), None);
    assert_eq!(parse_number("000000000000000000000000001", u64::MAX), Some(1));
}

#[test]
fn no_redirect_source_means_no_redirect() {
    let mut config = GeminiConfig::new(Settings::new(), 0).unwrap();
    let loaded = Some(vec![RedirectEntry::from_section("/a", "/b", None)]);
    assert_eq!(config.check_redirect("/a", u64::MAX, loaded), None);
    config.update_redirects(Some(vec![RedirectEntry::from_section("/a", "/b", None)]), 0);
    assert_eq!(config.check_redirect("/a", 0, None), None);
}

#[test]
fn check_redirect_reloads_only_when_stale() {
    let mut config =
        GeminiConfig::new(settings(&[("redirects_file", "r.ini"), ("redirects_ttl", "10")]), 0)
            .unwrap();
    config.update_redirects(Some(vec![RedirectEntry::from_section("/a", "/b", None)]), 0);
    assert_eq!(config.check_redirect("/A", 5, None), Some(("/b".to_string(), true)));
    let fresh = Some(vec![RedirectEntry::from_section("/a", "/c", Some("false"))]);
    assert_eq!(config.check_redirect("/a", 10, fresh), Some(("/b".to_string(), true)));
    assert_eq!(config.redirects_due(11), Some("r.ini"));
    assert_eq!(config.check_redirect("/a", 11, None), Some(("/b".to_string(), true)));
    assert_eq!(config.redirects_due(11), Some("r.ini"));
    let fresh = Some(vec![RedirectEntry::from_section("/z", "/c", Some("false"))]);
    assert_eq!(config.check_redirect("/a", 11, fresh), None);
    assert_eq!(config.check_redirect("/z", 11, None), Some(("/c".to_string(), false)));
    assert_eq!(config.redirects_due(21), None);
    assert_eq!(config.redirects_due(22), Some("r.ini"));
}
