use colis_session::config::{EnvironmentConfig, RawEnvironment};
use colis_session::text::{
    clone_texts, is_space_char,
    chars_of, decimal_text, parse_digits, parse_unsigned, same_text, split_trimmed,
};

fn sample(environment: &str, host: &str, port: u16) -> EnvironmentConfig {
    let mut config = EnvironmentConfig::default();
    config.environment = environment.to_string();
    config.host = host.to_string();
    config.port = port;
    config
}

#[test]
fn the_mode_is_read_from_the_environment_name() {
    assert!(sample("development", "h", 1).is_development());
    assert!(!sample("development", "h", 1).is_production());
    assert!(sample("production", "h", 1).is_production());
    assert!(!sample("production", "h", 1).is_development());
    assert!(!sample("Development", "h", 1).is_development());
    assert!(!sample("staging", "h", 1).is_development());
    assert!(!sample("staging", "h", 1).is_production());
}

#[test]
fn the_server_url_is_host_colon_port() {
    assert_eq!(sample("development", "0.0.0.0", 3000).server_url(), "0.0.0.0:3000");
    assert_eq!(sample("development", "localhost", 0).server_url(), "localhost:0");
    assert_eq!(sample("development", "", 65535).server_url(), ":65535");
}

#[test]
fn an_unset_environment_gives_the_defaults() {
    let config = EnvironmentConfig::default();
    assert_eq!(config, EnvironmentConfig::from_raw(RawEnvironment::unset()));
    assert_eq!(config.environment, "development");
    assert_eq!(config.port, 3000);
    assert_eq!(config.host, "0.0.0.0");
    assert_eq!(config.jwt_secret, "your-secret-key");
    assert_eq!(config.jwt_expiration, 86400);
    assert_eq!(
        config.cors_origins,
        vec!["http://localhost:3000".to_string(), "http://localhost:3001".to_string()]
    );
    assert_eq!(config.rate_limit_requests, 100);
    assert_eq!(config.rate_limit_window, 3600);
    assert_eq!(config.mapbox_token, None);
    assert_eq!(config.colis_prive_auth_url, "https://wsauthentificationexterne.colisprive.com");
    assert_eq!(config.colis_prive_tournee_url, "https://wstournee-v2.colisprive.com");
    assert_eq!(config.colis_prive_detail_url, "https://wstournee-v2.colisprive.com");
    assert_eq!(config.colis_prive_gestion_url, "https://gestiontournee.colisprive.com");
    assert_eq!(
        config.colis_prive_referentiel_url,
        "https://wsreferentiel-v2.colisprive.com/WS_RefDistributeur/RefDistributeurConsolideExtranetToExterne.svc"
    );
    assert!(config.is_development());
    assert_eq!(config.server_url(), "0.0.0.0:3000");
}

#[test]
fn set_variables_are_taken_over() {
    let mut raw = RawEnvironment::unset();
    raw.environment = Some("production".to_string());
    raw.port = Some("8080".to_string());
    raw.host = Some("127.0.0.1".to_string());
    raw.jwt_expiration = Some("+60".to_string());
    raw.cors_origins = Some(" https://a.example ,https://b.example,, \t".to_string());
    raw.rate_limit_requests = Some("007".to_string());
    raw.mapbox_token = Some("pk.test".to_string());
    raw.colis_prive_auth_url = Some("https://auth.test".to_string());
    let config = EnvironmentConfig::from_raw(raw);
    assert!(config.is_production());
    assert_eq!(config.port, 8080);
    assert_eq!(config.server_url(), "127.0.0.1:8080");
    assert_eq!(config.jwt_expiration, 60);
    assert_eq!(
        config.cors_origins,
        vec![
            "https://a.example".to_string(),
            "https://b.example".to_string(),
            String::new(),
            String::new()
        ]
    );
    assert_eq!(config.rate_limit_requests, 7);
    assert_eq!(config.mapbox_token, Some("pk.test".to_string()));
    assert_eq!(config.colis_prive_auth_url, "https://auth.test");
    assert_eq!(config.colis_prive_tournee_url, "https://wstournee-v2.colisprive.com");
}

#[test]
fn numbers_that_do_not_parse_fall_back_to_the_default() {
    for bad in ["", "abc", "65536", "-1", "3000 ", " 3000", "30_00", "+", "0x10", "1e3"] {
        let mut raw = RawEnvironment::unset();
        raw.port = Some(bad.to_string());
        assert_eq!(EnvironmentConfig::from_raw(raw).port, 3000, "port {:?}", bad);
    }
    let mut raw = RawEnvironment::unset();
    raw.port = Some("65535".to_string());
    raw.rate_limit_requests = Some("4294967296".to_string());
    raw.rate_limit_window = Some("18446744073709551616".to_string());
    raw.jwt_expiration = Some("18446744073709551615".to_string());
    let config = EnvironmentConfig::from_raw(raw);
    assert_eq!(config.port, 65535);
    assert_eq!(config.rate_limit_requests, 100);
    assert_eq!(config.rate_limit_window, 3600);
    assert_eq!(config.jwt_expiration, u64::MAX);
}

#[test]
fn parsing_agrees_with_the_standard_library() {
    for text in ["0", "1", "+1", "++1", "-0", "00012", "65535", "65536", "", "+", "12a", "١٢"] {
        let expected: Option<u64> = text.parse::<u16>().ok().map(u64::from);
        assert_eq!(parse_unsigned(text, 65535), expected, "text {:?}", text);
    }
    for text in ["18446744073709551615", "18446744073709551616", "99999999999999999999999"] {
        assert_eq!(parse_unsigned(text, u64::MAX), text.parse::<u64>().ok(), "text {:?}", text);
    }
}

#[test]
fn digits_are_parsed_from_an_index_on() {
    let chars: Vec<char> = "ab123".chars().collect();
    assert_eq!(parse_digits(&chars, 2, 1000), Some(123));
    assert_eq!(parse_digits(&chars, 2, 122), None);
    assert_eq!(parse_digits(&chars, 1, 1000), None);
    assert_eq!(parse_digits(&chars, 5, 1000), None);
    assert_eq!(chars_of("héllo"), vec!['h', 'é', 'l', 'l', 'o']);
}

#[test]
fn splitting_agrees_with_the_standard_library() {
    for text in ["", ",", "a", "a,b", " a , b ", ",a,", "a,,b", "\u{a0}x\u{3000},\u{2003}y\n", "é , ü"] {
        let expected: Vec<String> = text.split(',').map(|s| s.trim().to_string()).collect();
        assert_eq!(split_trimmed(text, ','), expected, "text {:?}", text);
    }
}

#[test]
fn numbers_are_written_in_decimal() {
    assert_eq!(decimal_text(0), "0");
    assert_eq!(decimal_text(7), "7");
    assert_eq!(decimal_text(10), "10");
    assert_eq!(decimal_text(1234567890), "1234567890");
    assert_eq!(decimal_text(u64::MAX), "18446744073709551615");
}

#[test]
fn texts_compare_by_their_characters() {
    assert!(same_text("abc", "abc"));
    assert!(!same_text("abc", "abd"));
    assert!(!same_text("abc", "ab"));
    assert!(same_text("", ""));
}

#[test]
fn settings_can_be_copied() {
    let mut raw = RawEnvironment::unset();
    raw.mapbox_token = Some("pk".to_string());
    raw.cors_origins = Some("a,b".to_string());
    let config = EnvironmentConfig::from_raw(raw);
    assert_eq!(config.clone(), config);
    assert_eq!(clone_texts(&config.cors_origins), vec!["a".to_string(), "b".to_string()]);
}

#[test]
fn white_space_is_what_the_standard_library_calls_so() {
    for code in 0u32..0x3100 {
        if let Some(c) = char::from_u32(code) {
            assert_eq!(is_space_char(c), c.is_whitespace(), "U+{:04X}", code);
        }
    }
    assert!(!is_space_char('\u{feff}'));
    assert!(!is_space_char('\u{10ffff}'));
}
