use domain_registry::config::{parse_port, Config, ConfigError};

#[test]
fn parse_port_reads_decimal_numbers() {
    assert_eq!(parse_port("0"), Some(0));
    assert_eq!(parse_port("80"), Some(80));
    assert_eq!(parse_port("3000"), Some(3000));
    assert_eq!(parse_port("65535"), Some(65535));
    assert_eq!(parse_port("+8080"), Some(8080));
    assert_eq!(parse_port("00080"), Some(80));
    assert_eq!(parse_port("0000000000000000000000065535"), Some(65535));
}

#[test]
fn parse_port_refuses_what_is_no_port() {
    for text in [
        "", "+", "-", "-1", "-0", "65536", "70000", "99999999999999999999999", " 80", "80 ", "8 0",
        "80a", "a80", "0x50", "8.0", "++80", "+-80", "8+0", "٣٠٠٠", "８０", "80\n",
    ] {
        assert_eq!(parse_port(text), None);
    }
}

#[test]
fn parse_port_agrees_with_the_standard_parser() {
    let samples = [
        "", "+", "-", "0", "+0", "-0", "1", "9", "10", "65534", "65535", "65536", "065535",
        "+65535", "+65536", "655350", "4294967296", "4294967376", "18446744073709551616", "12a",
        "a12", " 12", "12 ", "1_000", "١٢", "+ 1", "٠", "99999", "100000", "000", "+000",
    ];
    for text in samples {
        assert_eq!(parse_port(text), text.parse::<u16>().ok());
    }
    for n in 0..=70000u32 {
        let text = n.to_string();
        assert_eq!(parse_port(&text), text.parse::<u16>().ok());
    }
}

#[test]
fn from_env_builds_the_configuration() {
    let config = Config::from_env(
        Some("127.0.0.1".to_string()),
        Some("8080".to_string()),
        Some("postgres://localhost/domains".to_string()),
    );
    assert_eq!(
        config,
        Ok(Config {
            host: "127.0.0.1".to_string(),
            port: 8080,
            database_url: Some("postgres://localhost/domains".to_string()),
        })
    );
}

#[test]
fn from_env_without_database() {
    let config = Config::from_env(Some("localhost".to_string()), Some("3000".to_string()), None);
    assert_eq!(
        config,
        Ok(Config { host: "localhost".to_string(), port: 3000, database_url: None })
    );
}

#[test]
fn from_env_reports_what_is_missing() {
    assert_eq!(
        Config::from_env(None, Some("80".to_string()), None),
        Err(ConfigError::MissingHost)
    );
    assert_eq!(Config::from_env(None, None, None), Err(ConfigError::MissingHost));
    assert_eq!(
        Config::from_env(None, Some("x".to_string()), Some("db".to_string())),
        Err(ConfigError::MissingHost)
    );
    assert_eq!(
        Config::from_env(Some("h".to_string()), None, Some("db".to_string())),
        Err(ConfigError::MissingPort)
    );
}

#[test]
fn from_env_reports_an_invalid_port() {
    for port in ["", "http", "65536", "-1", "80 "] {
        assert_eq!(
            Config::from_env(Some("h".to_string()), Some(port.to_string()), None),
            Err(ConfigError::InvalidPort)
        );
    }
}
