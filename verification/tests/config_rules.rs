use datem::config::{parse_port, Config, ConfigError, EnvVars, RunMode};

fn env(api_key: Option<&str>, port: Option<&str>, mode: Option<&str>) -> EnvVars {
    EnvVars {
        data_dir: None,
        s3_bucket: None,
        s3_region: None,
        s3_endpoint: None,
        s3_prefix: None,
        api_key: api_key.map(|s| s.to_string()),
        stripe_key: None,
        stripe_webhook_secret: None,
        port: port.map(|s| s.to_string()),
        run_mode: mode.map(|s| s.to_string()),
        billing_cron: None,
    }
}

#[test]
fn from_env_applies_defaults() {
    let c = Config::from_env(&env(Some("secret"), None, None)).unwrap();
    assert_eq!(c.data_dir, "./data");
    assert_eq!(c.s3_bucket, None);
    assert_eq!(c.s3_region, "us-east-1");
    assert_eq!(c.s3_endpoint, None);
    assert_eq!(c.s3_prefix, "datem");
    assert_eq!(c.api_key, "secret");
    assert_eq!(c.stripe_key, None);
    assert_eq!(c.stripe_webhook_secret, None);
    assert_eq!(c.port, 3000);
    assert_eq!(c.run_mode, RunMode::Server);
    assert_eq!(c.billing_cron, "0 0 1 * *");
}

#[test]
fn from_env_takes_given_values() {
    let mut e = env(Some("k"), Some("8080"), Some("lambda-billing"));
    e.data_dir = Some("/var/datem".to_string());
    e.s3_bucket = Some("bucket".to_string());
    e.s3_region = Some("eu-west-1".to_string());
    e.s3_prefix = Some("p".to_string());
    e.stripe_key = Some("sk_test_1".to_string());
    e.billing_cron = Some("0 0 * * *".to_string());
    let c = Config::from_env(&e).unwrap();
    assert_eq!(c.data_dir, "/var/datem");
    assert_eq!(c.s3_bucket.as_deref(), Some("bucket"));
    assert_eq!(c.s3_region, "eu-west-1");
    assert_eq!(c.s3_prefix, "p");
    assert_eq!(c.stripe_key.as_deref(), Some("sk_test_1"));
    assert_eq!(c.port, 8080);
    assert_eq!(c.run_mode, RunMode::LambdaBilling);
    assert_eq!(c.billing_cron, "0 0 * * *");
}

#[test]
fn from_env_requires_the_api_key() {
    let r = Config::from_env(&env(None, Some("80"), None));
    assert!(matches!(r, Err(ConfigError::MissingApiKey)));
    assert_eq!(ConfigError::MissingApiKey.message(), "missing required env var: DATEM_API_KEY");
}

#[test]
fn from_env_rejects_a_bad_port() {
    assert!(matches!(Config::from_env(&env(Some("k"), Some("abc"), None)), Err(ConfigError::InvalidPort)));
    assert!(matches!(Config::from_env(&env(Some("k"), Some("70000"), None)), Err(ConfigError::InvalidPort)));
    assert!(matches!(Config::from_env(&env(Some("k"), Some(""), None)), Err(ConfigError::InvalidPort)));
    assert_eq!(ConfigError::InvalidPort.message(), "DATEM_PORT must be a valid port number");
}

#[test]
fn from_env_reads_the_run_mode() {
    let m = |s: Option<&str>| Config::from_env(&env(Some("k"), None, s)).unwrap().run_mode;
    assert_eq!(m(Some("lambda-ingest")), RunMode::LambdaIngest);
    assert_eq!(m(Some("lambda-billing")), RunMode::LambdaBilling);
    assert_eq!(m(Some("server")), RunMode::Server);
    assert_eq!(m(Some("anything")), RunMode::Server);
    assert_eq!(m(None), RunMode::Server);
}

#[test]
fn parse_port_reads_u16_text() {
    assert_eq!(parse_port("0"), Some(0));
    assert_eq!(parse_port("3000"), Some(3000));
    assert_eq!(parse_port("65535"), Some(65535));
    assert_eq!(parse_port("0080"), Some(80));
    assert_eq!(parse_port("+443"), Some(443));
    assert_eq!(parse_port("65536"), None);
    assert_eq!(parse_port("99999999999999999999"), None);
    assert_eq!(parse_port(""), None);
    assert_eq!(parse_port("+"), None);
    assert_eq!(parse_port("-1"), None);
    assert_eq!(parse_port(" 80"), None);
    assert_eq!(parse_port("8a"), None);
}

#[test]
fn parse_port_agrees_with_std() {
    for s in ["1", "22", "+22", "65535", "65536", "abc", "", "-0", "12 "] {
        assert_eq!(parse_port(s), s.parse::<u16>().ok(), "input {s:?}");
    }
}
