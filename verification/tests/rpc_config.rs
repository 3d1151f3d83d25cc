use plexus::extractor::rpc::config::{ClientConfig, RetryConfig};
use plexus::time::Duration;

#[test]
fn clientconfig_url_with_default_returns_correct_params() {
    let url = String::from("https://ethereum-rpc.publicnode.com");
    let client_config = ClientConfig::new(&url);

    assert_eq!(client_config.url, url);

    assert_eq!(client_config.retry_config.max_attempts, 3);
    assert_eq!(client_config.max_concurrency, 10);
    assert_eq!(client_config.timeout, Duration::from_secs(30));
}

#[test]
fn with_concurrency_overrides_default() {
    let client_config =
        ClientConfig::new("https://ethereum-rpc.publicnode.com").with_concurrency(50);

    assert_eq!(client_config.max_concurrency, 50);
}

#[test]
fn with_timeout_overrides_default() {
    let client_config = ClientConfig::new("https://ethereum-rpc.publicnode.com")
        .with_timeout(Duration::from_secs(5));

    assert_eq!(client_config.timeout, Duration::from_secs(5));
}

#[test]
fn retry_config_default_values() {
    let cfg = RetryConfig::default();
    assert_eq!(cfg.max_attempts, 3);
    assert_eq!(cfg.base_delay, Duration::from_millis(100));
    assert_eq!(cfg.max_delay, Duration::from_secs(2));
}

#[test]
fn builders_keep_other_fields() {
    let c = ClientConfig::new("http://node").with_timeout(Duration::from_millis(1)).with_concurrency(2);
    assert_eq!(c.url, "http://node");
    assert_eq!(c.timeout, Duration::from_millis(1));
    assert_eq!(c.max_concurrency, 2);
    assert_eq!(c.retry_config.max_delay, Duration::from_secs(2));
}
