use crowdsec_envoy_bouncer::filter_config::{parse_config, Config, ConfigDocument, FilterConfig};
use crowdsec_envoy_bouncer::text::decode_text;
use crowdsec_envoy_bouncer::time::Duration;
use serde_yaml::Value;

fn text(document: &Value, key: &str) -> Option<String> {
    document.get(key).map(|v| v.as_str().unwrap().to_string())
}

fn number(document: &Value, key: &str) -> Option<u64> {
    document.get(key).map(|v| v.as_u64().unwrap())
}

fn flag(document: &Value, key: &str) -> Option<bool> {
    document.get(key).map(|v| v.as_bool().unwrap())
}

fn document(yaml: &str) -> ConfigDocument {
    let value: Value = serde_yaml::from_str(yaml).unwrap();
    ConfigDocument {
        tick_period: number(&value, "tick_period"),
        worker_names_queue: text(&value, "worker_names_queue"),
        singleton_name: text(&value, "singleton_name"),
        response_code: number(&value, "response_code").map(|n| n as u16),
        response_message: text(&value, "response_message"),
        waf_enabled: flag(&value, "waf_enabled"),
        waf_forward_on_decision: flag(&value, "waf_forward_on_decision"),
        waf_url: text(&value, "waf_url"),
        waf_api_key: text(&value, "waf_api_key"),
        waf_timeout_ms: number(&value, "waf_timeout_ms"),
    }
}

#[test]
fn test_config_defaults() {
    let yaml = "";
    let config = Config::from_document(document(yaml));
    assert_eq!(config.tick_period, 2);
    assert_eq!(config.worker_names_queue, "crowdsec_worker_names");
    assert_eq!(config.singleton_name, "crowdsec_singleton");
    assert_eq!(config.response_code, 403);
    assert_eq!(config.response_message, "Forbidden: Your IP is banned.");
}

#[test]
fn test_config_custom_values() {
    let yaml = r#"
tick_period: 5
worker_names_queue: "custom_worker_names"
singleton_name: "custom_singleton"
response_code: 429
response_message: "Rate limited"
"#;
    let config = Config::from_document(document(yaml));
    assert_eq!(config.tick_period, 5);
    assert_eq!(config.worker_names_queue, "custom_worker_names");
    assert_eq!(config.singleton_name, "custom_singleton");
    assert_eq!(config.response_code, 429);
    assert_eq!(config.response_message, "Rate limited");
}

#[test]
fn test_parse_config_function() {
    let yaml = r#"
tick_period: 3
response_code: 451
"#;
    let config_str = decode_text(yaml.as_bytes()).unwrap();
    let result = parse_config(document(&config_str));
    assert!(result.is_ok());
    let config = result.unwrap();
    assert_eq!(config.tick_period.as_secs(), 3);
    assert_eq!(config.response_code, 451);
    // Defaults for others
    assert_eq!(config.worker_names_queue, "crowdsec_worker_names");
    assert_eq!(config.singleton_name, "crowdsec_singleton");
}

#[test]
fn test_filter_config_validation() {
    let mut config = FilterConfig::default();

    // Valid config should pass
    assert!(config.validate().is_ok());

    // Invalid tick_period
    config.tick_period = Duration::from_secs(0);
    assert!(config.validate().is_err());

    // Reset and test invalid response_code
    config = FilterConfig::default();
    config.response_code = 999;
    assert!(config.validate().is_err());

    // Reset and test empty worker_names_queue
    config = FilterConfig::default();
    config.worker_names_queue = String::new();
    assert!(config.validate().is_err());

    // Reset and test empty singleton_name
    config = FilterConfig::default();
    config.singleton_name = String::new();
    assert!(config.validate().is_err());
}

#[test]
fn test_waf_config_validation() {
    let mut config = FilterConfig::default();

    // WAF disabled should always be valid
    config.waf_enabled = false;
    assert!(config.validate().is_ok());

    // WAF enabled with empty URL should fail
    config.waf_enabled = true;
    config.waf_url = String::new();
    assert!(config.validate().is_err());

    // WAF enabled with empty API key should fail
    config.waf_url = "http://crowdsec_waf/waf".to_string();
    config.waf_api_key = String::new();
    assert!(config.validate().is_err());

    // WAF enabled with zero timeout should fail
    config.waf_api_key = "test-key".to_string();
    config.waf_timeout = Duration::from_millis(0);
    assert!(config.validate().is_err());

    // Valid WAF config should pass
    config.waf_timeout = Duration::from_millis(500);
    assert!(config.validate().is_ok());
}

#[test]
fn test_waf_config_defaults() {
    let yaml = r#"
waf_enabled: true
waf_url: "http://crowdsec_waf/waf"
waf_api_key: "test-key"
"#;
    let config = Config::from_document(document(yaml));
    assert_eq!(config.waf_enabled, true);
    assert_eq!(config.waf_url, "http://crowdsec_waf/waf");
    assert_eq!(config.waf_api_key, "test-key");
    assert_eq!(config.waf_forward_on_decision, false); // default
    assert_eq!(config.waf_timeout_ms, 500); // default
}

#[test]
fn default_filter_settings_are_those_of_an_empty_document() {
    let config = parse_config(document("")).unwrap();
    let default = FilterConfig::default();
    assert_eq!(config.tick_period, default.tick_period);
    assert_eq!(config.response_message, default.response_message);
    assert_eq!(config.waf_timeout, default.waf_timeout);
    assert_eq!(config.waf_timeout.as_millis(), 500);
    assert!(!config.waf_enabled);
}

#[test]
fn each_filter_problem_is_named() {
    let problem = |change: fn(&mut FilterConfig)| {
        let mut config = FilterConfig::default();
        config.waf_enabled = true;
        config.waf_url = "http://waf".to_string();
        config.waf_api_key = "key".to_string();
        assert!(config.validate().is_ok());
        change(&mut config);
        config.validate().unwrap_err()
    };
    assert_eq!(
        problem(|c| c.tick_period = Duration::from_millis(999)),
        "tick_period must be greater than 0"
    );
    assert_eq!(
        problem(|c| c.worker_names_queue = String::new()),
        "worker_names_queue cannot be empty"
    );
    assert_eq!(
        problem(|c| c.singleton_name = String::new()),
        "singleton_name cannot be empty"
    );
    assert_eq!(
        problem(|c| c.response_code = 99),
        "response_code must be between 100 and 599"
    );
    assert_eq!(
        problem(|c| c.response_code = 600),
        "response_code must be between 100 and 599"
    );
    assert_eq!(
        problem(|c| c.waf_url = String::new()),
        "waf_url cannot be empty when WAF is enabled"
    );
    assert_eq!(
        problem(|c| c.waf_api_key = String::new()),
        "waf_api_key cannot be empty when WAF is enabled"
    );
    assert_eq!(
        problem(|c| c.waf_timeout = Duration::from_millis(0)),
        "waf_timeout must be greater than 0"
    );
}

#[test]
fn the_first_filter_problem_is_reported() {
    let error = parse_config(document("tick_period: 0\nresponse_code: 7")).unwrap_err();
    assert_eq!(
        error,
        "Configuration validation failed: tick_period must be greater than 0"
    );
}

#[test]
fn a_copy_of_filter_settings_says_the_same() {
    let config = parse_config(document("tick_period: 9\nresponse_message: no")).unwrap();
    let copy = config.clone();
    assert_eq!(copy.tick_period.as_secs(), 9);
    assert_eq!(copy.response_message, "no");
}

#[test]
fn spans_of_time() {
    assert_eq!(Duration::from_secs(7).as_millis(), 7000);
    assert_eq!(Duration::from_millis(1999).as_secs(), 1);
    assert_eq!(Duration::from_millis(1999).as_millis(), 1999);
    assert_eq!(
        Duration::from_secs(u64::MAX).as_millis(),
        u64::MAX as u128 * 1000
    );
}
