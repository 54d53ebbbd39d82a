use crowdsec_envoy_bouncer::text::decode_text;
use crowdsec_envoy_bouncer::time::Duration;
use crowdsec_envoy_bouncer::updater_config::{parse_config, Config, ConfigDocument, UpdaterConfig};
use serde_yaml::Value;

fn text(document: &Value, key: &str) -> Option<String> {
    document.get(key).map(|v| v.as_str().unwrap().to_string())
}

fn number(document: &Value, key: &str) -> Option<u64> {
    document.get(key).map(|v| v.as_u64().unwrap())
}

fn list(document: &Value, key: &str) -> Option<Vec<String>> {
    document.get(key).map(|v| {
        v.as_sequence()
            .unwrap()
            .iter()
            .map(|item| item.as_str().unwrap().to_string())
            .collect()
    })
}

fn document(yaml: &str) -> ConfigDocument {
    let value: Value = serde_yaml::from_str(yaml).unwrap();
    ConfigDocument {
        poll_interval: number(&value, "poll_interval"),
        api_key: text(&value, "api_key"),
        cluster_name: text(&value, "cluster_name"),
        crowdsec_url: text(&value, "crowdsec_url"),
        scopes: list(&value, "scopes"),
        origins: list(&value, "origins"),
        scenarios_containing: list(&value, "scenarios_containing"),
        scenarios_not_containing: list(&value, "scenarios_not_containing"),
        lapi_timeout: number(&value, "lapi_timeout"),
        max_response_body_size: number(&value, "max_response_body_size").map(|n| n as usize),
        batch_size: number(&value, "batch_size").map(|n| n as usize),
        max_batch_bytes: number(&value, "max_batch_bytes").map(|n| n as usize),
    }
}

#[test]
fn config_test_config_defaults() {
    let yaml = "";
    let config = Config::from_document(document(yaml));
    assert_eq!(config.poll_interval, 30);
    assert_eq!(config.api_key, "");
    assert_eq!(config.cluster_name, "crowdsec_cluster");
    assert_eq!(config.crowdsec_url, "http://crowdsec:8080");
    assert_eq!(config.lapi_timeout, 10);
    assert!(config.scopes.is_empty());
    assert!(config.origins.is_empty());
    assert!(config.scenarios_containing.is_empty());
    assert!(config.scenarios_not_containing.is_empty());
}

#[test]
fn config_test_config_custom_values() {
    let yaml = r#"
poll_interval: 60
api_key: "mykey"
cluster_name: "custom_cluster"
crowdsec_url: "http://custom:8080"
scopes: ["foo", "bar"]
origins: ["baz"]
scenarios_containing: ["ssh"]
scenarios_not_containing: ["http"]
lapi_timeout: 42
"#;
    let config = Config::from_document(document(yaml));
    assert_eq!(config.poll_interval, 60);
    assert_eq!(config.api_key, "mykey");
    assert_eq!(config.cluster_name, "custom_cluster");
    assert_eq!(config.crowdsec_url, "http://custom:8080");
    assert_eq!(config.lapi_timeout, 42);
    assert_eq!(config.scopes, vec!["foo", "bar"]);
    assert_eq!(config.origins, vec!["baz"]);
    assert_eq!(config.scenarios_containing, vec!["ssh"]);
    assert_eq!(config.scenarios_not_containing, vec!["http"]);
}

#[test]
fn config_test_parse_config_function() {
    let yaml = r#"
api_key: "abc"
"#;
    let config_str = decode_text(yaml.as_bytes()).unwrap();
    let result = parse_config(document(&config_str));
    assert!(result.is_ok());
    let config = result.unwrap();
    assert_eq!(config.api_key, "abc");
    // Defaults for others
    assert_eq!(config.poll_interval.as_secs(), 30);
    assert_eq!(config.cluster_name, "crowdsec_cluster");
}

#[test]
fn test_config_partial_values() {
    let yaml = r#"
poll_interval: 45
api_key: "partial_key"
"#;
    let config = Config::from_document(document(yaml));
    assert_eq!(config.poll_interval, 45);
    assert_eq!(config.api_key, "partial_key");
    // Other fields should have defaults
    assert_eq!(config.cluster_name, "crowdsec_cluster");
    assert_eq!(config.crowdsec_url, "http://crowdsec:8080");
    assert_eq!(config.lapi_timeout, 10);
    assert!(config.scopes.is_empty());
}

#[test]
fn test_config_empty_arrays() {
    let yaml = r#"
scopes: []
origins: []
scenarios_containing: []
scenarios_not_containing: []
"#;
    let config = Config::from_document(document(yaml));
    assert!(config.scopes.is_empty());
    assert!(config.origins.is_empty());
    assert!(config.scenarios_containing.is_empty());
    assert!(config.scenarios_not_containing.is_empty());
}

#[test]
fn test_updater_config_validation() {
    let mut config = UpdaterConfig::default();

    // Valid config should pass
    assert!(config.validate().is_ok());

    // Invalid poll_interval
    config.poll_interval = Duration::from_secs(0);
    assert!(config.validate().is_err());

    // Reset and test invalid lapi_timeout
    config = UpdaterConfig::default();
    config.lapi_timeout = Duration::from_secs(0);
    assert!(config.validate().is_err());

    // Reset and test empty cluster_name
    config = UpdaterConfig::default();
    config.cluster_name = String::new();
    assert!(config.validate().is_err());

    // Reset and test empty crowdsec_url
    config = UpdaterConfig::default();
    config.crowdsec_url = String::new();
    assert!(config.validate().is_err());
}

#[test]
fn each_updater_problem_is_named() {
    let problem = |change: fn(&mut UpdaterConfig)| {
        let mut config = UpdaterConfig::default();
        change(&mut config);
        config.validate().unwrap_err()
    };
    assert_eq!(
        problem(|c| c.poll_interval = Duration::from_secs(0)),
        "poll_interval must be greater than 0"
    );
    assert_eq!(
        problem(|c| c.lapi_timeout = Duration::from_secs(0)),
        "lapi_timeout must be greater than 0"
    );
    assert_eq!(
        problem(|c| c.cluster_name = String::new()),
        "cluster_name cannot be empty"
    );
    assert_eq!(
        problem(|c| c.crowdsec_url = String::new()),
        "crowdsec_url cannot be empty"
    );
}

#[test]
fn updater_defaults_of_the_limits() {
    let config = parse_config(document("")).unwrap();
    assert_eq!(config.max_response_body_size, 10 * 1024 * 1024);
    assert_eq!(config.batch_size, 1000);
    assert_eq!(config.max_batch_bytes, 12 * 1024);
    assert_eq!(config.lapi_timeout, UpdaterConfig::default().lapi_timeout);
}

#[test]
fn an_updater_problem_is_reported_with_its_words() {
    let error = parse_config(document("lapi_timeout: 0")).unwrap_err();
    assert_eq!(
        error,
        "Configuration validation failed: lapi_timeout must be greater than 0"
    );
}

#[test]
fn a_copy_of_updater_settings_says_the_same() {
    let config = parse_config(document("scopes: [ip, range]\nbatch_size: 3")).unwrap();
    let copy = config.clone();
    assert_eq!(copy.scopes, vec!["ip", "range"]);
    assert_eq!(copy.batch_size, 3);
}

#[test]
fn settings_that_are_not_text_are_refused() {
    assert!(decode_text(&[0x61, 0xff]).is_none());
}
