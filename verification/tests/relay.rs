use crowdsec_envoy_bouncer::message::{Decision, StreamResponse};
use crowdsec_envoy_bouncer::relay::{
    group_messages, is_cidr_range, read_settings, BanMessage, CrowdsecUpdater, Settings,
};

fn decision(value: &str, remediation: Option<&str>) -> Decision {
    Decision {
        value: value.to_string(),
        remediation: remediation.map(str::to_string),
        expiration: None,
    }
}

fn message(ip: &str) -> BanMessage {
    BanMessage {
        ip: ip.to_string(),
        remediation: "ban".to_string(),
        expiration: String::new(),
        is_range: false,
    }
}

fn path(updater: &mut CrowdsecUpdater) -> String {
    updater.on_tick().unwrap().headers[1].1.clone()
}

#[test]
fn relayed_decisions_keep_their_texts() {
    let mut updater = CrowdsecUpdater::default();
    updater.bans = vec!["9.9.9.9".to_string(), "8.8.8.8".to_string()];
    let messages = updater.on_http_call_response(Some(StreamResponse {
        deleted: vec![decision("9.9.9.9", Some("ban"))],
        new: vec![
            decision("10.0.0.0/8", None),
            decision("whatever", Some("captcha")),
        ],
    }));
    assert_eq!(messages.len(), 3);
    assert_eq!(messages[0].remediation, "unban");
    assert_eq!(messages[0].ip, "9.9.9.9");
    assert_eq!(messages[0].expiration, "");
    assert_eq!(messages[1].remediation, "ban");
    assert!(messages[1].is_range);
    assert_eq!(messages[2].remediation, "captcha");
    assert!(!messages[2].is_range);
    assert_eq!(updater.bans, vec!["8.8.8.8".to_string()]);
    assert!(updater.on_http_call_response(None).is_empty());
}

#[test]
fn a_slash_makes_a_range() {
    assert!(is_cidr_range("10.0.0.0/8"));
    assert!(!is_cidr_range("10.0.0.0"));
}

#[test]
fn the_relay_asks_with_joined_lists() {
    let mut updater = CrowdsecUpdater::default();
    assert!(updater.on_tick().is_none());
    assert!(updater.is_startup);
    updater.on_worker_queue(None);
    updater.on_worker_queue(Some(1));
    assert_eq!(updater.worker_queues_ids, vec![1]);
    let mut copy = CrowdsecUpdater::default();
    copy.on_worker_queue(Some(1));
    assert_eq!(path(&mut copy), "/v1/decisions/stream?startup=true");
    assert_eq!(path(&mut copy), "/v1/decisions/stream");
    updater.scopes = vec!["ip".to_string(), "range".to_string()];
    updater.scenarios_not_containing = vec!["ssh".to_string()];
    assert_eq!(
        path(&mut updater),
        "/v1/decisions/stream?startup=true&scopes=ip,range&scenarios_not_containing=ssh"
    );
    assert_eq!(
        path(&mut updater),
        "/v1/decisions/stream?scopes=ip,range&scenarios_not_containing=ssh"
    );
    updater.api_key = "k".to_string();
    updater.cluster_name = "c".to_string();
    let request = updater.on_tick().unwrap();
    assert_eq!(request.cluster, "c");
    assert_eq!(request.timeout.as_secs(), 5);
    assert_eq!(request.headers[0].1, "GET");
    assert_eq!(request.headers[2].1, "crowdsec");
    assert_eq!(request.headers[3].1, "k");
}

#[test]
fn settings_are_read_from_yaml() {
    let settings = read_settings(
        "poll_interval: 7\napi_key: k\nscopes: [ip, 3, range]\norigins: []\ncrowdsec_url: 5",
    );
    assert_eq!(settings.poll_interval, Some(7));
    assert_eq!(settings.api_key, Some("k".to_string()));
    assert_eq!(settings.cluster_name, None);
    assert_eq!(settings.crowdsec_url, None);
    assert_eq!(
        settings.scopes,
        Some(vec![Some("ip".to_string()), None, Some("range".to_string())])
    );
    assert_eq!(settings.origins, Some(vec![]));
    assert_eq!(settings.scenarios_containing, None);
    assert!(read_settings("a: b: c").api_key.is_none());
}

#[test]
fn the_relay_is_configured_with_what_the_document_says() {
    let mut updater = CrowdsecUpdater::default();
    assert!(updater.on_vm_start(None));
    let period = updater.on_configure(Some(
        b"poll_interval: 7\napi_key: k\nscopes: [ip, 3]\ncluster_name: c".to_vec(),
    ));
    assert_eq!(period.unwrap().as_secs(), 7);
    assert_eq!(updater.api_key, "k");
    assert_eq!(updater.cluster_name, "c");
    assert_eq!(updater.crowdsec_url, "http://crowdsec:8080");
    assert_eq!(updater.scopes, vec!["ip".to_string()]);
    // What a later document leaves out stays, but for the cluster and the URL.
    assert!(updater.on_configure(Some(b"origins: [x]".to_vec())).is_none());
    assert_eq!(updater.api_key, "k");
    assert_eq!(updater.cluster_name, "crowdsec_cluster");
    assert_eq!(updater.scopes, vec!["ip".to_string()]);
    assert_eq!(updater.origins, vec!["x".to_string()]);
    assert!(updater.on_configure(Some(vec![0xff])).is_none());
    assert!(updater.on_configure(None).is_none());
    assert_eq!(updater.api_key, "k");
}

#[test]
fn settings_given_as_values() {
    let mut updater = CrowdsecUpdater::default();
    let period = updater.configure(Some(Settings {
        poll_interval: None,
        api_key: None,
        cluster_name: None,
        crowdsec_url: Some("u".to_string()),
        scopes: None,
        origins: None,
        scenarios_containing: Some(vec![None]),
        scenarios_not_containing: Some(vec![Some("a".to_string())]),
    }));
    assert!(period.is_none());
    assert_eq!(updater.crowdsec_url, "u");
    assert!(updater.scenarios_containing.is_empty());
    assert_eq!(updater.scenarios_not_containing, vec!["a".to_string()]);
}

#[test]
fn relayed_messages_are_grouped() {
    let messages = vec![message("1"), message("2"), message("3")];
    let sizes = vec![12_000, 288, 1];
    let batches = group_messages(&messages, &sizes);
    assert_eq!(batches.len(), 2);
    assert_eq!(batches[0].len(), 2);
    assert_eq!(batches[1][0].ip, "3");
    assert!(group_messages(&vec![], &vec![]).is_empty());
}

#[test]
fn an_empty_batch_goes_before_a_first_message_that_is_too_large() {
    let messages = vec![message("1"), message("2")];
    let batches = group_messages(&messages, &vec![20_000, 1]);
    assert_eq!(batches.len(), 3);
    assert!(batches[0].is_empty());
    assert_eq!(batches[1][0].ip, "1");
    assert_eq!(batches[2][0].ip, "2");
    let mut large = message("1");
    large.expiration = "x".repeat(20_000);
    let batches = CrowdsecUpdater::default()
        .send_batched(&vec![large, message("2")])
        .unwrap();
    assert!(batches[0].is_empty());
}

#[test]
fn relayed_batches_take_a_thousand_messages() {
    let messages: Vec<BanMessage> = (0..1001).map(|_| message("")).collect();
    let sizes = vec![1usize; 1001];
    let batches = group_messages(&messages, &sizes);
    assert_eq!(batches.len(), 2);
    assert_eq!(batches[0].len(), 1000);
    let batches = CrowdsecUpdater::default().send_batched(&messages).unwrap();
    assert!(batches.len() > 2);
    assert_eq!(batches.iter().map(|b| b.len()).sum::<usize>(), 1001);
}
