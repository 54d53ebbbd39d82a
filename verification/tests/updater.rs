use crowdsec_envoy_bouncer::batch::plan_deliveries;
use crowdsec_envoy_bouncer::ip_storage::IpStorage;
use crowdsec_envoy_bouncer::message::{
    read_deleted, read_new, BanMessage, Decision, NewBan, StreamResponse,
};
use crowdsec_envoy_bouncer::net::{parse_ip_with_cidr, IpAddr, IpNet};
use crowdsec_envoy_bouncer::updater::{lapi_body_text, lapi_call_succeeded, CrowdsecUpdater};
use crowdsec_envoy_bouncer::updater_config::UpdaterConfig;
use crowdsec_envoy_bouncer::worker::{announced_worker_queue, worker_names_queue, worker_vm};

fn net(text: &str) -> IpNet {
    parse_ip_with_cidr(text).unwrap()
}

fn decision(value: &str, expiration: Option<&str>) -> Decision {
    Decision {
        value: value.to_string(),
        remediation: None,
        expiration: expiration.map(str::to_string),
    }
}

fn stream(deleted: Vec<Decision>, new: Vec<Decision>) -> Option<StreamResponse> {
    Some(StreamResponse { new, deleted })
}

fn ok() -> Option<String> {
    Some("200".to_string())
}

fn told(messages: &[BanMessage]) -> Vec<(IpNet, String)> {
    messages
        .iter()
        .map(|m| (m.ip, m.remediation.clone()))
        .collect()
}

#[test]
fn new_decisions_become_bans() {
    let mut updater = CrowdsecUpdater::default();
    let new = vec![
        decision("1.2.3.4", None),
        decision("no address", None),
        decision("10.0.0.0/8", Some("17")),
    ];
    let messages = updater.handle_lapi_response(ok(), stream(vec![], new), 0);
    assert_eq!(
        told(&messages),
        vec![
            (net("1.2.3.4"), "ban".to_string()),
            (net("10.0.0.0/8"), "ban".to_string())
        ]
    );
    assert_eq!(messages[1].expiration, "17");
    assert!(updater.bans.contains_key(&net("1.2.3.4")));
    assert_eq!(updater.expiration_queue.peek().unwrap().expiration, 17);
}

#[test]
fn deleted_decisions_lift_bans_first() {
    let mut updater = CrowdsecUpdater::default();
    updater.handle_lapi_response(
        ok(),
        stream(vec![], vec![decision("1.2.3.4", Some("5"))]),
        0,
    );
    let messages = updater.handle_lapi_response(
        ok(),
        stream(
            vec![decision("1.2.3.4", None), decision("9.9.9.9", None)],
            vec![decision("1.2.3.4", None)],
        ),
        0,
    );
    assert_eq!(
        told(&messages),
        vec![
            (net("1.2.3.4"), "unban".to_string()),
            (net("1.2.3.4"), "ban".to_string())
        ]
    );
    assert_eq!(messages[0].expiration, "5");
    assert!(updater.bans.contains_key(&net("1.2.3.4")));
    assert!(updater.ips_to_remove.is_empty());
    assert!(updater.expiration_queue.peek().is_none());
}

#[test]
fn a_failed_call_lifts_what_has_ended() {
    let mut updater = CrowdsecUpdater::default();
    let new = vec![
        decision("1.0.0.1", Some("30")),
        decision("1.0.0.2", Some("10")),
        decision("1.0.0.3", Some("20")),
        decision("1.0.0.4", None),
    ];
    updater.handle_lapi_response(ok(), stream(vec![], new), 100);
    // Nothing expires while the API answers.
    assert!(updater
        .handle_lapi_response(ok(), stream(vec![], vec![]), 100)
        .is_empty());
    assert!(updater.handle_lapi_response(ok(), None, 100).is_empty());
    let messages = updater.handle_lapi_response(Some("503".to_string()), None, 20);
    assert_eq!(
        told(&messages),
        vec![
            (net("1.0.0.2"), "unban".to_string()),
            (net("1.0.0.3"), "unban".to_string())
        ]
    );
    assert!(!updater.bans.contains_key(&net("1.0.0.2")));
    assert!(updater.bans.contains_key(&net("1.0.0.1")));
    assert!(updater.bans.contains_key(&net("1.0.0.4")));
    let messages = updater.handle_lapi_response(None, None, 1000);
    assert_eq!(
        told(&messages),
        vec![(net("1.0.0.1"), "unban".to_string())]
    );
    assert!(updater.expiration_queue.peek().is_none());
}

#[test]
fn lifted_bans_do_not_expire_again() {
    let mut updater = CrowdsecUpdater::default();
    updater.handle_lapi_response(
        ok(),
        stream(
            vec![],
            vec![decision("1.2.3.4", Some("5")), decision("4.3.2.1", Some("6"))],
        ),
        0,
    );
    updater.handle_lapi_response(ok(), stream(vec![decision("1.2.3.4", None)], vec![]), 0);
    updater.cleanup_expiration_queue();
    assert!(updater.ips_to_remove.is_empty());
    assert_eq!(updater.expiration_queue.peek().unwrap().expiration, 6);
    assert_eq!(
        told(&updater.check_expired_bans(7)),
        vec![(net("4.3.2.1"), "unban".to_string())]
    );
    assert!(updater.check_expired_bans(7).is_empty());
}

#[test]
fn marks_take_entries_out_of_the_queue() {
    let mut updater = CrowdsecUpdater::default();
    updater.add_to_expiration_queue(&net("1.2.3.4"), 5);
    updater.add_to_expiration_queue(&net("4.3.2.1"), 9);
    updater.cleanup_expiration_queue();
    assert_eq!(updater.expiration_queue.peek().unwrap().expiration, 5);
    updater.remove_from_expiration_queue(&net("1.2.3.4"));
    updater.cleanup_expiration_queue();
    assert_eq!(updater.expiration_queue.peek().unwrap().expiration, 9);
}

#[test]
fn the_api_is_asked_once_there_are_filters() {
    let mut updater = CrowdsecUpdater::default();
    assert!(updater.poll_lapi().is_none());
    assert!(updater.is_startup);
    updater.on_worker_queue(None);
    updater.on_worker_queue(Some(7));
    updater.config.api_key = "key".to_string();
    updater.config.scopes = vec!["ip".to_string()];
    let request = updater.poll_lapi().unwrap();
    assert_eq!(request.cluster, "crowdsec_cluster");
    assert_eq!(request.timeout.as_secs(), 10);
    let pair = |name: &str, value: &str| (name.to_string(), value.to_string());
    assert_eq!(
        request.headers,
        vec![
            pair(":method", "GET"),
            pair(":path", "/v1/decisions/stream?startup=true&scopes=ip"),
            pair(":authority", "crowdsec"),
            pair("x-api-key", "key"),
        ]
    );
    let request = updater.poll_lapi().unwrap();
    assert_eq!(
        request.headers[1],
        pair(":path", "/v1/decisions/stream?scopes=ip")
    );
    updater.config.scopes.clear();
    assert_eq!(
        updater.poll_lapi().unwrap().headers[1],
        pair(":path", "/v1/decisions/stream")
    );
}

#[test]
fn the_body_of_an_answer_has_to_be_text() {
    assert_eq!(lapi_body_text(None), None);
    assert_eq!(lapi_body_text(Some(vec![])), None);
    assert_eq!(lapi_body_text(Some(vec![0xff])), None);
    assert_eq!(lapi_body_text(Some(b"{}".to_vec())), Some("{}".to_string()));
}

#[test]
fn decisions_are_read_with_their_defaults() {
    let mut captcha = decision("1.2.3.4", Some("2023-12-31T23:59:59Z"));
    captcha.remediation = Some("captcha".to_string());
    let list = vec![captcha, decision("bad", None), decision("::1", None)];
    assert_eq!(
        read_deleted(&list),
        vec![Some(net("1.2.3.4")), None, Some(net("::1"))]
    );
    let new = read_new(&list);
    let first = new[0].as_ref().unwrap();
    assert_eq!(first.message.remediation, "captcha");
    assert_eq!(first.message.expiration, "2023-12-31T23:59:59Z");
    assert_eq!(first.expires, Some(1704067199));
    assert!(new[1].is_none());
    let last = new[2].as_ref().unwrap();
    assert_eq!(last.message.remediation, "ban");
    assert_eq!(last.expires, None);
}

#[test]
fn parsed_streams_are_taken_up() {
    let mut updater = CrowdsecUpdater::default();
    let new = vec![
        Some(NewBan {
            message: BanMessage {
                ip: net("1.2.3.4"),
                remediation: "ban".to_string(),
                expiration: "x".to_string(),
            },
            expires: Some(4),
        }),
        None,
    ];
    let messages = updater.apply_stream(&vec![None, Some(net("1.2.3.4"))], &new);
    assert_eq!(told(&messages), vec![(net("1.2.3.4"), "ban".to_string())]);
    let lifted = updater.apply_deleted(&net("1.2.3.4")).unwrap();
    assert_eq!(lifted.remediation, "unban");
    assert_eq!(lifted.expiration, "x");
    assert!(updater.apply_deleted(&net("1.2.3.4")).is_none());
}

#[test]
fn a_ban_that_is_lifted_and_set_again_still_ends() {
    let mut updater = CrowdsecUpdater::default();
    let ban = |end: &str| decision("1.2.3.4", Some(end));
    updater.handle_lapi_response(
        ok(),
        stream(vec![], vec![ban("5"), decision("4.3.2.1", Some("6"))]),
        0,
    );
    // In one answer.
    updater.handle_lapi_response(
        ok(),
        stream(vec![decision("1.2.3.4", None)], vec![ban("50")]),
        0,
    );
    assert_eq!(
        told(&updater.check_expired_bans(49)),
        vec![(net("4.3.2.1"), "unban".to_string())]
    );
    let messages = updater.check_expired_bans(50);
    assert_eq!(told(&messages), vec![(net("1.2.3.4"), "unban".to_string())]);
    assert_eq!(messages[0].expiration, "50");
    assert!(!updater.bans.contains_key(&net("1.2.3.4")));
    // In two answers.
    updater.handle_lapi_response(ok(), stream(vec![], vec![ban("60")]), 0);
    updater.handle_lapi_response(ok(), stream(vec![decision("1.2.3.4", None)], vec![]), 0);
    assert!(updater.ips_to_remove.contains_key(&net("1.2.3.4")));
    updater.handle_lapi_response(ok(), stream(vec![], vec![ban("70")]), 0);
    assert!(updater.check_expired_bans(69).is_empty());
    assert_eq!(updater.check_expired_bans(70).len(), 1);
}

#[test]
fn a_call_that_cannot_be_made_lifts_what_has_ended() {
    let mut updater = CrowdsecUpdater::default();
    updater.handle_lapi_response(
        ok(),
        stream(vec![], vec![decision("1.2.3.4", Some("5"))]),
        0,
    );
    assert!(updater.on_dispatch(true, 9).is_empty());
    assert!(updater.bans.contains_key(&net("1.2.3.4")));
    assert_eq!(
        told(&updater.on_dispatch(false, 9)),
        vec![(net("1.2.3.4"), "unban".to_string())]
    );
    assert!(!updater.bans.contains_key(&net("1.2.3.4")));
}

#[test]
fn every_batch_goes_to_every_queue() {
    assert_eq!(
        plan_deliveries(2, &vec![7, 9]),
        vec![(7, 0), (9, 0), (7, 1), (9, 1)]
    );
    assert!(plan_deliveries(0, &vec![7]).is_empty());
    assert!(plan_deliveries(3, &vec![]).is_empty());
}

#[test]
fn one_answer_leaves_the_last_ban_and_tells_each_lifted_one_once() {
    let mut updater = CrowdsecUpdater::default();
    let mut second = decision("1.0.0.3", None);
    second.remediation = Some("captcha".to_string());
    updater.handle_lapi_response(
        ok(),
        stream(
            vec![],
            vec![
                decision("1.0.0.1", None),
                decision("1.0.0.2", None),
                decision("1.0.0.3", None),
                second,
            ],
        ),
        0,
    );
    let kept = updater.bans.get(&net("1.0.0.3")).unwrap();
    assert_eq!(kept.remediation, "captcha");
    let messages = updater.handle_lapi_response(
        ok(),
        stream(
            vec![
                decision("1.0.0.2", None),
                decision("1.0.0.9", None),
                decision("1.0.0.1", None),
                decision("1.0.0.2", None),
            ],
            vec![],
        ),
        0,
    );
    assert_eq!(
        told(&messages),
        vec![
            (net("1.0.0.2"), "unban".to_string()),
            (net("1.0.0.1"), "unban".to_string())
        ]
    );
}

#[test]
fn a_second_ban_on_a_network_keeps_the_earlier_end() {
    let mut updater = CrowdsecUpdater::default();
    updater.handle_lapi_response(
        ok(),
        stream(vec![], vec![decision("1.2.3.4", Some("5"))]),
        0,
    );
    updater.handle_lapi_response(
        ok(),
        stream(vec![], vec![decision("1.2.3.4", Some("50"))]),
        0,
    );
    assert_eq!(updater.check_expired_bans(5).len(), 1);
}

#[test]
fn a_filter_follows_the_updater() {
    let mut updater = CrowdsecUpdater::default();
    updater.config.batch_size = 2;
    let mut filter = IpStorage::new();
    let steps = vec![
        (
            ok(),
            stream(
                vec![],
                vec![
                    decision("1.2.3.4", Some("9")),
                    decision("10.0.0.0/8", None),
                    decision("2001:db8::/32", None),
                ],
            ),
        ),
        (ok(), stream(vec![decision("10.0.0.0/8", None)], vec![])),
        (None, None),
    ];
    for (status, answer) in steps {
        let messages = updater.handle_lapi_response(status, answer, 9);
        for batch in updater.broadcast_decisions(&messages).unwrap() {
            assert!(batch.len() <= 2);
            filter.apply_batch(&batch);
        }
    }
    assert!(!filter.contains_direct(IpAddr::V4(0x01020304)));
    assert!(!filter.contains_direct(IpAddr::V4(0x0a010203)));
    assert!(filter.contains_direct(IpAddr::V6(0x20010db8_00000000_00000000_000000ff)));
    assert!(updater.bans.contains_key(&net("2001:db8::/32")));
    assert!(!updater.bans.contains_key(&net("1.2.3.4")));
}

#[test]
fn overlapping_networks_can_be_banned_and_others_lifted() {
    let mut updater = CrowdsecUpdater::default();
    let mut filter = IpStorage::new();
    for answer in [
        stream(
            vec![],
            vec![
                decision("10.0.0.0/8", None),
                decision("10.1.0.0/16", None),
                decision("11.0.0.0/8", None),
                decision("10.1.2.3", None),
            ],
        ),
        stream(
            vec![decision("11.0.0.0/8", None), decision("10.1.2.3", None)],
            vec![],
        ),
    ] {
        let messages = updater.handle_lapi_response(ok(), answer, 0);
        filter.apply_batch(&messages);
    }
    assert!(filter.contains_direct(IpAddr::V4(0x0a020000)));
    assert!(filter.contains_direct(IpAddr::V4(0x0a010203)));
    assert!(!filter.contains_direct(IpAddr::V4(0x0b000001)));
}

#[test]
fn lifting_an_overlapping_network_uncovers_its_addresses() {
    let mut updater = CrowdsecUpdater::default();
    let mut filter = IpStorage::new();
    for answer in [
        stream(
            vec![],
            vec![decision("10.0.0.0/8", None), decision("10.1.0.0/16", None)],
        ),
        stream(vec![decision("10.1.0.0/16", None)], vec![]),
    ] {
        let messages = updater.handle_lapi_response(ok(), answer, 0);
        filter.apply_batch(&messages);
    }
    assert!(updater.bans.contains_key(&net("10.0.0.0/8")));
    assert!(filter.contains_direct(IpAddr::V4(0x0a020000)));
    assert!(!filter.contains_direct(IpAddr::V4(0x0a010000)));
}

#[test]
fn the_updater_is_configured_and_started() {
    let mut updater = CrowdsecUpdater::default();
    assert!(updater.on_vm_start(Some(3)));
    assert_eq!(updater.worker_names_queue_id, Some(3));
    assert!(updater.on_configure(None));
    assert!(!updater.on_configure(Some(Err("bad".to_string()))));
    assert_eq!(updater.config.batch_size, 1000);
    let mut config = UpdaterConfig::default();
    config.batch_size = 5;
    assert!(updater.on_configure(Some(Ok(config))));
    assert_eq!(updater.config.batch_size, 5);
}

#[test]
fn workers_are_found_by_their_announcement() {
    assert_eq!(
        announced_worker_queue(b"abc"),
        Some("crowdsec_worker_abc".to_string())
    );
    assert_eq!(announced_worker_queue(&[0xc0]), None);
}

#[test]
fn only_the_status_200_is_a_success() {
    assert!(lapi_call_succeeded(&ok()));
    assert!(!lapi_call_succeeded(&Some("204".to_string())));
    assert!(!lapi_call_succeeded(&None));
}

#[test]
fn names_that_both_sides_know() {
    assert_eq!(worker_names_queue(), "crowdsec_worker_names");
    assert_eq!(worker_vm(), "crowdsec_filter");
}
