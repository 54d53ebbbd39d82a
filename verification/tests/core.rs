use crowdsec_envoy_bouncer::batch::{find_batch_ends, send_batched};
use crowdsec_envoy_bouncer::expiration::{
    choose_expiration, parse_expiration, ExpirationEntry, ExpirationQueue,
};
use crowdsec_envoy_bouncer::message::{BanMessage, Decision, StreamResponse};
use crowdsec_envoy_bouncer::net::{
    choose_peer_address, parse_ip_from_bytes, parse_ip_with_cidr, IpAddr, IpNet, IpParseError,
};
use crowdsec_envoy_bouncer::net_map::NetMap;
use crowdsec_envoy_bouncer::query::build_query_params;
use crowdsec_envoy_bouncer::text::{
    contains_char, decimal, eq_ignore_ascii_case, has_prefix, join_strings, parse_i64, same_text,
};
use crowdsec_envoy_bouncer::updater_config::{default_batch_size, default_max_batch_bytes};
use serde::ser::SerializeStruct;
use serde_json::Value;
use std::collections::HashMap;
use std::time::{SystemTime, UNIX_EPOCH};

fn net(text: &str) -> IpNet {
    parse_ip_with_cidr(text).unwrap()
}

fn ban(text: &str) -> BanMessage {
    BanMessage {
        ip: net(text),
        remediation: "ban".to_string(),
        expiration: "".to_string(),
    }
}

fn decisions(value: &Value) -> Vec<Decision> {
    let text = |d: &Value, key: &str| d.get(key).and_then(|v| v.as_str()).map(str::to_string);
    value
        .as_array()
        .unwrap()
        .iter()
        .map(|d| Decision {
            value: text(d, "value").unwrap(),
            remediation: text(d, "remediation"),
            expiration: text(d, "expiration"),
        })
        .collect()
}

#[test]
fn test_stream_response_ban_unban() {
    // Fake JSON simulating a CrowdSec LAPI response with new and deleted decisions
    let json = r#"
        {
            "new": [
                {"value": "1.2.3.4", "remediation": "ban", "expiration": null},
                {"value": "5.6.7.8/24", "remediation": "ban", "expiration": null}
            ],
            "deleted": [
                {"value": "9.9.9.9", "remediation": "ban", "expiration": null}
            ]
        }
        "#;

    // Parse the JSON into a StreamResponse struct
    let parsed: Value = serde_json::from_str(json).unwrap();
    let stream = StreamResponse {
        new: decisions(&parsed["new"]),
        deleted: decisions(&parsed["deleted"]),
    };

    // Simulate the updater's ban storage (HashMap)
    let mut bans = HashMap::<IpNet, BanMessage>::new();

    // Add new bans from the "new" field
    for decision in &stream.new {
        // Parse the IP/CIDR range
        let ip_net = match parse_ip_with_cidr(&decision.value) {
            Ok(ip_net) => ip_net,
            Err(e) => {
                println!("Failed to parse IP/CIDR '{}': {:?}", decision.value, e);
                continue;
            }
        };
        let ban_msg = BanMessage {
            ip: ip_net.clone(),
            remediation: decision
                .remediation
                .clone()
                .unwrap_or_else(|| "ban".to_string()),
            expiration: "".to_string(),
        };
        bans.insert(ip_net, ban_msg);
    }

    // Remove bans from the "deleted" field
    for decision in &stream.deleted {
        // Parse the IP/CIDR range
        let ip_net = match parse_ip_with_cidr(&decision.value) {
            Ok(ip_net) => ip_net,
            Err(e) => {
                println!("Failed to parse IP/CIDR '{}': {:?}", decision.value, e);
                continue;
            }
        };
        bans.remove(&ip_net);
    }

    // Verify the final state
    assert_eq!(bans.len(), 1);
    assert!(bans.contains_key(&parse_ip_with_cidr("1.2.3.4").unwrap()));
}

#[test]
fn test_utility_functions() {
    // Test parse_expiration
    assert!(parse_expiration("").is_none());
    assert!(parse_expiration("invalid").is_none());

    // Test valid Unix timestamp
    let timestamp = SystemTime::now()
        .duration_since(UNIX_EPOCH)
        .unwrap()
        .as_secs() as i64;
    assert!(parse_expiration(&timestamp.to_string()).is_some());

    // Test valid RFC3339
    assert!(parse_expiration("2023-12-31T23:59:59Z").is_some());
}

#[test]
fn test_send_batched() {
    // Test empty messages
    let batches = send_batched(&[], default_batch_size(), default_max_batch_bytes());
    assert!(batches.is_ok());
    assert!(batches.unwrap().is_empty());

    // Test single message
    let messages = vec![BanMessage {
        ip: parse_ip_with_cidr("1.2.3.4").unwrap(),
        remediation: "ban".to_string(),
        expiration: "".to_string(),
    }];
    let batches = send_batched(&messages, default_batch_size(), default_max_batch_bytes());
    assert!(batches.is_ok());
    let batches = batches.unwrap();
    assert_eq!(batches.len(), 1);
    assert_eq!(batches[0].len(), 1);
}

#[test]
fn expirations_are_seconds_since_the_epoch() {
    assert_eq!(parse_expiration("2023-12-31T23:59:59Z"), Some(1704067199));
    assert_eq!(
        parse_expiration("2023-12-31T23:59:59+01:00"),
        Some(1704063599)
    );
    assert_eq!(parse_expiration("1704067199"), Some(1704067199));
    assert_eq!(parse_expiration("+5"), Some(5));
    assert_eq!(parse_expiration("0"), Some(0));
}

#[test]
fn a_time_before_the_epoch_is_no_expiration() {
    assert_eq!(parse_expiration("-1"), None);
    assert_eq!(parse_expiration("1969-12-31T23:59:59Z"), None);
    assert_eq!(choose_expiration(Some(-1), Some(7)), None);
    assert_eq!(choose_expiration(Some(3), Some(7)), Some(3));
    assert_eq!(choose_expiration(None, Some(7)), Some(7));
    assert_eq!(choose_expiration(None, Some(-7)), None);
    assert_eq!(choose_expiration(None, None), None);
}

#[test]
fn lone_addresses_are_networks_of_one_address() {
    assert_eq!(
        parse_ip_with_cidr("1.2.3.4"),
        Ok(IpNet::V4 {
            addr: 0x01020304,
            prefix_len: 32
        })
    );
    assert_eq!(
        parse_ip_with_cidr("2001:db8::1"),
        Ok(IpNet::V6 {
            addr: 0x20010db8_00000000_00000000_00000001,
            prefix_len: 128
        })
    );
}

#[test]
fn networks_are_read_in_cidr_notation() {
    assert_eq!(
        parse_ip_with_cidr("10.0.0.0/8"),
        Ok(IpNet::V4 {
            addr: 0x0a000000,
            prefix_len: 8
        })
    );
    assert_eq!(
        parse_ip_with_cidr("2001:db8::/32"),
        Ok(IpNet::V6 {
            addr: 0x20010db8_00000000_00000000_00000000,
            prefix_len: 32
        })
    );
    assert_eq!(
        parse_ip_with_cidr("0.0.0.0/0"),
        Ok(IpNet::V4 {
            addr: 0,
            prefix_len: 0
        })
    );
}

#[test]
fn what_is_no_network_is_refused() {
    assert_eq!(
        parse_ip_with_cidr("5.6.7.8/24"),
        Err(IpParseError::HostBits)
    );
    assert_eq!(parse_ip_with_cidr("10.0.0.0/33"), Err(IpParseError::Syntax));
    assert_eq!(parse_ip_with_cidr("example"), Err(IpParseError::Syntax));
    assert_eq!(parse_ip_with_cidr(""), Err(IpParseError::Syntax));
    assert_eq!(parse_ip_with_cidr("1.2.3"), Err(IpParseError::Syntax));
}

#[test]
fn peers_are_read_with_and_without_a_port() {
    assert_eq!(
        parse_ip_from_bytes(b"1.2.3.4:80"),
        Some(IpAddr::V4(0x01020304))
    );
    assert_eq!(
        parse_ip_from_bytes(b"1.2.3.4"),
        Some(IpAddr::V4(0x01020304))
    );
    assert_eq!(parse_ip_from_bytes(b"[::1]:443"), Some(IpAddr::V6(1)));
    assert_eq!(parse_ip_from_bytes(b"[::1]"), Some(IpAddr::V6(1)));
    assert_eq!(parse_ip_from_bytes(b"::1"), Some(IpAddr::V6(1)));
    assert_eq!(
        parse_ip_from_bytes(b"2001:db8::2"),
        Some(IpAddr::V6(0x20010db8_00000000_00000000_00000002))
    );
}

#[test]
fn what_names_no_peer_is_refused() {
    assert_eq!(parse_ip_from_bytes(b""), None);
    assert_eq!(parse_ip_from_bytes(b"pipe"), None);
    assert_eq!(parse_ip_from_bytes(b"[1.2.3.4]:80"), None);
    assert_eq!(parse_ip_from_bytes(b"[::1"), None);
    assert_eq!(parse_ip_from_bytes(b"[::1]x"), None);
    assert_eq!(parse_ip_from_bytes(b"[::1]80"), None);
    assert_eq!(parse_ip_from_bytes(b"[::1]]:80"), None);
    assert_eq!(parse_ip_from_bytes(&[0xff, 0xfe, b':', b'1']), None);
    assert_eq!(
        choose_peer_address(true, Some(IpAddr::V4(1)), Some(IpAddr::V4(1))),
        None
    );
    assert_eq!(
        choose_peer_address(false, None, Some(IpAddr::V6(9))),
        Some(IpAddr::V6(9))
    );
}

#[test]
fn queries_have_one_parameter_for_each_value() {
    let none: Vec<String> = Vec::new();
    let two = vec!["ip".to_string(), "range".to_string()];
    let one = vec!["a".to_string()];
    assert_eq!(build_query_params(false, &none, &none, &none, &none), "");
    assert_eq!(
        build_query_params(true, &none, &none, &none, &none),
        "?startup=true"
    );
    assert_eq!(
        build_query_params(true, &two, &one, &one, &one),
        "?startup=true&scopes=ip&scopes=range&origins=a&scenarios_containing=a&scenarios_not_containing=a"
    );
    assert_eq!(
        build_query_params(false, &none, &none, &none, &one),
        "?scenarios_not_containing=a"
    );
}

#[test]
fn batches_keep_to_the_message_limit() {
    let messages = vec![ban("1.0.0.1"), ban("1.0.0.2"), ban("1.0.0.3")];
    let batches = send_batched(&messages, 2, 100_000).unwrap();
    assert_eq!(batches.len(), 2);
    assert_eq!(batches[0].len(), 2);
    assert_eq!(batches[1].len(), 1);
    assert_eq!(batches[1][0].ip, net("1.0.0.3"));
}

#[test]
fn batches_keep_to_the_byte_limit() {
    let messages: Vec<BanMessage> = (1..=20).map(|n| ban(&format!("1.0.0.{}", n))).collect();
    let batches = send_batched(&messages, 1000, 200).unwrap();
    assert!(batches.len() > 1);
    let all: Vec<IpNet> = batches.iter().flatten().map(|m| m.ip).collect();
    let sent: Vec<IpNet> = messages.iter().map(|m| m.ip).collect();
    assert_eq!(all, sent);
}

#[test]
fn too_large_messages_get_a_batch_of_their_own() {
    let mut large = ban("1.0.0.2");
    large.expiration = "x".repeat(500);
    let messages = vec![ban("1.0.0.1"), large, ban("1.0.0.3")];
    let batches = send_batched(&messages, 1000, 200).unwrap();
    assert_eq!(batches.len(), 3);
    assert_eq!(batches[1][0].ip, net("1.0.0.2"));
    // A message limit of zero still lets every batch take one message.
    assert_eq!(send_batched(&messages, 0, 100_000).unwrap().len(), 3);
}

#[test]
fn ends_of_batches() {
    assert!(find_batch_ends(&vec![], 10, 100).is_empty());
    assert_eq!(find_batch_ends(&vec![60, 40, 1], 10, 100), vec![2, 3]);
    assert_eq!(find_batch_ends(&vec![200, 1], 10, 100), vec![1, 2]);
    assert_eq!(
        find_batch_ends(&vec![usize::MAX, usize::MAX], 10, usize::MAX),
        vec![1, 2]
    );
}

#[test]
fn sizes_of_messages_are_those_of_their_encoding() {
    // The least limit that takes two messages is the size of their two FlexBuffers maps.
    let two = vec![ban("1.2.3.4"), ban("1.2.3.5")];
    let together = (1..400).find(|&n| send_batched(&two, 10, n).unwrap().len() == 1);
    let ip: ipnet::IpNet = "1.2.3.4/32".parse().unwrap();
    let mut out = flexbuffers::FlexbufferSerializer::new();
    let mut fields = serde::Serializer::serialize_struct(&mut out, "BanMessage", 3).unwrap();
    SerializeStruct::serialize_field(&mut fields, "ip", &ip).unwrap();
    SerializeStruct::serialize_field(&mut fields, "remediation", "ban").unwrap();
    SerializeStruct::serialize_field(&mut fields, "expiration", "").unwrap();
    SerializeStruct::end(fields).unwrap();
    assert_eq!(together, Some(2 * out.view().len()));
}

#[test]
fn the_queue_gives_the_earliest_entry_first() {
    let mut queue = ExpirationQueue::new();
    assert!(queue.peek().is_none());
    assert!(queue.pop().is_none());
    for t in [5u64, 3, 9, 1, 7, 3] {
        queue.push(ExpirationEntry {
            expiration: t,
            ip: net("1.2.3.4"),
        });
    }
    let mut out = Vec::new();
    while let Some(entry) = queue.peek() {
        assert_eq!(queue.pop().unwrap().expiration, entry.expiration);
        out.push(entry.expiration);
    }
    assert_eq!(out, vec![1, 3, 3, 5, 7, 9]);
}

#[test]
fn entries_compare_by_their_expiration() {
    let a = ExpirationEntry {
        expiration: 1,
        ip: net("1.2.3.4"),
    };
    let b = ExpirationEntry {
        expiration: 1,
        ip: net("4.3.2.1"),
    };
    let c = ExpirationEntry {
        expiration: 2,
        ip: net("1.2.3.4"),
    };
    assert!(a == b);
    assert!(a < c);
    assert!(c > b);
}

#[test]
fn maps_by_network_tell_networks_with_one_address_apart() {
    let mut map: NetMap<u32> = NetMap::new();
    assert!(map.is_empty());
    map.insert(net("10.0.0.0/8"), 1);
    map.insert(net("10.0.0.0/16"), 2);
    map.insert(net("10.0.0.0/8"), 3);
    assert!(!map.is_empty());
    assert_eq!(map.get(&net("10.0.0.0/8")), Some(&3));
    assert_eq!(map.get(&net("10.0.0.0/16")), Some(&2));
    assert!(!map.contains_key(&net("10.0.0.0")));
    assert_eq!(map.remove(&net("10.0.0.0/8")), Some(3));
    assert_eq!(map.remove(&net("10.0.0.0/8")), None);
    assert_eq!(map.get(&net("10.0.0.0/16")), Some(&2));
    map.clear();
    assert!(map.is_empty());
}

#[test]
fn operations_on_text() {
    assert!(same_text("abc", "abc"));
    assert!(!same_text("abc", "abd"));
    assert!(!same_text("abc", "ab"));
    assert!(has_prefix("abc", "ab"));
    assert!(!has_prefix("ab", "abc"));
    assert!(contains_char("a/b", '/'));
    assert!(!contains_char("ab", '/'));
    assert!(eq_ignore_ascii_case("Content-Type", "content-type"));
    assert!(!eq_ignore_ascii_case("Content-Type", "content-length"));
    assert_eq!(
        join_strings(&vec!["a".to_string(), "b".to_string()], ", "),
        "a, b"
    );
    assert_eq!(join_strings(&vec![], ", "), "");
    assert_eq!(decimal(0), "0");
    assert_eq!(decimal(12_288), "12288");
}

#[test]
fn numbers_are_read_as_far_as_they_fit() {
    assert_eq!(parse_i64("9223372036854775807"), Some(i64::MAX));
    assert_eq!(parse_i64("9223372036854775808"), None);
    assert_eq!(parse_i64("-9223372036854775808"), Some(i64::MIN));
    assert_eq!(parse_i64("-9223372036854775809"), None);
    assert_eq!(parse_i64("00012"), Some(12));
    assert_eq!(parse_i64(""), None);
    assert_eq!(parse_i64("-"), None);
    assert_eq!(parse_i64("+-1"), None);
    assert_eq!(parse_i64("1 "), None);
}
