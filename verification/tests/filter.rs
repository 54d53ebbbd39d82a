use crowdsec_envoy_bouncer::filter::{on_queue_ready, CrowdsecFilter};
use crowdsec_envoy_bouncer::filter_config::FilterConfig;
use crowdsec_envoy_bouncer::ip_storage::IpStorage;
use crowdsec_envoy_bouncer::message::BanMessage;
use crowdsec_envoy_bouncer::net::{parse_ip_with_cidr, IpAddr, IpNet};
use crowdsec_envoy_bouncer::worker::{
    announced_worker_queue, worker_announcement, worker_queue_name,
};

fn net(text: &str) -> IpNet {
    parse_ip_with_cidr(text).unwrap()
}

fn message(ip: &str, remediation: &str) -> BanMessage {
    BanMessage {
        ip: net(ip),
        remediation: remediation.to_string(),
        expiration: String::new(),
    }
}

const UUID: u128 = 0x67e55044_10b5_426f_9247_bb680e5fe0c8;

#[test]
fn a_filter_announces_itself_once() {
    let mut filter = CrowdsecFilter::default();
    filter.worker_uuid = UUID;
    assert_eq!(
        filter.on_tick(),
        Some((
            "crowdsec_singleton".to_string(),
            "crowdsec_worker_names".to_string()
        ))
    );
    assert_eq!(filter.on_updater_queue(None), None);
    assert!(filter.on_tick().is_some());
    assert_eq!(
        filter.on_updater_queue(Some(4)),
        Some((4, b"67e55044-10b5-426f-9247-bb680e5fe0c8".to_vec()))
    );
    assert_eq!(filter.on_tick(), None);
    assert_eq!(filter.on_updater_queue(Some(4)), None);
}

#[test]
fn the_updater_finds_the_queue_of_the_filter() {
    let mut filter = CrowdsecFilter::default();
    filter.worker_uuid = UUID;
    let (period, queue) = filter.on_vm_start();
    assert_eq!(period.as_secs(), 2);
    assert_eq!(
        queue,
        "crowdsec_worker_67e55044-10b5-426f-9247-bb680e5fe0c8"
    );
    assert_eq!(
        announced_worker_queue(&worker_announcement(UUID)),
        Some(queue)
    );
}

#[test]
fn workers_are_told_apart() {
    let a = CrowdsecFilter::default();
    let b = CrowdsecFilter::default();
    assert_ne!(a.worker_uuid, b.worker_uuid);
    assert_eq!(a.worker_uuid >> 76 & 0xf, 4);
    assert_eq!(a.worker_uuid >> 62 & 3, 2);
    assert_ne!(a.on_vm_start().1, b.on_vm_start().1);
    assert_eq!(worker_queue_name("x"), "crowdsec_worker_x");
}

#[test]
fn the_filter_is_configured() {
    let mut filter = CrowdsecFilter::default();
    assert!(filter.on_configure(None));
    assert!(!filter.on_configure(Some(Err("bad".to_string()))));
    assert_eq!(filter.config.response_code, 403);
    let mut config = FilterConfig::default();
    config.response_code = 429;
    assert!(filter.on_configure(Some(Ok(config))));
    assert_eq!(filter.config.response_code, 429);
}

#[test]
fn batches_are_carried_out_in_their_order() {
    let mut bans = IpStorage::new();
    let batch = vec![
        message("1.2.3.4", "ban"),
        message("1.2.3.5", "captcha"),
        message("1.2.3.4", "unban"),
    ];
    assert_eq!(on_queue_ready(&mut bans, Some(batch), None), Some(3));
    assert!(!bans.contains_direct(IpAddr::V4(0x01020304)));
    assert!(bans.contains_direct(IpAddr::V4(0x01020305)));
}

#[test]
fn a_single_message_counts_where_there_is_no_batch() {
    let mut bans = IpStorage::new();
    assert_eq!(
        on_queue_ready(&mut bans, None, Some(message("1.2.3.4", "ban"))),
        Some(1)
    );
    assert!(bans.contains_direct(IpAddr::V4(0x01020304)));
    assert_eq!(
        on_queue_ready(&mut bans, Some(vec![]), Some(message("1.2.3.4", "unban"))),
        Some(0)
    );
    assert_eq!(on_queue_ready(&mut bans, None, None), None);
    assert!(bans.contains_direct(IpAddr::V4(0x01020304)));
}

#[test]
fn single_addresses_and_networks_are_banned_apart() {
    let mut bans = IpStorage::new();
    let inside = IpAddr::V4(0x0a000001);
    assert!(!bans.contains_direct(inside));
    bans.insert_direct(net("10.0.0.0/8"));
    bans.insert_direct(net("10.0.0.1"));
    bans.remove_direct(net("10.0.0.0/8"));
    assert!(bans.contains_direct(inside));
    assert!(!bans.contains_direct(IpAddr::V4(0x0a000002)));
    bans.insert_direct(net("10.0.0.0/8"));
    bans.remove_direct(net("10.0.0.1"));
    assert!(bans.contains_direct(inside));
    bans.remove_direct(net("10.0.0.0/8"));
    assert!(!bans.contains_direct(inside));
}

#[test]
fn families_of_addresses_do_not_mix() {
    let mut bans = IpStorage::new();
    bans.insert_direct(net("0.0.0.1"));
    bans.insert_direct(net("fd00::/8"));
    assert!(bans.contains_direct(IpAddr::V4(1)));
    assert!(!bans.contains_direct(IpAddr::V6(1)));
    assert!(bans.contains_direct(IpAddr::V6(0xfd << 120)));
    assert!(!bans.contains_direct(IpAddr::V6(0xfe << 120)));
    bans.remove_direct(net("fd00::/8"));
    assert!(!bans.contains_direct(IpAddr::V6(0xfd << 120)));
    bans.insert_direct(net("::7"));
    assert!(bans.contains_direct(IpAddr::V6(7)));
    bans.remove_direct(net("::7"));
    assert!(!bans.contains_direct(IpAddr::V6(7)));
}

#[test]
fn networks_end_at_their_last_address() {
    let mut bans = IpStorage::new();
    bans.insert_direct(net("192.168.4.0/22"));
    assert!(bans.contains_direct(IpAddr::V4(0xc0a80400)));
    assert!(bans.contains_direct(IpAddr::V4(0xc0a807ff)));
    assert!(!bans.contains_direct(IpAddr::V4(0xc0a80800)));
    assert!(!bans.contains_direct(IpAddr::V4(0xc0a803ff)));
    bans.insert_direct(IpNet::V4 {
        addr: 0x05060708,
        prefix_len: 24,
    });
    assert!(bans.contains_direct(IpAddr::V4(0x050607ff)));
    bans.insert_direct(net("0.0.0.0/0"));
    assert!(bans.contains_direct(IpAddr::V4(0xffffffff)));
}

#[test]
fn repeated_bans_change_nothing() {
    let mut bans = IpStorage::new();
    bans.insert_direct(net("10.0.0.0/8"));
    bans.insert_direct(net("10.0.0.0/8"));
    bans.remove_direct(net("10.0.0.0/8"));
    assert!(!bans.contains_direct(IpAddr::V4(0x0a000000)));
}

#[test]
fn lifting_a_large_network_lifts_the_small_ones_in_it() {
    let mut bans = IpStorage::new();
    bans.insert_direct(net("10.1.0.0/16"));
    bans.insert_direct(net("11.0.0.0/8"));
    bans.remove_direct(net("10.0.0.0/8"));
    assert!(!bans.contains_direct(IpAddr::V4(0x0a010001)));
    assert!(bans.contains_direct(IpAddr::V4(0x0b000001)));
}
