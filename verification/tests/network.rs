use file_sharer::address::{
    discovery_targets, ipv4_broadcast_addresses, is_lan_ip, is_lan_ipv6, is_unique_local_ipv6,
    socket_address, Interface, IpAddress,
};
use file_sharer::devices::{DeviceInfo, DeviceTable};
use file_sharer::discovery::{
    accepts_connection, read_packet, Beacon, Goodbye, Packet, Probe, GOODBYE_PROTOCOL,
    PROBE_PROTOCOL,
};
use file_sharer::history::{TransferDirection, TransferEvent, TransferHistory};
use file_sharer::http::PROTOCOL;
use file_sharer::identity::Identity;
use file_sharer::sending::SendError;
use file_sharer::service::{check_target, Announcement, NetworkService};
use file_sharer::transfer::{TransferPhase, TransferProgress};

fn v4(text: &str) -> IpAddress {
    let parts: Vec<u8> = text.split('.').map(|part| part.parse().unwrap()).collect();
    IpAddress::V4([parts[0], parts[1], parts[2], parts[3]])
}

fn v6(first: u16, last: u16) -> IpAddress {
    IpAddress::V6([first, 0, 0, 0, 0, 0, 0, last])
}

fn service(now_ms: u128) -> NetworkService {
    NetworkService::new(
        None,
        Some("box".to_string()),
        Some("me".to_string()),
        None,
        "linux",
        Ok([3; 16]),
        now_ms,
    )
    .ok()
    .unwrap()
}

fn device(id: &str, name: &str, last_seen_ms: u128) -> DeviceInfo {
    DeviceInfo {
        id: id.to_string(),
        name: name.to_string(),
        platform: "test".to_string(),
        address: "192.168.1.2".to_string(),
        port: 45892,
        last_seen_ms,
        crypto_public_key: "key".to_string(),
    }
}

fn beacon(id: &str, name: &str) -> Beacon {
    Beacon {
        protocol: "file-sharer.v2".to_string(),
        id: id.to_string(),
        name: name.to_string(),
        platform: "android".to_string(),
        port: 7,
        crypto_public_key: "public".to_string(),
    }
}

fn see(service: &mut NetworkService, id: &str, name: &str, now_ms: u128) -> bool {
    let outcome = service.receive_packet(
        &v4("192.168.1.9"),
        "192.168.1.9",
        Some(Probe { protocol: PROTOCOL.to_string() }),
        Some(Goodbye { protocol: PROTOCOL.to_string(), id: id.to_string() }),
        Some(beacon(id, name)),
        now_ms,
    );
    assert!(outcome.lost.is_none());
    assert!(outcome.reply);
    outcome.discovered.is_some()
}

fn names(list: &[DeviceInfo]) -> Vec<String> {
    list.iter().map(|device| device.name.clone()).collect()
}

fn sorted(mut list: Vec<String>) -> Vec<String> {
    list.sort();
    list
}

fn event(number: u64) -> TransferEvent {
    TransferEvent {
        direction: TransferDirection::Sent,
        file_name: format!("file {number}"),
        peer_name: "peer".to_string(),
        bytes: number,
        saved_path: None,
        timestamp_ms: number as u128,
    }
}

fn progress(phase: TransferPhase, bytes_transferred: u64) -> TransferProgress {
    TransferProgress {
        transfer_id: "t".to_string(),
        direction: TransferDirection::Sent,
        phase,
        file_name: "f".to_string(),
        peer_name: "p".to_string(),
        bytes_transferred,
        total_bytes: 1000,
        encrypted: true,
        error: None,
    }
}

#[test]
fn accepts_only_lan_scoped_addresses() {
    assert!(is_lan_ip(&v4("192.168.1.12")));
    assert!(is_lan_ip(&v4("10.0.0.8")));
    assert!(is_lan_ip(&v4("172.16.4.2")));
    assert!(is_lan_ip(&v4("127.0.0.1")));
    assert!(!is_lan_ip(&v4("8.8.8.8")));
}

#[test]
fn address_ranges_have_exact_ends() {
    for inside in ["172.31.255.255", "169.254.0.1", "10.255.0.1", "127.255.255.255"] {
        assert!(is_lan_ip(&v4(inside)));
    }
    for outside in ["172.15.0.1", "172.32.0.1", "192.167.1.1", "192.169.1.1", "169.253.1.1", "11.0.0.1", "128.0.0.1", "0.0.0.0", "255.255.255.255"] {
        assert!(!is_lan_ip(&v4(outside)));
    }
    assert!(is_lan_ip(&v6(0, 1)));
    assert!(!is_lan_ip(&v6(0, 2)));
    assert!(!is_lan_ip(&v6(0, 0)));
    for inside in [0xfe80, 0xfebf, 0xfc00, 0xfdff] {
        assert!(is_lan_ip(&v6(inside, 5)));
    }
    for outside in [0xfe7f, 0xfec0, 0xfbff, 0xfe00, 0x2001] {
        assert!(!is_lan_ip(&v6(outside, 5)));
    }
    assert!(is_unique_local_ipv6(&[0xfd12, 0, 0, 0, 0, 0, 0, 0]));
    assert!(!is_unique_local_ipv6(&[0xfe80, 0, 0, 0, 0, 0, 0, 0]));
    assert!(!is_lan_ipv6(&[0, 0, 0, 0, 0, 0xffff, 0xc0a8, 0x0101]));
}

#[test]
fn discovery_goes_to_everyone_once() {
    assert_eq!(discovery_targets(&vec![]), vec![0xefff_2a63, 0xffff_ffff]);
    assert_eq!(
        discovery_targets(&vec![0xffff_ffff, 0xc0a8_01ff, 0x0a00_00ff, 0xc0a8_01ff]),
        vec![0x0a00_00ff, 0xc0a8_01ff, 0xefff_2a63, 0xffff_ffff]
    );
}

#[test]
fn only_wireless_interfaces_have_broadcasts() {
    let interface = |name: &str, up: bool, loopback: bool| Interface {
        name: name.as_bytes().to_vec(),
        address: 0xc0a8_0105,
        netmask: 0xffff_ff00,
        up,
        loopback,
    };
    let list = vec![
        interface("wlan0", true, false),
        interface("ap0", true, false),
        interface("eth0", true, false),
        interface("wlan1", false, false),
        interface("wlan2", true, true),
        interface("wla", true, false),
        interface("a", true, false),
    ];
    assert_eq!(ipv4_broadcast_addresses(&list), vec![0xc0a8_01ff, 0xc0a8_01ff]);
}

#[test]
fn socket_addresses_are_hosts_and_ports() {
    assert_eq!(socket_address("127.0.0.1", 45892), "127.0.0.1:45892");
    assert_eq!(socket_address("::1", 0), "::1:0");
}

#[test]
fn connections_from_outside_are_refused() {
    assert!(accepts_connection(None));
    assert!(accepts_connection(Some(v4("10.1.1.1"))));
    assert!(!accepts_connection(Some(v4("1.1.1.1"))));
}

#[test]
fn devices_are_noted_once_and_expire() {
    let mut table = DeviceTable::new();
    assert!(table.insert(device("b", "Zoe", 1000)));
    assert!(table.insert(device("a", "adam", 2000)));
    assert!(table.insert(device("c", "Bob", 3000)));
    assert!(!table.insert(device("b", "Zed", 4000)));
    assert_eq!(names(&table.sorted()), ["Bob", "Zed", "adam"]);
    assert_eq!(table.get("b").unwrap().last_seen_ms, 4000);
    assert!(table.get("d").is_none());
    assert_eq!(table.expire(8000), Vec::<String>::new());
    assert_eq!(sorted(table.expire(9001)), ["a", "c"]);
    assert_eq!(names(&table.sorted()), ["Zed"]);
    assert!(table.remove("b"));
    assert!(!table.remove("b"));
    assert!(table.insert(device("x", "x", 0)));
    assert!(table.insert(device("y", "y", 0)));
    assert_eq!(sorted(table.clear()), ["x", "y"]);
    assert!(table.sorted().is_empty());
}

#[test]
fn device_names_are_ordered_as_std_orders_them() {
    let mut table = DeviceTable::new();
    let mut expected: Vec<String> =
        ["é", "z", "ab", "a", "", "日", "\u{10000}", "\u{ffff}", "aa"].map(String::from).to_vec();
    for (index, name) in expected.iter().enumerate() {
        table.insert(device(&index.to_string(), name, 0));
    }
    expected.sort();
    assert_eq!(names(&table.sorted()), expected);
}

#[test]
fn packets_mean_what_they_are_marked_as() {
    let probe = || Some(Probe { protocol: PROBE_PROTOCOL.to_string() });
    let goodbye = |id: &str| {
        Some(Goodbye { protocol: GOODBYE_PROTOCOL.to_string(), id: id.to_string() })
    };
    let lan = v4("192.168.0.2");
    let read = |source: &IpAddress, probe, goodbye, beacon| {
        match read_packet(source, probe, goodbye, beacon, "me") {
            Packet::Ignored => "ignored".to_string(),
            Packet::Probed => "probed".to_string(),
            Packet::Left(id) => format!("left {id}"),
            Packet::Seen(seen) => format!("seen {}", seen.id),
        }
    };
    assert_eq!(read(&lan, probe(), goodbye("x"), Some(beacon("x", "X"))), "probed");
    assert_eq!(read(&lan, None, goodbye("x"), Some(beacon("x", "X"))), "left x");
    assert_eq!(read(&lan, None, goodbye("me"), Some(beacon("x", "X"))), "ignored");
    assert_eq!(read(&lan, None, None, Some(beacon("x", "X"))), "seen x");
    assert_eq!(read(&lan, None, None, Some(beacon("me", "X"))), "ignored");
    assert_eq!(read(&lan, None, None, None), "ignored");
    assert_eq!(read(&v4("9.9.9.9"), probe(), None, None), "ignored");
    let mut other = beacon("x", "X");
    other.protocol = "file-sharer.v1".to_string();
    assert_eq!(read(&lan, None, None, Some(other)), "ignored");
}

#[test]
fn service_starts_with_its_identity() {
    let service = service(5);
    let identity = service.identity();
    assert_eq!(identity.name, "box's linux");
    assert_eq!(identity.platform, "linux");
    assert_eq!(identity.port, 45892);
    assert_eq!(identity.id.len(), 16);
    assert!(service.is_discovery_enabled());
    let beacon = service.beacon();
    assert_eq!(beacon.protocol, "file-sharer.v2");
    assert_eq!(beacon.id, identity.id);
    assert_eq!(beacon.crypto_public_key, identity.crypto_public_key);
    let goodbye = service.goodbye();
    assert_eq!(goodbye.protocol, "file-sharer.v2.goodbye");
    assert_eq!(goodbye.id, identity.id);
    assert_eq!(Probe::new().protocol, "file-sharer.v2.probe");
    let failed = NetworkService::new(None, None, None, None, "os", Err("dry".to_string()), 0);
    assert_eq!(failed.err().unwrap(), "dry");
    let copy: Identity = identity.clone();
    assert_eq!(copy.name, identity.name);
}

#[test]
fn service_takes_names_that_are_not_empty() {
    let mut service = service(0);
    assert_eq!(
        service.set_device_name(" \u{1}\n ".to_string()).err().unwrap(),
        "设备名称不能为空"
    );
    assert_eq!(service.identity().name, "box's linux");
    let renamed = service.set_device_name("  my   phone ".to_string()).ok().unwrap();
    assert_eq!(renamed.name, "my phone");
    assert_eq!(service.identity().name, "my phone");
}

#[test]
fn service_finds_and_loses_devices() {
    let mut service = service(0);
    assert!(see(&mut service, "a", "Anna", 1000));
    assert!(!see(&mut service, "a", "Anne", 2000));
    assert!(see(&mut service, "b", "Bert", 5000));
    let list = service.devices(8000);
    assert_eq!(names(&list.devices), ["Anne", "Bert"]);
    assert!(list.lost.is_empty());
    assert_eq!(list.devices[0].address, "192.168.1.9");
    assert_eq!(list.devices[0].port, 7);
    assert_eq!(list.devices[0].last_seen_ms, 2000);
    let later = service.devices(8001);
    assert_eq!(names(&later.devices), ["Bert"]);
    assert_eq!(later.lost, ["a"]);
    let left = service.receive_packet(
        &v4("192.168.1.9"),
        "192.168.1.9",
        None,
        Some(Goodbye { protocol: GOODBYE_PROTOCOL.to_string(), id: "b".to_string() }),
        None,
        8002,
    );
    assert_eq!(left.lost, Some("b".to_string()));
    assert!(!left.reply);
    let again = service.receive_packet(
        &v4("192.168.1.9"),
        "192.168.1.9",
        None,
        Some(Goodbye { protocol: GOODBYE_PROTOCOL.to_string(), id: "b".to_string() }),
        None,
        8003,
    );
    assert_eq!(again.lost, None);
    assert!(service.devices(8004).devices.is_empty());
}

#[test]
fn probing_forgets_the_devices() {
    let mut service = service(0);
    see(&mut service, "a", "Anna", 10);
    see(&mut service, "b", "Bert", 10);
    let probing = service.probe_discovery();
    assert_eq!(sorted(probing.lost), ["a", "b"]);
    assert!(probing.beacon);
    assert!(service.devices(11).devices.is_empty());
    service.set_discovery_enabled(false, 12);
    assert!(!service.probe_discovery().beacon);
}

#[test]
fn hidden_devices_do_not_answer() {
    let mut service = service(0);
    let probe = |service: &mut NetworkService| {
        service
            .receive_packet(
                &v4("192.168.1.9"),
                "192.168.1.9",
                Some(Probe { protocol: PROBE_PROTOCOL.to_string() }),
                None,
                None,
                1,
            )
            .reply
    };
    assert!(probe(&mut service));
    assert!(service.set_discovery_enabled(false, 2) == Announcement::Goodbye);
    assert!(service.set_discovery_enabled(false, 3) == Announcement::Nothing);
    assert!(!service.is_discovery_enabled());
    assert!(!probe(&mut service));
    assert!(service.set_discovery_enabled(true, 4) == Announcement::Beacon);
    assert!(service.set_discovery_enabled(true, 5) == Announcement::Beacon);
    assert!(probe(&mut service));
}

#[test]
fn beacons_get_rare_after_a_while() {
    let mut service = service(1000);
    assert_eq!(service.beacon_interval(true, 31000), 500);
    assert_eq!(service.beacon_interval(true, 31001), 5000);
    assert_eq!(service.beacon_interval(false, 99999), 500);
    assert_eq!(service.beacon_interval(true, 0), 500);
    see(&mut service, "a", "Anna", 40000);
    assert_eq!(service.beacon_interval(true, 70000), 500);
    see(&mut service, "a", "Anna", 60000);
    assert_eq!(service.beacon_interval(true, 70001), 5000);
    service.set_discovery_enabled(true, 70001);
    assert_eq!(service.beacon_interval(true, 70002), 500);
}

#[test]
fn targets_have_to_be_there() {
    let mut service = service(0);
    see(&mut service, "a", "Anna", 1000);
    let paths = vec!["/f".to_string()];
    let message = |result: Result<DeviceInfo, SendError>| result.err().unwrap().message();
    assert_eq!(
        message(service.send_files(&vec![], None, 1000).target),
        "没有可发送的文件"
    );
    assert_eq!(message(service.send_files(&paths, None, 1000).target), "缺少目标设备");
    let there = service.send_files(&paths, Some("a".to_string()), 7000);
    assert_eq!(there.target.ok().unwrap().name, "Anna");
    assert!(there.lost.is_empty());
    let gone = service.send_files(&paths, Some("a".to_string()), 7001);
    assert_eq!(gone.lost, ["a"]);
    assert_eq!(message(gone.target), "目标设备不在线");
    assert!(check_target(Ok(v4("10.0.0.1"))).is_ok());
    assert_eq!(
        check_target(Ok(v4("8.8.8.8"))).err().unwrap().message(),
        "目标设备不在局域网地址范围内"
    );
    assert_eq!(
        check_target(Err("bad".to_string())).err().unwrap().message(),
        "目标地址无效：bad"
    );
}

#[test]
fn history_is_capped_and_newest_first() {
    let mut history = TransferHistory::new();
    for number in 0..105 {
        history.push(event(number));
    }
    let list = history.newest_first();
    assert_eq!(list.len(), 100);
    assert_eq!(list[0].bytes, 104);
    assert_eq!(list[99].bytes, 5);
    assert_eq!(history.events()[0].bytes, 5);
    let loaded = TransferHistory::from_events((0..250).map(event).collect());
    assert_eq!(loaded.events().len(), 100);
    assert_eq!(loaded.newest_first()[0].bytes, 249);
    let few = TransferHistory::from_events((0..3).map(event).collect());
    assert_eq!(few.events().len(), 3);
    history.clear();
    assert!(history.events().is_empty());
}

#[test]
fn service_remembers_transfers() {
    let mut service = service(0);
    service.record_sent_transfer("a".to_string(), "p".to_string(), 7, 11);
    let mut received = event(8);
    received.direction = TransferDirection::Received;
    received.saved_path = Some("/saved".to_string());
    service.push_history(received);
    let list = service.transfer_history();
    assert_eq!(list.len(), 2);
    assert_eq!(list[0].saved_path, Some("/saved".to_string()));
    assert_eq!(list[1].file_name, "a");
    assert_eq!(list[1].timestamp_ms, 11);
    assert!(list[1].direction == TransferDirection::Sent);
    let saved = service.saved_history();
    assert_eq!(saved[0].file_name, "a");
    service.clear_transfer_history();
    assert!(service.transfer_history().is_empty());
    service.load_history(saved);
    assert_eq!(service.transfer_history()[1].file_name, "a");
    service.load_history((0..101).map(event).collect());
    assert_eq!(service.saved_history()[0].bytes, 1);
}

#[test]
fn cancelled_transfers_are_noted() {
    let mut service = service(0);
    assert!(!service.is_cancelled("t"));
    assert!(service.ensure_not_cancelled("t").is_ok());
    service.cancel_transfer("t".to_string());
    assert!(service.is_cancelled("t"));
    assert!(!service.is_cancelled("u"));
    assert_eq!(service.ensure_not_cancelled("t").unwrap_err(), "传输已取消");
}

#[test]
fn transfers_are_measured_now_and_then() {
    let mut service = service(0);
    let mut note = |phase, bytes, now_ms| {
        service
            .emit_progress(&progress(phase, bytes), now_ms)
            .map(|found| (found.elapsed_ms, found.bytes))
    };
    assert_eq!(note(TransferPhase::Progress, 10, 50), None);
    assert_eq!(note(TransferPhase::Started, 0, 100), None);
    assert_eq!(note(TransferPhase::Progress, 10, 200), None);
    assert_eq!(note(TransferPhase::Progress, 10, 201), Some((101, 10)));
    assert_eq!(note(TransferPhase::Progress, 10, 900), None);
    assert_eq!(note(TransferPhase::Progress, 30, 901), Some((700, 20)));
    assert_eq!(note(TransferPhase::Progress, 40, 3), None);
    assert_eq!(note(TransferPhase::Finished, 1000, 1000), None);
    assert_eq!(note(TransferPhase::Progress, 50, 9999), None);
    assert_eq!(note(TransferPhase::Started, 0, 10000), None);
    assert_eq!(note(TransferPhase::Failed, 0, 10001), None);
    assert_eq!(note(TransferPhase::Progress, 50, 20000), None);
}
