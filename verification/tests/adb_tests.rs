//! The wireless-debugging plugin: scan-line parsing, pairing
//! credentials, the command grammar and its decisions.

use plugin_manager::adapter::FromBytes;
use plugin_manager::adb::{
    check_output_ok, connect_reply_ok, find, pair_reply_ok, parse_ipv4, pick_target, AdbAction,
    AdbCommand, AdbResult, ConnectResult, Ipv4, PairInfo, PluginAdbConnect, ScanItem, ServerType,
};

#[test]
fn test_regex() {
    fn test(s: &str) {
        let found = find(s);
        println!("find: {:?}", found);
        assert!(found.is_some());
        assert!(found.unwrap().len() == 4);
    }
    test("adb-orvgxk4dqw9dduin-nRR0TU     _adb-tls-connect._tcp   192.168.2.188:36891");
    test("adb-orvgxk4dqw9dduin-nRR0TU (2)    _adb-tls-connect._tcp   192.168.2.188:36891");
    test("studio-abcdefghij       _adb-tls-pairing._tcp   192.168.2.188:39467");
}

#[test]
fn test_scanitem() {
    fn test(s: &str) {
        let found = ScanItem::parse(s);
        println!("found: {:?}", found.is_ok());
        assert!(found.is_ok());
    }
    test("adb-orvgxk4dqw9dduin-nRR0TU     _adb-tls-connect._tcp   192.168.2.188:36891");
    test("studio-abcdefghij       _adb-tls-pairing._tcp   192.168.2.188:39467");
}

#[test]
fn scan_line_fields_are_extracted() {
    let groups = find("adb-orvgxk4dqw9dduin-nRR0TU     _adb-tls-connect._tcp   192.168.2.188:36891")
        .unwrap();
    assert_eq!(groups[0], "adb-orvgxk4dqw9dduin-nRR0TU");
    assert_eq!(groups[1], "_adb-tls-connect._tcp");
    assert_eq!(groups[2], "192.168.2.188");
    assert_eq!(groups[3], "36891");
    let item = ScanItem::parse(
        "studio-abcdefghij       _adb-tls-pairing._tcp   192.168.2.188:39467",
    )
    .unwrap();
    assert_eq!(item.name, "studio-abcdefghij");
    assert_eq!(item.addr, Ipv4 { o1: 192, o2: 168, o3: 2, o4: 188 });
    assert_eq!(item.port, 39467);
    assert_eq!(item.server_type, ServerType::PairingCode);
}

#[test]
fn lines_without_a_marker_or_port_fail() {
    assert!(find("just some text").is_none());
    assert!(find("name _adb-tls-connect._tcp 192.168.2.188").is_none());
    assert!(ScanItem::parse("name\t_adb-tls-connect._tcp not-an-ip:1234").is_err());
    assert!(ScanItem::parse("name\t_adb-tls-connect._tcp 192.168.2.188:99999").is_err());
}

#[test]
fn ipv4_grammar_is_strict() {
    assert_eq!(parse_ipv4("192.168.2.188"), Some(Ipv4 { o1: 192, o2: 168, o3: 2, o4: 188 }));
    assert_eq!(parse_ipv4("0.0.0.0"), Some(Ipv4 { o1: 0, o2: 0, o3: 0, o4: 0 }));
    assert_eq!(parse_ipv4("256.0.0.1"), None);
    assert_eq!(parse_ipv4("01.2.3.4"), None);
    assert_eq!(parse_ipv4("1.2.3"), None);
    assert_eq!(parse_ipv4("1.2.3.4.5"), None);
    assert_eq!(parse_ipv4("1.2.3.x"), None);
}

#[test]
fn pair_info_has_the_advertised_shape() {
    let charset =
        "abcdefghijklmnopqrstuvwxyzABCDEFGHIJKLMNOPQRSTUVWXYZ0123456789!@#$%^&*()-+*/<>{}";
    let pair = PairInfo::new();
    assert_eq!(pair.get_server().chars().count(), 17);
    assert!(pair.get_server().starts_with("studio-"));
    assert!(pair.get_server()[7..].chars().all(|c| charset.contains(c)));
    assert_eq!(pair.get_pwd().chars().count(), 12);
    assert!(pair.get_pwd().chars().all(|c| charset.contains(c)));
    // two draws almost surely differ; equal credentials would mean the
    // randomness was dropped
    let other = PairInfo::new();
    assert_ne!(
        (pair.get_server().to_string(), pair.get_pwd().to_string()),
        (other.get_server().to_string(), other.get_pwd().to_string())
    );
}

#[test]
fn pairing_payload_format_is_exact() {
    let pair = PairInfo::from("studio-abc", "pw123");
    assert_eq!(pair.generate(), "WIFI:T:ADB;S:studio-abc;P:pw123;;");
}

#[test]
fn commands_decode_case_insensitively() {
    assert!(matches!(AdbCommand::decode(b"connect".to_vec()), Some(AdbCommand::Connect)));
    assert!(matches!(AdbCommand::decode(b"CONNECT".to_vec()), Some(AdbCommand::Connect)));
    assert!(matches!(AdbCommand::decode(b"Disconnect".to_vec()), Some(AdbCommand::Disconnect)));
    assert!(matches!(AdbCommand::decode(b"generate".to_vec()), Some(AdbCommand::Generate)));
    assert!(matches!(AdbCommand::decode(b"list".to_vec()), Some(AdbCommand::List)));
    match AdbCommand::decode(b"pair studio-abc pw123".to_vec()) {
        Some(AdbCommand::Pair(p)) => {
            assert_eq!(p.get_server(), "studio-abc");
            assert_eq!(p.get_pwd(), "pw123");
        },
        other => panic!("expected a pair command, got {}", other.is_some()),
    }
}

#[test]
fn bad_commands_do_not_decode() {
    assert!(AdbCommand::decode(b"fly me to the moon".to_vec()).is_none());
    assert!(AdbCommand::decode(b"pair onlyone".to_vec()).is_none());
    assert!(AdbCommand::decode(vec![0xFF, 0xFE]).is_none());
}

#[test]
fn commands_map_to_host_actions() {
    assert!(matches!(
        PluginAdbConnect::decide_action(AdbCommand::Connect),
        AdbAction::RunConnect
    ));
    assert!(matches!(
        PluginAdbConnect::decide_action(AdbCommand::List),
        AdbAction::RunList
    ));
    assert!(matches!(
        PluginAdbConnect::decide_action(AdbCommand::Generate),
        AdbAction::AnswerGenerate
    ));
    match PluginAdbConnect::decide_action(AdbCommand::Pair(PairInfo::from("s", "p"))) {
        AdbAction::RunPair(p) => assert_eq!(p.get_pwd(), "p"),
        _ => panic!("pair command must run a pairing"),
    }
    let pair = PairInfo::from("srv", "pwd");
    assert_eq!(PluginAdbConnect::generate_reply(&pair), "server: srv, pwd:pwd");
}

#[test]
fn adb_replies_are_recognized() {
    assert!(check_output_ok("mdns daemon version [10970003]"));
    assert!(!check_output_ok("error: no devices found"));
    assert!(connect_reply_ok("connected to 192.168.2.188:36891"));
    assert!(!connect_reply_ok("failed to connect"));
    assert!(pair_reply_ok("Successfully paired to 192.168.2.188:39467"));
    assert!(!pair_reply_ok("pairing failed"));
}

#[test]
fn connect_results_fold_onto_answers() {
    match AdbResult::from_connect(ConnectResult::ConnectSuccess) {
        AdbResult::Success(s) => assert_eq!(s, "success"),
        _ => panic!("a successful connect must answer success"),
    }
    match AdbResult::from_connect(ConnectResult::Error("why".to_string())) {
        AdbResult::Fail(s) => assert_eq!(s, "why"),
        _ => panic!("a failed connect must answer the failure"),
    }
    match AdbResult::from_connect(ConnectResult::List("a\nb".to_string())) {
        AdbResult::Success(s) => assert_eq!(s, "a\nb"),
        _ => panic!("a listing must be answered as success"),
    }
}

#[test]
fn the_longest_named_wanted_service_is_picked() {
    let a = ScanItem::parse("short\t_adb-tls-connect._tcp 10.0.0.1:1111").unwrap();
    let b = ScanItem::parse("much-longer-name\t_adb-tls-connect._tcp 10.0.0.2:2222").unwrap();
    let c = ScanItem::parse("studio-abcdefghij\t_adb-tls-pairing._tcp 10.0.0.3:3333").unwrap();
    let items = vec![a, b, c];
    let connect_pick = pick_target(&items, false).unwrap();
    assert_eq!(items[connect_pick].name, "much-longer-name");
    let pairing_pick = pick_target(&items, true).unwrap();
    assert_eq!(items[pairing_pick].name, "studio-abcdefghij");
    let none = pick_target(&Vec::new(), true);
    assert!(none.is_none());
}
