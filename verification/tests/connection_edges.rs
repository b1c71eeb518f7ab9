use transom_client::address::is_local;
use transom_client::address::on_local_network;
use transom_client::connections::available;
use transom_client::connections::load;
use transom_client::connections::manual_id;
use transom_client::connections::port;
use transom_client::connections::remember;
use transom_client::connections::save;
use transom_client::connections::Connection;
use transom_client::discovery::name;
use transom_client::discovery::query;
use transom_client::discovery::records;
use transom_client::discovery::u16_at;
use transom_client::discovery::MDNS_PORT;
use transom_client::discovery::TYPE_PTR;
use transom_client::discovery::TYPE_SRV;
use transom_client::discovery::TYPE_TXT;
use transom_client::services::less;
use transom_client::services::Scan;
use transom_client::win::overview::needs_discovery;
use transom_client::win::overview::rediscovered;

fn fields(pairs: &[(&str, &str)]) -> Vec<(String, String)> {
    pairs.iter().map(|(k, v)| (k.to_string(), v.to_string())).collect()
}

fn advertised(port: u16, pairs: &[(&str, &str)]) -> Option<Connection> {
    Connection::from_advertisement(port, &fields(pairs))
}

fn named(id: &str, name: &str, host: &str) -> Connection {
    let mut c = Connection::manual(host, "1", "2").unwrap();
    c.id = id.to_string();
    c.name = name.to_string();
    c
}

#[test]
fn manual_connections_are_trimmed_and_named() {
    let c = Connection::manual("\u{2003}MAC-É.local.. ", " 47100 ", "  ").unwrap();
    assert_eq!(c.host, "MAC-É.local");
    assert_eq!(c.name, "MAC-É.local");
    assert_eq!(c.id, "manual:mac-é.local:47100");
    assert_eq!((c.control_port, c.video_port), (47100, None));
}

#[test]
fn manual_refusals_tell_what_to_do() {
    let host = "Enter a Mac hostname (such as Mac-Studio.local) or an IP address.";
    for bad in ["", " . ", "a b", "a/b", "a\\b", "a\0b"] {
        assert_eq!(Connection::manual(bad, "1", "").unwrap_err(), host);
    }
    assert_eq!(Connection::manual(&"a".repeat(254), "1", "").unwrap_err(), host);
    assert!(Connection::manual(&"a".repeat(253), "1", "").is_ok());
    assert_eq!(
        Connection::manual("a", "65536", "").unwrap_err(),
        "Control port must be between 1 and 65535."
    );
    assert_eq!(
        Connection::manual("a", "1", "x").unwrap_err(),
        "Video port must be between 1 and 65535, or blank to disable video."
    );
    assert_eq!(
        Connection::manual("a", "7", "7").unwrap_err(),
        "Control and video ports must be different."
    );
}

#[test]
fn ports_are_positive_numbers() {
    assert_eq!(port(" 65535\n"), Some(65535));
    assert_eq!(port("+80"), Some(80));
    for bad in ["0", "", "-1", "65536", "8 0"] {
        assert_eq!(port(bad), None);
    }
}

#[test]
fn advertisements_need_every_field() {
    let good = [
        ("v", "1"),
        ("id", "x"),
        ("name", "  Studio "),
        ("addr", "10.0.0.5"),
        ("video", "9"),
    ];
    let found = advertised(8, &good).unwrap();
    assert_eq!(found.name, "Studio");
    assert_eq!(found.host, "10.0.0.5");
    for left_out in 0..good.len() {
        let mut some = good.to_vec();
        some.remove(left_out);
        assert!(advertised(8, &some).is_none());
    }
    assert!(advertised(0, &good).is_none());
    assert!(advertised(9, &good).is_none());
    for (at, bad) in [(1, ""), (2, " "), (2, "a\u{7}"), (3, "10.0.0.05"), (4, "")] {
        let mut some = good;
        some[at].1 = bad;
        assert!(advertised(8, &some).is_none(), "{bad:?}");
    }
    let long = "i".repeat(129);
    let mut some = good;
    some[1].1 = &long;
    assert!(advertised(8, &some).is_none());
}

#[test]
fn local_networks_are_private_or_link_local() {
    for yes in ["10.1.2.3", "172.16.0.1", "172.31.255.255", "192.168.0.0", "169.254.9.9"] {
        assert!(on_local_network(yes), "{yes}");
    }
    for no in ["172.15.0.1", "172.32.0.1", "192.169.0.1", "8.8.8.8", "127.0.0.1", "10.1.2", "10.1.2.256", "::1", "10.1.2.3 "] {
        assert!(!on_local_network(no), "{no}");
    }
    assert!(is_local(172, 20));
    assert!(!is_local(11, 0));
}

#[test]
fn remembered_macs_come_first_and_stay_few() {
    let mut saved = Vec::new();
    for n in 0..15 {
        remember(&mut saved, named(&n.to_string(), "n", &format!("10.0.0.{n}")));
    }
    let ids: Vec<_> = saved.iter().map(|c| c.id.clone()).collect();
    assert_eq!(ids.len(), 12);
    assert_eq!(ids[0], "14");
    assert_eq!(ids[11], "3");
    remember(&mut saved, named("7", "renamed", "10.0.0.99"));
    assert_eq!(saved.len(), 12);
    assert_eq!(saved[0].name, "renamed");
    assert_eq!(saved[1].id, "14");
}

#[test]
fn rows_show_each_mac_once_nearby_first() {
    let nearby = [named("a", "A", "10.0.0.1"), named("b", "B", "10.0.0.2")];
    let saved = [named("b", "old B", "10.9.9.9"), named("c", "C", "10.0.0.3")];
    let rows = available(&nearby, &saved);
    let names: Vec<_> = rows.iter().map(|c| c.name.as_str()).collect();
    assert_eq!(names, ["A", "B", "C"]);
    assert!(nearby[1].same_destination(&saved[0]));
    assert!(!nearby[0].same_destination(&saved[0]));
    let mut upper = named("z", "Z", "MAC.local");
    assert!(upper.same_destination(&named("y", "Y", "mac.LOCAL")));
    upper.video_port = None;
    assert!(!upper.same_destination(&named("y", "Y", "mac.LOCAL")));
}

#[test]
fn saved_files_are_checked() {
    assert_eq!(
        load(&" ".repeat(64 * 1024 + 1)).unwrap_err(),
        "Saved connections file is too large"
    );
    assert_eq!(load("{}").unwrap_err(), "Invalid connections file");
    assert_eq!(
        load("[").unwrap_err(),
        "JSON error at byte 1: expected a JSON value"
    );
    let text = save(&[named("i", "N", "h")]);
    assert_eq!(
        text,
        "[{\"id\":\"i\",\"name\":\"N\",\"host\":\"h\",\"control\":1,\"video\":2}]"
    );
    // Unsound rows are left out.
    let two = "[{\"id\":\"i\"},{\"id\":\"i\",\"name\":\"N\",\"host\":\"h\",\"control\":1,\"video\":null}]";
    let rows = load(two).unwrap();
    assert_eq!(rows.len(), 1);
    assert_eq!(rows[0].video_port, None);
}

#[test]
fn saved_macs_load_back() {
    let list = vec![named("uuid-1", "Büro \"Mac\"", "10.0.0.1"), named("uuid-2", "B", "mac.local")];
    assert_eq!(load(&save(&list)).unwrap(), list);
}

#[test]
fn saved_connections_need_discovery_unless_manual() {
    let manual = Connection::manual("10.0.0.1", "1", "").unwrap();
    assert!(!needs_discovery(&manual));
    let found = named("uuid", "N", "10.0.0.1");
    assert!(needs_discovery(&found));
    let moved = named("uuid", "N", "10.0.0.9");
    assert_eq!(
        rediscovered(vec![manual.clone(), moved.clone()], "uuid").unwrap(),
        moved
    );
    assert_eq!(
        rediscovered(vec![manual], "uuid").unwrap_err(),
        "Mac is offline or not sharing. Open Transom Host and press Start."
    );
}

#[test]
fn queries_name_their_labels() {
    assert_eq!(
        query("a.bc", TYPE_SRV),
        [0x54, 0x52, 0, 0, 0, 1, 0, 0, 0, 0, 0, 0, 1, b'a', 2, b'b', b'c', 0, 0, 33, 0, 1]
    );
    let mut at = 12;
    assert_eq!(name(&query("a.bc", TYPE_TXT), &mut at).unwrap(), "a.bc");
    assert_eq!(at, 18);
    assert_eq!(u16_at(&query("a", TYPE_TXT), 15), Some(16));
    assert_eq!(u16_at(&[1], 0), None);
}

#[test]
fn odd_names_are_rejected() {
    // A label with a dot in it, one that is no UTF-8, one that is too long.
    assert!(name(&[3, b'a', b'.', b'b', 0], &mut 0).is_none());
    assert!(name(&[1, 0xff, 0], &mut 0).is_none());
    assert!(name(&[64, 0], &mut 0).is_none());
    let mut long = Vec::new();
    for _ in 0..5 {
        long.push(63);
        long.extend_from_slice(&[b'a'; 63]);
    }
    long.push(0);
    assert!(name(&long, &mut 0).is_none());
}

fn reply(answers: &[(&str, u16, u32, Vec<u8>)]) -> Vec<u8> {
    let mut b = vec![0x54, 0x52, 0x84, 0, 0, 0, 0, answers.len() as u8, 0, 0, 0, 0];
    for (owner, kind, ttl, data) in answers {
        b.extend_from_slice(&wire_name(owner));
        b.extend_from_slice(&kind.to_be_bytes());
        b.extend_from_slice(&[0, 1]);
        b.extend_from_slice(&ttl.to_be_bytes());
        b.extend_from_slice(&(data.len() as u16).to_be_bytes());
        b.extend_from_slice(data);
    }
    b
}

fn wire_name(text: &str) -> Vec<u8> {
    let mut out = Vec::new();
    for label in text.split('.') {
        out.push(label.len() as u8);
        out.extend_from_slice(label.as_bytes());
    }
    out.push(0);
    out
}

fn srv(port: u16) -> Vec<u8> {
    let mut out = vec![0, 0, 0, 0];
    out.extend_from_slice(&port.to_be_bytes());
    out.extend_from_slice(&wire_name("mac.local"));
    out
}

fn txt(pairs: &[(&str, &str)]) -> Vec<u8> {
    let mut out = Vec::new();
    for (k, v) in pairs {
        out.push((k.len() + v.len() + 1) as u8);
        out.extend_from_slice(k.as_bytes());
        out.push(b'=');
        out.extend_from_slice(v.as_bytes());
    }
    out
}

const INSTANCE: &str = "x._transom._tcp.local";

fn whole_reply(id: &str, label: &str) -> Vec<u8> {
    let owner = format!("{id}._transom._tcp.local");
    let fields = [("v", "1"), ("id", id), ("name", label), ("addr", "10.0.0.7"), ("video", "0")];
    reply(&[
        ("_Transom._tcp.LOCAL", TYPE_PTR, 120, wire_name(&owner)),
        (&owner, TYPE_SRV, 120, srv(47100)),
        (&owner, TYPE_TXT, 120, txt(&fields)),
    ])
}

#[test]
fn records_carry_ports_and_fields() {
    let b = reply(&[
        (INSTANCE, TYPE_SRV, 5, srv(513)),
        (INSTANCE, TYPE_TXT, 6, txt(&[("k", "v=w"), ("e", "")])),
        (INSTANCE, 1, 7, vec![10, 0, 0, 1]),
    ]);
    let r = records(&b).unwrap();
    assert_eq!(r.len(), 3);
    assert_eq!((r[0].kind, r[0].ttl, r[0].port), (33, 5, Some(513)));
    assert_eq!(r[1].txt.as_ref().unwrap(), &fields(&[("k", "v=w"), ("e", "")]));
    assert!(r[2].port.is_none() && r[2].target.is_none() && r[2].txt.is_none());
    let mut more = b.clone();
    more.extend_from_slice(&[1, 2, 3]);
    assert_eq!(records(&more).unwrap().len(), 3);
    for at in [0, 2] {
        let mut wrong = b.clone();
        wrong[at] ^= 0x80;
        assert!(records(&wrong).is_none());
    }
}

#[test]
fn scans_ask_once_and_list_in_order() {
    let mut scan = Scan::new();
    assert_eq!(scan.receive(&whole_reply("b", "Beta"), MDNS_PORT), ["b._transom._tcp.local"]);
    assert!(scan.receive(&whole_reply("b", "Beta"), MDNS_PORT).is_empty());
    // Only the mDNS port is believed.
    assert!(scan.receive(&whole_reply("c", "Gamma"), 5354).is_empty());
    assert!(scan.receive(&[1, 2, 3], MDNS_PORT).is_empty());
    scan.receive(&whole_reply("a", "Alpha"), MDNS_PORT);
    let names: Vec<_> = scan.found().iter().map(|c| c.name.clone()).collect();
    assert_eq!(names, ["Alpha", "Beta"]);
    // A goodbye takes a service away.
    scan.receive(&reply(&[("B._transom._tcp.local", TYPE_SRV, 0, srv(1))]), MDNS_PORT);
    assert_eq!(scan.found().len(), 1);
}

#[test]
fn scans_stay_bounded() {
    let mut scan = Scan::new();
    let mut asked = 0;
    for n in 0..140 {
        asked += scan.receive(&whole_reply(&format!("m{n}"), "Mac"), MDNS_PORT).len();
    }
    assert_eq!(asked, 128);
    // The last service fills the list, so the record behind its first is not taken.
    assert_eq!(scan.found().len(), 127);
}

#[test]
fn scans_retry_once_and_end() {
    assert!(!Scan::retry_due(900, false));
    assert!(Scan::retry_due(901, false));
    assert!(!Scan::retry_due(901, true));
    assert!(!Scan::over(1999));
    assert!(Scan::over(2000));
}

#[test]
fn texts_are_ordered_by_character() {
    assert!(less("Ab", "ab"));
    assert!(less("a", "aa"));
    assert!(less("é", "😀"));
    assert!(!less("a", "a"));
    assert!(!less("b", "aa"));
}

#[test]
fn manual_identities_name_host_and_port() {
    assert_eq!(manual_id("mac.local", 47100), "manual:mac.local:47100");
}

#[test]
fn records_count_for_the_service_of_their_name() {
    let found = |name: &str| {
        let fields = [("v", "1"), ("id", "i"), ("name", "N"), ("addr", "10.0.0.7"), ("video", "0")];
        let datagram = reply(&[("q", TYPE_SRV, 9, srv(7)), ("q", TYPE_TXT, 9, txt(&fields))]);
        let mut scan = Scan::new();
        for record in records(&datagram).unwrap() {
            scan.record_service(name.to_string(), record);
        }
        scan.found().len()
    };
    assert_eq!(found("x._transom._tcp.local"), 1);
    assert_eq!(found("X._TRANSOM._TCP.LOCAL"), 0);
    assert_eq!(found("_transom._tcp.local"), 0);
    assert_eq!(found("x._transom._tcp.local.org"), 0);
}

#[test]
fn remembering_twice_is_remembering_once() {
    let mut saved = Vec::new();
    for n in 0..14 {
        remember(&mut saved, named(&n.to_string(), "n", &format!("10.0.0.{n}")));
    }
    let c = named("5", "again", "10.9.9.9");
    remember(&mut saved, c.clone());
    let once = saved.clone();
    remember(&mut saved, c);
    assert_eq!(saved, once);
}
