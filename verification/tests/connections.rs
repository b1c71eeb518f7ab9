use transom_client::connections::available;
use transom_client::connections::load;
use transom_client::connections::remember;
use transom_client::connections::save;
use transom_client::connections::Connection;

#[test]
fn discovery_merges_manual_copy_but_preserves_distinct_services() {
    let manual = Connection::manual("192.168.0.37", "7002", "7001").unwrap();
    let mut discovered = manual.clone();
    discovered.id = "mac-studio".into();
    discovered.name = "Mac Studio".into();
    let other = Connection::manual("192.168.0.37", "7102", "7101").unwrap();
    assert_eq!(
        available(&[discovered.clone()], &[manual.clone(), other.clone()]),
        vec![discovered.clone(), other]
    );
    let mut saved = vec![manual];
    remember(&mut saved, discovered.clone());
    assert_eq!(saved, vec![discovered]);
}
#[test]
fn manual_custom_ports_and_hostnames() {
    let c = Connection::manual(" Mac-Studio.local ", "48000", "48001").unwrap();
    assert_eq!(c.host, "Mac-Studio.local");
    assert_eq!(c.video_port, Some(48001));
    assert!(Connection::manual("foo", "0", "").is_err());
    assert!(Connection::manual("foo", "5", "5").is_err());
    assert!(Connection::manual("https://foo", "5", "6").is_err());
}
#[test]
fn remembers_by_stable_id_after_address_change() {
    let mut c = Connection::manual("192.168.1.2", "47100", "47101").unwrap();
    c.id = "stable".into();
    let mut saved = vec![c.clone()];
    c.host = "192.168.1.7".into();
    remember(&mut saved, c.clone());
    assert_eq!(saved, vec![c]);
}
#[test]
fn preferences_round_trip_and_replace_unicode() {
    let mut c = Connection::manual("mac.local", "47100", "").unwrap();
    c.name = "Aydin’s Mac ".into();
    let text = save(&[c.clone()]);
    assert_eq!(load(&text).unwrap(), vec![c]);
    let text = save(&[]);
    assert!(load(&text).unwrap().is_empty());
}
