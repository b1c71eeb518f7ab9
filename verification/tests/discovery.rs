use transom_client::connections::Connection;
use transom_client::discovery::name;
use transom_client::discovery::query;
use transom_client::discovery::records;
use transom_client::discovery::SERVICE;

#[test]
fn compressed_names_and_cycles() {
    let b = [3, b'm', b'a', b'c', 0, 0xc0, 0];
    let mut p = 5;
    assert_eq!(name(&b, &mut p).unwrap(), "mac");
    assert_eq!(p, 7);
    assert!(name(&[0xc0, 0], &mut 0).is_none());
    assert!(name(&[63, 1, 2], &mut 0).is_none());
}
#[test]
fn parses_real_dns_record_layout_and_rejects_truncation() {
    let mut b = query(SERVICE, 12);
    b[2] = 0x84;
    b[7] = 1;
    b.extend([0xc0, 12, 0, 12, 0, 1, 0, 0, 0, 120]);
    let mut instance = vec![3, b'a', b'b', b'c'];
    instance.extend([0xc0, 12]);
    b.extend((instance.len() as u16).to_be_bytes());
    b.extend(instance);
    let r = records(&b).unwrap();
    assert_eq!(r[0].target.as_deref(), Some("abc._transom._tcp.local"));
    for n in 0..b.len() {
        assert!(records(&b[..n]).is_none());
    }
}
#[test]
fn validates_discovery_metadata() {
    let mut f = vec![
        ("v".into(), "1".into()),
        ("id".into(), "uuid".into()),
        ("name".into(), "Mac Studio".into()),
        ("addr".into(), "192.168.1.5".into()),
        ("video".into(), "48200".into()),
    ];
    assert_eq!(
        Connection::from_advertisement(48100, &f)
            .unwrap()
            .video_port,
        Some(48200)
    );
    f[3].1 = "8.8.8.8".into();
    assert!(Connection::from_advertisement(48100, &f).is_none());
    f[3].1 = "192.168.1.5".into();
    f[4].1 = "0".into();
    assert!(Connection::from_advertisement(48100, &f)
        .unwrap()
        .video_port
        .is_none());
    f[0].1 = "2".into();
    assert!(Connection::from_advertisement(48100, &f).is_none());
}
