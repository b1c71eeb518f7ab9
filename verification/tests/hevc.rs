use transom_client::hevc::HevcConfig;

fn config(length_size: u8) -> Vec<u8> {
    let mut bytes = vec![0; 23];
    bytes[0] = 1;
    bytes[1] = 1;
    bytes[16] = 0xfd;
    bytes[17] = 0xf8;
    bytes[21] = 0xfc | (length_size - 1);
    bytes[22] = 3;
    for kind in 32..=34 {
        bytes.extend_from_slice(&[kind, 0, 1, 0, 3, kind << 1, 1, 0xaa]);
    }
    bytes
}

#[test]
fn converts_all_length_sizes_and_injects_parameter_sets_on_keyframes() {
    for size in [1, 2, 4] {
        let config = HevcConfig::parse(&config(size)).unwrap();
        assert_eq!((config.profile, config.chroma, config.bit_depth), (1, 1, 8));
        let mut au = vec![0; usize::from(size)];
        *au.last_mut().unwrap() = 3;
        au.extend_from_slice(&[0x26, 1, 0xab]);
        let delta = config.annex_b(&au, false).unwrap();
        assert_eq!(delta, [0, 0, 0, 1, 0x26, 1, 0xab]);
        let key = config.annex_b(&au, true).unwrap();
        assert_eq!(&key[..config.parameter_sets.len()], config.parameter_sets);
        assert_eq!(&key[config.parameter_sets.len()..], delta);
    }
}

#[test]
fn rejects_truncated_config_at_every_boundary() {
    let valid = config(4);
    for end in 0..valid.len() {
        assert!(HevcConfig::parse(&valid[..end]).is_err(), "end={end}");
    }
    assert!(HevcConfig::parse(&config(3)).is_err());
    let mut missing = valid.clone();
    missing[22] = 2;
    missing.truncate(missing.len() - 8);
    assert!(HevcConfig::parse(&missing).is_err());
}

#[test]
fn rejects_bad_nal_lengths_without_panicking_or_partial_output() {
    let config = HevcConfig::parse(&config(4)).unwrap();
    for bytes in [
        &[][..],
        &[0, 0],
        &[0, 0, 0, 0],
        &[0, 0, 0, 9, 1, 2],
        &[255; 4],
    ] {
        assert!(config.annex_b(bytes, true).is_err());
    }
}
