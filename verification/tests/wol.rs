use wol::{build_packet, parse_mac, Mac, ParseError};

#[test]
fn can_parse_valid_mac() {
    assert_eq!(
        "ff:ff:ff:ff:ff:ff".parse::<Mac>().unwrap(),
        Mac(255, 255, 255, 255, 255, 255)
    );
    assert_eq!(
        "FF:FF:FF:FF:FF:FF".parse::<Mac>().unwrap(),
        Mac(255, 255, 255, 255, 255, 255)
    );
    assert_eq!(
        "00:00:00:00:00:00".parse::<Mac>().unwrap(),
        Mac(0, 0, 0, 0, 0, 0)
    );
}

#[test]
fn return_error_for_invalid_mac() {
    let macs = vec![":::::", "ff:ff:ff:ff:ff:fg", "ff:ff:ff:ff:ff:ff:ff"];
    for m in macs {
        match m.parse::<Mac>() {
            Err(e) => assert_eq!(e, ParseError::InvalidInput),
            Ok(_) => unreachable!(),
        };
    }
}

#[test]
fn can_build_magic_packet() {
    let mac: Mac = "ff:ff:ff:ff:ff:ff".parse().unwrap();
    assert_eq!(build_packet(&mac).unwrap().is_empty(), false);
    assert_eq!(build_packet(&mac).unwrap().len(), 102);
    assert_eq!(build_packet(&mac).unwrap(), vec![255; 102]);
}

#[test]
fn parses_mixed_case_groups() {
    let m = parse_mac("00:1A:2b:3C:4d:5E").unwrap();
    assert_eq!(m, Mac(0x00, 0x1a, 0x2b, 0x3c, 0x4d, 0x5e));
}

#[test]
fn uppercase_and_lowercase_parse_alike() {
    assert_eq!(
        parse_mac("AA:BB:CC:DD:EE:FF").unwrap(),
        parse_mac("aa:bb:cc:dd:ee:ff").unwrap()
    );
}

#[test]
fn rejects_structurally_invalid_strings() {
    let bad = vec![
        "",
        "ff",
        "ff:ff:ff:ff:ff",
        "ff-ff-ff-ff-ff-ff",
        "f:ff:ff:ff:ff:fff",
        "ff:ff:ff:ff:ff:f ",
        "gg:ff:ff:ff:ff:ff",
        "ff:ff:ff:ff:ff:ff ",
    ];
    for s in bad {
        assert_eq!(parse_mac(s), Err(ParseError::InvalidInput));
    }
}

#[test]
fn new_keeps_octet_order() {
    let m = Mac::new((1, 2, 3, 4, 5, 6));
    assert_eq!(m, Mac(1, 2, 3, 4, 5, 6));
    assert_eq!(m.as_bytes(), [1, 2, 3, 4, 5, 6]);
}

#[test]
fn build_is_deterministic() {
    let mac = parse_mac("01:23:45:67:89:ab").unwrap();
    let p1 = build_packet(&mac).unwrap();
    let p2 = build_packet(&mac).unwrap();
    assert_eq!(p1, p2);
}

#[test]
fn packet_layout_preamble_then_sixteen_repetitions() {
    let mac = Mac(0x01, 0x23, 0x45, 0x67, 0x89, 0xab);
    let p = build_packet(&mac).unwrap();
    assert_eq!(p.len(), 102);
    for i in 0..6 {
        assert_eq!(p[i], 0xff);
    }
    let addr = mac.as_bytes();
    for k in 0..16 {
        assert_eq!(&p[6 + 6 * k..12 + 6 * k], &addr[..]);
    }
}

#[test]
fn end_to_end_broadcast_payload() {
    // The parse and build stages of the broadcast scenario; the final
    // datagram hand-off is network I/O and lives with the caller.
    let mac = parse_mac("ff:ff:ff:ff:ff:ff").unwrap();
    let p = build_packet(&mac).unwrap();
    assert_eq!(p, vec![0xff; 102]);
}
