use get_proxy::qqwry::{ip_to_u32, u32_to_ip, ip_text_is_convertible, header_is_valid, QQWry};

#[test]
fn ip_text_to_number() {
    assert!(ip_text_is_convertible("1.2.3.4"));
    assert_eq!(ip_to_u32("1.2.3.4"), 0x01020304);
    assert_eq!(ip_to_u32("255.255.255.255"), 0xFFFF_FFFF);
    assert_eq!(ip_to_u32("0.0.0.0"), 0);
}

#[test]
fn ip_text_with_a_bad_piece_is_zero() {
    assert!(ip_text_is_convertible("192.168.256.1"));
    assert_eq!(ip_to_u32("192.168.256.1"), 0);
    assert_eq!(ip_to_u32("a.b.c.d"), 0);
}

#[test]
fn ip_text_three_pieces() {
    assert_eq!(ip_to_u32("1.2.3"), 0x00010203);
}

#[test]
fn ip_text_too_short_is_refused() {
    assert!(!ip_text_is_convertible("1.2"));
    assert!(!ip_text_is_convertible("7"));
}

#[test]
fn number_to_ip_text() {
    assert_eq!(u32_to_ip(0x01020304), "1.2.3.4");
    assert_eq!(u32_to_ip(0), "0.0.0.0");
    assert_eq!(u32_to_ip(0xFFFF_FFFF), "255.255.255.255");
}

#[test]
fn ip_round_trip_law_on_values() {
    for x in [0u32, 1, 255, 256, 0x7F00_0001, 0xC0A8_0101, 0xFFFF_FFFF, 0x0A00_00FF] {
        let t = u32_to_ip(x);
        assert!(ip_text_is_convertible(&t));
        assert_eq!(ip_to_u32(&t), x);
    }
}

fn sample_database() -> Vec<u8> {
    vec![
        17, 0, 0, 0, 17, 0, 0, 0, // first and last index record
        0xFF, 0x03, 0x02, 0x01, b'C', b'N', 0, b'A', 0, // record: end 1.2.3.255, country, area
        0x00, 0x03, 0x02, 0x01, 8, 0, 0, // index: start 1.2.3.0, record at 8
    ]
}

#[test]
fn database_header_check() {
    assert!(header_is_valid(&sample_database()));
    assert!(!header_is_valid(&[1, 0, 0, 0]));
    assert!(!header_is_valid(&[9, 0, 0, 0, 8, 0, 0, 0]));
}

#[test]
fn database_lookup_inside_range() {
    let mut db = QQWry::from(String::from("sample.dat"), sample_database());
    let loc = db.read_ip_location("1.2.3.4").unwrap();
    assert_eq!(loc.country, "CN");
    assert_eq!(loc.area, "A");
    assert_eq!(loc.start_ip, 0x01020300);
    assert_eq!(loc.end_ip, 0x010203FF);
    assert_eq!(loc.index_offset, 17);
    assert_eq!(loc.record_offset, 8);
}

#[test]
fn database_lookup_past_last_record() {
    let mut db = QQWry::from(String::from("sample.dat"), sample_database());
    let loc = db.read_ip_location("1.2.4.1").unwrap();
    assert_eq!(loc.country, "CN");
    assert_eq!(loc.start_ip, 0);
    assert_eq!(loc.index_offset, 0);
    assert_eq!(loc.end_ip, 0x010203FF);
}

#[test]
fn database_lookup_before_first_record_fails() {
    let mut db = QQWry::from(String::from("sample.dat"), sample_database());
    assert!(db.read_ip_location("1.2.2.0").is_none());
}

#[test]
fn database_lookup_of_unconvertible_text() {
    let mut db = QQWry::from(String::from("sample.dat"), sample_database());
    let v6 = db.read_ip_location("::1").unwrap();
    assert_eq!(v6.country, "");
    assert!(db.read_ip_location("1.2").is_none());
    let loc = db.read_ip_location("300.1.1.1").unwrap();
    assert_eq!(loc.country, "");
    assert_eq!(loc.start_ip, 0);
}

#[test]
fn database_country_in_gb2312() {
    let data = vec![
        17, 0, 0, 0, 17, 0, 0, 0,
        0xFF, 0x03, 0x02, 0x01, 0xD6, 0xD0, 0xB9, 0xFA, 0, 0, // record: end 1.2.3.255, 中国, empty area
        0x00, 0x03, 0x02, 0x01, 8, 0, 0,
    ];
    let mut fixed = data.clone();
    fixed[0] = 18;
    fixed[4] = 18;
    let mut db = QQWry::from(String::from("gb.dat"), fixed);
    let loc = db.read_ip_location("1.2.3.9").unwrap();
    assert_eq!(loc.country, "中国");
    assert_eq!(loc.area, "");
}

#[test]
fn canonical_quad_round_trips() {
    for s in ["10.0.0.255", "0.0.0.0", "255.255.255.255", "192.168.1.7"] {
        assert_eq!(u32_to_ip(ip_to_u32(s)), s);
    }
}
