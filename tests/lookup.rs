use ip2location::bytes::compose_ipv6;
use ip2location::database::{IP2Location, HEADER_LEN};
use ip2location::layout::{field_column, Field};
use ip2location::record::{DbError, IpAddress};

/// A column of a record as the test database stores it.
enum Col {
    /// A text pointer to a short code followed by a long name (the country column).
    Pair(&'static str, &'static str),
    /// A text pointer to one string.
    Text(&'static str),
    /// A 32-bit value stored in the record itself.
    Raw(u32),
}

fn put_u32(buf: &mut Vec<u8>, at: usize, v: u32) {
    buf[at..at + 4].copy_from_slice(&v.to_le_bytes());
}

fn push_text(buf: &mut Vec<u8>, s: &str) {
    buf.push(s.len() as u8);
    buf.extend_from_slice(s.as_bytes());
}

/// Appends the out-of-line text of a column and gives the pointer to store in the record.
fn push_col(buf: &mut Vec<u8>, col: &Col) -> u32 {
    match col {
        Col::Pair(short, long) => {
            let p = buf.len() as u32;
            push_text(buf, short);
            while buf.len() < p as usize + 3 {
                buf.push(0);
            }
            push_text(buf, long);
            p
        }
        Col::Text(s) => {
            let p = buf.len() as u32;
            push_text(buf, s);
            p
        }
        Col::Raw(v) => *v,
    }
}

/// Builds a database image. `v6` chooses the family of the table; each range is its
/// start and its columns after the first. With `index`, an index table is written.
fn build(db_type: u8, columns: u8, v6: bool, ranges: &[(u128, Vec<Col>)], index: bool) -> Vec<u8> {
    let mut buf = vec![0u8; HEADER_LEN];
    buf[0] = db_type;
    buf[1] = columns;
    buf[2] = 20;
    buf[3] = 1;
    buf[4] = 2;
    let index_base = if index { buf.len() + 1 } else { 0 };
    if index {
        buf.extend(std::iter::repeat(0u8).take(65536 * 8));
    }
    let stride = columns as usize * 4 + if v6 { 12 } else { 0 };
    let base = buf.len() + 1;
    let n = ranges.len();
    let top = if v6 { u128::MAX } else { u32::MAX as u128 };
    buf.extend(std::iter::repeat(0u8).take(stride * (n + 2)));
    for i in 0..n + 2 {
        let start = if i < n { ranges[i].0 } else { top };
        let at = base - 1 + i * stride;
        if v6 {
            for w in 0..4 {
                put_u32(&mut buf, at + 4 * w, (start >> (32 * w)) as u32);
            }
        } else {
            put_u32(&mut buf, at, start as u32);
        }
    }
    for (i, (_, cols)) in ranges.iter().enumerate() {
        for (c, col) in cols.iter().enumerate() {
            let v = push_col(&mut buf, col);
            let at = base - 1 + i * stride + if v6 { 12 } else { 0 } + 4 * (c + 1);
            put_u32(&mut buf, at, v);
        }
    }
    if index {
        let shift = if v6 { 112 } else { 16 };
        for t in 0..65536u128 {
            let first = t << shift;
            let last = first | ((1u128 << shift) - 1);
            let lo = ranges.iter().rposition(|r| r.0 <= first).unwrap_or(0);
            let hi = ranges.iter().rposition(|r| r.0 <= last).unwrap_or(0);
            let at = index_base - 1 + (t as usize) * 8;
            put_u32(&mut buf, at, lo as u32);
            put_u32(&mut buf, at + 4, hi as u32);
        }
    }
    let (count_at, addr_at, index_at) = if v6 { (13, 17, 25) } else { (5, 9, 21) };
    put_u32(&mut buf, count_at, n as u32);
    put_u32(&mut buf, addr_at, base as u32);
    put_u32(&mut buf, index_at, index_base as u32);
    buf
}

fn v4(a: u8, b: u8, c: u8, d: u8) -> u32 {
    u32::from_be_bytes([a, b, c, d])
}

fn v6(words: [u16; 8]) -> u128 {
    words.iter().fold(0u128, |acc, w| (acc << 16) | *w as u128)
}

fn country_db(index: bool) -> IP2Location {
    let plan: [(u8, &'static str, &'static str); 10] = [
        (19, "US", "United States of America"),
        (25, "GB", "United Kingdom"),
        (43, "JP", "Japan"),
        (47, "CA", "Canada"),
        (51, "GB", "United Kingdom"),
        (53, "DE", "Germany"),
        (80, "GB", "United Kingdom"),
        (81, "IL", "Israel"),
        (83, "PL", "Poland"),
        (85, "CH", "Switzerland"),
    ];
    let mut ranges: Vec<(u128, Vec<Col>)> = vec![(0, vec![Col::Pair("-", "-")])];
    for (octet, short, long) in plan.iter() {
        ranges.push((v4(*octet, 0, 0, 0) as u128, vec![Col::Pair(short, long)]));
        ranges.push((v4(*octet + 1, 0, 0, 0) as u128, vec![Col::Pair("-", "-")]));
    }
    IP2Location::from_bytes(build(1, 2, false, &ranges, index)).unwrap()
}

fn country_v6_db() -> IP2Location {
    let plan: [([u16; 8], [u16; 8], &'static str); 10] = [
        ([0x2001, 0x0200, 0x0100, 0, 0, 0, 0, 0], [0x2001, 0x0200, 0x0200, 0, 0, 0, 0, 0], "JP"),
        ([0x2a01, 0x04f8, 0x0d16, 0x2500, 0, 0, 0, 0], [0x2a01, 0x04f8, 0x0d16, 0x2600, 0, 0, 0, 0], "DE"),
        ([0x2a01, 0x04f8, 0x0d16, 0x2600, 0, 0, 0, 0], [0x2a01, 0x04f8, 0x0d17, 0, 0, 0, 0, 0], "DE"),
        ([0x2a01, 0xad20, 0, 0, 0, 0, 0, 0], [0x2a01, 0xad21, 0, 0, 0, 0, 0, 0], "ES"),
        ([0x2a01, 0xaf60, 0, 0, 0, 0, 0, 0], [0x2a01, 0xaf61, 0, 0, 0, 0, 0, 0], "PL"),
        ([0x2a01, 0xb200, 0, 0, 0, 0, 0, 0], [0x2a01, 0xb201, 0, 0, 0, 0, 0, 0], "SK"),
        ([0x2a01, 0xb340, 0, 0, 0, 0, 0, 0], [0x2a01, 0xb341, 0, 0, 0, 0, 0, 0], "IE"),
        ([0x2a01, 0xb4c0, 0, 0, 0, 0, 0, 0], [0x2a01, 0xb4c1, 0, 0, 0, 0, 0, 0], "CZ"),
        ([0x2a01, 0xb600, 0x8000, 0, 0, 0, 0, 0], [0x2a01, 0xb600, 0x8002, 0, 0, 0, 0, 0], "IT"),
        ([0x2a01, 0xb6c0, 0, 0, 0, 0, 0, 0], [0x2a01, 0xb6c1, 0, 0, 0, 0, 0, 0], "SE"),
    ];
    let mut ranges: Vec<(u128, Vec<Col>)> = vec![(0, vec![Col::Pair("-", "-")])];
    for (from, to, short) in plan.iter() {
        let (from, to) = (v6(*from), v6(*to));
        if ranges.last().unwrap().0 != from {
            ranges.push((from, vec![Col::Pair(short, "Somewhere")]));
        } else {
            ranges.pop();
            ranges.push((from, vec![Col::Pair(short, "Somewhere")]));
        }
        ranges.push((to, vec![Col::Pair("-", "-")]));
    }
    IP2Location::from_bytes(build(1, 2, true, &ranges, true)).unwrap()
}

fn short_of(db: &IP2Location, ip: IpAddress) -> String {
    db.get_record(ip).unwrap().unwrap().country_short.unwrap()
}

#[test]
fn test_ipv4() {
    let test_cases = vec![
        ((19, 5, 10, 1), "US"),
        ((25, 5, 10, 2), "GB"),
        ((43, 5, 10, 3), "JP"),
        ((47, 5, 10, 4), "CA"),
        ((51, 5, 10, 5), "GB"),
        ((53, 5, 10, 6), "DE"),
        ((80, 5, 10, 7), "GB"),
        ((81, 5, 10, 8), "IL"),
        ((83, 5, 10, 9), "PL"),
        ((85, 5, 10, 0), "CH"),
    ];
    let database = country_db(true);
    for &((a, b, c, d), country_short) in test_cases.iter() {
        assert_eq!(short_of(&database, IpAddress::V4(v4(a, b, c, d))), country_short);
    }
}

#[test]
fn test_ipv6() {
    let test_cases = vec![
        ([0x2001, 0x0200, 0x0102, 0, 0, 0, 0, 0], "JP"),
        ([0x2a01, 0x04f8, 0x0d16, 0x25c2, 0, 0, 0, 0], "DE"),
        ([0x2a01, 0x04f8, 0x0d16, 0x26c2, 0, 0, 0, 0], "DE"),
        ([0x2a01, 0xad20, 0, 0, 0, 0, 0, 0], "ES"),
        ([0x2a01, 0xaf60, 0, 0, 0, 0, 0, 0], "PL"),
        ([0x2a01, 0xb200, 0, 0, 0, 0, 0, 0], "SK"),
        ([0x2a01, 0xb340, 0, 0, 0, 0, 0, 0], "IE"),
        ([0x2a01, 0xb4c0, 0, 0, 0, 0, 0, 0], "CZ"),
        ([0x2a01, 0xb600, 0x8001, 0, 0, 0, 0, 0], "IT"),
        ([0x2a01, 0xb6c0, 0, 0, 0, 0, 0, 0], "SE"),
    ];
    let database = country_v6_db();
    for &(words, country_short) in test_cases.iter() {
        assert_eq!(short_of(&database, IpAddress::V6(v6(words))), country_short);
    }
}

#[test]
fn country_long_name_is_read_three_bytes_after_the_code() {
    let db = country_db(false);
    let rec = db.get_record(IpAddress::V4(v4(43, 1, 2, 3))).unwrap().unwrap();
    assert_eq!(rec.country_short.as_deref(), Some("JP"));
    assert_eq!(rec.country_long.as_deref(), Some("Japan"));
}

#[test]
fn compose_ipv6_orders_words_by_significance() {
    assert_eq!(compose_ipv6(1, 0, 0, 0), 1);
    assert_eq!(compose_ipv6(0, 0, 0, 1), 1u128 << 96);
    assert_eq!(compose_ipv6(0x04030201, 0x08070605, 0, 0), 0x0807060504030201);
}

#[test]
fn read_ipv6_reads_four_little_endian_words() {
    let mut buf = vec![0u8; HEADER_LEN];
    buf.extend_from_slice(&[1, 0, 0, 0, 0, 0, 0, 0, 0, 0, 0, 0, 0, 0, 0, 0]);
    buf.extend_from_slice(&[0, 0, 0, 0, 0, 0, 0, 0, 0, 0, 0, 0, 1, 0, 0, 0]);
    let db = IP2Location::from_bytes(buf).unwrap();
    assert_eq!(db.read_ipv6(30), Ok(1));
    assert_eq!(db.read_ipv6(46), Ok(1u128 << 96));
    assert_eq!(db.read_ipv6(47), Err(DbError::OutOfBounds));
}

#[test]
fn read_u32_is_little_endian_and_one_based() {
    let mut buf = vec![0u8; HEADER_LEN];
    buf.extend_from_slice(&[0x78, 0x56, 0x34, 0x12]);
    let db = IP2Location::from_bytes(buf).unwrap();
    assert_eq!(db.read_u32(30), Ok(0x12345678));
    assert_eq!(db.read_ipv4(30), Ok(0x12345678));
    assert_eq!(db.read_u32(31), Err(DbError::OutOfBounds));
    assert_eq!(db.read_u32(0), Err(DbError::OutOfBounds));
}

#[test]
fn read_string_decodes_utf8_and_rejects_bad_bytes() {
    let mut buf = vec![0u8; HEADER_LEN];
    push_text(&mut buf, "Zürich");
    buf.extend_from_slice(&[2, 0xff, 0xfe]);
    buf.extend_from_slice(&[9, b'a']);
    let db = IP2Location::from_bytes(buf).unwrap();
    assert_eq!(db.read_string(30), Ok("Zürich".to_string()));
    assert_eq!(db.read_string(38), Err(DbError::InvalidEncoding));
    assert_eq!(db.read_string(41), Err(DbError::OutOfBounds));
    assert_eq!(db.read_string(43), Err(DbError::OutOfBounds));
}

#[test]
fn header_fields_are_read_in_order() {
    let mut buf = vec![0u8; HEADER_LEN];
    buf[0] = 5;
    buf[1] = 6;
    buf[2] = 21;
    buf[3] = 7;
    buf[4] = 30;
    for (k, at) in [5usize, 9, 13, 17, 21, 25].iter().enumerate() {
        put_u32(&mut buf, *at, 1000 + k as u32);
    }
    let db = IP2Location::from_bytes(buf).unwrap();
    assert_eq!((db.db_type, db.db_column), (5, 6));
    assert_eq!((db.db_year, db.db_month, db.db_day), (21, 7, 30));
    assert_eq!((db.ipv4_db_count, db.ipv4_db_addr), (1000, 1001));
    assert_eq!((db.ipv6_db_count, db.ipv6_db_addr), (1002, 1003));
    assert_eq!((db.ipv4_index_base_addr, db.ipv6_index_base_addr), (1004, 1005));
}

#[test]
fn short_header_is_malformed() {
    assert!(matches!(IP2Location::from_bytes(vec![0u8; HEADER_LEN - 1]), Err(DbError::MalformedHeader)));
    assert!(matches!(IP2Location::from_bytes(Vec::new()), Err(DbError::MalformedHeader)));
}

#[test]
fn ipv6_query_on_ipv4_database_is_wrong_family() {
    let db = country_db(false);
    assert!(matches!(db.get_record(IpAddress::V6(1)), Err(DbError::WrongAddressFamily)));
    assert!(matches!(db.get_record_unindexed(IpAddress::V6(1)), Err(DbError::WrongAddressFamily)));
}

#[test]
fn address_outside_every_range_is_not_found() {
    let ranges = vec![
        (v4(10, 0, 0, 0) as u128, vec![Col::Pair("AA", "A")]),
        (v4(20, 0, 0, 0) as u128, vec![Col::Pair("BB", "B")]),
    ];
    let db = IP2Location::from_bytes(build(1, 2, false, &ranges, false)).unwrap();
    assert!(db.get_record(IpAddress::V4(v4(5, 0, 0, 0))).unwrap().is_none());
    assert!(db.get_record(IpAddress::V4(0)).unwrap().is_none());
    assert!(db.get_record(IpAddress::V4(u32::MAX)).unwrap().is_none());
    assert_eq!(short_of(&db, IpAddress::V4(v4(10, 0, 0, 0))), "AA");
    assert_eq!(short_of(&db, IpAddress::V4(v4(255, 0, 0, 0))), "BB");
}

#[test]
fn range_end_belongs_to_the_next_range() {
    let db = country_db(false);
    assert_eq!(short_of(&db, IpAddress::V4(v4(19, 255, 255, 255))), "US");
    assert_eq!(short_of(&db, IpAddress::V4(v4(20, 0, 0, 0))), "-");
    assert_eq!(short_of(&db, IpAddress::V4(v4(18, 255, 255, 255))), "-");
    assert_eq!(short_of(&db, IpAddress::V4(v4(19, 0, 0, 0))), "US");
}

#[test]
fn index_and_full_search_agree() {
    let with = country_db(true);
    let without = country_db(false);
    for a in [0u8, 1, 18, 19, 20, 25, 43, 44, 47, 53, 80, 81, 83, 85, 86, 200, 255].iter() {
        for b in [0u8, 5, 255].iter() {
            let ip = IpAddress::V4(v4(*a, *b, 10, 1));
            let x = with.get_record(ip).unwrap().unwrap();
            let y = with.get_record_unindexed(ip).unwrap().unwrap();
            let z = without.get_record(ip).unwrap().unwrap();
            assert_eq!(x.country_short, y.country_short);
            assert_eq!(x.country_long, y.country_long);
            assert_eq!(x.ip, y.ip);
            assert_eq!(x.country_short, z.country_short);
        }
    }
}

fn city_db() -> IP2Location {
    let row = |c: &'static str, r: &'static str, t: &'static str, lat: f32, lon: f32| {
        vec![Col::Pair(c, "Country"), Col::Text(r), Col::Text(t), Col::Raw(lat.to_bits()), Col::Raw(lon.to_bits())]
    };
    let ranges = vec![
        (0u128, row("-", "-", "-", 0.0, 0.0)),
        (v4(8, 8, 8, 0) as u128, row("US", "California", "Mountain View", 37.405991, -122.078514)),
        (v4(8, 8, 9, 0) as u128, row("FR", "Île-de-France", "Paris", 48.85341, 2.3488)),
    ];
    IP2Location::from_bytes(build(5, 6, false, &ranges, false)).unwrap()
}

#[test]
fn fields_follow_the_database_type() {
    let db = city_db();
    let a = db.get_record(IpAddress::V4(v4(8, 8, 8, 8))).unwrap().unwrap();
    let b = db.get_record(IpAddress::V4(v4(8, 8, 9, 1))).unwrap().unwrap();
    for r in [&a, &b].iter() {
        assert!(r.country_short.is_some() && r.country_long.is_some());
        assert!(r.region.is_some() && r.city.is_some());
        assert!(r.latitude.is_some() && r.longitude.is_some());
        assert!(r.isp.is_none() && r.domain.is_none() && r.zipcode.is_none());
        assert!(r.timezone.is_none() && r.netspeed.is_none() && r.iddcode.is_none());
        assert!(r.area_code.is_none() && r.weather_code.is_none() && r.weather_name.is_none());
        assert!(r.mcc.is_none() && r.mnc.is_none() && r.mobile_brand.is_none());
        assert!(r.elevation.is_none() && r.usage_type.is_none());
    }
    assert_eq!(a.city.as_deref(), Some("Mountain View"));
    assert_eq!(b.region.as_deref(), Some("Île-de-France"));
    assert_eq!(a.latitude, Some(37.405991f32.to_bits()));
    assert_eq!(b.longitude, Some(2.3488f32.to_bits()));
}

#[test]
fn record_reports_the_range_start() {
    let db = country_db(false);
    let rec = db.get_record(IpAddress::V4(v4(47, 5, 10, 4))).unwrap().unwrap();
    assert_eq!(rec.ip, Some(IpAddress::V4(v4(47, 0, 0, 0))));
}

#[test]
fn dangling_text_pointer_is_out_of_bounds() {
    let ranges = vec![(0u128, vec![Col::Raw(0x00ff_ffff)])];
    let db = IP2Location::from_bytes(build(1, 2, false, &ranges, false)).unwrap();
    assert!(matches!(db.get_record(IpAddress::V4(7)), Err(DbError::OutOfBounds)));
}

#[test]
fn column_table_rows() {
    assert_eq!(field_column(Field::CountryShort, 1), 2);
    assert_eq!(field_column(Field::Region, 1), 0);
    assert_eq!(field_column(Field::Isp, 2), 3);
    assert_eq!(field_column(Field::Domain, 12), 10);
    assert_eq!(field_column(Field::UsageType, 24), 20);
    assert_eq!(field_column(Field::Elevation, 21), 11);
    assert_eq!(field_column(Field::CountryShort, 0), 0);
    assert_eq!(field_column(Field::CountryShort, 25), 0);
}

#[test]
fn bad_text_in_found_record_is_invalid_encoding() {
    let ranges = vec![(0u128, vec![Col::Pair("US", "United States")])];
    let mut buf = build(1, 2, false, &ranges, false);
    let n = buf.len();
    buf[n - 1] = 0xff;
    let db = IP2Location::from_bytes(buf).unwrap();
    assert!(matches!(db.get_record(IpAddress::V4(7)), Err(DbError::InvalidEncoding)));
    assert!(matches!(db.get_record_unindexed(IpAddress::V4(7)), Err(DbError::InvalidEncoding)));
}

#[test]
fn unreadable_range_table_is_an_error_not_a_miss() {
    let ranges = vec![(0u128, vec![Col::Pair("US", "United States")])];
    let mut buf = build(1, 2, false, &ranges, false);
    put_u32(&mut buf, 9, 0x7fff_0000);
    let db = IP2Location::from_bytes(buf).unwrap();
    assert!(matches!(db.get_record(IpAddress::V4(7)), Err(DbError::OutOfBounds)));
}
