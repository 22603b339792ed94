//! Which optional fields each database type holds, and in which column of a record.
use vstd::prelude::*;

verus! {

/// The number of rows of each column table: index 0 is unused, types run from 1.
pub const TYPE_ROWS: usize = 25;

pub const COUNTRY: [u8; 25] = [0, 2, 2, 2, 2, 2, 2, 2, 2, 2, 2, 2, 2, 2, 2, 2, 2, 2, 2, 2, 2, 2, 2, 2, 2];
pub const REGION: [u8; 25] = [0, 0, 0, 3, 3, 3, 3, 3, 3, 3, 3, 3, 3, 3, 3, 3, 3, 3, 3, 3, 3, 3, 3, 3, 3];
pub const CITY: [u8; 25] = [0, 0, 0, 4, 4, 4, 4, 4, 4, 4, 4, 4, 4, 4, 4, 4, 4, 4, 4, 4, 4, 4, 4, 4, 4];
pub const ISP: [u8; 25] = [0, 0, 3, 0, 5, 0, 7, 5, 7, 0, 8, 0, 9, 0, 9, 0, 9, 0, 9, 7, 9, 0, 9, 7, 9];
pub const LATITUDE: [u8; 25] = [0, 0, 0, 0, 0, 5, 5, 0, 5, 5, 5, 5, 5, 5, 5, 5, 5, 5, 5, 5, 5, 5, 5, 5, 5];
pub const LONGITUDE: [u8; 25] = [0, 0, 0, 0, 0, 6, 6, 0, 6, 6, 6, 6, 6, 6, 6, 6, 6, 6, 6, 6, 6, 6, 6, 6, 6];
pub const DOMAIN: [u8; 25] = [0, 0, 0, 0, 0, 0, 0, 6, 8, 0, 9, 0, 10, 0, 10, 0, 10, 0, 10, 8, 10, 0, 10, 8, 10];
pub const ZIPCODE: [u8; 25] = [0, 0, 0, 0, 0, 0, 0, 0, 0, 7, 7, 7, 7, 0, 7, 7, 7, 0, 7, 0, 7, 7, 7, 0, 7];
pub const TIMEZONE: [u8; 25] = [0, 0, 0, 0, 0, 0, 0, 0, 0, 0, 0, 8, 8, 7, 8, 8, 8, 7, 8, 0, 8, 8, 8, 0, 8];
pub const NETSPEED: [u8; 25] = [0, 0, 0, 0, 0, 0, 0, 0, 0, 0, 0, 0, 0, 8, 11, 0, 11, 8, 11, 0, 11, 0, 11, 0, 11];
pub const IDDCODE: [u8; 25] = [0, 0, 0, 0, 0, 0, 0, 0, 0, 0, 0, 0, 0, 0, 0, 9, 12, 0, 12, 0, 12, 9, 12, 0, 12];
pub const AREACODE: [u8; 25] = [0, 0, 0, 0, 0, 0, 0, 0, 0, 0, 0, 0, 0, 0, 0, 10, 13, 0, 13, 0, 13, 10, 13, 0, 13];
pub const WEATHERSTATIONCODE: [u8; 25] = [0, 0, 0, 0, 0, 0, 0, 0, 0, 0, 0, 0, 0, 0, 0, 0, 0, 9, 14, 0, 14, 0, 14, 0, 14];
pub const WEATHERSTATIONNAME: [u8; 25] = [0, 0, 0, 0, 0, 0, 0, 0, 0, 0, 0, 0, 0, 0, 0, 0, 0, 10, 15, 0, 15, 0, 15, 0, 15];
pub const MCC: [u8; 25] = [0, 0, 0, 0, 0, 0, 0, 0, 0, 0, 0, 0, 0, 0, 0, 0, 0, 0, 0, 9, 16, 0, 16, 9, 16];
pub const MNC: [u8; 25] = [0, 0, 0, 0, 0, 0, 0, 0, 0, 0, 0, 0, 0, 0, 0, 0, 0, 0, 0, 10, 17, 0, 17, 10, 17];
pub const MOBILEBRAND: [u8; 25] = [0, 0, 0, 0, 0, 0, 0, 0, 0, 0, 0, 0, 0, 0, 0, 0, 0, 0, 0, 11, 18, 0, 18, 11, 18];
pub const ELEVATION: [u8; 25] = [0, 0, 0, 0, 0, 0, 0, 0, 0, 0, 0, 0, 0, 0, 0, 0, 0, 0, 0, 0, 0, 11, 19, 0, 19];
pub const USAGETYPE: [u8; 25] = [0, 0, 0, 0, 0, 0, 0, 0, 0, 0, 0, 0, 0, 0, 0, 0, 0, 0, 0, 0, 0, 0, 0, 12, 20];

/// The optional fields of a record. The two country fields share one column.
#[derive(Clone, Copy, Debug, PartialEq, Eq, Structural)]
pub enum Field {
    CountryShort,
    CountryLong,
    Region,
    City,
    Isp,
    Latitude,
    Longitude,
    Domain,
    ZipCode,
    TimeZone,
    NetSpeed,
    IddCode,
    AreaCode,
    WeatherStationCode,
    WeatherStationName,
    Mcc,
    Mnc,
    MobileBrand,
    Elevation,
    UsageType,
}

/// Every field, in the order in which a record is decoded.
pub const ALL_FIELDS: [Field; 20] = [Field::CountryShort, Field::CountryLong, Field::Region, Field::City, Field::Isp, Field::Latitude, Field::Longitude, Field::Domain, Field::ZipCode, Field::TimeZone, Field::NetSpeed, Field::IddCode, Field::AreaCode, Field::WeatherStationCode, Field::WeatherStationName, Field::Mcc, Field::Mnc, Field::MobileBrand, Field::Elevation, Field::UsageType];

/// Every field stands in `ALL_FIELDS`.
pub proof fn lemma_all_fields_listed(f: Field)
    ensures
        exists|k: int| 0 <= k < 20 && ALL_FIELDS@[k] == f,
{
    match f {
        Field::CountryShort => assert(ALL_FIELDS@[0] == f),
        Field::CountryLong => assert(ALL_FIELDS@[1] == f),
        Field::Region => assert(ALL_FIELDS@[2] == f),
        Field::City => assert(ALL_FIELDS@[3] == f),
        Field::Isp => assert(ALL_FIELDS@[4] == f),
        Field::Latitude => assert(ALL_FIELDS@[5] == f),
        Field::Longitude => assert(ALL_FIELDS@[6] == f),
        Field::Domain => assert(ALL_FIELDS@[7] == f),
        Field::ZipCode => assert(ALL_FIELDS@[8] == f),
        Field::TimeZone => assert(ALL_FIELDS@[9] == f),
        Field::NetSpeed => assert(ALL_FIELDS@[10] == f),
        Field::IddCode => assert(ALL_FIELDS@[11] == f),
        Field::AreaCode => assert(ALL_FIELDS@[12] == f),
        Field::WeatherStationCode => assert(ALL_FIELDS@[13] == f),
        Field::WeatherStationName => assert(ALL_FIELDS@[14] == f),
        Field::Mcc => assert(ALL_FIELDS@[15] == f),
        Field::Mnc => assert(ALL_FIELDS@[16] == f),
        Field::MobileBrand => assert(ALL_FIELDS@[17] == f),
        Field::Elevation => assert(ALL_FIELDS@[18] == f),
        Field::UsageType => assert(ALL_FIELDS@[19] == f),
    }
}

/// The column table that places a field.
pub open spec fn table_of(f: Field) -> Seq<u8> {
    match f {
        Field::CountryShort => COUNTRY@,
        Field::CountryLong => COUNTRY@,
        Field::Region => REGION@,
        Field::City => CITY@,
        Field::Isp => ISP@,
        Field::Latitude => LATITUDE@,
        Field::Longitude => LONGITUDE@,
        Field::Domain => DOMAIN@,
        Field::ZipCode => ZIPCODE@,
        Field::TimeZone => TIMEZONE@,
        Field::NetSpeed => NETSPEED@,
        Field::IddCode => IDDCODE@,
        Field::AreaCode => AREACODE@,
        Field::WeatherStationCode => WEATHERSTATIONCODE@,
        Field::WeatherStationName => WEATHERSTATIONNAME@,
        Field::Mcc => MCC@,
        Field::Mnc => MNC@,
        Field::MobileBrand => MOBILEBRAND@,
        Field::Elevation => ELEVATION@,
        Field::UsageType => USAGETYPE@,
    }
}

/// The 1-based column of field `f` in a record of a database of type `db_type`,
/// or 0 where that type does not hold the field (as for every unknown type).
pub open spec fn column_of(f: Field, db_type: int) -> int {
    if 0 <= db_type < 25 {
        table_of(f)[db_type] as int
    } else {
        0
    }
}

/// Whether a field is a number stored in the record itself rather than text elsewhere.
pub open spec fn is_numeric(f: Field) -> bool {
    f == Field::Latitude || f == Field::Longitude
}

/// What is added to a text field's pointer to reach its length byte: the long country
/// name sits 3 bytes after the short code that shares its pointer.
pub open spec fn text_adjust(f: Field) -> int {
    if f == Field::CountryLong {
        4
    } else {
        1
    }
}

/// Looks up the column of a field for a database type.
pub fn field_column(f: Field, db_type: u8) -> (r: u8)
    ensures
        r as int == column_of(f, db_type as int),
        r <= 20,
{
    if db_type as usize >= TYPE_ROWS {
        return 0;
    }
    let t = db_type as usize;
    let table = match f {
        Field::CountryShort => COUNTRY,
        Field::CountryLong => COUNTRY,
        Field::Region => REGION,
        Field::City => CITY,
        Field::Isp => ISP,
        Field::Latitude => LATITUDE,
        Field::Longitude => LONGITUDE,
        Field::Domain => DOMAIN,
        Field::ZipCode => ZIPCODE,
        Field::TimeZone => TIMEZONE,
        Field::NetSpeed => NETSPEED,
        Field::IddCode => IDDCODE,
        Field::AreaCode => AREACODE,
        Field::WeatherStationCode => WEATHERSTATIONCODE,
        Field::WeatherStationName => WEATHERSTATIONNAME,
        Field::Mcc => MCC,
        Field::Mnc => MNC,
        Field::MobileBrand => MOBILEBRAND,
        Field::Elevation => ELEVATION,
        Field::UsageType => USAGETYPE,
    };
    assert(table@ == table_of(f));
    table[t]
}

/// Tells a coordinate from a text field.
pub fn field_is_numeric(f: Field) -> (r: bool)
    ensures
        r == is_numeric(f),
{
    match f {
        Field::Latitude => true,
        Field::Longitude => true,
        _ => false,
    }
}

/// Adds to a text field's pointer what reaches its length byte.
pub fn field_text_adjust(f: Field) -> (r: u64)
    ensures
        r as int == text_adjust(f),
{
    match f {
        Field::CountryLong => 4,
        _ => 1,
    }
}

} // verus!
