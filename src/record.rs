//! Attribute records, addresses and the errors of a lookup.
use vstd::prelude::*;
use crate::layout::{is_numeric, Field};

verus! {

/// Why a database could not be read or a lookup could not be answered.
#[derive(Clone, Copy, Debug, PartialEq, Eq, Structural)]
pub enum DbError {
    /// The buffer is shorter than the fixed header.
    MalformedHeader,
    /// A read would go past the end of the buffer.
    OutOfBounds,
    /// A text field is not valid UTF-8.
    InvalidEncoding,
    /// An IPv6 address was asked of a database without IPv6 ranges.
    WrongAddressFamily,
}

/// An address of either family, as the integer that its bits make.
#[derive(Clone, Copy, Debug, PartialEq, Eq, Structural)]
pub enum IpAddress {
    V4(u32),
    V6(u128),
}

impl IpAddress {
    /// The address as a number.
    pub open spec fn value(self) -> int {
        match self {
            IpAddress::V4(a) => a as int,
            IpAddress::V6(a) => a as int,
        }
    }

    /// Whether the address is an IPv6 one.
    pub open spec fn is_v6(self) -> bool {
        self is V6
    }
}

/// The content of one populated field, as the model of a record states it.
pub enum FieldValue {
    Text(Seq<char>),
    /// The IEEE-754 single-precision bit pattern of a coordinate.
    Number(u32),
}

/// The content of an optional text field.
pub open spec fn text_value(o: Option<String>) -> Option<FieldValue> {
    match o {
        Some(s) => Some(FieldValue::Text(s@)),
        None => None,
    }
}

/// The content of an optional coordinate.
pub open spec fn number_value(o: Option<u32>) -> Option<FieldValue> {
    match o {
        Some(v) => Some(FieldValue::Number(v)),
        None => None,
    }
}

/// The attributes of the range that holds an address. A field that the database type
/// does not hold is `None`. Latitude and longitude hold the bits of an `f32`.
#[derive(Clone, Debug)]
pub struct IP2LocationRecord {
    pub ip: Option<IpAddress>,
    pub country_short: Option<String>,
    pub country_long: Option<String>,
    pub region: Option<String>,
    pub city: Option<String>,
    pub isp: Option<String>,
    pub latitude: Option<u32>,
    pub longitude: Option<u32>,
    pub domain: Option<String>,
    pub zipcode: Option<String>,
    pub timezone: Option<String>,
    pub netspeed: Option<String>,
    pub iddcode: Option<String>,
    pub area_code: Option<String>,
    pub weather_code: Option<String>,
    pub weather_name: Option<String>,
    pub mcc: Option<String>,
    pub mnc: Option<String>,
    pub mobile_brand: Option<String>,
    pub elevation: Option<String>,
    pub usage_type: Option<String>,
}

impl IP2LocationRecord {
    /// A record for address `ip` with no field populated yet.
    pub fn new(ip: IpAddress) -> (r: IP2LocationRecord)
        ensures
            r.ip == Some(ip),
            forall|f: Field| (#[trigger] r.value_of(f)) is None,
    {
        IP2LocationRecord {
            ip: Some(ip),
            country_short: None,
            country_long: None,
            region: None,
            city: None,
            isp: None,
            latitude: None,
            longitude: None,
            domain: None,
            zipcode: None,
            timezone: None,
            netspeed: None,
            iddcode: None,
            area_code: None,
            weather_code: None,
            weather_name: None,
            mcc: None,
            mnc: None,
            mobile_brand: None,
            elevation: None,
            usage_type: None,
        }
    }

    /// Stores the content of a text field.
    pub fn set_text(&mut self, f: Field, o: Option<String>)
        requires
            !is_numeric(f),
        ensures
            final(self).ip == old(self).ip,
            final(self).value_of(f) == text_value(o),
            forall|g: Field| g != f ==> #[trigger] final(self).value_of(g) == old(self).value_of(g),
    {
        match f {
            Field::CountryShort => self.country_short = o,
            Field::CountryLong => self.country_long = o,
            Field::Region => self.region = o,
            Field::City => self.city = o,
            Field::Isp => self.isp = o,
            Field::Domain => self.domain = o,
            Field::ZipCode => self.zipcode = o,
            Field::TimeZone => self.timezone = o,
            Field::NetSpeed => self.netspeed = o,
            Field::IddCode => self.iddcode = o,
            Field::AreaCode => self.area_code = o,
            Field::WeatherStationCode => self.weather_code = o,
            Field::WeatherStationName => self.weather_name = o,
            Field::Mcc => self.mcc = o,
            Field::Mnc => self.mnc = o,
            Field::MobileBrand => self.mobile_brand = o,
            Field::Elevation => self.elevation = o,
            Field::UsageType => self.usage_type = o,
            Field::Latitude => {},
            Field::Longitude => {},
        }
    }

    /// Stores the bits of a coordinate.
    pub fn set_number(&mut self, f: Field, o: Option<u32>)
        requires
            is_numeric(f),
        ensures
            final(self).ip == old(self).ip,
            final(self).value_of(f) == number_value(o),
            forall|g: Field| g != f ==> #[trigger] final(self).value_of(g) == old(self).value_of(g),
    {
        match f {
            Field::Latitude => self.latitude = o,
            Field::Longitude => self.longitude = o,
            _ => {},
        }
    }

    /// The content of field `f` in this record.
    pub open spec fn value_of(&self, f: Field) -> Option<FieldValue> {
        match f {
            Field::CountryShort => text_value(self.country_short),
            Field::CountryLong => text_value(self.country_long),
            Field::Region => text_value(self.region),
            Field::City => text_value(self.city),
            Field::Isp => text_value(self.isp),
            Field::Latitude => number_value(self.latitude),
            Field::Longitude => number_value(self.longitude),
            Field::Domain => text_value(self.domain),
            Field::ZipCode => text_value(self.zipcode),
            Field::TimeZone => text_value(self.timezone),
            Field::NetSpeed => text_value(self.netspeed),
            Field::IddCode => text_value(self.iddcode),
            Field::AreaCode => text_value(self.area_code),
            Field::WeatherStationCode => text_value(self.weather_code),
            Field::WeatherStationName => text_value(self.weather_name),
            Field::Mcc => text_value(self.mcc),
            Field::Mnc => text_value(self.mnc),
            Field::MobileBrand => text_value(self.mobile_brand),
            Field::Elevation => text_value(self.elevation),
            Field::UsageType => text_value(self.usage_type),
        }
    }
}

} // verus!
