use vstd::prelude::*;
use crate::bits::{BitBuffer, field_value};
use crate::field;
use crate::field::{ClockReading, Timestamp};
use crate::error::ParseError;
use crate::message::{ParsedMessage, Station};

verus! {

/// Weather kinds of the climate observations, numbered 1 to 32 on the air.
#[derive(Clone, Copy, Debug, PartialEq, Eq, Structural)]
pub enum WeatherType {
    Sunny,
    Cloudy,
    Overcast,
    Shower,
    ThouderyShower,
    ThouderyShowerWithHail,
    Sleet,
    LightRain,
    ModerateRain,
    HeavyRain,
    Rainstorm,
    LargeRainstorm,
    ExtraLargeRainstrom,
    SnowShower,
    LightSnow,
    ModerateSnow,
    HeavySnow,
    Blizzard,
    Foggy,
    FreezingRain,
    SandStorm,
    LightRainToModerateRain,
    ModerateRainToHeavyRain,
    HeavyRainToRainstrom,
    RainstromToLargeRainstrom,
    LargeRainstromToExtraLargeRainstrom,
    LightSnowToModerateSnow,
    ModerateSnowToHeavySnow,
    HeavySnowToBlizzard,
    Dust,
    Sand,
    Unknown,
}

/// The code that stands for each weather kind.
pub open spec fn weather_code(w: WeatherType) -> u8 {
    match w {
        WeatherType::Sunny => 1u8,
        WeatherType::Cloudy => 2u8,
        WeatherType::Overcast => 3u8,
        WeatherType::Shower => 4u8,
        WeatherType::ThouderyShower => 5u8,
        WeatherType::ThouderyShowerWithHail => 6u8,
        WeatherType::Sleet => 7u8,
        WeatherType::LightRain => 8u8,
        WeatherType::ModerateRain => 9u8,
        WeatherType::HeavyRain => 10u8,
        WeatherType::Rainstorm => 11u8,
        WeatherType::LargeRainstorm => 12u8,
        WeatherType::ExtraLargeRainstrom => 13u8,
        WeatherType::SnowShower => 14u8,
        WeatherType::LightSnow => 15u8,
        WeatherType::ModerateSnow => 16u8,
        WeatherType::HeavySnow => 17u8,
        WeatherType::Blizzard => 18u8,
        WeatherType::Foggy => 19u8,
        WeatherType::FreezingRain => 20u8,
        WeatherType::SandStorm => 21u8,
        WeatherType::LightRainToModerateRain => 22u8,
        WeatherType::ModerateRainToHeavyRain => 23u8,
        WeatherType::HeavyRainToRainstrom => 24u8,
        WeatherType::RainstromToLargeRainstrom => 25u8,
        WeatherType::LargeRainstromToExtraLargeRainstrom => 26u8,
        WeatherType::LightSnowToModerateSnow => 27u8,
        WeatherType::ModerateSnowToHeavySnow => 28u8,
        WeatherType::HeavySnowToBlizzard => 29u8,
        WeatherType::Dust => 30u8,
        WeatherType::Sand => 31u8,
        WeatherType::Unknown => 32u8,
    }
}

/// The weather kind that a code stands for; codes outside 1 to 31 stand for `Unknown`.
pub open spec fn weather_of(code: u8) -> WeatherType {
    match code {
        1 => WeatherType::Sunny,
        2 => WeatherType::Cloudy,
        3 => WeatherType::Overcast,
        4 => WeatherType::Shower,
        5 => WeatherType::ThouderyShower,
        6 => WeatherType::ThouderyShowerWithHail,
        7 => WeatherType::Sleet,
        8 => WeatherType::LightRain,
        9 => WeatherType::ModerateRain,
        10 => WeatherType::HeavyRain,
        11 => WeatherType::Rainstorm,
        12 => WeatherType::LargeRainstorm,
        13 => WeatherType::ExtraLargeRainstrom,
        14 => WeatherType::SnowShower,
        15 => WeatherType::LightSnow,
        16 => WeatherType::ModerateSnow,
        17 => WeatherType::HeavySnow,
        18 => WeatherType::Blizzard,
        19 => WeatherType::Foggy,
        20 => WeatherType::FreezingRain,
        21 => WeatherType::SandStorm,
        22 => WeatherType::LightRainToModerateRain,
        23 => WeatherType::ModerateRainToHeavyRain,
        24 => WeatherType::HeavyRainToRainstrom,
        25 => WeatherType::RainstromToLargeRainstrom,
        26 => WeatherType::LargeRainstromToExtraLargeRainstrom,
        27 => WeatherType::LightSnowToModerateSnow,
        28 => WeatherType::ModerateSnowToHeavySnow,
        29 => WeatherType::HeavySnowToBlizzard,
        30 => WeatherType::Dust,
        31 => WeatherType::Sand,
        _ => WeatherType::Unknown,
    }
}

/// The display name of each weather kind.
pub open spec fn weather_name(w: WeatherType) -> Seq<char> {
    match w {
        WeatherType::Sunny => "sunny"@,
        WeatherType::Cloudy => "cloudy"@,
        WeatherType::Overcast => "overcast"@,
        WeatherType::Shower => "shower"@,
        WeatherType::ThouderyShower => "thoudery shower"@,
        WeatherType::ThouderyShowerWithHail => "thoudery shower with hail"@,
        WeatherType::Sleet => "sleet"@,
        WeatherType::LightRain => "lightRain"@,
        WeatherType::ModerateRain => "moderateRain"@,
        WeatherType::HeavyRain => "heavyRain"@,
        WeatherType::Rainstorm => "rainstorm"@,
        WeatherType::LargeRainstorm => "largeRainstorm"@,
        WeatherType::ExtraLargeRainstrom => "extraLargeRainstrom"@,
        WeatherType::SnowShower => "snowShower"@,
        WeatherType::LightSnow => "lightSnow"@,
        WeatherType::ModerateSnow => "moderateSnow"@,
        WeatherType::HeavySnow => "heavySnow"@,
        WeatherType::Blizzard => "blizzard"@,
        WeatherType::Foggy => "foggy"@,
        WeatherType::FreezingRain => "freezingRain"@,
        WeatherType::SandStorm => "sandStorm"@,
        WeatherType::LightRainToModerateRain => "lightRainToModerateRain"@,
        WeatherType::ModerateRainToHeavyRain => "moderateRainToHeavyRain"@,
        WeatherType::HeavyRainToRainstrom => "heavy rain to rainstrom"@,
        WeatherType::RainstromToLargeRainstrom => "rainstromToLargeRainstrom"@,
        WeatherType::LargeRainstromToExtraLargeRainstrom => "largeRainstromToExtraLargeRainstrom"@,
        WeatherType::LightSnowToModerateSnow => "lightSnowToModerateSnow"@,
        WeatherType::ModerateSnowToHeavySnow => "moderateSnowToHeavySnow"@,
        WeatherType::HeavySnowToBlizzard => "heavySnowToBlizzard"@,
        WeatherType::Dust => "dust"@,
        WeatherType::Sand => "sand"@,
        WeatherType::Unknown => "unknown"@,
    }
}

impl WeatherType {
    /// The weather kind of a code; codes outside 1 to 31 give `Unknown`.
    pub fn new(data: u8) -> (r: WeatherType)
        ensures
            r == weather_of(data),
    {
        match data {
            1 => WeatherType::Sunny,
            2 => WeatherType::Cloudy,
            3 => WeatherType::Overcast,
            4 => WeatherType::Shower,
            5 => WeatherType::ThouderyShower,
            6 => WeatherType::ThouderyShowerWithHail,
            7 => WeatherType::Sleet,
            8 => WeatherType::LightRain,
            9 => WeatherType::ModerateRain,
            10 => WeatherType::HeavyRain,
            11 => WeatherType::Rainstorm,
            12 => WeatherType::LargeRainstorm,
            13 => WeatherType::ExtraLargeRainstrom,
            14 => WeatherType::SnowShower,
            15 => WeatherType::LightSnow,
            16 => WeatherType::ModerateSnow,
            17 => WeatherType::HeavySnow,
            18 => WeatherType::Blizzard,
            19 => WeatherType::Foggy,
            20 => WeatherType::FreezingRain,
            21 => WeatherType::SandStorm,
            22 => WeatherType::LightRainToModerateRain,
            23 => WeatherType::ModerateRainToHeavyRain,
            24 => WeatherType::HeavyRainToRainstrom,
            25 => WeatherType::RainstromToLargeRainstrom,
            26 => WeatherType::LargeRainstromToExtraLargeRainstrom,
            27 => WeatherType::LightSnowToModerateSnow,
            28 => WeatherType::ModerateSnowToHeavySnow,
            29 => WeatherType::HeavySnowToBlizzard,
            30 => WeatherType::Dust,
            31 => WeatherType::Sand,
            _ => WeatherType::Unknown,
        }
    }

    /// The code of this weather kind.
    pub fn to_value(&self) -> (r: u8)
        ensures
            r == weather_code(*self),
    {
        match self {
            WeatherType::Sunny => 1,
            WeatherType::Cloudy => 2,
            WeatherType::Overcast => 3,
            WeatherType::Shower => 4,
            WeatherType::ThouderyShower => 5,
            WeatherType::ThouderyShowerWithHail => 6,
            WeatherType::Sleet => 7,
            WeatherType::LightRain => 8,
            WeatherType::ModerateRain => 9,
            WeatherType::HeavyRain => 10,
            WeatherType::Rainstorm => 11,
            WeatherType::LargeRainstorm => 12,
            WeatherType::ExtraLargeRainstrom => 13,
            WeatherType::SnowShower => 14,
            WeatherType::LightSnow => 15,
            WeatherType::ModerateSnow => 16,
            WeatherType::HeavySnow => 17,
            WeatherType::Blizzard => 18,
            WeatherType::Foggy => 19,
            WeatherType::FreezingRain => 20,
            WeatherType::SandStorm => 21,
            WeatherType::LightRainToModerateRain => 22,
            WeatherType::ModerateRainToHeavyRain => 23,
            WeatherType::HeavyRainToRainstrom => 24,
            WeatherType::RainstromToLargeRainstrom => 25,
            WeatherType::LargeRainstromToExtraLargeRainstrom => 26,
            WeatherType::LightSnowToModerateSnow => 27,
            WeatherType::ModerateSnowToHeavySnow => 28,
            WeatherType::HeavySnowToBlizzard => 29,
            WeatherType::Dust => 30,
            WeatherType::Sand => 31,
            WeatherType::Unknown => 32,
        }
    }

    /// The display name of this weather kind.
    pub fn name(&self) -> (r: &'static str)
        ensures
            r@ == weather_name(*self),
    {
        match self {
            WeatherType::Sunny => "sunny",
            WeatherType::Cloudy => "cloudy",
            WeatherType::Overcast => "overcast",
            WeatherType::Shower => "shower",
            WeatherType::ThouderyShower => "thoudery shower",
            WeatherType::ThouderyShowerWithHail => "thoudery shower with hail",
            WeatherType::Sleet => "sleet",
            WeatherType::LightRain => "lightRain",
            WeatherType::ModerateRain => "moderateRain",
            WeatherType::HeavyRain => "heavyRain",
            WeatherType::Rainstorm => "rainstorm",
            WeatherType::LargeRainstorm => "largeRainstorm",
            WeatherType::ExtraLargeRainstrom => "extraLargeRainstrom",
            WeatherType::SnowShower => "snowShower",
            WeatherType::LightSnow => "lightSnow",
            WeatherType::ModerateSnow => "moderateSnow",
            WeatherType::HeavySnow => "heavySnow",
            WeatherType::Blizzard => "blizzard",
            WeatherType::Foggy => "foggy",
            WeatherType::FreezingRain => "freezingRain",
            WeatherType::SandStorm => "sandStorm",
            WeatherType::LightRainToModerateRain => "lightRainToModerateRain",
            WeatherType::ModerateRainToHeavyRain => "moderateRainToHeavyRain",
            WeatherType::HeavyRainToRainstrom => "heavy rain to rainstrom",
            WeatherType::RainstromToLargeRainstrom => "rainstromToLargeRainstrom",
            WeatherType::LargeRainstromToExtraLargeRainstrom => "largeRainstromToExtraLargeRainstrom",
            WeatherType::LightSnowToModerateSnow => "lightSnowToModerateSnow",
            WeatherType::ModerateSnowToHeavySnow => "moderateSnowToHeavySnow",
            WeatherType::HeavySnowToBlizzard => "heavySnowToBlizzard",
            WeatherType::Dust => "dust",
            WeatherType::Sand => "sand",
            WeatherType::Unknown => "unknown",
        }
    }
}

impl Default for WeatherType {
    fn default() -> (r: WeatherType)
        ensures
            r == WeatherType::Unknown,
    {
        WeatherType::Unknown
    }
}

/// A code names one weather kind, and that kind's code is the code again.
pub proof fn lemma_weather_code_round_trip(code: u8)
    requires
        1 <= code <= 31,
    ensures
        weather_code(weather_of(code)) == code,
{
}

/// One climate observation. Coordinates are in minutes of arc, temperature in
/// tenths of a degree Celsius, pressure in hPa, visibility in tenths of a
/// nautical mile.
#[derive(Clone, Copy, Debug, PartialEq, Eq, Structural)]
pub struct ClimateObservation {
    pub weather: WeatherType,
    pub longitude: Option<i32>,
    pub latitude: Option<i32>,
    pub wind_speed: Option<u8>,
    pub wind_direction: Option<u16>,
    pub air_temperature: Option<i16>,
    pub presure: Option<u16>,
    pub visibility: Option<u8>,
}

/// Climate forecast (DAC 412, FID 1): four observations, the first at absolute
/// coordinates and each later one offset from the one before it.
#[derive(Clone, Copy, Debug, PartialEq, Eq, Structural)]
pub struct Climate {
    pub forcast_time: u8,
    pub observation_1: ClimateObservation,
    pub observation_2: ClimateObservation,
    pub observation_3: ClimateObservation,
    pub observation_4: ClimateObservation,
    pub source: u8,
}

/// Bits from the start of a climate report to its end.
pub const CLIMATE_BITS: usize = 272;

/// Latitude anchors of a chain stay far inside what `i32` holds.
pub open spec fn latitude_anchor_ok(lat: Option<i32>) -> bool {
    lat matches Some(a) ==> -0x1000_0000 <= a <= 0x1000_0000
}

pub open spec fn climate_observation_spec(
    b: Seq<bool>,
    o: int,
    first: bool,
    lon: Option<i32>,
    lat: Option<i32>,
) -> ClimateObservation {
    let r = if first {
        o + 31
    } else {
        o + 19
    };
    ClimateObservation {
        weather: weather_of(field_value(b, o, 5) as u8),
        longitude: if first {
            field::anchor_longitude_spec(b, o + 5)
        } else {
            field::chain_longitude_spec(lon, field::delta_spec(b, o + 5))
        },
        latitude: if first {
            field::anchor_latitude_spec(b, o + 18)
        } else {
            field::chain_latitude_spec(lat, field::delta_spec(b, o + 12))
        },
        wind_speed: field::wind_speed_spec(b, r),
        wind_direction: field::direction_spec(b, r + 7),
        air_temperature: field::air_temperature_spec(b, r + 16),
        presure: field::pressure_spec(b, r + 27),
        visibility: field::tenths_spec(b, r + 36),
    }
}

/// The climate report whose first bit is `base`.
pub open spec fn climate_spec(b: Seq<bool>, base: int) -> Climate {
    let o1 = climate_observation_spec(b, base + 5, true, None, None);
    let o2 = climate_observation_spec(b, base + 80, false, o1.longitude, o1.latitude);
    let o3 = climate_observation_spec(b, base + 143, false, o2.longitude, o2.latitude);
    let o4 = climate_observation_spec(b, base + 206, false, o3.longitude, o3.latitude);
    Climate {
        forcast_time: field_value(b, base, 5) as u8,
        observation_1: o1,
        observation_2: o2,
        observation_3: o3,
        observation_4: o4,
        source: field_value(b, base + 269, 3) as u8,
    }
}

fn decode_climate_observation(
    buf: &BitBuffer,
    o: usize,
    first: bool,
    lon: Option<i32>,
    lat: Option<i32>,
) -> (r: ClimateObservation)
    requires
        o + (if first {
            75int
        } else {
            63int
        }) <= buf@.len(),
        field::longitude_in_range(lon),
        latitude_anchor_ok(lat),
    ensures
        r == climate_observation_spec(buf@, o as int, first, lon, lat),
        field::longitude_in_range(r.longitude),
        first ==> (r.latitude matches Some(v) ==> -3000 <= v <= 4200),
        !first ==> (r.latitude matches Some(v) ==> lat matches Some(a) && a < v <= a + 59),
{
    let _ = buf.len();
    let rest = if first {
        o + 31
    } else {
        o + 19
    };
    let weather = WeatherType::new(field::read_u8(buf, o, 5));
    let longitude = if first {
        field::anchor_longitude(buf, o + 5)
    } else {
        field::chain_longitude(lon, field::delta(buf, o + 5))
    };
    let latitude = if first {
        field::anchor_latitude(buf, o + 18)
    } else {
        field::chain_latitude(lat, field::delta(buf, o + 12))
    };
    ClimateObservation {
        weather,
        longitude,
        latitude,
        wind_speed: field::wind_speed(buf, rest),
        wind_direction: field::direction(buf, rest + 7),
        air_temperature: field::air_temperature(buf, rest + 16),
        presure: field::pressure(buf, rest + 27),
        visibility: field::tenths(buf, rest + 36),
    }
}

/// Decodes the climate report whose first bit is `base`.
pub fn decode_climate(buf: &BitBuffer, base: usize) -> (r: Climate)
    requires
        base + CLIMATE_BITS <= buf@.len(),
    ensures
        r == climate_spec(buf@, base as int),
{
    let _ = buf.len();
    let o1 = decode_climate_observation(buf, base + 5, true, None, None);
    let o2 = decode_climate_observation(buf, base + 80, false, o1.longitude, o1.latitude);
    let o3 = decode_climate_observation(buf, base + 143, false, o2.longitude, o2.latitude);
    let o4 = decode_climate_observation(buf, base + 206, false, o3.longitude, o3.latitude);
    Climate {
        forcast_time: field::read_u8(buf, base, 5),
        observation_1: o1,
        observation_2: o2,
        observation_3: o3,
        observation_4: o4,
        source: field::read_u8(buf, base + 269, 3),
    }
}

/// One marine environment observation. Coordinates are in minutes of arc,
/// current speed in tenths of a knot, wave height in tenths of a metre, sea
/// temperature in tenths of a degree Celsius.
#[derive(Clone, Copy, Debug, PartialEq, Eq, Structural)]
pub struct MarineObservation {
    pub longitude: Option<i32>,
    pub latitude: Option<i32>,
    pub flowing_speed: Option<u8>,
    pub flowing_direction: Option<u16>,
    pub wave_height: Option<u8>,
    pub wave_direction: Option<u16>,
    pub sea_temperature: Option<i16>,
}

/// Marine environment forecast (DAC 412, FID 2): four observations chained
/// like those of the climate forecast.
#[derive(Clone, Copy, Debug, PartialEq, Eq, Structural)]
pub struct MarineEnviroment {
    pub forcast_time: u8,
    pub observation_1: MarineObservation,
    pub observation_2: MarineObservation,
    pub observation_3: MarineObservation,
    pub observation_4: MarineObservation,
    pub source: u8,
}

/// Bits from the start of a marine environment report to its end.
pub const MARINE_BITS: usize = 256;

pub open spec fn marine_observation_spec(
    b: Seq<bool>,
    o: int,
    first: bool,
    lon: Option<i32>,
    lat: Option<i32>,
) -> MarineObservation {
    let r = if first {
        o + 26
    } else {
        o + 14
    };
    MarineObservation {
        longitude: if first {
            field::anchor_longitude_spec(b, o)
        } else {
            field::chain_longitude_spec(lon, field::delta_spec(b, o))
        },
        latitude: if first {
            field::anchor_latitude_spec(b, o + 13)
        } else {
            field::chain_latitude_spec(lat, field::delta_spec(b, o + 7))
        },
        flowing_speed: field::tenths_spec(b, r),
        flowing_direction: field::direction_spec(b, r + 8),
        wave_height: field::tenths_spec(b, r + 17),
        wave_direction: field::direction_spec(b, r + 25),
        sea_temperature: field::sea_temperature_spec(b, r + 34),
    }
}

/// The marine environment report whose first bit is `base`.
pub open spec fn marine_spec(b: Seq<bool>, base: int) -> MarineEnviroment {
    let o1 = marine_observation_spec(b, base + 5, true, None, None);
    let o2 = marine_observation_spec(b, base + 76, false, o1.longitude, o1.latitude);
    let o3 = marine_observation_spec(b, base + 135, false, o2.longitude, o2.latitude);
    let o4 = marine_observation_spec(b, base + 194, false, o3.longitude, o3.latitude);
    MarineEnviroment {
        forcast_time: field_value(b, base, 5) as u8,
        observation_1: o1,
        observation_2: o2,
        observation_3: o3,
        observation_4: o4,
        source: field_value(b, base + 253, 3) as u8,
    }
}

fn decode_marine_observation(
    buf: &BitBuffer,
    o: usize,
    first: bool,
    lon: Option<i32>,
    lat: Option<i32>,
) -> (r: MarineObservation)
    requires
        o + (if first {
            71int
        } else {
            59int
        }) <= buf@.len(),
        field::longitude_in_range(lon),
        latitude_anchor_ok(lat),
    ensures
        r == marine_observation_spec(buf@, o as int, first, lon, lat),
        field::longitude_in_range(r.longitude),
        first ==> (r.latitude matches Some(v) ==> -3000 <= v <= 4200),
        !first ==> (r.latitude matches Some(v) ==> lat matches Some(a) && a < v <= a + 59),
{
    let _ = buf.len();
    let rest = if first {
        o + 26
    } else {
        o + 14
    };
    let longitude = if first {
        field::anchor_longitude(buf, o)
    } else {
        field::chain_longitude(lon, field::delta(buf, o))
    };
    let latitude = if first {
        field::anchor_latitude(buf, o + 13)
    } else {
        field::chain_latitude(lat, field::delta(buf, o + 7))
    };
    MarineObservation {
        longitude,
        latitude,
        flowing_speed: field::tenths(buf, rest),
        flowing_direction: field::direction(buf, rest + 8),
        wave_height: field::tenths(buf, rest + 17),
        wave_direction: field::direction(buf, rest + 25),
        sea_temperature: field::sea_temperature(buf, rest + 34),
    }
}

/// Decodes the marine environment report whose first bit is `base`.
pub fn decode_marine_enviroment(buf: &BitBuffer, base: usize) -> (r: MarineEnviroment)
    requires
        base + MARINE_BITS <= buf@.len(),
    ensures
        r == marine_spec(buf@, base as int),
{
    let _ = buf.len();
    let o1 = decode_marine_observation(buf, base + 5, true, None, None);
    let o2 = decode_marine_observation(buf, base + 76, false, o1.longitude, o1.latitude);
    let o3 = decode_marine_observation(buf, base + 135, false, o2.longitude, o2.latitude);
    let o4 = decode_marine_observation(buf, base + 194, false, o3.longitude, o3.latitude);
    MarineEnviroment {
        forcast_time: field::read_u8(buf, base, 5),
        observation_1: o1,
        observation_2: o2,
        observation_3: o3,
        observation_4: o4,
        source: field::read_u8(buf, base + 253, 3),
    }
}

/// One tide observation: a position in minutes of arc, the times of high and
/// low tide in the current month, and the water level in tenths of a metre.
#[derive(Clone, Copy, Debug, PartialEq, Eq, Structural)]
pub struct HydrologyObservation {
    pub longitude: Option<i32>,
    pub latitude: Option<i32>,
    pub high_tide: Option<Timestamp>,
    pub low_tide: Option<Timestamp>,
    pub water_level: Option<i16>,
}

/// Bits of one tide observation.
pub const HYDROLOGY_OBSERVATION_BITS: usize = 67;

pub open spec fn hydrology_observation_spec(b: Seq<bool>, o: int, now: ClockReading) -> HydrologyObservation {
    HydrologyObservation {
        longitude: field::anchor_longitude_spec(b, o),
        latitude: field::anchor_latitude_spec(b, o + 13),
        high_tide: field::day_time_spec(b, o + 26, now),
        low_tide: field::day_time_spec(b, o + 42, now),
        water_level: field::water_level_spec(b, o + 58),
    }
}

/// Decodes the tide observation whose first bit is `o`.
pub fn decode_hydrology_observation(buf: &BitBuffer, o: usize, now: ClockReading) -> (r: HydrologyObservation)
    requires
        o + HYDROLOGY_OBSERVATION_BITS <= buf@.len(),
    ensures
        r == hydrology_observation_spec(buf@, o as int, now),
{
    let _ = buf.len();
    HydrologyObservation {
        longitude: field::anchor_longitude(buf, o),
        latitude: field::anchor_latitude(buf, o + 13),
        high_tide: field::decode_day_time(buf, o + 26, now),
        low_tide: field::decode_day_time(buf, o + 42, now),
        water_level: field::water_level(buf, o + 58),
    }
}

/// Tide forecast (DAC 412, FID 4) of an addressed message: three observations.
#[derive(Clone, Copy, Debug, PartialEq, Eq, Structural)]
pub struct Hydrology {
    pub forcast_time: u8,
    pub observation_1: HydrologyObservation,
    pub observation_2: HydrologyObservation,
    pub observation_3: HydrologyObservation,
    pub source: u8,
}

/// Bits from the start of a three-observation tide report to its end.
pub const HYDROLOGY_BITS: usize = 209;

/// The tide report whose first bit is `base`.
pub open spec fn hydrology_spec(b: Seq<bool>, base: int, now: ClockReading) -> Hydrology {
    Hydrology {
        forcast_time: field_value(b, base, 5) as u8,
        observation_1: hydrology_observation_spec(b, base + 5, now),
        observation_2: hydrology_observation_spec(b, base + 72, now),
        observation_3: hydrology_observation_spec(b, base + 139, now),
        source: field_value(b, base + 206, 3) as u8,
    }
}

/// Decodes the tide report whose first bit is `base`.
pub fn decode_hydrology(buf: &BitBuffer, base: usize, now: ClockReading) -> (r: Hydrology)
    requires
        base + HYDROLOGY_BITS <= buf@.len(),
    ensures
        r == hydrology_spec(buf@, base as int, now),
{
    let _ = buf.len();
    Hydrology {
        forcast_time: field::read_u8(buf, base, 5),
        observation_1: decode_hydrology_observation(buf, base + 5, now),
        observation_2: decode_hydrology_observation(buf, base + 72, now),
        observation_3: decode_hydrology_observation(buf, base + 139, now),
        source: field::read_u8(buf, base + 206, 3),
    }
}

/// Climate data collection (DAC 412, FID 13): one full observation. The
/// position is in ten-thousandths of a minute of arc; other units are those of
/// the observations above, humidity in percent.
#[derive(Clone, Copy, Debug, PartialEq, Eq, Structural)]
pub struct ClimateCollection {
    pub collection_time: Option<Timestamp>,
    pub longitude: Option<i32>,
    pub latitude: Option<i32>,
    pub wind_speed: Option<u8>,
    pub wind_direction: Option<u16>,
    pub air_temperature: Option<i16>,
    pub sea_temperature: Option<i16>,
    pub flowing_speed: Option<u8>,
    pub flowing_direction: Option<u16>,
    pub pressure: Option<u16>,
    pub visibility: Option<u8>,
    pub wave_height: Option<u8>,
    pub wave_direction: Option<u16>,
    pub humidity: Option<u8>,
    pub water_level: Option<i16>,
}

/// Bits from the start of a climate data collection to its end.
pub const COLLECTION_BITS: usize = 180;

/// The collection time: minute, hour, day and month from `base`, in the year of `now`.
pub open spec fn collection_time_spec(b: Seq<bool>, base: int, now: ClockReading) -> Option<Timestamp> {
    field::calendar_time(
        now.year,
        field_value(b, base + 16, 4) as u32,
        field_value(b, base + 11, 5) as u32,
        field_value(b, base + 6, 5) as u32,
        field_value(b, base, 6) as u32,
    )
}

/// The climate data collection whose first bit is `base`.
pub open spec fn climate_collection_spec(b: Seq<bool>, base: int, now: ClockReading) -> ClimateCollection {
    ClimateCollection {
        collection_time: collection_time_spec(b, base, now),
        longitude: field::precise_longitude_spec(b, base + 20),
        latitude: field::precise_latitude_spec(b, base + 48),
        wind_speed: field::wind_speed_spec(b, base + 75),
        wind_direction: field::direction_spec(b, base + 82),
        air_temperature: field::air_temperature_spec(b, base + 91),
        sea_temperature: field::sea_temperature_spec(b, base + 102),
        flowing_speed: field::tenths_spec(b, base + 113),
        flowing_direction: field::direction_spec(b, base + 121),
        pressure: field::pressure_spec(b, base + 130),
        visibility: field::tenths_spec(b, base + 139),
        wave_height: field::tenths_spec(b, base + 147),
        wave_direction: field::direction_spec(b, base + 155),
        humidity: field::humidity_spec(b, base + 164),
        water_level: field::water_level_spec(b, base + 171),
    }
}

/// Decodes the climate data collection whose first bit is `base`.
pub fn decode_climate_collection(buf: &BitBuffer, base: usize, now: ClockReading) -> (r: ClimateCollection)
    requires
        base + COLLECTION_BITS <= buf@.len(),
    ensures
        r == climate_collection_spec(buf@, base as int, now),
{
    let _ = buf.len();
    let minute = field::read_u8(buf, base, 6) as u32;
    let hour = field::read_u8(buf, base + 6, 5) as u32;
    let day = field::read_u8(buf, base + 11, 5) as u32;
    let month = field::read_u8(buf, base + 16, 4) as u32;
    ClimateCollection {
        collection_time: field::make_timestamp(now.year, month, day, hour, minute),
        longitude: field::precise_longitude(buf, base + 20),
        latitude: field::precise_latitude(buf, base + 48),
        wind_speed: field::wind_speed(buf, base + 75),
        wind_direction: field::direction(buf, base + 82),
        air_temperature: field::air_temperature(buf, base + 91),
        sea_temperature: field::sea_temperature(buf, base + 102),
        flowing_speed: field::tenths(buf, base + 113),
        flowing_direction: field::direction(buf, base + 121),
        pressure: field::pressure(buf, base + 130),
        visibility: field::tenths(buf, base + 139),
        wave_height: field::tenths(buf, base + 147),
        wave_direction: field::direction(buf, base + 155),
        humidity: field::humidity(buf, base + 164),
        water_level: field::water_level(buf, base + 171),
    }
}


impl Climate {
    /// Latitude of the first observation, in ten-thousandths of a minute.
    pub fn latitude(&self) -> (r: Option<i64>)
        ensures
            r == field::fine_minutes(self.observation_1.latitude),
    {
        field::to_fine_minutes(self.observation_1.latitude)
    }

    /// Longitude of the first observation, in ten-thousandths of a minute.
    pub fn longitude(&self) -> (r: Option<i64>)
        ensures
            r == field::fine_minutes(self.observation_1.longitude),
    {
        field::to_fine_minutes(self.observation_1.longitude)
    }
}

impl MarineEnviroment {
    /// Latitude of the first observation, in ten-thousandths of a minute.
    pub fn latitude(&self) -> (r: Option<i64>)
        ensures
            r == field::fine_minutes(self.observation_1.latitude),
    {
        field::to_fine_minutes(self.observation_1.latitude)
    }

    /// Longitude of the first observation, in ten-thousandths of a minute.
    pub fn longitude(&self) -> (r: Option<i64>)
        ensures
            r == field::fine_minutes(self.observation_1.longitude),
    {
        field::to_fine_minutes(self.observation_1.longitude)
    }
}

impl Hydrology {
    /// Latitude of the first observation, in ten-thousandths of a minute.
    pub fn latitude(&self) -> (r: Option<i64>)
        ensures
            r == field::fine_minutes(self.observation_1.latitude),
    {
        field::to_fine_minutes(self.observation_1.latitude)
    }

    /// Longitude of the first observation, in ten-thousandths of a minute.
    pub fn longitude(&self) -> (r: Option<i64>)
        ensures
            r == field::fine_minutes(self.observation_1.longitude),
    {
        field::to_fine_minutes(self.observation_1.longitude)
    }
}

impl ClimateCollection {
    /// Latitude, in ten-thousandths of a minute.
    pub fn latitude(&self) -> (r: Option<i64>)
        ensures
            r == field::fine_precise(self.latitude),
    {
        field::to_fine_precise(self.latitude)
    }

    /// Longitude, in ten-thousandths of a minute.
    pub fn longitude(&self) -> (r: Option<i64>)
        ensures
            r == field::fine_precise(self.longitude),
    {
        field::to_fine_precise(self.longitude)
    }
}

/// Position that the application data reports, as `(latitude, longitude)`
/// in ten-thousandths of a minute; absent for unknown data.
pub open spec fn application_position(d: ApplicationIdentifier) -> (Option<i64>, Option<i64>) {
    match d {
        ApplicationIdentifier::Unknown => (None, None),
        ApplicationIdentifier::Climate(c) => (
            field::fine_minutes(c.observation_1.latitude),
            field::fine_minutes(c.observation_1.longitude),
        ),
        ApplicationIdentifier::MarineEnviroment(m) => (
            field::fine_minutes(m.observation_1.latitude),
            field::fine_minutes(m.observation_1.longitude),
        ),
        ApplicationIdentifier::Hydrology(h) => (
            field::fine_minutes(h.observation_1.latitude),
            field::fine_minutes(h.observation_1.longitude),
        ),
        ApplicationIdentifier::ClimateCollection(c) => (
            field::fine_precise(c.latitude),
            field::fine_precise(c.longitude),
        ),
    }
}

impl BinaryAddressedMessage {
    /// Latitude reported by the application data, in ten-thousandths of a minute.
    pub fn latitude(&self) -> (r: Option<i64>)
        ensures
            r == application_position(self.data).0,
    {
        match &self.data {
            ApplicationIdentifier::Unknown => None,
            ApplicationIdentifier::Climate(c) => c.latitude(),
            ApplicationIdentifier::MarineEnviroment(m) => m.latitude(),
            ApplicationIdentifier::Hydrology(h) => h.latitude(),
            ApplicationIdentifier::ClimateCollection(c) => c.latitude(),
        }
    }

    /// Longitude reported by the application data, in ten-thousandths of a minute.
    pub fn longitude(&self) -> (r: Option<i64>)
        ensures
            r == application_position(self.data).1,
    {
        match &self.data {
            ApplicationIdentifier::Unknown => None,
            ApplicationIdentifier::Climate(c) => c.longitude(),
            ApplicationIdentifier::MarineEnviroment(m) => m.longitude(),
            ApplicationIdentifier::Hydrology(h) => h.longitude(),
            ApplicationIdentifier::ClimateCollection(c) => c.longitude(),
        }
    }
}

/// When the first longitude of a climate or marine report is absent, every
/// longitude chained from it is absent too; the same holds of latitudes.
pub proof fn lemma_absent_anchor_leaves_chain_absent(b: Seq<bool>, base: int)
    ensures
        climate_spec(b, base).observation_1.longitude is None ==> {
            &&& climate_spec(b, base).observation_2.longitude is None
            &&& climate_spec(b, base).observation_3.longitude is None
            &&& climate_spec(b, base).observation_4.longitude is None
        },
        climate_spec(b, base).observation_1.latitude is None ==> {
            &&& climate_spec(b, base).observation_2.latitude is None
            &&& climate_spec(b, base).observation_3.latitude is None
            &&& climate_spec(b, base).observation_4.latitude is None
        },
        marine_spec(b, base).observation_1.longitude is None ==> {
            &&& marine_spec(b, base).observation_2.longitude is None
            &&& marine_spec(b, base).observation_3.longitude is None
            &&& marine_spec(b, base).observation_4.longitude is None
        },
        marine_spec(b, base).observation_1.latitude is None ==> {
            &&& marine_spec(b, base).observation_2.latitude is None
            &&& marine_spec(b, base).observation_3.latitude is None
            &&& marine_spec(b, base).observation_4.latitude is None
        },
{
}

/// Payload of an addressed binary message, chosen by its DAC and FID.
#[derive(Clone, Copy, Debug, PartialEq, Eq, Structural)]
pub enum ApplicationIdentifier {
    /// A (DAC, FID) pair without a decoder here.
    Unknown,
    /// DAC 412, FID 1.
    Climate(Climate),
    /// DAC 412, FID 2.
    MarineEnviroment(MarineEnviroment),
    /// DAC 412, FID 4.
    Hydrology(Hydrology),
    /// DAC 412, FID 13.
    ClimateCollection(ClimateCollection),
}

impl Default for ApplicationIdentifier {
    fn default() -> (r: ApplicationIdentifier)
        ensures
            r == ApplicationIdentifier::Unknown,
    {
        ApplicationIdentifier::Unknown
    }
}

/// The designated area code of the Chinese binary messages.
pub const DAC_CHINA: u16 = 412;

/// First bit of the application data of an addressed message.
pub const DATA_START: usize = 88;

/// The application data of an addressed message, or `RangeError` when a known
/// (DAC, FID) pair announces more bits than the buffer holds.
pub open spec fn application_spec(b: Seq<bool>, dac: u16, fid: u8, now: ClockReading) -> Result<
    ApplicationIdentifier,
    ParseError,
> {
    let base = DATA_START as int;
    if dac == DAC_CHINA && fid == 1 {
        if base + CLIMATE_BITS <= b.len() {
            Ok(ApplicationIdentifier::Climate(climate_spec(b, base)))
        } else {
            Err(ParseError::RangeError)
        }
    } else if dac == DAC_CHINA && fid == 2 {
        if base + MARINE_BITS <= b.len() {
            Ok(ApplicationIdentifier::MarineEnviroment(marine_spec(b, base)))
        } else {
            Err(ParseError::RangeError)
        }
    } else if dac == DAC_CHINA && fid == 4 {
        if base + HYDROLOGY_BITS <= b.len() {
            Ok(ApplicationIdentifier::Hydrology(hydrology_spec(b, base, now)))
        } else {
            Err(ParseError::RangeError)
        }
    } else if dac == DAC_CHINA && fid == 13 {
        if base + COLLECTION_BITS <= b.len() {
            Ok(ApplicationIdentifier::ClimateCollection(climate_collection_spec(b, base, now)))
        } else {
            Err(ParseError::RangeError)
        }
    } else {
        Ok(ApplicationIdentifier::Unknown)
    }
}

fn decode_application(buf: &BitBuffer, dac: u16, fid: u8, now: ClockReading) -> (r: Result<
    ApplicationIdentifier,
    ParseError,
>)
    ensures
        r == application_spec(buf@, dac, fid, now),
{
    let n = buf.len();
    if dac == DAC_CHINA && fid == 1 {
        if n >= DATA_START + CLIMATE_BITS {
            Ok(ApplicationIdentifier::Climate(decode_climate(buf, DATA_START)))
        } else {
            Err(ParseError::RangeError)
        }
    } else if dac == DAC_CHINA && fid == 2 {
        if n >= DATA_START + MARINE_BITS {
            Ok(ApplicationIdentifier::MarineEnviroment(decode_marine_enviroment(buf, DATA_START)))
        } else {
            Err(ParseError::RangeError)
        }
    } else if dac == DAC_CHINA && fid == 4 {
        if n >= DATA_START + HYDROLOGY_BITS {
            Ok(ApplicationIdentifier::Hydrology(decode_hydrology(buf, DATA_START, now)))
        } else {
            Err(ParseError::RangeError)
        }
    } else if dac == DAC_CHINA && fid == 13 {
        if n >= DATA_START + COLLECTION_BITS {
            Ok(
                ApplicationIdentifier::ClimateCollection(
                    decode_climate_collection(buf, DATA_START, now),
                ),
            )
        } else {
            Err(ParseError::RangeError)
        }
    } else {
        Ok(ApplicationIdentifier::Unknown)
    }
}

/// Message type 6: binary addressed message.
#[derive(Clone, Copy, Debug, PartialEq, Eq, Structural)]
pub struct BinaryAddressedMessage {
    /// True if the data is about own vessel, false if about other.
    pub own_vessel: bool,
    /// AIS station type.
    pub station: Station,
    /// Source user id (30 bits).
    pub mmsi: u32,
    /// Sequence number (2 bits).
    pub sequence_number: u8,
    /// Destination user id (30 bits).
    pub destination_mmsi: u32,
    /// Retransmit flag.
    pub retransmit_flag: bool,
    /// Designated area code, DAC (10 bits).
    pub dac: u16,
    /// Functional id, FID (6 bits).
    pub fid: u8,
    /// Application data, interpreted where (DAC, FID) is known.
    pub data: ApplicationIdentifier,
}

/// The addressed message that a buffer holds: `RangeError` when it is shorter
/// than the header or than the application data it announces.
pub open spec fn addressed_spec(b: Seq<bool>, station: Station, own_vessel: bool, now: ClockReading) -> Result<
    BinaryAddressedMessage,
    ParseError,
> {
    if b.len() < DATA_START {
        Err(ParseError::RangeError)
    } else {
        let dac = field_value(b, 72, 10) as u16;
        let fid = field_value(b, 82, 6) as u8;
        match application_spec(b, dac, fid, now) {
            Ok(data) => Ok(
                BinaryAddressedMessage {
                    own_vessel,
                    station,
                    mmsi: field_value(b, 8, 30) as u32,
                    sequence_number: field_value(b, 38, 2) as u8,
                    destination_mmsi: field_value(b, 40, 30) as u32,
                    retransmit_flag: field_value(b, 70, 1) != 0,
                    dac,
                    fid,
                    data,
                },
            ),
            Err(e) => Err(e),
        }
    }
}

/// Decodes a type 6 message from its bits.
pub fn handle(buf: &BitBuffer, station: Station, own_vessel: bool, now: ClockReading) -> (r: Result<
    ParsedMessage,
    ParseError,
>)
    ensures
        r == (match addressed_spec(buf@, station, own_vessel, now) {
            Ok(m) => Ok(ParsedMessage::BinaryAddressedMessage(m)),
            Err(e) => Err(e),
        }),
{
    if buf.len() < DATA_START {
        return Err(ParseError::RangeError);
    }
    let dac = field::read_u16(buf, 72, 10);
    let fid = field::read_u8(buf, 82, 6);
    match decode_application(buf, dac, fid, now) {
        Ok(data) => Ok(
            ParsedMessage::BinaryAddressedMessage(
                BinaryAddressedMessage {
                    own_vessel,
                    station,
                    mmsi: field::read_u32(buf, 8, 30),
                    sequence_number: field::read_u8(buf, 38, 2),
                    destination_mmsi: field::read_u32(buf, 40, 30),
                    retransmit_flag: field::read_u8(buf, 70, 1) != 0,
                    dac,
                    fid,
                    data,
                },
            ),
        ),
        Err(e) => Err(e),
    }
}

/// The header of an addressed message is decoded without loss: two buffers
/// whose messages agree on every header field agree on every header bit
/// (bits 8 to 70 and 72 to 88; bit 71 is spare).
pub proof fn lemma_header_lossless(
    b1: Seq<bool>,
    b2: Seq<bool>,
    station: Station,
    own_vessel: bool,
    now: ClockReading,
)
    requires
        addressed_spec(b1, station, own_vessel, now) matches Ok(m1) && addressed_spec(
            b2,
            station,
            own_vessel,
            now,
        ) matches Ok(m2) && m1.mmsi == m2.mmsi && m1.sequence_number == m2.sequence_number
            && m1.destination_mmsi == m2.destination_mmsi && m1.retransmit_flag
            == m2.retransmit_flag && m1.dac == m2.dac && m1.fid == m2.fid,
    ensures
        b1.subrange(8, 71) == b2.subrange(8, 71),
        b1.subrange(72, 88) == b2.subrange(72, 88),
{
    lemma_header_bits(b1, b2);
}

/// Header bits of two buffers whose header fields narrow to equal values.
proof fn lemma_header_bits(b1: Seq<bool>, b2: Seq<bool>)
    requires
        b1.len() >= DATA_START,
        b2.len() >= DATA_START,
        field_value(b1, 8, 30) as u32 == field_value(b2, 8, 30) as u32,
        field_value(b1, 38, 2) as u8 == field_value(b2, 38, 2) as u8,
        field_value(b1, 40, 30) as u32 == field_value(b2, 40, 30) as u32,
        (field_value(b1, 70, 1) != 0) == (field_value(b2, 70, 1) != 0),
        field_value(b1, 72, 10) as u16 == field_value(b2, 72, 10) as u16,
        field_value(b1, 82, 6) as u8 == field_value(b2, 82, 6) as u8,
    ensures
        b1.subrange(8, 71) == b2.subrange(8, 71),
        b1.subrange(72, 88) == b2.subrange(72, 88),
{
    lemma_same_field(b1, b2, 8, 30);
    lemma_same_field(b1, b2, 38, 2);
    lemma_same_field(b1, b2, 40, 30);
    lemma_same_field(b1, b2, 70, 1);
    lemma_same_field(b1, b2, 72, 10);
    lemma_same_field(b1, b2, 82, 6);
    assert(b1.subrange(8, 71) =~= b1.subrange(8, 38) + b1.subrange(38, 40) + b1.subrange(40, 70)
        + b1.subrange(70, 71));
    assert(b2.subrange(8, 71) =~= b2.subrange(8, 38) + b2.subrange(38, 40) + b2.subrange(40, 70)
        + b2.subrange(70, 71));
    assert(b1.subrange(72, 88) =~= b1.subrange(72, 82) + b1.subrange(82, 88));
    assert(b2.subrange(72, 88) =~= b2.subrange(72, 82) + b2.subrange(82, 88));
}

/// Fields of at most 30 bits whose values agree once narrowed to a type of at
/// least `w` bits agree bit for bit.
proof fn lemma_same_field(b1: Seq<bool>, b2: Seq<bool>, o: int, w: int)
    requires
        0 <= o,
        1 <= w <= 30,
        o + w <= b1.len(),
        o + w <= b2.len(),
        w == 1 ==> (field_value(b1, o, w) != 0) == (field_value(b2, o, w) != 0),
        w == 2 || w == 6 ==> field_value(b1, o, w) as u8 == field_value(b2, o, w) as u8,
        w == 10 ==> field_value(b1, o, w) as u16 == field_value(b2, o, w) as u16,
        w == 30 ==> field_value(b1, o, w) as u32 == field_value(b2, o, w) as u32,
        w == 1 || w == 2 || w == 6 || w == 10 || w == 30,
    ensures
        b1.subrange(o, o + w) == b2.subrange(o, o + w),
{
    crate::bits::lemma_bits_value_bound(b1.subrange(o, o + w));
    crate::bits::lemma_bits_value_bound(b2.subrange(o, o + w));
    vstd::arithmetic::power2::lemma2_to64();
    crate::bits::lemma_bits_value_injective(b1.subrange(o, o + w), b2.subrange(o, o + w));
}

} // verus!
