use vstd::prelude::*;
use crate::bits::{BitBuffer, field_value};
use crate::error::ParseError;
use crate::field;
use crate::field::ClockReading;
use crate::message::{ParsedMessage, Station};
use crate::vdm_t6::{
    CLIMATE_BITS,
    Climate,
    DAC_CHINA,
    HYDROLOGY_OBSERVATION_BITS,
    HydrologyObservation,
    MARINE_BITS,
    MarineEnviroment,
    climate_spec,
    decode_climate,
    decode_hydrology_observation,
    decode_marine_enviroment,
    hydrology_observation_spec,
    marine_spec,
};

verus! {

/// Tide forecast (DAC 412, FID 4) of a broadcast message: four observations.
#[derive(Clone, Copy, Debug, PartialEq, Eq, Structural)]
pub struct Hydrology {
    pub forcast_time: u8,
    pub observation_1: HydrologyObservation,
    pub observation_2: HydrologyObservation,
    pub observation_3: HydrologyObservation,
    pub observation_4: HydrologyObservation,
    pub source: u8,
}

/// Bits from the start of a four-observation tide report to its end.
pub const HYDROLOGY_BITS: usize = 276;

/// The tide report whose first bit is `base`.
pub open spec fn hydrology_spec(b: Seq<bool>, base: int, now: ClockReading) -> Hydrology {
    Hydrology {
        forcast_time: field_value(b, base, 5) as u8,
        observation_1: hydrology_observation_spec(b, base + 5, now),
        observation_2: hydrology_observation_spec(b, base + 72, now),
        observation_3: hydrology_observation_spec(b, base + 139, now),
        observation_4: hydrology_observation_spec(b, base + 206, now),
        source: field_value(b, base + 273, 3) as u8,
    }
}

/// Decodes the tide report whose first bit is `base`.
pub fn decode_hydrology(buf: &BitBuffer, base: usize, now: ClockReading) -> (r: Hydrology)
    requires
        base + HYDROLOGY_BITS <= buf@.len(),
    ensures
        r == hydrology_spec(buf@, base as int, now),
{
    let _ = buf.len();
    assert(base + 206 + HYDROLOGY_OBSERVATION_BITS <= buf@.len());
    Hydrology {
        forcast_time: field::read_u8(buf, base, 5),
        observation_1: decode_hydrology_observation(buf, base + 5, now),
        observation_2: decode_hydrology_observation(buf, base + 72, now),
        observation_3: decode_hydrology_observation(buf, base + 139, now),
        observation_4: decode_hydrology_observation(buf, base + 206, now),
        source: field::read_u8(buf, base + 273, 3),
    }
}

/// Payload of a broadcast binary message, chosen by its DAC and FID.
#[derive(Clone, Copy, Debug, PartialEq, Eq, Structural)]
pub enum ApplicationIdentifier {
    /// A (DAC, FID) pair without a decoder here.
    Unknown,
    /// DAC 412, FID 1.
    Climate(Climate),
    /// DAC 412, FID 2.
    MarineEnviroment(MarineEnviroment),
    /// DAC 412, FID 4.
    Hydrology(Hydrology),
}

impl Default for ApplicationIdentifier {
    fn default() -> (r: ApplicationIdentifier)
        ensures
            r == ApplicationIdentifier::Unknown,
    {
        ApplicationIdentifier::Unknown
    }
}

/// First bit of the application data of a broadcast message.
pub const DATA_START: usize = 56;

/// The application data of a broadcast message, or `RangeError` when a known
/// (DAC, FID) pair announces more bits than the buffer holds.
pub open spec fn application_spec(b: Seq<bool>, dac: u16, fid: u8, now: ClockReading) -> Result<
    ApplicationIdentifier,
    ParseError,
> {
    let base = DATA_START as int;
    if dac == DAC_CHINA && fid == 1 {
        if base + CLIMATE_BITS <= b.len() {
            Ok(ApplicationIdentifier::Climate(climate_spec(b, base)))
        } else {
            Err(ParseError::RangeError)
        }
    } else if dac == DAC_CHINA && fid == 2 {
        if base + MARINE_BITS <= b.len() {
            Ok(ApplicationIdentifier::MarineEnviroment(marine_spec(b, base)))
        } else {
            Err(ParseError::RangeError)
        }
    } else if dac == DAC_CHINA && fid == 4 {
        if base + HYDROLOGY_BITS <= b.len() {
            Ok(ApplicationIdentifier::Hydrology(hydrology_spec(b, base, now)))
        } else {
            Err(ParseError::RangeError)
        }
    } else {
        Ok(ApplicationIdentifier::Unknown)
    }
}

fn decode_application(buf: &BitBuffer, dac: u16, fid: u8, now: ClockReading) -> (r: Result<
    ApplicationIdentifier,
    ParseError,
>)
    ensures
        r == application_spec(buf@, dac, fid, now),
{
    let n = buf.len();
    if dac == DAC_CHINA && fid == 1 {
        if n >= DATA_START + CLIMATE_BITS {
            Ok(ApplicationIdentifier::Climate(decode_climate(buf, DATA_START)))
        } else {
            Err(ParseError::RangeError)
        }
    } else if dac == DAC_CHINA && fid == 2 {
        if n >= DATA_START + MARINE_BITS {
            Ok(ApplicationIdentifier::MarineEnviroment(decode_marine_enviroment(buf, DATA_START)))
        } else {
            Err(ParseError::RangeError)
        }
    } else if dac == DAC_CHINA && fid == 4 {
        if n >= DATA_START + HYDROLOGY_BITS {
            Ok(ApplicationIdentifier::Hydrology(decode_hydrology(buf, DATA_START, now)))
        } else {
            Err(ParseError::RangeError)
        }
    } else {
        Ok(ApplicationIdentifier::Unknown)
    }
}

/// Message type 8: binary broadcast message.
#[derive(Clone, Copy, Debug, PartialEq, Eq, Structural)]
pub struct BinaryBroadcastMessage {
    /// True if the data is about own vessel, false if about other.
    pub own_vessel: bool,
    /// AIS station type.
    pub station: Station,
    /// Source user id (30 bits).
    pub mmsi: u32,
    /// Designated area code, DAC (10 bits).
    pub dac: u16,
    /// Functional id, FID (6 bits).
    pub fid: u8,
    /// Application data, interpreted where (DAC, FID) is known.
    pub data: ApplicationIdentifier,
}

/// The broadcast message that a buffer holds: `RangeError` when it is shorter
/// than the header or than the application data it announces.
pub open spec fn broadcast_spec(b: Seq<bool>, station: Station, own_vessel: bool, now: ClockReading) -> Result<
    BinaryBroadcastMessage,
    ParseError,
> {
    if b.len() < DATA_START {
        Err(ParseError::RangeError)
    } else {
        let dac = field_value(b, 40, 10) as u16;
        let fid = field_value(b, 50, 6) as u8;
        match application_spec(b, dac, fid, now) {
            Ok(data) => Ok(
                BinaryBroadcastMessage {
                    own_vessel,
                    station,
                    mmsi: field_value(b, 8, 30) as u32,
                    dac,
                    fid,
                    data,
                },
            ),
            Err(e) => Err(e),
        }
    }
}

/// Decodes a type 8 message from its bits.
pub fn handle(buf: &BitBuffer, station: Station, own_vessel: bool, now: ClockReading) -> (r: Result<
    ParsedMessage,
    ParseError,
>)
    ensures
        r == (match broadcast_spec(buf@, station, own_vessel, now) {
            Ok(m) => Ok(ParsedMessage::BinaryBroadcastMessage(m)),
            Err(e) => Err(e),
        }),
{
    if buf.len() < DATA_START {
        return Err(ParseError::RangeError);
    }
    let dac = field::read_u16(buf, 40, 10);
    let fid = field::read_u8(buf, 50, 6);
    match decode_application(buf, dac, fid, now) {
        Ok(data) => Ok(
            ParsedMessage::BinaryBroadcastMessage(
                BinaryBroadcastMessage {
                    own_vessel,
                    station,
                    mmsi: field::read_u32(buf, 8, 30),
                    dac,
                    fid,
                    data,
                },
            ),
        ),
        Err(e) => Err(e),
    }
}

impl Hydrology {
    /// Latitude of the first observation, in ten-thousandths of a minute.
    pub fn latitude(&self) -> (r: Option<i64>)
        ensures
            r == field::fine_minutes(self.observation_1.latitude),
    {
        field::to_fine_minutes(self.observation_1.latitude)
    }

    /// Longitude of the first observation, in ten-thousandths of a minute.
    pub fn longitude(&self) -> (r: Option<i64>)
        ensures
            r == field::fine_minutes(self.observation_1.longitude),
    {
        field::to_fine_minutes(self.observation_1.longitude)
    }
}

/// Position that the application data reports, as `(latitude, longitude)`
/// in ten-thousandths of a minute; absent for unknown data.
pub open spec fn application_position(d: ApplicationIdentifier) -> (Option<i64>, Option<i64>) {
    match d {
        ApplicationIdentifier::Unknown => (None, None),
        ApplicationIdentifier::Climate(c) => (
            field::fine_minutes(c.observation_1.latitude),
            field::fine_minutes(c.observation_1.longitude),
        ),
        ApplicationIdentifier::MarineEnviroment(m) => (
            field::fine_minutes(m.observation_1.latitude),
            field::fine_minutes(m.observation_1.longitude),
        ),
        ApplicationIdentifier::Hydrology(h) => (
            field::fine_minutes(h.observation_1.latitude),
            field::fine_minutes(h.observation_1.longitude),
        ),
    }
}

impl BinaryBroadcastMessage {
    /// Latitude reported by the application data, in ten-thousandths of a minute.
    pub fn latitude(&self) -> (r: Option<i64>)
        ensures
            r == application_position(self.data).0,
    {
        match &self.data {
            ApplicationIdentifier::Unknown => None,
            ApplicationIdentifier::Climate(c) => c.latitude(),
            ApplicationIdentifier::MarineEnviroment(m) => m.latitude(),
            ApplicationIdentifier::Hydrology(h) => h.latitude(),
        }
    }

    /// Longitude reported by the application data, in ten-thousandths of a minute.
    pub fn longitude(&self) -> (r: Option<i64>)
        ensures
            r == application_position(self.data).1,
    {
        match &self.data {
            ApplicationIdentifier::Unknown => None,
            ApplicationIdentifier::Climate(c) => c.longitude(),
            ApplicationIdentifier::MarineEnviroment(m) => m.longitude(),
            ApplicationIdentifier::Hydrology(h) => h.longitude(),
        }
    }
}

} // verus!
