use ais_binary::bits::{armor_payload, dearmor_char};
use chrono::Datelike;
use ais_binary::parser::decode_armored;
use ais_binary::vdm_t6::{self, WeatherType};
use ais_binary::vdm_t8;
use ais_binary::{BitBuffer, ClockReading, NmeaParser, ParseError, ParsedMessage, Station, Timestamp};

const FEB_2024: ClockReading = ClockReading { year: 2024, month: 2 };
const FEB_2023: ClockReading = ClockReading { year: 2023, month: 2 };

struct Bits {
    bits: Vec<bool>,
}

impl Bits {
    fn new() -> Bits {
        Bits { bits: Vec::new() }
    }

    fn put(&mut self, value: i64, width: usize) -> &mut Bits {
        for k in (0..width).rev() {
            self.bits.push((value >> k) & 1 == 1);
        }
        self
    }

    /// Armored payload and fill bit count.
    fn armored(&self) -> (String, usize) {
        let fill = (6 - self.bits.len() % 6) % 6;
        let mut bits = self.bits.clone();
        bits.extend(std::iter::repeat(false).take(fill));
        let values: Vec<u8> = bits
            .chunks(6)
            .map(|c| c.iter().fold(0u8, |acc, b| acc * 2 + (*b as u8)))
            .collect();
        let armored = armor_payload(&values);
        (String::from_utf8(armored).unwrap(), fill)
    }
}

fn checksum(body: &str) -> u8 {
    body.bytes().fold(0u8, |acc, b| acc ^ b)
}

fn sentence(count: u8, number: u8, seq: &str, payload: &str, fill: usize) -> String {
    let body = format!("AIVDM,{},{},{},A,{},{}", count, number, seq, payload, fill);
    format!("!{}*{:02X}", body, checksum(&body))
}

fn single(bits: &Bits) -> String {
    let (payload, fill) = bits.armored();
    sentence(1, 1, "", &payload, fill)
}

/// Header of an addressed message with DAC 412 and the given FID.
fn addressed_header(fid: i64) -> Bits {
    let mut b = Bits::new();
    b.put(6, 6).put(0, 2).put(123456789, 30).put(1, 2).put(987654321, 30).put(0, 1).put(0, 1);
    b.put(412, 10).put(fid, 6);
    b
}

/// One climate observation body after its coordinates.
fn climate_readings(b: &mut Bits, wind: i64, dir: i64, temp: i64, pres: i64, vis: i64) {
    b.put(wind, 7).put(dir, 9).put(temp, 11).put(pres, 9).put(vis, 8);
}

fn climate_message(lon1: i64, lat1: i64, dlon: i64, dlat: i64, wind1: i64) -> Bits {
    let mut b = addressed_header(1);
    b.put(7, 5);
    b.put(1, 5).put(lon1, 13).put(lat1, 13);
    climate_readings(&mut b, wind1, 359, -600, 400, 250);
    for _ in 0..3 {
        b.put(8, 5).put(dlon, 7).put(dlat, 7);
        climate_readings(&mut b, 121, 360, 601, 401, 251);
    }
    b.put(5, 3);
    b
}

fn decode(bits: &Bits, now: ClockReading) -> Result<ParsedMessage, ParseError> {
    let mut p = NmeaParser::new();
    p.parse_sentence(&single(bits), now)
}

fn addressed(r: Result<ParsedMessage, ParseError>) -> vdm_t6::BinaryAddressedMessage {
    match r {
        Ok(ParsedMessage::BinaryAddressedMessage(m)) => m,
        other => panic!("not an addressed message: {:?}", other),
    }
}

#[test]
fn end_to_end_unknown_application() {
    let mut p = NmeaParser::new();
    let m = addressed(p.parse_sentence("!AIVDM,1,1,,B,6B?n;be:cbapalgc;i6?Ow4,2*4A", FEB_2024));
    assert_eq!(m.mmsi, 150834090);
    assert_eq!(m.sequence_number, 3);
    assert_eq!(m.destination_mmsi, 313240222);
    assert!(!m.retransmit_flag);
    assert_eq!(m.dac, 669);
    assert_eq!(m.fid, 11);
    assert_eq!(m.data, vdm_t6::ApplicationIdentifier::Unknown);
    assert_eq!(m.station, Station::MobileStation);
    assert!(!m.own_vessel);
    assert_eq!(m.latitude(), None);
    assert_eq!(p.pending(), 0);
}

#[test]
fn climate_absent_anchor_leaves_chain_absent() {
    let m = addressed(decode(&climate_message(7300, 100, 10, 10, 120), FEB_2024));
    match m.data {
        vdm_t6::ApplicationIdentifier::Climate(c) => {
            assert_eq!(c.observation_1.longitude, None);
            assert_eq!(c.observation_2.longitude, None);
            assert_eq!(c.observation_3.longitude, None);
            assert_eq!(c.observation_4.longitude, None);
            assert_eq!(c.observation_1.latitude, Some(100 - 3000));
            assert_eq!(c.observation_2.latitude, Some(100 - 3000 + 10));
            assert_eq!(c.observation_4.latitude, Some(100 - 3000 + 30));
        }
        other => panic!("not a climate report: {:?}", other),
    }
}

#[test]
fn climate_fields_and_thresholds() {
    let m = addressed(decode(&climate_message(7200, 7200, 30, 59, 120), FEB_2024));
    assert_eq!(m.dac, 412);
    assert_eq!(m.fid, 1);
    match m.data {
        vdm_t6::ApplicationIdentifier::Climate(c) => {
            assert_eq!(c.forcast_time, 7);
            assert_eq!(c.source, 5);
            let o1 = c.observation_1;
            assert_eq!(o1.weather, WeatherType::Sunny);
            assert_eq!(o1.longitude, Some(10800));
            assert_eq!(o1.latitude, Some(4200));
            assert_eq!(o1.wind_speed, Some(120));
            assert_eq!(o1.wind_direction, Some(359));
            assert_eq!(o1.air_temperature, Some(-600));
            assert_eq!(o1.presure, Some(1200));
            assert_eq!(o1.visibility, Some(250));
            let o2 = c.observation_2;
            assert_eq!(o2.weather, WeatherType::LightRain);
            // 180 degrees plus 30 minutes crosses the antimeridian.
            assert_eq!(o2.longitude, Some(10830 - 21600));
            assert_eq!(o2.latitude, Some(4259));
            assert_eq!(o2.wind_speed, None);
            assert_eq!(o2.wind_direction, None);
            assert_eq!(o2.air_temperature, None);
            assert_eq!(o2.presure, None);
            assert_eq!(o2.visibility, None);
            assert_eq!(c.observation_3.longitude, Some(10830 - 21600 + 30));
            assert_eq!(c.latitude(), Some(42_000_000));
            assert_eq!(c.longitude(), Some(108_000_000));
        }
        other => panic!("not a climate report: {:?}", other),
    }
    assert_eq!(m.longitude(), Some(108_000_000));
}

#[test]
fn wind_speed_one_past_threshold_is_absent() {
    let m = addressed(decode(&climate_message(0, 0, 1, 1, 121), FEB_2024));
    match m.data {
        vdm_t6::ApplicationIdentifier::Climate(c) => {
            assert_eq!(c.observation_1.wind_speed, None);
            assert_eq!(c.observation_1.longitude, Some(3600));
            assert_eq!(c.observation_1.latitude, Some(-3000));
            assert_eq!(c.observation_2.longitude, Some(3601));
        }
        other => panic!("not a climate report: {:?}", other),
    }
}

#[test]
fn chain_delta_sentinels_are_absent() {
    let m = addressed(decode(&climate_message(100, 100, 0, 60, 0), FEB_2024));
    match m.data {
        vdm_t6::ApplicationIdentifier::Climate(c) => {
            assert_eq!(c.observation_2.longitude, None);
            assert_eq!(c.observation_2.latitude, None);
            assert_eq!(c.observation_3.longitude, None);
        }
        other => panic!("not a climate report: {:?}", other),
    }
}

fn marine_message() -> Bits {
    let mut b = addressed_header(2);
    b.put(3, 5);
    b.put(6000, 13).put(3000, 13).put(250, 8).put(90, 9).put(12, 8).put(180, 9).put(-100, 11);
    for _ in 0..3 {
        b.put(59, 7).put(1, 7).put(251, 8).put(360, 9).put(251, 8).put(400, 9).put(-101, 11);
    }
    b.put(2, 3);
    b
}

#[test]
fn marine_environment_fields() {
    let m = addressed(decode(&marine_message(), FEB_2024));
    match m.data {
        vdm_t6::ApplicationIdentifier::MarineEnviroment(e) => {
            assert_eq!(e.forcast_time, 3);
            assert_eq!(e.source, 2);
            let o1 = e.observation_1;
            assert_eq!(o1.longitude, Some(9600));
            assert_eq!(o1.latitude, Some(0));
            assert_eq!(o1.flowing_speed, Some(250));
            assert_eq!(o1.flowing_direction, Some(90));
            assert_eq!(o1.wave_height, Some(12));
            assert_eq!(o1.wave_direction, Some(180));
            assert_eq!(o1.sea_temperature, Some(-100));
            let o2 = e.observation_2;
            assert_eq!(o2.longitude, Some(9659));
            assert_eq!(o2.latitude, Some(1));
            assert_eq!(o2.flowing_speed, None);
            assert_eq!(o2.flowing_direction, None);
            assert_eq!(o2.wave_height, None);
            assert_eq!(o2.wave_direction, None);
            assert_eq!(o2.sea_temperature, None);
            assert_eq!(e.observation_4.longitude, Some(9600 + 3 * 59));
            assert_eq!(e.latitude(), Some(0));
        }
        other => panic!("not a marine report: {:?}", other),
    }
}

fn tide(b: &mut Bits, minute: i64, hour: i64, day: i64) {
    b.put(minute, 6).put(hour, 5).put(day, 5);
}

fn hydrology_message(day: i64, hour: i64) -> Bits {
    let mut b = addressed_header(4);
    b.put(1, 5);
    for _ in 0..3 {
        b.put(7200, 13).put(7201, 13);
        tide(&mut b, 30, hour, day);
        tide(&mut b, 59, 23, 1);
        b.put(-250, 9);
    }
    b.put(4, 3);
    b
}

#[test]
fn hydrology_dates_use_the_clock_year_and_month() {
    let m = addressed(decode(&hydrology_message(29, 6), FEB_2024));
    match m.data {
        vdm_t6::ApplicationIdentifier::Hydrology(h) => {
            let o = h.observation_1;
            assert_eq!(o.longitude, Some(10800));
            assert_eq!(o.latitude, None);
            assert_eq!(
                o.high_tide,
                Some(Timestamp { year: 2024, month: 2, day: 29, hour: 6, minute: 30 })
            );
            assert_eq!(o.low_tide, Some(Timestamp { year: 2024, month: 2, day: 1, hour: 23, minute: 59 }));
            assert_eq!(o.water_level, Some(-250));
            assert_eq!(h.source, 4);
            assert_eq!(h.observation_3.water_level, Some(-250));
        }
        other => panic!("not a tide report: {:?}", other),
    }
}

#[test]
fn hydrology_nonexistent_date_is_absent() {
    let m = addressed(decode(&hydrology_message(29, 6), FEB_2023));
    match m.data {
        vdm_t6::ApplicationIdentifier::Hydrology(h) => {
            assert_eq!(h.observation_1.high_tide, None);
            assert!(h.observation_1.low_tide.is_some());
        }
        other => panic!("not a tide report: {:?}", other),
    }
    let m = addressed(decode(&hydrology_message(0, 6), FEB_2024));
    match m.data {
        vdm_t6::ApplicationIdentifier::Hydrology(h) => assert_eq!(h.observation_1.high_tide, None),
        other => panic!("not a tide report: {:?}", other),
    }
    let m = addressed(decode(&hydrology_message(3, 24), FEB_2024));
    match m.data {
        vdm_t6::ApplicationIdentifier::Hydrology(h) => assert_eq!(h.observation_1.high_tide, None),
        other => panic!("not a tide report: {:?}", other),
    }
}

#[test]
fn hydrology_with_the_real_clock() {
    let now = chrono::Utc::now();
    let reading = ClockReading { year: now.year(), month: now.month() };
    let mut p = NmeaParser::new();
    let m = addressed(p.parse_sentence(&single(&hydrology_message(1, 0)), reading));
    match m.data {
        vdm_t6::ApplicationIdentifier::Hydrology(h) => {
            let t = h.observation_1.high_tide.unwrap();
            assert!(t.year >= 2024);
            assert!(1 <= t.month && t.month <= 12);
            assert_eq!((t.day, t.hour, t.minute), (1, 0, 30));
        }
        other => panic!("not a tide report: {:?}", other),
    }
}

#[test]
fn climate_collection_fields() {
    let mut b = addressed_header(13);
    tide(&mut b, 15, 12, 31);
    b.put(4, 4);
    b.put(-108_000_000, 28).put(54_000_001, 27);
    b.put(0, 7).put(0, 9).put(600, 11).put(600, 11).put(0, 8).put(0, 9).put(0, 9);
    b.put(0, 8).put(0, 8).put(0, 9).put(99, 7).put(251, 9);
    let m = addressed(decode(&b, FEB_2024));
    match m.data {
        vdm_t6::ApplicationIdentifier::ClimateCollection(c) => {
            // April has no 31st day.
            assert_eq!(c.collection_time, None);
            assert_eq!(c.longitude, Some(-108_000_000));
            assert_eq!(c.latitude, None);
            assert_eq!(c.air_temperature, Some(600));
            assert_eq!(c.sea_temperature, Some(600));
            assert_eq!(c.pressure, Some(800));
            assert_eq!(c.humidity, Some(99));
            assert_eq!(c.water_level, None);
            assert_eq!(m.longitude(), Some(-108_000_000));
            assert_eq!(m.latitude(), None);
        }
        other => panic!("not a collection: {:?}", other),
    }
}

#[test]
fn broadcast_hydrology_has_four_observations() {
    let mut b = Bits::new();
    b.put(8, 6).put(0, 2).put(244_000_001, 30).put(0, 2).put(412, 10).put(4, 6);
    b.put(2, 5);
    for i in 0..4 {
        b.put(100 * i, 13).put(200, 13);
        tide(&mut b, 0, 0, 10);
        tide(&mut b, 0, 12, 10);
        b.put(i * 10, 9);
    }
    b.put(6, 3);
    let mut p = NmeaParser::new();
    match p.parse_sentence(&single(&b), FEB_2024) {
        Ok(ParsedMessage::BinaryBroadcastMessage(m)) => {
            assert_eq!(m.mmsi, 244_000_001);
            assert_eq!(m.dac, 412);
            assert_eq!(m.fid, 4);
            match m.data {
                vdm_t8::ApplicationIdentifier::Hydrology(h) => {
                    assert_eq!(h.observation_4.longitude, Some(3900));
                    assert_eq!(h.observation_4.water_level, Some(30));
                    assert_eq!(h.source, 6);
                }
                other => panic!("not a tide report: {:?}", other),
            }
        }
        other => panic!("not a broadcast message: {:?}", other),
    }
}

#[test]
fn broadcast_unknown_application() {
    let mut b = Bits::new();
    b.put(8, 6).put(0, 2).put(1, 30).put(0, 2).put(1, 10).put(1, 6);
    match decode(&b, FEB_2024) {
        Ok(ParsedMessage::BinaryBroadcastMessage(m)) => {
            assert_eq!(m.data, vdm_t8::ApplicationIdentifier::Unknown);
            assert_eq!(m.latitude(), None);
        }
        other => panic!("not a broadcast message: {:?}", other),
    }
}

#[test]
fn fragments_in_order_match_single_sentence() {
    let bits = climate_message(1000, 2000, 5, 6, 50);
    let (payload, fill) = bits.armored();
    let (first, second) = payload.split_at(30);
    let mut p = NmeaParser::new();
    assert_eq!(p.parse_sentence(&sentence(2, 1, "3", first, 0), FEB_2024), Ok(ParsedMessage::Incomplete));
    assert_eq!(p.pending(), 1);
    let joined = p.parse_sentence(&sentence(2, 2, "3", second, fill), FEB_2024);
    assert_eq!(p.pending(), 0);
    let mut q = NmeaParser::new();
    let whole = q.parse_sentence(&sentence(1, 1, "", &payload, fill), FEB_2024);
    assert!(joined.is_ok());
    assert_eq!(joined, whole);
}

#[test]
fn corrupted_fragment_discards_group() {
    let bits = climate_message(1000, 2000, 5, 6, 50);
    let (payload, fill) = bits.armored();
    let (first, second) = payload.split_at(30);
    let mut p = NmeaParser::new();
    assert_eq!(p.parse_sentence(&sentence(2, 1, "3", first, 0), FEB_2024), Ok(ParsedMessage::Incomplete));
    let good = sentence(2, 2, "3", second, fill);
    let bad = format!("{}{}", &good[..good.len() - 2], if good.ends_with("00") { "01" } else { "00" });
    assert_eq!(p.parse_sentence(&bad, FEB_2024), Err(ParseError::CorruptedFragment));
    assert_eq!(p.pending(), 0);
    assert_eq!(p.parse_sentence(&good, FEB_2024), Err(ParseError::CorruptedFragment));
}

#[test]
fn out_of_order_fragment_is_corrupted() {
    let mut p = NmeaParser::new();
    assert_eq!(p.parse_sentence(&sentence(3, 1, "1", "6B?n", 0), FEB_2024), Ok(ParsedMessage::Incomplete));
    assert_eq!(p.parse_sentence(&sentence(3, 3, "1", "6B?n", 0), FEB_2024), Err(ParseError::CorruptedFragment));
    assert_eq!(p.pending(), 0);
    assert_eq!(p.parse_sentence(&sentence(2, 2, "4", "6B?n", 0), FEB_2024), Err(ParseError::CorruptedFragment));
}

#[test]
fn other_groups_survive_an_error() {
    let mut p = NmeaParser::new();
    assert_eq!(p.parse_sentence(&sentence(2, 1, "1", "6B?n", 0), FEB_2024), Ok(ParsedMessage::Incomplete));
    assert_eq!(p.parse_sentence(&sentence(2, 2, "2", "6B?n", 0), FEB_2024), Err(ParseError::CorruptedFragment));
    assert_eq!(p.pending(), 1);
}

#[test]
fn two_decoders_agree() {
    let s = single(&climate_message(10, 20, 30, 40, 50));
    let mut p = NmeaParser::new();
    let mut q = NmeaParser::new();
    assert_eq!(q.parse_sentence(&sentence(2, 1, "1", "6B?n", 0), FEB_2024), Ok(ParsedMessage::Incomplete));
    let a = p.parse_sentence(&s, FEB_2024);
    let b = q.parse_sentence(&s, FEB_2024);
    assert!(a.is_ok());
    assert_eq!(a, b);
}

#[test]
fn error_kinds() {
    let mut p = NmeaParser::new();
    let bad_char = sentence(1, 1, "", "6X", 0);
    assert_eq!(p.parse_sentence(&bad_char, FEB_2024), Err(ParseError::InvalidArmorCharacter));
    let short = sentence(1, 1, "", "6", 0);
    assert_eq!(p.parse_sentence(&short, FEB_2024), Err(ParseError::RangeError));
    let mut b = Bits::new();
    b.put(1, 6).put(0, 162);
    assert_eq!(p.parse_sentence(&single(&b), FEB_2024), Err(ParseError::UnsupportedSentenceType));
    let gga = "$GPGGA,1,1,,A,6,0*00";
    assert_eq!(p.parse_sentence(gga, FEB_2024), Err(ParseError::UnsupportedSentenceType));
    assert_eq!(p.parse_sentence("!AIVDM,1,1,,A,6*00", FEB_2024), Err(ParseError::InvalidSentence));
    assert_eq!(p.parse_sentence("AIVDM,1,1,,A,6,0*00", FEB_2024), Err(ParseError::InvalidSentence));
    assert_eq!(p.parse_sentence(&sentence(1, 2, "", "6", 0), FEB_2024), Err(ParseError::InvalidSentence));
    let climate_cut = addressed_header(1);
    assert_eq!(p.parse_sentence(&single(&climate_cut), FEB_2024), Err(ParseError::RangeError));
}

#[test]
fn own_vessel_and_station_from_tag() {
    let payload = "6B?n;be:cbapalgc;i6?Ow4";
    let body = format!("ABVDO,1,1,,B,{},2", payload);
    let s = format!("!{}*{:02X}", body, checksum(&body));
    let mut p = NmeaParser::new();
    let m = addressed(p.parse_sentence(&s, FEB_2024));
    assert!(m.own_vessel);
    assert_eq!(m.station, Station::BaseStation);
    assert_eq!(m.mmsi, 150834090);
}

#[test]
fn armor_round_trip() {
    let text = "0123456789:;<=>?@ABCDEFGHIJKLMNOPQRSTUVW`abcdefghijklmnopqrstuvw";
    let values: Vec<u8> = text.bytes().map(|c| dearmor_char(c).unwrap()).collect();
    assert_eq!(values[0], 0);
    assert_eq!(values[40], 40);
    assert_eq!(values[63], 63);
    assert_eq!(armor_payload(&values), text.as_bytes().to_vec());
    assert_eq!(dearmor_char(b'X'), None);
    assert_eq!(dearmor_char(b'x'), None);
}

#[test]
fn bit_buffer_reads_and_sign_extension() {
    let buf = BitBuffer::from_payload(b"w0", 2).unwrap();
    assert_eq!(buf.len(), 10);
    assert_eq!(buf.pick_u64(0, 6), Ok(63));
    assert_eq!(buf.pick_i64(0, 6), Ok(-1));
    assert_eq!(buf.pick_i64(0, 1), Ok(-1));
    assert_eq!(buf.pick_i64(0, 2), Ok(-1));
    assert_eq!(buf.pick_u64(4, 6), Ok(48));
    assert_eq!(buf.pick_i64(4, 6), Ok(48 - 64));
    assert_eq!(buf.pick_i64(5, 5), Ok(16 - 32));
    assert_eq!(buf.pick_u64(6, 4), Ok(0));
    assert_eq!(buf.pick_u64(6, 5), Err(ParseError::RangeError));
    assert_eq!(buf.pick_u64(0, 65), Err(ParseError::RangeError));
    assert_eq!(buf.pick_i64(0, 0), Err(ParseError::RangeError));
    assert_eq!(BitBuffer::from_payload(b"w0", 13).err(), Some(ParseError::RangeError));
    assert_eq!(BitBuffer::from_payload(b"w!", 0).err(), Some(ParseError::InvalidArmorCharacter));
    let wide = BitBuffer::from_payload(b"wwwwwwwwwwww", 8).unwrap();
    assert_eq!(wide.pick_u64(0, 64), Ok(u64::MAX));
    assert_eq!(wide.pick_i64(0, 64), Ok(-1));
}

#[test]
fn armored_payload_decodes_directly() {
    let r = decode_armored(b"6B?n;be:cbapalgc;i6?Ow4", 2, Station::Other, true, FEB_2024);
    let m = addressed(r);
    assert_eq!(m.dac, 669);
    assert!(m.own_vessel);
}

#[test]
fn weather_codes() {
    assert_eq!(WeatherType::new(1), WeatherType::Sunny);
    assert_eq!(WeatherType::new(31), WeatherType::Sand);
    assert_eq!(WeatherType::new(0), WeatherType::Unknown);
    assert_eq!(WeatherType::new(32), WeatherType::Unknown);
    for code in 1..=31u8 {
        assert_eq!(WeatherType::new(code).to_value(), code);
    }
    assert_eq!(WeatherType::Unknown.to_value(), 32);
    assert_eq!(WeatherType::ThouderyShower.name(), "thoudery shower");
    assert_eq!(WeatherType::HeavyRainToRainstrom.name(), "heavy rain to rainstrom");
    assert_eq!(WeatherType::default(), WeatherType::Unknown);
    assert_eq!(vdm_t6::ApplicationIdentifier::default(), vdm_t6::ApplicationIdentifier::Unknown);
    assert_eq!(Station::default(), Station::Other);
}
