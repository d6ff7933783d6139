use ais_binary::{ClockReading, NmeaParser, ParsedMessage};

#[test]
fn test_parse_vdm_type6() {
    let mut p = NmeaParser::new();
    match p.parse_sentence(
        "!AIVDM,1,1,,B,6B?n;be:cbapalgc;i6?Ow4,2*4A",
        ClockReading { year: 2024, month: 1 },
    ) {
        Ok(ps) => {
            match ps {
                // The expected result
                ParsedMessage::BinaryAddressedMessage(bam) => {
                    assert_eq!(bam.mmsi, 150834090);
                    assert_eq!(bam.sequence_number, 3);
                    assert_eq!(bam.destination_mmsi, 313240222);
                    assert_eq!(bam.retransmit_flag, false);
                    assert_eq!(bam.dac, 669);
                    assert_eq!(bam.fid, 11);
                }
                ParsedMessage::Incomplete => {
                    assert!(false);
                }
                _ => {
                    assert!(false);
                }
            }
        }
        Err(e) => {
            assert_eq!(format!("{:?}", e), "OK");
        }
    }
}
